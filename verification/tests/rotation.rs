use themisfuzzer::restarter::{plan_patch_step, saved_patch_path, PatchStep};

#[test]
fn saved_path_is_trimmed() {
    assert_eq!(saved_patch_path("  /tmp/patches/a.patch \n"), Some("/tmp/patches/a.patch"));
    assert_eq!(saved_patch_path("/p"), Some("/p"));
    assert_eq!(saved_patch_path("\u{3000}x y\t"), Some("x y"));
}

#[test]
fn blank_saved_path_is_none() {
    assert_eq!(saved_patch_path(""), None);
    assert_eq!(saved_patch_path(" \t\r\n"), None);
}

#[test]
fn no_pending_patch_stops() {
    assert!(matches!(plan_patch_step(None, true, None), PatchStep::Stop));
    assert!(matches!(plan_patch_step(None, false, Some("x".to_string())), PatchStep::Stop));
}

#[test]
fn first_patch_is_applied_without_revert() {
    match plan_patch_step(Some("p1".to_string()), true, Some("old".to_string())) {
        PatchStep::Apply { revert, patch, report_outcome } => {
            assert_eq!(revert, None);
            assert_eq!(patch, "p1");
            assert!(report_outcome);
        }
        PatchStep::Stop => panic!("should apply"),
    }
}

#[test]
fn later_patch_reverts_the_last_one() {
    match plan_patch_step(Some("p2".to_string()), false, Some("p1".to_string())) {
        PatchStep::Apply { revert, patch, report_outcome } => {
            assert_eq!(revert, Some("p1".to_string()));
            assert_eq!(patch, "p2");
            assert!(!report_outcome);
        }
        PatchStep::Stop => panic!("should apply"),
    }
    match plan_patch_step(Some("p2".to_string()), false, None) {
        PatchStep::Apply { revert, .. } => assert_eq!(revert, None),
        PatchStep::Stop => panic!("should apply"),
    }
}
