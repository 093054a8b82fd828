use bytes::Bytes;
use themisfuzzer::comp::{
    compare_checkpoint, compare_log, compare_request, compare_request_batch, compare_state,
    compare_versions, comparison_defined, logs_can_be_compared, BatchEntry, BatchPhase, Divergence, OrderingLogSummary, ReplicaSnapshot,
    RequestEntry, SlotPhase, SlotSummary, ViewStateFlags,
};

fn regular() -> ViewStateFlags {
    ViewStateFlags { is_regular: true, is_view_change: false }
}

fn view_change() -> ViewStateFlags {
    ViewStateFlags { is_regular: false, is_view_change: true }
}

fn request(sequence: u64, payload: &[u8]) -> RequestEntry {
    RequestEntry { sequence, payload: Bytes::copy_from_slice(payload) }
}

fn slot(state: SlotPhase, commits: usize, prepares: usize, has_pre_prepare: bool) -> Option<SlotSummary> {
    Some(SlotSummary { state, commits, prepares, has_pre_prepare })
}

fn open_slot() -> Option<SlotSummary> {
    slot(SlotPhase::Open, 1, 2, true)
}

fn snapshot() -> ReplicaSnapshot {
    ReplicaSnapshot {
        id: 1,
        low_mark: 0,
        next_sequence: 5,
        last_commit: 3,
        view: 0,
        state: regular(),
        requests: vec![request(1, b"abc"), request(2, b"de")],
        instances: vec![
            BatchEntry { sequence: 1, state: BatchPhase::Open },
            BatchEntry { sequence: 2, state: BatchPhase::Prepared },
        ],
        log: OrderingLogSummary {
            old_views: 1,
            current_view_len: 2,
            slots: vec![open_slot(), slot(SlotPhase::Committed, 3, 3, true), None],
        },
        checkpoints: vec![0, 100],
    }
}

#[test]
fn state_agreement() {
    assert!(compare_state(&regular(), &regular()));
    assert!(compare_state(&view_change(), &view_change()));
    assert!(!compare_state(&regular(), &view_change()));
    let neither = ViewStateFlags { is_regular: false, is_view_change: false };
    assert!(!compare_state(&neither, &neither));
}

#[test]
fn requests_agree_in_any_order() {
    let a = vec![request(1, b"abc"), request(2, b"de")];
    let b = vec![request(2, b"de"), request(1, b"abc")];
    assert!(compare_request(&a, &b));
    assert!(compare_request(&b, &a));
}

#[test]
fn requests_disagree_on_payload_or_sequence_or_size() {
    let a = vec![request(1, b"abc")];
    assert!(!compare_request(&a, &vec![request(1, b"abd")]));
    assert!(!compare_request(&a, &vec![request(2, b"abc")]));
    assert!(!compare_request(&a, &vec![request(1, b"abc"), request(2, b"x")]));
    assert!(compare_request(&Vec::new(), &Vec::new()));
}

#[test]
fn request_check_goes_one_way_only() {
    // Every unpatched request is found, although the patched table holds a
    // request that the unpatched one lacks.
    let a = vec![request(1, b"a"), request(1, b"a")];
    let b = vec![request(1, b"a"), request(9, b"z")];
    assert!(compare_request(&a, &b));
    assert!(!compare_request(&b, &a));
}

#[test]
fn batches_agree_only_on_recognised_states() {
    let open = vec![BatchEntry { sequence: 4, state: BatchPhase::Open }];
    let missing = vec![BatchEntry { sequence: 4, state: BatchPhase::Missing }];
    let other = vec![BatchEntry { sequence: 4, state: BatchPhase::Other }];
    assert!(compare_request_batch(&open, &open));
    assert!(compare_request_batch(&missing, &missing));
    assert!(!compare_request_batch(&open, &missing));
    assert!(!compare_request_batch(&other, &other));
    let shifted = vec![BatchEntry { sequence: 5, state: BatchPhase::Open }];
    assert!(!compare_request_batch(&open, &shifted));
}

#[test]
fn log_comparison() {
    let base = snapshot().log;
    assert!(compare_log(&base, &snapshot().log));

    let mut fewer_views = snapshot().log;
    fewer_views.old_views = 0;
    assert!(!compare_log(&base, &fewer_views));

    let mut other_len = snapshot().log;
    other_len.current_view_len = 3;
    assert!(!compare_log(&base, &other_len));

    let mut more_commits = snapshot().log;
    more_commits.slots[1] = slot(SlotPhase::Committed, 4, 3, true);
    assert!(!compare_log(&base, &more_commits));

    let mut other_state = snapshot().log;
    other_state.slots[0] = slot(SlotPhase::Prepared, 1, 2, true);
    assert!(!compare_log(&base, &other_state));

    let mut no_pre_prepare = snapshot().log;
    no_pre_prepare.slots[0] = slot(SlotPhase::Open, 1, 2, false);
    assert!(!compare_log(&base, &no_pre_prepare));
}

#[test]
fn log_walk_stops_at_first_empty_slot() {
    let normal = OrderingLogSummary {
        old_views: 0,
        current_view_len: 1,
        slots: vec![open_slot(), None, slot(SlotPhase::Open, 9, 9, false)],
    };
    let patched = OrderingLogSummary {
        old_views: 0,
        current_view_len: 1,
        slots: vec![open_slot(), open_slot(), open_slot()],
    };
    assert!(compare_log(&normal, &patched));
    // An empty patched slot ends the walk too.
    let patched_gap = OrderingLogSummary {
        old_views: 0,
        current_view_len: 1,
        slots: vec![None, open_slot()],
    };
    let normal_diff = OrderingLogSummary {
        old_views: 0,
        current_view_len: 1,
        slots: vec![slot(SlotPhase::Committed, 0, 0, false), open_slot()],
    };
    assert!(compare_log(&normal_diff, &patched_gap));
}

#[test]
fn unrecognised_slot_state_never_agrees() {
    let log = OrderingLogSummary {
        old_views: 0,
        current_view_len: 1,
        slots: vec![slot(SlotPhase::Other, 0, 0, false)],
    };
    assert!(!compare_log(&log, &log));
}

#[test]
fn checkpoint_keys_must_match_in_order() {
    assert!(compare_checkpoint(&vec![1, 2, 3], &vec![1, 2, 3]));
    assert!(!compare_checkpoint(&vec![1, 2, 3], &vec![1, 3, 2]));
    assert!(!compare_checkpoint(&vec![1, 2], &vec![1, 2, 3]));
    assert!(compare_checkpoint(&Vec::new(), &Vec::new()));
}

#[test]
fn identical_replicas_are_not_reported() {
    assert_eq!(compare_versions(&snapshot(), &snapshot()), None);
}

#[test]
fn first_differing_component_is_reported() {
    let base = snapshot();

    let mut other = snapshot();
    other.id = 2;
    other.view = 7;
    assert_eq!(compare_versions(&base, &other), Some(Divergence::Id));

    let mut other = snapshot();
    other.low_mark = 9;
    assert_eq!(compare_versions(&base, &other), Some(Divergence::LowMark));

    let mut other = snapshot();
    other.next_sequence = 6;
    assert_eq!(compare_versions(&base, &other), Some(Divergence::NextSequence));

    let mut other = snapshot();
    other.last_commit = 4;
    assert_eq!(compare_versions(&base, &other), Some(Divergence::LastCommit));

    let mut other = snapshot();
    other.view = 1;
    assert_eq!(compare_versions(&base, &other), Some(Divergence::View));

    let mut other = snapshot();
    other.state = view_change();
    assert_eq!(compare_versions(&base, &other), Some(Divergence::State));

    let mut other = snapshot();
    other.requests.pop();
    other.checkpoints.clear();
    assert_eq!(compare_versions(&base, &other), Some(Divergence::Requests));

    let mut other = snapshot();
    other.instances[0].state = BatchPhase::Missing;
    assert_eq!(compare_versions(&base, &other), Some(Divergence::Instances));

    let mut other = snapshot();
    other.log.old_views = 2;
    assert_eq!(compare_versions(&base, &other), Some(Divergence::Log));

    let mut other = snapshot();
    other.checkpoints = vec![0, 200];
    assert_eq!(compare_versions(&base, &other), Some(Divergence::Checkpointing));
}

#[test]
fn divergence_labels() {
    assert_eq!(Divergence::Id.label(), "id");
    assert_eq!(Divergence::LowMark.label(), "low_mark");
    assert_eq!(Divergence::NextSequence.label(), "next_sequence");
    assert_eq!(Divergence::LastCommit.label(), "last_commit");
    assert_eq!(Divergence::View.label(), "view");
    assert_eq!(Divergence::State.label(), "state");
    assert_eq!(Divergence::Requests.label(), "requests");
    assert_eq!(Divergence::Instances.label(), "instances");
    assert_eq!(Divergence::Log.label(), "log");
    assert_eq!(Divergence::Checkpointing.label(), "checkpointing");
}

#[test]
fn log_walk_bounds() {
    let long = OrderingLogSummary { old_views: 0, current_view_len: 2, slots: vec![open_slot(), open_slot()] };
    let short = OrderingLogSummary { old_views: 0, current_view_len: 2, slots: vec![open_slot()] };
    assert!(logs_can_be_compared(&short, &long));
    assert!(!logs_can_be_compared(&long, &short));
    // The walk stops before the missing slot when an earlier pair disagrees.
    let diverging = OrderingLogSummary {
        old_views: 0,
        current_view_len: 2,
        slots: vec![slot(SlotPhase::Prepared, 0, 0, false), open_slot()],
    };
    assert!(logs_can_be_compared(&diverging, &short));
    // Logs with different headers are never walked.
    let other_header = OrderingLogSummary { old_views: 5, current_view_len: 2, slots: vec![] };
    assert!(logs_can_be_compared(&long, &other_header));
}

#[test]
fn comparison_defined_only_matters_when_log_is_reached() {
    let mut normal = snapshot();
    normal.log.slots = vec![open_slot(), open_slot()];
    let mut patched = snapshot();
    patched.log.slots = vec![open_slot()];
    assert!(!comparison_defined(&normal, &patched));
    let mut earlier_difference = snapshot();
    earlier_difference.view = 3;
    assert!(comparison_defined(&normal, &earlier_difference));
    assert_eq!(compare_versions(&normal, &earlier_difference), Some(Divergence::View));
    assert!(comparison_defined(&snapshot(), &snapshot()));
}

#[test]
fn batches_agree_in_any_order() {
    let a = vec![
        BatchEntry { sequence: 1, state: BatchPhase::Open },
        BatchEntry { sequence: 2, state: BatchPhase::Missing },
    ];
    let b = vec![
        BatchEntry { sequence: 2, state: BatchPhase::Missing },
        BatchEntry { sequence: 1, state: BatchPhase::Open },
    ];
    assert!(compare_request_batch(&a, &b));
    assert!(compare_request_batch(&b, &a));
}

#[test]
fn identical_replica_with_unrecognised_state_is_reported() {
    let mut s = snapshot();
    s.instances[0].state = BatchPhase::Other;
    let mut t = snapshot();
    t.instances[0].state = BatchPhase::Other;
    assert_eq!(compare_versions(&s, &t), Some(Divergence::Instances));
}

#[test]
fn slots_after_the_first_gap_do_not_matter() {
    let normal = OrderingLogSummary {
        old_views: 0,
        current_view_len: 3,
        slots: vec![open_slot(), None, open_slot()],
    };
    let patched = OrderingLogSummary {
        old_views: 0,
        current_view_len: 3,
        slots: vec![open_slot(), open_slot(), open_slot()],
    };
    let mut patched_changed = OrderingLogSummary {
        old_views: 0,
        current_view_len: 3,
        slots: vec![open_slot(), slot(SlotPhase::Other, 9, 9, false), None],
    };
    assert!(compare_log(&normal, &patched));
    assert!(compare_log(&normal, &patched_changed));
    patched_changed.slots[0] = slot(SlotPhase::Committed, 1, 2, true);
    assert!(!compare_log(&normal, &patched_changed));
}

#[test]
fn two_readings_of_the_same_states_agree() {
    let first = compare_versions(&snapshot(), &snapshot());
    let mut other = snapshot();
    other.view = 4;
    let a = compare_versions(&snapshot(), &other);
    let b = compare_versions(&snapshot(), &other);
    assert_eq!(first, None);
    assert_eq!(a, b);
    assert_eq!(a, Some(Divergence::View));
}
