use themisfuzzer::harness::{choose_sequence, decode_fuzz_input, draw_sequence, MESSAGE_TYPES};
use themisfuzzer::messages::{message_plannable, plan_message, MessagePlan};
use themisfuzzer::patch::{
    draw_patch_choices, patch_message_plannable, plan_patch_message, PatchDraws, PatchPlan, HANDLE_LEN, MAX_BATCH,
    PATCH_MESSAGE_TYPES,
};

#[test]
fn short_inputs_are_skipped() {
    assert!(decode_fuzz_input(&[]).is_none());
    assert!(decode_fuzz_input(&[1, 2, 3, 4, 5]).is_none());
}

#[test]
fn input_header_and_payload() {
    let input = decode_fuzz_input(&[27, 4, 5, 6, 7, 8]).unwrap();
    assert_eq!(input.msg_type, 1);
    assert_eq!(input.source, 4);
    assert_eq!(input.destination, 5);
    assert_eq!(input.view, 6);
    assert_eq!(input.payload, vec![7, 8]);
    let input = decode_fuzz_input(&[255, 0, 0, 0, 1, 2, 3]).unwrap();
    assert_eq!(input.msg_type, 255 % 13);
    assert!(input.msg_type < MESSAGE_TYPES);
}

#[test]
fn sequence_choice() {
    let fresh = choose_sequence(7, false, 3);
    assert_eq!((fresh.sequence, fresh.next_counter), (7, 8));
    let replay = choose_sequence(7, true, 3);
    assert_eq!((replay.sequence, replay.next_counter), (3, 7));
}

#[test]
fn drawn_sequence() {
    let mut rng = rand::thread_rng();
    for _ in 0..50 {
        let replay = draw_sequence(&mut rng, 4, true);
        assert!(replay.sequence <= 4);
        assert_eq!(replay.next_counter, 4);
    }
    let fresh = draw_sequence(&mut rng, 4, false);
    assert_eq!((fresh.sequence, fresh.next_counter), (4, 5));
    let zero = draw_sequence(&mut rng, 0, true);
    assert_eq!((zero.sequence, zero.next_counter), (0, 0));
}

#[test]
fn pre_prepare_payload_is_emptied_for_tiny_inputs() {
    match plan_message(0, &[9], 2, 3).unwrap() {
        MessagePlan::PrePrepare { sequence, view, payload } => {
            assert_eq!((sequence, view), (3, 2));
            assert!(payload.is_empty());
        }
        _ => panic!("wrong msg_type"),
    }
    match plan_message(0, &[9, 8], 2, 3).unwrap() {
        MessagePlan::PrePrepare { payload, .. } => assert_eq!(&payload[..], &[9, 8]),
        _ => panic!("wrong msg_type"),
    }
}

#[test]
fn assign_carries_one_request_per_input_byte() {
    match plan_message(1, &[1, 2, 3], 0, 11).unwrap() {
        MessagePlan::Assign { sequence, request_payloads } => {
            assert_eq!(sequence, 11);
            assert_eq!(request_payloads.len(), 3);
            for p in request_payloads {
                assert_eq!(&p[..], &[1, 2, 3]);
            }
        }
        _ => panic!("wrong msg_type"),
    }
}

#[test]
fn commit_prepare_checkpoint_payloads() {
    match plan_message(2, &[5, 6], 4, 1).unwrap() {
        MessagePlan::Commit { sequence, view, payload } => {
            assert_eq!((sequence, view), (1, 4));
            assert_eq!(&payload[..], &[5, 6]);
        }
        _ => panic!("wrong msg_type"),
    }
    match plan_message(7, &[5], 4, 1).unwrap() {
        MessagePlan::Prepare { payload, .. } => assert!(payload.is_empty()),
        _ => panic!("wrong msg_type"),
    }
    match plan_message(12, &[], 4, 1).unwrap() {
        MessagePlan::Checkpoint { sequence, payload } => {
            assert_eq!(sequence, 1);
            assert!(payload.is_empty());
        }
        _ => panic!("wrong msg_type"),
    }
}

#[test]
fn forward_and_get_checkpoint() {
    assert!(matches!(plan_message(3, &[1, 2], 0, 0), Some(MessagePlan::Forward)));
    assert!(matches!(plan_message(5, &[1, 2], 0, 42), Some(MessagePlan::GetCheckpoint { sequence: 42 })));
}

#[test]
fn full_checkpoint_splits_input_in_halves() {
    match plan_message(4, &[1, 2, 3, 4, 5], 0, 8).unwrap() {
        MessagePlan::FullCheckpoint { sequence, handle, data } => {
            assert_eq!(sequence, 8);
            assert_eq!(&handle[..], &[1, 2]);
            assert_eq!(&data[..], &[3, 4, 5]);
        }
        _ => panic!("wrong msg_type"),
    }
}

#[test]
fn views_move_on_by_one() {
    assert!(matches!(plan_message(6, &[1, 2], 4, 0), Some(MessagePlan::NewView { view: 4, proof_view: 5 })));
    assert!(matches!(plan_message(9, &[1, 2], 4, 0), Some(MessagePlan::ViewChange { new_view: 5 })));
    match plan_message(10, &[1], 4, 6).unwrap() {
        MessagePlan::CorrectSequence { sequence, view, payload, next_view } => {
            assert_eq!((sequence, view, next_view), (6, 4, 5));
            assert_eq!(&payload[..], &[1]);
        }
        _ => panic!("wrong msg_type"),
    }
}

#[test]
fn response_contact_depends_on_input_length() {
    match plan_message(8, &[7; 10], 0, 2).unwrap() {
        MessagePlan::Response { sequence, payload, contact } => {
            assert_eq!(sequence, 2);
            assert_eq!(payload.len(), 10);
            assert_eq!(contact, 0);
        }
        _ => panic!("wrong msg_type"),
    }
    match plan_message(8, &[7; 11], 0, 2).unwrap() {
        MessagePlan::Response { contact, .. } => assert_eq!(contact, 7),
        _ => panic!("wrong msg_type"),
    }
}

#[test]
fn execute_requests_digest_and_unknown_types() {
    match plan_message(11, &[3, 4], 0, 0).unwrap() {
        MessagePlan::ExecuteRequests { digest } => assert_eq!(&digest[..], &[3, 4]),
        _ => panic!("wrong msg_type"),
    }
    assert!(plan_message(13, &[1, 2], 0, 0).is_none());
    assert!(plan_message(200, &[], 0, 0).is_none());
}

#[test]
fn every_usable_input_selects_a_message() {
    for first in 0..=255u8 {
        let data = [first, 1, 2, 3, 4, 5];
        let input = decode_fuzz_input(&data).unwrap();
        assert!(plan_message(input.msg_type, &input.payload, input.view, 0).is_some());
    }
}

fn draws(msg_type: u64) -> PatchDraws {
    PatchDraws { msg_type, batch_size: 3, handle_byte: 0xAB, checkpoint: 77, contact: None }
}

#[test]
fn drawn_patch_choices_stay_in_range() {
    let mut rng = rand::thread_rng();
    for i in 0..200 {
        let coin = i % 2 == 0;
        let d = draw_patch_choices(&mut rng, coin);
        assert!(d.msg_type < PATCH_MESSAGE_TYPES);
        assert!(1 <= d.batch_size && d.batch_size <= MAX_BATCH);
        assert_eq!(d.contact.is_some(), coin);
        let plan = plan_patch_message(&d, &[1, 2], 3, 0, 1);
        assert!(!matches!(plan, PatchPlan::ReportState));
    }
}

#[test]
fn patch_messages() {
    match plan_patch_message(&draws(0), &[1], 3, 9, 4) {
        PatchPlan::PrePrepare { sequence, view, payload, peer_payload } => {
            assert_eq!((sequence, view), (4, 3));
            assert_eq!(&payload[..], &[1]);
            assert_eq!(&peer_payload[..], &[1]);
        }
        _ => panic!("wrong msg_type"),
    }
    match plan_patch_message(&draws(1), &[1, 2], 3, 9, 4) {
        PatchPlan::Assign { sequence, request_payloads } => {
            assert_eq!(sequence, 4);
            assert_eq!(request_payloads.len(), 3);
            assert!(request_payloads.iter().all(|p| &p[..] == &[1, 2]));
        }
        _ => panic!("wrong msg_type"),
    }
    match plan_patch_message(&draws(4), &[1, 2], 3, 9, 4) {
        PatchPlan::FullCheckpoint { sequence, handle, data } => {
            assert_eq!(sequence, 4);
            assert_eq!(handle.len(), HANDLE_LEN);
            assert!(handle.iter().all(|b| *b == 0xAB));
            assert_eq!(&data[..], &[1, 2]);
        }
        _ => panic!("wrong msg_type"),
    }
    assert!(matches!(
        plan_patch_message(&draws(6), &[], 3, 9, 4),
        PatchPlan::NewView { view: 3, proof_view: 4, proof_checkpoint: 77 }
    ));
    match plan_patch_message(&draws(8), &[5], 3, 9, 4) {
        PatchPlan::AddRequest { sequence, payload } => {
            assert_eq!(sequence, 4);
            assert_eq!(&payload[..], &[5]);
        }
        _ => panic!("wrong msg_type"),
    }
    match plan_patch_message(&draws(9), &[5], 3, 9, 4) {
        PatchPlan::Response { contact, .. } => assert_eq!(contact, 0),
        _ => panic!("wrong msg_type"),
    }
    let mut with_contact = draws(9);
    with_contact.contact = Some(12);
    match plan_patch_message(&with_contact, &[5], 3, 9, 4) {
        PatchPlan::Response { contact, .. } => assert_eq!(contact, 12),
        _ => panic!("wrong msg_type"),
    }
    assert!(matches!(
        plan_patch_message(&draws(10), &[], 3, 9, 4),
        PatchPlan::ViewChange { source: 9, new_view: 4, checkpoint: 77 }
    ));
    assert!(matches!(plan_patch_message(&draws(3), &[], 3, 9, 4), PatchPlan::Forward));
    assert!(matches!(plan_patch_message(&draws(5), &[], 3, 9, 4), PatchPlan::GetCheckpoint { sequence: 4 }));
    assert!(matches!(plan_patch_message(&draws(11), &[], 3, 9, 4), PatchPlan::ReportState));
    match plan_patch_message(&draws(2), &[6, 6], 3, 9, 4) {
        PatchPlan::Commit { view, payload, .. } => {
            assert_eq!(view, 3);
            assert_eq!(&payload[..], &[6, 6]);
        }
        _ => panic!("wrong msg_type"),
    }
    match plan_patch_message(&draws(7), &[6], 3, 9, 4) {
        PatchPlan::Prepare { payload, .. } => assert_eq!(&payload[..], &[6]),
        _ => panic!("wrong msg_type"),
    }
}

#[test]
fn plannability() {
    assert!(!message_plannable(1, &[], 0));
    assert!(message_plannable(1, &[1], 0));
    assert!(!message_plannable(6, &[1], u64::MAX));
    assert!(!message_plannable(9, &[1], u64::MAX));
    assert!(!message_plannable(10, &[1], u64::MAX));
    assert!(message_plannable(0, &[], u64::MAX));
    assert!(message_plannable(13, &[], u64::MAX));
    let mut d = draws(1);
    d.batch_size = 0;
    assert!(!patch_message_plannable(&d, 0));
    assert!(!patch_message_plannable(&draws(10), u64::MAX));
    assert!(!patch_message_plannable(&draws(6), u64::MAX));
    assert!(patch_message_plannable(&draws(9), u64::MAX));
}
