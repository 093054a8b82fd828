//! Which protocol message a fuzz input makes the unpatched replica receive,
//! and what that message carries.
use vstd::prelude::*;
use crate::payload::{bytes_contents, bytes_copy, bytes_empty};
use crate::harness::{input_usable, MESSAGE_TYPES};

verus! {

/// A protocol message, described by the values it is built from. Source and
/// destination are those of the fuzz input and are not repeated here.
pub enum MessagePlan {
    /// Type 0: a pre-prepare.
    PrePrepare { sequence: u64, view: u64, payload: bytes::Bytes },
    /// Type 1: an assignment of a batch of requests, each carrying the given
    /// payload under the assignment's sequence number.
    Assign { sequence: u64, request_payloads: Vec<bytes::Bytes> },
    /// Type 2: a commit.
    Commit { sequence: u64, view: u64, payload: bytes::Bytes },
    /// Type 3: a forward of an empty proposal.
    Forward,
    /// Type 4: a full checkpoint with a handle and its data.
    FullCheckpoint { sequence: u64, handle: bytes::Bytes, data: bytes::Bytes },
    /// Type 5: a request for a checkpoint.
    GetCheckpoint { sequence: u64 },
    /// Type 6: a new-view message for `view` that proves one view change to
    /// `proof_view`, made at checkpoint 0 with no prepares.
    NewView { view: u64, proof_view: u64 },
    /// Type 7: a prepare.
    Prepare { sequence: u64, view: u64, payload: bytes::Bytes },
    /// Type 8: a client response handed to the replica, with a contact.
    Response { sequence: u64, payload: bytes::Bytes, contact: u64 },
    /// Type 9: a view change to `new_view`, at checkpoint 0 with no prepares.
    ViewChange { new_view: u64 },
    /// Type 10: a pre-prepare, prepare and commit for the same request in
    /// `view`, then a view change to `next_view` that carries the prepare.
    CorrectSequence { sequence: u64, view: u64, payload: bytes::Bytes, next_view: u64 },
    /// Type 11: an order to execute the requests under the given digest.
    ExecuteRequests { digest: bytes::Bytes },
    /// Type 12: a checkpoint.
    Checkpoint { sequence: u64, payload: bytes::Bytes },
}

/// The payload of a message that carries the input bytes: empty when the
/// input holds at most one byte, the input otherwise.
pub open spec fn short_payload(buf: Seq<u8>) -> Seq<u8> {
    if buf.len() <= 1 {
        Seq::empty()
    } else {
        buf
    }
}

/// The contact of a response: the first byte where the input holds more than
/// ten bytes, 0 otherwise.
pub open spec fn response_contact(buf: Seq<u8>) -> u64 {
    if buf.len() <= 10 {
        0
    } else {
        buf[0] as u64
    }
}

/// The planner can build the message of this type: an assignment needs at
/// least one request, and a message that names the next view needs one.
pub open spec fn plan_defined(msg_type: u64, buf: Seq<u8>, view: u64) -> bool {
    &&& msg_type == 1 ==> buf.len() > 0
    &&& (msg_type == 6 || msg_type == 9 || msg_type == 10) ==> view < u64::MAX
}

/// `plan` is the message of the given type built from the input bytes, view
/// and sequence number.
pub open spec fn planned(msg_type: u64, buf: Seq<u8>, view: u64, sequence: u64, plan: MessagePlan) -> bool {
    if msg_type == 0 {
        plan matches MessagePlan::PrePrepare { sequence: s, view: v, payload }
            && s == sequence && v == view && bytes_contents(payload) == short_payload(buf)
    } else if msg_type == 1 {
        plan matches MessagePlan::Assign { sequence: s, request_payloads }
            && s == sequence && request_payloads@.len() == buf.len()
            && forall|i: int| 0 <= i < request_payloads@.len()
                ==> bytes_contents(#[trigger] request_payloads@[i]) == buf
    } else if msg_type == 2 {
        plan matches MessagePlan::Commit { sequence: s, view: v, payload }
            && s == sequence && v == view && bytes_contents(payload) == short_payload(buf)
    } else if msg_type == 3 {
        plan is Forward
    } else if msg_type == 4 {
        plan matches MessagePlan::FullCheckpoint { sequence: s, handle, data }
            && s == sequence
            && bytes_contents(handle) == buf.subrange(0, (buf.len() / 2) as int)
            && bytes_contents(data) == buf.subrange((buf.len() / 2) as int, buf.len() as int)
    } else if msg_type == 5 {
        plan matches MessagePlan::GetCheckpoint { sequence: s } && s == sequence
    } else if msg_type == 6 {
        plan matches MessagePlan::NewView { view: v, proof_view } && v == view && proof_view == view + 1
    } else if msg_type == 7 {
        plan matches MessagePlan::Prepare { sequence: s, view: v, payload }
            && s == sequence && v == view && bytes_contents(payload) == short_payload(buf)
    } else if msg_type == 8 {
        plan matches MessagePlan::Response { sequence: s, payload, contact }
            && s == sequence && bytes_contents(payload) == buf && contact == response_contact(buf)
    } else if msg_type == 9 {
        plan matches MessagePlan::ViewChange { new_view } && new_view == view + 1
    } else if msg_type == 10 {
        plan matches MessagePlan::CorrectSequence { sequence: s, view: v, payload, next_view }
            && s == sequence && v == view && bytes_contents(payload) == buf && next_view == view + 1
    } else if msg_type == 11 {
        plan matches MessagePlan::ExecuteRequests { digest } && bytes_contents(digest) == buf
    } else if msg_type == 12 {
        plan matches MessagePlan::Checkpoint { sequence: s, payload }
            && s == sequence && bytes_contents(payload) == short_payload(buf)
    } else {
        false
    }
}

fn short_payload_bytes(buf: &[u8]) -> (b: bytes::Bytes)
    ensures
        bytes_contents(b) == short_payload(buf@),
{
    if buf.len() <= 1 {
        bytes_empty()
    } else {
        bytes_copy(buf)
    }
}

/// One copy of the input bytes for each of them.
fn request_payloads(buf: &[u8]) -> (r: Vec<bytes::Bytes>)
    ensures
        r@.len() == buf@.len(),
        forall|i: int| 0 <= i < r@.len() ==> bytes_contents(#[trigger] r@[i]) == buf@,
{
    let mut r: Vec<bytes::Bytes> = Vec::new();
    let mut i: usize = 0;
    while i < buf.len()
        invariant
            i <= buf@.len(),
            r@.len() == i,
            forall|k: int| 0 <= k < r@.len() ==> bytes_contents(#[trigger] r@[k]) == buf@,
        decreases buf@.len() - i,
    {
        r.push(bytes_copy(buf));
        i += 1;
    }
    r
}

/// Tells whether the planner can build the message of type `msg_type`.
pub fn message_plannable(msg_type: u64, buf: &[u8], view: u64) -> (r: bool)
    ensures
        r == plan_defined(msg_type, buf@, view),
{
    (msg_type != 1 || buf.len() > 0) && (!(msg_type == 6 || msg_type == 9 || msg_type == 10) || view < u64::MAX)
}

/// The message that type `msg_type` makes the unpatched replica receive, built
/// from the input bytes, the view and the sequence number; `None` for a type
/// outside the thirteen known ones.
pub fn plan_message(msg_type: u64, buf: &[u8], view: u64, sequence: u64) -> (r: Option<MessagePlan>)
    requires
        plan_defined(msg_type, buf@, view),
    ensures
        r is None <==> msg_type >= MESSAGE_TYPES,
        r matches Some(plan) ==> planned(msg_type, buf@, view, sequence, plan),
{
    if msg_type == 0 {
        Some(MessagePlan::PrePrepare { sequence, view, payload: short_payload_bytes(buf) })
    } else if msg_type == 1 {
        Some(MessagePlan::Assign { sequence, request_payloads: request_payloads(buf) })
    } else if msg_type == 2 {
        Some(MessagePlan::Commit { sequence, view, payload: short_payload_bytes(buf) })
    } else if msg_type == 3 {
        Some(MessagePlan::Forward)
    } else if msg_type == 4 {
        let mid: usize = buf.len() / 2;
        let handle = bytes_copy(vstd::slice::slice_subrange(buf, 0, mid));
        let data = bytes_copy(vstd::slice::slice_subrange(buf, mid, buf.len()));
        Some(MessagePlan::FullCheckpoint { sequence, handle, data })
    } else if msg_type == 5 {
        Some(MessagePlan::GetCheckpoint { sequence })
    } else if msg_type == 6 {
        Some(MessagePlan::NewView { view, proof_view: view + 1 })
    } else if msg_type == 7 {
        Some(MessagePlan::Prepare { sequence, view, payload: short_payload_bytes(buf) })
    } else if msg_type == 8 {
        let contact: u64 = if buf.len() <= 10 {
            0
        } else {
            buf[0] as u64
        };
        Some(MessagePlan::Response { sequence, payload: bytes_copy(buf), contact })
    } else if msg_type == 9 {
        Some(MessagePlan::ViewChange { new_view: view + 1 })
    } else if msg_type == 10 {
        Some(MessagePlan::CorrectSequence { sequence, view, payload: bytes_copy(buf), next_view: view + 1 })
    } else if msg_type == 11 {
        Some(MessagePlan::ExecuteRequests { digest: bytes_copy(buf) })
    } else if msg_type == 12 {
        Some(MessagePlan::Checkpoint { sequence, payload: short_payload_bytes(buf) })
    } else {
        None
    }
}

/// Every usable fuzz input names one of the known message types, and its
/// payload and view meet what the planner needs to build that message.
pub proof fn lemma_usable_input_is_plannable(data: Seq<u8>)
    requires
        input_usable(data),
    ensures
        (data[0] as u64 % MESSAGE_TYPES) < MESSAGE_TYPES,
        plan_defined(data[0] as u64 % MESSAGE_TYPES, data.subrange(4, data.len() as int), data[3] as u64),
{
}

// ---------------------------------------------------------------------------
// Laws of the planner.
// ---------------------------------------------------------------------------

/// The message type of a planned message.
pub open spec fn message_type_of(plan: MessagePlan) -> u64 {
    match plan {
        MessagePlan::PrePrepare { .. } => 0,
        MessagePlan::Assign { .. } => 1,
        MessagePlan::Commit { .. } => 2,
        MessagePlan::Forward => 3,
        MessagePlan::FullCheckpoint { .. } => 4,
        MessagePlan::GetCheckpoint { .. } => 5,
        MessagePlan::NewView { .. } => 6,
        MessagePlan::Prepare { .. } => 7,
        MessagePlan::Response { .. } => 8,
        MessagePlan::ViewChange { .. } => 9,
        MessagePlan::CorrectSequence { .. } => 10,
        MessagePlan::ExecuteRequests { .. } => 11,
        MessagePlan::Checkpoint { .. } => 12,
    }
}

/// The sequence number a planned message carries, where it carries one.
pub open spec fn message_sequence(plan: MessagePlan) -> Option<u64> {
    match plan {
        MessagePlan::PrePrepare { sequence, .. } => Some(sequence),
        MessagePlan::Assign { sequence, .. } => Some(sequence),
        MessagePlan::Commit { sequence, .. } => Some(sequence),
        MessagePlan::FullCheckpoint { sequence, .. } => Some(sequence),
        MessagePlan::GetCheckpoint { sequence } => Some(sequence),
        MessagePlan::Prepare { sequence, .. } => Some(sequence),
        MessagePlan::Response { sequence, .. } => Some(sequence),
        MessagePlan::CorrectSequence { sequence, .. } => Some(sequence),
        MessagePlan::Checkpoint { sequence, .. } => Some(sequence),
        _ => None,
    }
}

/// The view a planned message is sent in, where it names one.
pub open spec fn message_view(plan: MessagePlan) -> Option<u64> {
    match plan {
        MessagePlan::PrePrepare { view, .. } => Some(view),
        MessagePlan::Commit { view, .. } => Some(view),
        MessagePlan::NewView { view, .. } => Some(view),
        MessagePlan::Prepare { view, .. } => Some(view),
        MessagePlan::CorrectSequence { view, .. } => Some(view),
        _ => None,
    }
}

/// A planned message is of the requested type, carries the given sequence
/// number and view wherever it carries one, and names as the next view the
/// one after the given view.
pub proof fn lemma_plan_type_sequence_and_view(
    msg_type: u64,
    buf: Seq<u8>,
    view: u64,
    sequence: u64,
    plan: MessagePlan,
)
    requires
        planned(msg_type, buf, view, sequence, plan),
    ensures
        message_type_of(plan) == msg_type,
        message_sequence(plan) is Some ==> message_sequence(plan) == Some(sequence),
        message_view(plan) is Some ==> message_view(plan) == Some(view),
        msg_type != 3 && msg_type != 6 && msg_type != 9 && msg_type != 11 ==> message_sequence(plan) == Some(sequence),
        plan matches MessagePlan::NewView { proof_view, .. } ==> proof_view == view + 1,
        plan matches MessagePlan::ViewChange { new_view } ==> new_view == view + 1,
        plan matches MessagePlan::CorrectSequence { next_view, .. } ==> next_view == view + 1,
{
}

/// What a planned message carries of the input bytes: pre-prepares, commits,
/// prepares and checkpoints carry the input when it holds two bytes or more
/// and nothing otherwise; responses, the requests of the correct sequence and
/// execution digests carry the input whole; an assignment carries one request
/// with the whole input per input byte; a full checkpoint's handle is the
/// first half of the input (rounded down) and its data the rest.
pub proof fn lemma_plan_payloads(msg_type: u64, buf: Seq<u8>, view: u64, sequence: u64, plan: MessagePlan)
    requires
        planned(msg_type, buf, view, sequence, plan),
    ensures
        plan matches MessagePlan::PrePrepare { payload, .. } ==> (buf.len() >= 2 ==> bytes_contents(payload)
            == buf) && (buf.len() < 2 ==> bytes_contents(payload).len() == 0),
        plan matches MessagePlan::Commit { payload, .. } ==> (buf.len() >= 2 ==> bytes_contents(payload)
            == buf) && (buf.len() < 2 ==> bytes_contents(payload).len() == 0),
        plan matches MessagePlan::Prepare { payload, .. } ==> (buf.len() >= 2 ==> bytes_contents(payload)
            == buf) && (buf.len() < 2 ==> bytes_contents(payload).len() == 0),
        plan matches MessagePlan::Checkpoint { payload, .. } ==> (buf.len() >= 2 ==> bytes_contents(payload)
            == buf) && (buf.len() < 2 ==> bytes_contents(payload).len() == 0),
        plan matches MessagePlan::Response { payload, .. } ==> bytes_contents(payload) == buf,
        plan matches MessagePlan::CorrectSequence { payload, .. } ==> bytes_contents(payload) == buf,
        plan matches MessagePlan::ExecuteRequests { digest } ==> bytes_contents(digest) == buf,
        plan matches MessagePlan::Assign { request_payloads, .. } ==> request_payloads@.len() == buf.len()
            && forall|i: int| 0 <= i < request_payloads@.len() ==> bytes_contents(#[trigger] request_payloads@[i]) == buf,
        plan matches MessagePlan::FullCheckpoint { handle, data, .. } ==> bytes_contents(handle)
            + bytes_contents(data) == buf && bytes_contents(handle).len() * 2 <= buf.len()
            && buf.len() <= bytes_contents(handle).len() * 2 + 1,
{
    match plan {
        MessagePlan::FullCheckpoint { handle, data, .. } => {
            assert(bytes_contents(handle) + bytes_contents(data) =~= buf);
        },
        _ => {},
    }
}

/// A response's contact is the first input byte when the input holds more
/// than ten bytes, and 0 otherwise.
pub proof fn lemma_response_contact(buf: Seq<u8>, view: u64, sequence: u64, plan: MessagePlan)
    requires
        planned(8, buf, view, sequence, plan),
    ensures
        plan matches MessagePlan::Response { contact, .. } && (buf.len() > 10 ==> contact == buf[0]) && (
        buf.len() <= 10 ==> contact == 0),
{
}

} // verus!
