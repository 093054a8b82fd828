//! Which protocol message the fuzzer makes the patched replica receive, and
//! what that message carries. Unlike the unpatched side, the choices here are
//! drawn at random, and the view and own identity are read from the patched
//! replica itself.
use vstd::prelude::*;
use crate::payload::{bytes_contents, bytes_copy, bytes_from_vec};
use crate::randomness::{gen_range_inclusive, gen_u64, gen_u8};

verus! {

/// The number of message types that the patched replica is driven with.
pub const PATCH_MESSAGE_TYPES: u64 = 11;

/// The largest batch of requests that an assignment carries.
pub const MAX_BATCH: u64 = 9;

/// The length of the handle of a full checkpoint.
pub const HANDLE_LEN: usize = 64;

/// The random choices behind one message to the patched replica.
pub struct PatchDraws {
    /// The message type.
    pub msg_type: u64,
    /// The number of requests in an assignment.
    pub batch_size: u64,
    /// The byte that fills the handle of a full checkpoint.
    pub handle_byte: u8,
    /// The checkpoint named in a view change.
    pub checkpoint: u64,
    /// The contact of a response, where it has one.
    pub contact: Option<u64>,
}

/// A protocol message for the patched replica, described by the values it is
/// built from. Source and destination are those of the fuzz input, except
/// where a variant names its own.
pub enum PatchPlan {
    /// Type 0: a pre-prepare, packed once for the replica under test and once
    /// for its peer replica.
    PrePrepare { sequence: u64, view: u64, payload: bytes::Bytes, peer_payload: bytes::Bytes },
    /// Type 1: an assignment of `request_payloads.len()` requests, each
    /// carrying the given payload under the assignment's sequence number.
    Assign { sequence: u64, request_payloads: Vec<bytes::Bytes> },
    /// Type 2: a commit.
    Commit { sequence: u64, view: u64, payload: bytes::Bytes },
    /// Type 3: a forward of an empty proposal.
    Forward,
    /// Type 4: a full checkpoint with a handle and its data.
    FullCheckpoint { sequence: u64, handle: bytes::Bytes, data: bytes::Bytes },
    /// Type 5: a request for a checkpoint.
    GetCheckpoint { sequence: u64 },
    /// Type 6: a new-view message for `view` that proves one view change to
    /// `proof_view` at `proof_checkpoint`, broadcast by replica 0.
    NewView { view: u64, proof_view: u64, proof_checkpoint: u64 },
    /// Type 7: a prepare.
    Prepare { sequence: u64, view: u64, payload: bytes::Bytes },
    /// Type 8: a request added directly to the replica's request table.
    AddRequest { sequence: u64, payload: bytes::Bytes },
    /// Type 9: a client response handed to the replica, with a contact.
    Response { sequence: u64, payload: bytes::Bytes, contact: u64 },
    /// Type 10: a view change sent in the replica's own name.
    ViewChange { source: u64, new_view: u64, checkpoint: u64 },
    /// Any other type: the replica's state is reported instead.
    ReportState,
}

/// What holds of every set of random choices that `draw_patch_choices` makes.
pub open spec fn draws_valid(draws: PatchDraws, contact_coin: bool) -> bool {
    &&& draws.msg_type < PATCH_MESSAGE_TYPES
    &&& 1 <= draws.batch_size <= MAX_BATCH
    &&& (draws.contact is Some <==> contact_coin)
}

/// The planner can build the message: an assignment needs at least one
/// request, and a message that names the next view needs one.
pub open spec fn patch_plan_defined(draws: PatchDraws, view: u64) -> bool {
    &&& draws.msg_type == 1 ==> draws.batch_size > 0
    &&& (draws.msg_type == 6 || draws.msg_type == 10) ==> view < u64::MAX
}

/// The contact of a response: the drawn one, or 0 where none was drawn.
pub open spec fn contact_or_default(contact: Option<u64>) -> u64 {
    match contact {
        Some(c) => c,
        None => 0,
    }
}

/// `plan` is the message for the patched replica that the drawn choices
/// select, built from the input bytes, the replica's view and identity, and
/// the sequence number.
pub open spec fn patch_planned(
    draws: PatchDraws,
    buf: Seq<u8>,
    view: u64,
    own_id: u64,
    sequence: u64,
    plan: PatchPlan,
) -> bool {
    let msg_type: u64 = draws.msg_type;
    if msg_type == 0 {
        plan matches PatchPlan::PrePrepare { sequence: s, view: v, payload, peer_payload }
            && s == sequence && v == view && bytes_contents(payload) == buf
            && bytes_contents(peer_payload) == buf
    } else if msg_type == 1 {
        plan matches PatchPlan::Assign { sequence: s, request_payloads }
            && s == sequence && request_payloads@.len() == draws.batch_size
            && forall|i: int| 0 <= i < request_payloads@.len()
                ==> bytes_contents(#[trigger] request_payloads@[i]) == buf
    } else if msg_type == 2 {
        plan matches PatchPlan::Commit { sequence: s, view: v, payload }
            && s == sequence && v == view && bytes_contents(payload) == buf
    } else if msg_type == 3 {
        plan is Forward
    } else if msg_type == 4 {
        plan matches PatchPlan::FullCheckpoint { sequence: s, handle, data }
            && s == sequence
            && bytes_contents(handle) == Seq::new(HANDLE_LEN as nat, |i: int| draws.handle_byte)
            && bytes_contents(data) == buf
    } else if msg_type == 5 {
        plan matches PatchPlan::GetCheckpoint { sequence: s } && s == sequence
    } else if msg_type == 6 {
        plan matches PatchPlan::NewView { view: v, proof_view, proof_checkpoint }
            && v == view && proof_view == view + 1 && proof_checkpoint == draws.checkpoint
    } else if msg_type == 7 {
        plan matches PatchPlan::Prepare { sequence: s, view: v, payload }
            && s == sequence && v == view && bytes_contents(payload) == buf
    } else if msg_type == 8 {
        plan matches PatchPlan::AddRequest { sequence: s, payload }
            && s == sequence && bytes_contents(payload) == buf
    } else if msg_type == 9 {
        plan matches PatchPlan::Response { sequence: s, payload, contact }
            && s == sequence && bytes_contents(payload) == buf
            && contact == contact_or_default(draws.contact)
    } else if msg_type == 10 {
        plan matches PatchPlan::ViewChange { source, new_view, checkpoint }
            && source == own_id && new_view == view + 1 && checkpoint == draws.checkpoint
    } else {
        plan is ReportState
    }
}

/// Draws the random choices for one message to the patched replica. Whether
/// a response gets a contact is decided by `contact_coin`.
pub fn draw_patch_choices(rng: &mut rand::rngs::ThreadRng, contact_coin: bool) -> (r: PatchDraws)
    ensures
        draws_valid(r, contact_coin),
{
    let msg_type: u64 = gen_range_inclusive(rng, 0, PATCH_MESSAGE_TYPES - 1);
    let batch_size: u64 = gen_range_inclusive(rng, 1, MAX_BATCH);
    let handle_byte: u8 = gen_u8(rng);
    let checkpoint: u64 = gen_u64(rng);
    let contact: Option<u64> = if contact_coin {
        Some(gen_u64(rng))
    } else {
        None
    };
    PatchDraws { msg_type, batch_size, handle_byte, checkpoint, contact }
}

fn copies_of(buf: &[u8], count: u64) -> (r: Vec<bytes::Bytes>)
    ensures
        r@.len() == count,
        forall|i: int| 0 <= i < r@.len() ==> bytes_contents(#[trigger] r@[i]) == buf@,
{
    let mut r: Vec<bytes::Bytes> = Vec::new();
    let mut i: u64 = 0;
    while i < count
        invariant
            i <= count,
            r@.len() == i,
            forall|k: int| 0 <= k < r@.len() ==> bytes_contents(#[trigger] r@[k]) == buf@,
        decreases count - i,
    {
        r.push(bytes_copy(buf));
        i += 1;
    }
    r
}

fn filled_handle(byte: u8) -> (b: bytes::Bytes)
    ensures
        bytes_contents(b) == Seq::new(HANDLE_LEN as nat, |i: int| byte),
{
    let mut v: Vec<u8> = Vec::new();
    let mut i: usize = 0;
    while i < HANDLE_LEN
        invariant
            i <= HANDLE_LEN,
            v@ == Seq::new(i as nat, |k: int| byte),
        decreases HANDLE_LEN - i,
    {
        v.push(byte);
        i += 1;
        assert(v@ =~= Seq::new(i as nat, |k: int| byte));
    }
    bytes_from_vec(v)
}

/// Tells whether the planner can build the message that the drawn choices select.
pub fn patch_message_plannable(draws: &PatchDraws, view: u64) -> (r: bool)
    ensures
        r == patch_plan_defined(*draws, view),
{
    (draws.msg_type != 1 || draws.batch_size > 0) && (!(draws.msg_type == 6 || draws.msg_type == 10) || view < u64::MAX)
}

/// The message for the patched replica that the drawn choices select, built
/// from the input bytes, the replica's current view and own identity, and the
/// sequence number.
pub fn plan_patch_message(draws: &PatchDraws, buf: &[u8], view: u64, own_id: u64, sequence: u64) -> (r: PatchPlan)
    requires
        patch_plan_defined(*draws, view),
    ensures
        patch_planned(*draws, buf@, view, own_id, sequence, r),
{
    let msg_type: u64 = draws.msg_type;
    if msg_type == 0 {
        PatchPlan::PrePrepare { sequence, view, payload: bytes_copy(buf), peer_payload: bytes_copy(buf) }
    } else if msg_type == 1 {
        PatchPlan::Assign { sequence, request_payloads: copies_of(buf, draws.batch_size) }
    } else if msg_type == 2 {
        PatchPlan::Commit { sequence, view, payload: bytes_copy(buf) }
    } else if msg_type == 3 {
        PatchPlan::Forward
    } else if msg_type == 4 {
        PatchPlan::FullCheckpoint { sequence, handle: filled_handle(draws.handle_byte), data: bytes_copy(buf) }
    } else if msg_type == 5 {
        PatchPlan::GetCheckpoint { sequence }
    } else if msg_type == 6 {
        PatchPlan::NewView { view, proof_view: view + 1, proof_checkpoint: draws.checkpoint }
    } else if msg_type == 7 {
        PatchPlan::Prepare { sequence, view, payload: bytes_copy(buf) }
    } else if msg_type == 8 {
        PatchPlan::AddRequest { sequence, payload: bytes_copy(buf) }
    } else if msg_type == 9 {
        let contact: u64 = match draws.contact {
            Some(c) => c,
            None => 0,
        };
        PatchPlan::Response { sequence, payload: bytes_copy(buf), contact }
    } else if msg_type == 10 {
        PatchPlan::ViewChange { source: own_id, new_view: view + 1, checkpoint: draws.checkpoint }
    } else {
        PatchPlan::ReportState
    }
}

/// Drawn choices never fall through to the state report, and the planner
/// can build their message whenever the replica's view is not the largest one.
pub proof fn lemma_drawn_choices_are_plannable(
    draws: PatchDraws,
    contact_coin: bool,
    buf: Seq<u8>,
    view: u64,
    own_id: u64,
    sequence: u64,
    plan: PatchPlan,
)
    requires
        draws_valid(draws, contact_coin),
        view < u64::MAX,
    ensures
        patch_plan_defined(draws, view),
        patch_planned(draws, buf, view, own_id, sequence, plan) ==> !(plan is ReportState),
{
}

// ---------------------------------------------------------------------------
// Laws of the planner.
// ---------------------------------------------------------------------------

/// The message type of a planned message; the state report counts as the
/// first type past the known ones.
pub open spec fn patch_type_of(plan: PatchPlan) -> u64 {
    match plan {
        PatchPlan::PrePrepare { .. } => 0,
        PatchPlan::Assign { .. } => 1,
        PatchPlan::Commit { .. } => 2,
        PatchPlan::Forward => 3,
        PatchPlan::FullCheckpoint { .. } => 4,
        PatchPlan::GetCheckpoint { .. } => 5,
        PatchPlan::NewView { .. } => 6,
        PatchPlan::Prepare { .. } => 7,
        PatchPlan::AddRequest { .. } => 8,
        PatchPlan::Response { .. } => 9,
        PatchPlan::ViewChange { .. } => 10,
        PatchPlan::ReportState => 11,
    }
}

/// The sequence number a planned message carries, where it carries one.
pub open spec fn patch_sequence(plan: PatchPlan) -> Option<u64> {
    match plan {
        PatchPlan::PrePrepare { sequence, .. } => Some(sequence),
        PatchPlan::Assign { sequence, .. } => Some(sequence),
        PatchPlan::Commit { sequence, .. } => Some(sequence),
        PatchPlan::FullCheckpoint { sequence, .. } => Some(sequence),
        PatchPlan::GetCheckpoint { sequence } => Some(sequence),
        PatchPlan::Prepare { sequence, .. } => Some(sequence),
        PatchPlan::AddRequest { sequence, .. } => Some(sequence),
        PatchPlan::Response { sequence, .. } => Some(sequence),
        _ => None,
    }
}

/// The view a planned message is sent in, where it names one.
pub open spec fn patch_view(plan: PatchPlan) -> Option<u64> {
    match plan {
        PatchPlan::PrePrepare { view, .. } => Some(view),
        PatchPlan::Commit { view, .. } => Some(view),
        PatchPlan::NewView { view, .. } => Some(view),
        PatchPlan::Prepare { view, .. } => Some(view),
        _ => None,
    }
}

/// A planned message is of the drawn type (a type past the known ones gives
/// the state report), carries the given sequence number and the replica's
/// view wherever it carries one, names as the next view the one after the
/// replica's view, and names the drawn checkpoint and, for a view change, the
/// replica's own identity as its source.
pub proof fn lemma_patch_plan_fields(
    draws: PatchDraws,
    buf: Seq<u8>,
    view: u64,
    own_id: u64,
    sequence: u64,
    plan: PatchPlan,
)
    requires
        patch_planned(draws, buf, view, own_id, sequence, plan),
    ensures
        draws.msg_type < 11 ==> patch_type_of(plan) == draws.msg_type,
        draws.msg_type >= 11 ==> plan is ReportState,
        patch_sequence(plan) is Some ==> patch_sequence(plan) == Some(sequence),
        patch_view(plan) is Some ==> patch_view(plan) == Some(view),
        draws.msg_type < 11 && draws.msg_type != 3 && draws.msg_type != 6 && draws.msg_type != 10
            ==> patch_sequence(plan) == Some(sequence),
        plan matches PatchPlan::NewView { proof_view, proof_checkpoint, .. } ==> proof_view == view + 1
            && proof_checkpoint == draws.checkpoint,
        plan matches PatchPlan::ViewChange { source, new_view, checkpoint } ==> source == own_id && new_view
            == view + 1 && checkpoint == draws.checkpoint,
{
}

/// What a planned message carries: every payload is the input whole; an
/// assignment carries the drawn number of requests, each with the input; a
/// full checkpoint's handle is sixty-four copies of the drawn byte; a
/// response's contact is the drawn one, or 0 where none was drawn.
pub proof fn lemma_patch_plan_payloads(
    draws: PatchDraws,
    buf: Seq<u8>,
    view: u64,
    own_id: u64,
    sequence: u64,
    plan: PatchPlan,
)
    requires
        patch_planned(draws, buf, view, own_id, sequence, plan),
    ensures
        plan matches PatchPlan::PrePrepare { payload, peer_payload, .. } ==> bytes_contents(payload) == buf
            && bytes_contents(peer_payload) == buf,
        plan matches PatchPlan::Commit { payload, .. } ==> bytes_contents(payload) == buf,
        plan matches PatchPlan::Prepare { payload, .. } ==> bytes_contents(payload) == buf,
        plan matches PatchPlan::AddRequest { payload, .. } ==> bytes_contents(payload) == buf,
        plan matches PatchPlan::Response { payload, .. } ==> bytes_contents(payload) == buf,
        plan matches PatchPlan::Assign { request_payloads, .. } ==> request_payloads@.len() == draws.batch_size
            && forall|i: int| 0 <= i < request_payloads@.len() ==> bytes_contents(#[trigger] request_payloads@[i]) == buf,
        plan matches PatchPlan::FullCheckpoint { handle, data, .. } ==> bytes_contents(data) == buf
            && bytes_contents(handle).len() == 64 && forall|i: int|
            0 <= i < 64 ==> #[trigger] bytes_contents(handle)[i] == draws.handle_byte,
        plan matches PatchPlan::Response { contact, .. } ==> (draws.contact matches Some(c) ==> contact == c)
            && (draws.contact is None ==> contact == 0),
{
}

/// Drawn choices pick one of the eleven known message types, an assignment
/// of one to nine requests, and a contact exactly when the coin says so.
pub proof fn lemma_drawn_choice_ranges(draws: PatchDraws, contact_coin: bool)
    requires
        draws_valid(draws, contact_coin),
    ensures
        draws.msg_type <= 10,
        1 <= draws.batch_size <= 9,
        draws.contact is Some <==> contact_coin,
{
}

} // verus!
