//! Comparison of a replica's state with the state of its patched copy.
//!
//! The fuzzer drives an unpatched replica and a patched one with the same
//! messages and then compares what it can read of both. The comparison walks
//! the components in a fixed order and reports the first one that differs.
use vstd::prelude::*;
use crate::payload::{bytes_contents, bytes_equal};

verus! {

/// What the comparison reads of a replica's view state.
pub struct ViewStateFlags {
    pub is_regular: bool,
    pub is_view_change: bool,
}

/// A pending client request: the sequence number it was assigned and its payload.
pub struct RequestEntry {
    pub sequence: u64,
    pub payload: bytes::Bytes,
}

/// The state of a request batch.
pub enum BatchPhase {
    Open,
    Missing,
    Prepared,
    /// Any state that the comparison does not recognise.
    Other,
}

/// A request batch: its sequence number and its state.
pub struct BatchEntry {
    pub sequence: u64,
    pub state: BatchPhase,
}

/// The ordering state of a slot of the message log.
pub enum SlotPhase {
    Open,
    Prepared,
    Committed,
    /// Any state that the comparison does not recognise.
    Other,
}

/// What the comparison reads of a filled slot of the message log.
pub struct SlotSummary {
    pub state: SlotPhase,
    pub commits: usize,
    pub prepares: usize,
    pub has_pre_prepare: bool,
}

/// What the comparison reads of a replica's ordering log.
pub struct OrderingLogSummary {
    /// The number of logs kept for earlier views.
    pub old_views: usize,
    /// The length that the log of the current view reports.
    pub current_view_len: usize,
    /// The slots of the current view's log, empty slots as `None`.
    pub slots: Vec<Option<SlotSummary>>,
}

/// Everything the comparison reads of one replica.
pub struct ReplicaSnapshot {
    pub id: u64,
    pub low_mark: u64,
    pub next_sequence: u64,
    pub last_commit: u64,
    pub view: u64,
    pub state: ViewStateFlags,
    /// The values of the request table, in the table's walk order.
    pub requests: Vec<RequestEntry>,
    /// The values of the batch table, in the table's walk order.
    pub instances: Vec<BatchEntry>,
    pub log: OrderingLogSummary,
    /// The sequence numbers of the stored checkpoints, in the table's key order.
    pub checkpoints: Vec<u64>,
}

/// The component in which the two replicas were found to differ.
#[derive(PartialEq, Eq, Structural, Debug, Clone, Copy)]
pub enum Divergence {
    Id,
    LowMark,
    NextSequence,
    LastCommit,
    View,
    State,
    Requests,
    Instances,
    Log,
    Checkpointing,
}

// ---------------------------------------------------------------------------
// The model of agreement.
// ---------------------------------------------------------------------------

/// The two view states agree when both are regular or both are in a view change.
pub open spec fn states_agree(normal: ViewStateFlags, patched: ViewStateFlags) -> bool {
    (normal.is_regular && patched.is_regular) || (normal.is_view_change && patched.is_view_change)
}

pub open spec fn request_entries_match(a: RequestEntry, b: RequestEntry) -> bool {
    a.sequence == b.sequence && bytes_contents(a.payload) == bytes_contents(b.payload)
}

pub open spec fn has_matching_request(e: RequestEntry, patched: Seq<RequestEntry>) -> bool {
    exists|j: int| 0 <= j < patched.len() && request_entries_match(e, #[trigger] patched[j])
}

/// The request tables agree when they are equally large and every request of
/// the unpatched replica has a request with the same sequence number and
/// payload in the patched one.
pub open spec fn requests_agree(normal: Seq<RequestEntry>, patched: Seq<RequestEntry>) -> bool {
    &&& normal.len() == patched.len()
    &&& forall|i: int| 0 <= i < normal.len() ==> has_matching_request(#[trigger] normal[i], patched)
}

/// Two batch states match when both are open, both missing or both prepared.
pub open spec fn batch_phases_match(a: BatchPhase, b: BatchPhase) -> bool {
    ||| (a is Open && b is Open)
    ||| (a is Missing && b is Missing)
    ||| (a is Prepared && b is Prepared)
}

pub open spec fn batch_entries_match(a: BatchEntry, b: BatchEntry) -> bool {
    a.sequence == b.sequence && batch_phases_match(a.state, b.state)
}

pub open spec fn has_matching_batch(e: BatchEntry, patched: Seq<BatchEntry>) -> bool {
    exists|j: int| 0 <= j < patched.len() && batch_entries_match(e, #[trigger] patched[j])
}

/// The batch tables agree when they are equally large and every batch of the
/// unpatched replica has a batch with the same sequence number and a matching
/// state in the patched one.
pub open spec fn batches_agree(normal: Seq<BatchEntry>, patched: Seq<BatchEntry>) -> bool {
    &&& normal.len() == patched.len()
    &&& forall|i: int| 0 <= i < normal.len() ==> has_matching_batch(#[trigger] normal[i], patched)
}

/// Two slot states match when both are open, both prepared or both committed.
pub open spec fn slot_phases_match(a: SlotPhase, b: SlotPhase) -> bool {
    ||| (a is Open && b is Open)
    ||| (a is Prepared && b is Prepared)
    ||| (a is Committed && b is Committed)
}

pub open spec fn slots_agree(a: SlotSummary, b: SlotSummary) -> bool {
    &&& slot_phases_match(a.state, b.state)
    &&& a.commits == b.commits
    &&& a.prepares == b.prepares
    &&& a.has_pre_prepare == b.has_pre_prepare
}

/// The verdict of walking the slots from index `i` on: the walk stops with
/// agreement at the end of the unpatched log or at the first slot that is
/// empty in either log, and with disagreement at the first filled pair of
/// slots that does not agree.
pub open spec fn slot_walk(
    normal: Seq<Option<SlotSummary>>,
    patched: Seq<Option<SlotSummary>>,
    i: int,
) -> bool
    decreases normal.len() - i,
{
    if i < 0 || i >= normal.len() {
        true
    } else {
        match normal[i] {
            None => true,
            Some(a) => match patched[i] {
                None => true,
                Some(b) => if slots_agree(a, b) {
                    slot_walk(normal, patched, i + 1)
                } else {
                    false
                },
            },
        }
    }
}

/// The walk from index `i` on never looks past the end of the patched log.
pub open spec fn slot_walk_in_bounds(
    normal: Seq<Option<SlotSummary>>,
    patched: Seq<Option<SlotSummary>>,
    i: int,
) -> bool
    decreases normal.len() - i,
{
    if i < 0 || i >= normal.len() {
        true
    } else {
        match normal[i] {
            None => true,
            Some(a) => {
                &&& i < patched.len()
                &&& match patched[i] {
                    None => true,
                    Some(b) => slots_agree(a, b) ==> slot_walk_in_bounds(normal, patched, i + 1),
                }
            },
        }
    }
}

/// The two logs agree when they keep equally many old views, report equal
/// current-view lengths, and the slot walk ends in agreement.
pub open spec fn logs_agree(normal: OrderingLogSummary, patched: OrderingLogSummary) -> bool {
    &&& normal.old_views == patched.old_views
    &&& normal.current_view_len == patched.current_view_len
    &&& slot_walk(normal.slots@, patched.slots@, 0)
}

/// The comparison of the two logs can be carried out: where it walks the
/// slots, it does not index past the end of the patched log.
pub open spec fn logs_comparable(normal: OrderingLogSummary, patched: OrderingLogSummary) -> bool {
    normal.old_views == patched.old_views && normal.current_view_len == patched.current_view_len
        ==> slot_walk_in_bounds(normal.slots@, patched.slots@, 0)
}

/// The checkpoint tables agree when their keys are the same, in the same order.
pub open spec fn checkpoints_agree(normal: Seq<u64>, patched: Seq<u64>) -> bool {
    normal.len() == patched.len() && normal == patched
}

/// Every component before the log agrees.
pub open spec fn agree_before_log(normal: ReplicaSnapshot, patched: ReplicaSnapshot) -> bool {
    &&& normal.id == patched.id
    &&& normal.low_mark == patched.low_mark
    &&& normal.next_sequence == patched.next_sequence
    &&& normal.last_commit == patched.last_commit
    &&& normal.view == patched.view
    &&& states_agree(normal.state, patched.state)
    &&& requests_agree(normal.requests@, patched.requests@)
    &&& batches_agree(normal.instances@, patched.instances@)
}

/// The first component, in the order id, low mark, next sequence, last
/// commit, view, view state, requests, batches, log, checkpoints, in which the
/// two replicas differ; `None` where they agree in all of them.
pub open spec fn first_divergence(normal: ReplicaSnapshot, patched: ReplicaSnapshot) -> Option<Divergence> {
    if normal.id != patched.id {
        Some(Divergence::Id)
    } else if normal.low_mark != patched.low_mark {
        Some(Divergence::LowMark)
    } else if normal.next_sequence != patched.next_sequence {
        Some(Divergence::NextSequence)
    } else if normal.last_commit != patched.last_commit {
        Some(Divergence::LastCommit)
    } else if normal.view != patched.view {
        Some(Divergence::View)
    } else if !states_agree(normal.state, patched.state) {
        Some(Divergence::State)
    } else if !requests_agree(normal.requests@, patched.requests@) {
        Some(Divergence::Requests)
    } else if !batches_agree(normal.instances@, patched.instances@) {
        Some(Divergence::Instances)
    } else if !logs_agree(normal.log, patched.log) {
        Some(Divergence::Log)
    } else if !checkpoints_agree(normal.checkpoints@, patched.checkpoints@) {
        Some(Divergence::Checkpointing)
    } else {
        None
    }
}

// ---------------------------------------------------------------------------
// The comparison.
// ---------------------------------------------------------------------------

impl Divergence {
    /// The name under which the differing component is reported.
    pub fn label(&self) -> (r: &'static str)
        ensures
            r@ == match *self {
                Divergence::Id => "id"@,
                Divergence::LowMark => "low_mark"@,
                Divergence::NextSequence => "next_sequence"@,
                Divergence::LastCommit => "last_commit"@,
                Divergence::View => "view"@,
                Divergence::State => "state"@,
                Divergence::Requests => "requests"@,
                Divergence::Instances => "instances"@,
                Divergence::Log => "log"@,
                Divergence::Checkpointing => "checkpointing"@,
            },
    {
        match self {
            Divergence::Id => "id",
            Divergence::LowMark => "low_mark",
            Divergence::NextSequence => "next_sequence",
            Divergence::LastCommit => "last_commit",
            Divergence::View => "view",
            Divergence::State => "state",
            Divergence::Requests => "requests",
            Divergence::Instances => "instances",
            Divergence::Log => "log",
            Divergence::Checkpointing => "checkpointing",
        }
    }
}

pub fn compare_state(normal: &ViewStateFlags, patched: &ViewStateFlags) -> (r: bool)
    ensures
        r == states_agree(*normal, *patched),
{
    (normal.is_regular && patched.is_regular) || (normal.is_view_change && patched.is_view_change)
}

fn find_matching_request(entry: &RequestEntry, patched: &Vec<RequestEntry>) -> (r: bool)
    ensures
        r == has_matching_request(*entry, patched@),
{
    let mut j: usize = 0;
    while j < patched.len()
        invariant
            j <= patched.len(),
            forall|k: int| 0 <= k < j ==> !request_entries_match(*entry, #[trigger] patched@[k]),
        decreases patched.len() - j,
    {
        if entry.sequence == patched[j].sequence && bytes_equal(&entry.payload, &patched[j].payload) {
            assert(request_entries_match(*entry, patched@[j as int]));
            return true;
        }
        j += 1;
    }
    false
}

pub fn compare_request(normal: &Vec<RequestEntry>, patched: &Vec<RequestEntry>) -> (r: bool)
    ensures
        r == requests_agree(normal@, patched@),
{
    if normal.len() != patched.len() {
        return false;
    }
    let mut i: usize = 0;
    while i < normal.len()
        invariant
            i <= normal.len(),
            normal.len() == patched.len(),
            forall|k: int| 0 <= k < i ==> has_matching_request(#[trigger] normal@[k], patched@),
        decreases normal.len() - i,
    {
        if !find_matching_request(&normal[i], patched) {
            return false;
        }
        i += 1;
    }
    true
}

fn batch_phases_equal(a: &BatchPhase, b: &BatchPhase) -> (r: bool)
    ensures
        r == batch_phases_match(*a, *b),
{
    match (a, b) {
        (BatchPhase::Open, BatchPhase::Open) => true,
        (BatchPhase::Missing, BatchPhase::Missing) => true,
        (BatchPhase::Prepared, BatchPhase::Prepared) => true,
        _ => false,
    }
}

fn find_matching_batch(entry: &BatchEntry, patched: &Vec<BatchEntry>) -> (r: bool)
    ensures
        r == has_matching_batch(*entry, patched@),
{
    let mut j: usize = 0;
    while j < patched.len()
        invariant
            j <= patched.len(),
            forall|k: int| 0 <= k < j ==> !batch_entries_match(*entry, #[trigger] patched@[k]),
        decreases patched.len() - j,
    {
        if entry.sequence == patched[j].sequence && batch_phases_equal(&entry.state, &patched[j].state) {
            assert(batch_entries_match(*entry, patched@[j as int]));
            return true;
        }
        j += 1;
    }
    false
}

pub fn compare_request_batch(normal: &Vec<BatchEntry>, patched: &Vec<BatchEntry>) -> (r: bool)
    ensures
        r == batches_agree(normal@, patched@),
{
    if normal.len() != patched.len() {
        return false;
    }
    let mut i: usize = 0;
    while i < normal.len()
        invariant
            i <= normal.len(),
            normal.len() == patched.len(),
            forall|k: int| 0 <= k < i ==> has_matching_batch(#[trigger] normal@[k], patched@),
        decreases normal.len() - i,
    {
        if !find_matching_batch(&normal[i], patched) {
            return false;
        }
        i += 1;
    }
    true
}

fn slot_phases_equal(a: &SlotPhase, b: &SlotPhase) -> (r: bool)
    ensures
        r == slot_phases_match(*a, *b),
{
    match (a, b) {
        (SlotPhase::Open, SlotPhase::Open) => true,
        (SlotPhase::Prepared, SlotPhase::Prepared) => true,
        (SlotPhase::Committed, SlotPhase::Committed) => true,
        _ => false,
    }
}

pub fn compare_log(normal: &OrderingLogSummary, patched: &OrderingLogSummary) -> (r: bool)
    requires
        logs_comparable(*normal, *patched),
    ensures
        r == logs_agree(*normal, *patched),
{
    if normal.old_views != patched.old_views || normal.current_view_len != patched.current_view_len {
        return false;
    }
    let ghost ns = normal.slots@;
    let ghost ps = patched.slots@;
    let mut i: usize = 0;
    while i < normal.slots.len()
        invariant
            i <= normal.slots.len(),
            ns == normal.slots@,
            ps == patched.slots@,
            normal.old_views == patched.old_views,
            normal.current_view_len == patched.current_view_len,
            slot_walk(ns, ps, 0) == slot_walk(ns, ps, i as int),
            slot_walk_in_bounds(ns, ps, i as int),
        decreases normal.slots.len() - i,
    {
        match &normal.slots[i] {
            None => {
                assert(ns[i as int] is None);
                assert(slot_walk(ns, ps, i as int));
                return true;
            },
            Some(a) => {
                match &patched.slots[i] {
                    None => {
                        assert(ps[i as int] is None);
                        assert(slot_walk(ns, ps, i as int));
                        return true;
                    },
                    Some(b) => {
                        if slots_agree_exec(a, b) {
                            i += 1;
                        } else {
                            return false;
                        }
                    },
                }
            },
        }
    }
    true
}

pub fn compare_checkpoint(normal: &Vec<u64>, patched: &Vec<u64>) -> (r: bool)
    ensures
        r == checkpoints_agree(normal@, patched@),
{
    if normal.len() != patched.len() {
        return false;
    }
    let mut i: usize = 0;
    while i < normal.len()
        invariant
            i <= normal.len(),
            normal.len() == patched.len(),
            forall|k: int| 0 <= k < i ==> normal@[k] == patched@[k],
        decreases normal.len() - i,
    {
        if normal[i] != patched[i] {
            return false;
        }
        i += 1;
    }
    assert(normal@ =~= patched@);
    true
}

fn slots_agree_exec(a: &SlotSummary, b: &SlotSummary) -> (r: bool)
    ensures
        r == slots_agree(*a, *b),
{
    slot_phases_equal(&a.state, &b.state) && a.commits == b.commits && a.prepares == b.prepares
        && a.has_pre_prepare == b.has_pre_prepare
}

/// Tells whether the comparison of the two logs can be carried out, that is,
/// whether its walk over the slots stays within the patched log.
pub fn logs_can_be_compared(normal: &OrderingLogSummary, patched: &OrderingLogSummary) -> (r: bool)
    ensures
        r == logs_comparable(*normal, *patched),
{
    if normal.old_views != patched.old_views || normal.current_view_len != patched.current_view_len {
        return true;
    }
    let ghost ns = normal.slots@;
    let ghost ps = patched.slots@;
    let mut i: usize = 0;
    while i < normal.slots.len()
        invariant
            i <= normal.slots.len(),
            ns == normal.slots@,
            ps == patched.slots@,
            normal.old_views == patched.old_views,
            normal.current_view_len == patched.current_view_len,
            slot_walk_in_bounds(ns, ps, 0) == slot_walk_in_bounds(ns, ps, i as int),
        decreases normal.slots.len() - i,
    {
        match &normal.slots[i] {
            None => {
                assert(ns[i as int] is None);
                assert(slot_walk_in_bounds(ns, ps, i as int));
                return true;
            },
            Some(a) => {
                if i >= patched.slots.len() {
                    assert(!slot_walk_in_bounds(ns, ps, i as int));
                    return false;
                }
                match &patched.slots[i] {
                    None => {
                        assert(ps[i as int] is None);
                        assert(slot_walk_in_bounds(ns, ps, i as int));
                        return true;
                    },
                    Some(b) => {
                        if slots_agree_exec(a, b) {
                            i += 1;
                        } else {
                            assert(slot_walk_in_bounds(ns, ps, i as int));
                            return true;
                        }
                    },
                }
            },
        }
    }
    true
}

/// Tells whether `compare_versions` can be carried out on the two replicas:
/// where every component before the log agrees, the log comparison must stay
/// within the patched log.
pub fn comparison_defined(normal: &ReplicaSnapshot, patched: &ReplicaSnapshot) -> (r: bool)
    ensures
        r == (agree_before_log(*normal, *patched) ==> logs_comparable(normal.log, patched.log)),
{
    let before_log = normal.id == patched.id && normal.low_mark == patched.low_mark
        && normal.next_sequence == patched.next_sequence && normal.last_commit == patched.last_commit
        && normal.view == patched.view && compare_state(&normal.state, &patched.state)
        && compare_request(&normal.requests, &patched.requests)
        && compare_request_batch(&normal.instances, &patched.instances);
    !before_log || logs_can_be_compared(&normal.log, &patched.log)
}

/// Compares a replica with its patched copy and names the first component in
/// which they differ, or `None` where they agree in every component.
pub fn compare_versions(normal: &ReplicaSnapshot, patched: &ReplicaSnapshot) -> (r: Option<Divergence>)
    requires
        agree_before_log(*normal, *patched) ==> logs_comparable(normal.log, patched.log),
    ensures
        r == first_divergence(*normal, *patched),
{
    if normal.id != patched.id {
        return Some(Divergence::Id);
    }
    if normal.low_mark != patched.low_mark {
        return Some(Divergence::LowMark);
    }
    if normal.next_sequence != patched.next_sequence {
        return Some(Divergence::NextSequence);
    }
    if normal.last_commit != patched.last_commit {
        return Some(Divergence::LastCommit);
    }
    if normal.view != patched.view {
        return Some(Divergence::View);
    }
    if !compare_state(&normal.state, &patched.state) {
        return Some(Divergence::State);
    }
    if !compare_request(&normal.requests, &patched.requests) {
        return Some(Divergence::Requests);
    }
    if !compare_request_batch(&normal.instances, &patched.instances) {
        return Some(Divergence::Instances);
    }
    if !compare_log(&normal.log, &patched.log) {
        return Some(Divergence::Log);
    }
    if !compare_checkpoint(&normal.checkpoints, &patched.checkpoints) {
        return Some(Divergence::Checkpointing);
    }
    None
}

// ---------------------------------------------------------------------------
// Laws of the comparison.
// ---------------------------------------------------------------------------

/// Every state that the snapshot holds is one the comparison recognises: the
/// view state is regular or a view change, and no batch or filled slot is in
/// an unrecognised state.
pub open spec fn phases_recognised(s: ReplicaSnapshot) -> bool {
    &&& (s.state.is_regular || s.state.is_view_change)
    &&& forall|i: int| 0 <= i < s.instances@.len() ==> (#[trigger] s.instances@[i]).state !is Other
    &&& forall|i: int|
        0 <= i < s.log.slots@.len() ==> match #[trigger] s.log.slots@[i] {
            Some(slot) => !(slot.state is Other),
            None => true,
        }
}

proof fn lemma_slot_walk_on_itself(slots: Seq<Option<SlotSummary>>, i: int)
    requires
        0 <= i,
        forall|k: int| 0 <= k < slots.len() ==> match #[trigger] slots[k] {
            Some(slot) => !(slot.state is Other),
            None => true,
        },
    ensures
        slot_walk(slots, slots, i),
        slot_walk_in_bounds(slots, slots, i),
    decreases slots.len() - i,
{
    if i < slots.len() {
        match slots[i] {
            Some(slot) => {
                lemma_slot_walk_on_itself(slots, i + 1);
            },
            None => {},
        }
    }
}

/// A replica compared with an identical copy of itself is never reported as
/// diverging, provided every state it holds is one that the comparison
/// recognises; and the comparison can always be carried out.
pub proof fn lemma_identical_replicas_agree(s: ReplicaSnapshot)
    requires
        phases_recognised(s),
    ensures
        logs_comparable(s.log, s.log),
        first_divergence(s, s) is None,
{
    lemma_slot_walk_on_itself(s.log.slots@, 0);
    assert forall|i: int| 0 <= i < s.requests@.len() implies has_matching_request(
        #[trigger] s.requests@[i],
        s.requests@,
    ) by {
        assert(request_entries_match(s.requests@[i], s.requests@[i]));
    }
    assert forall|i: int| 0 <= i < s.instances@.len() implies has_matching_batch(
        #[trigger] s.instances@[i],
        s.instances@,
    ) by {
        assert(batch_entries_match(s.instances@[i], s.instances@[i]));
    }
}

proof fn lemma_requests_agree_transfer(
    normal: Seq<RequestEntry>,
    patched: Seq<RequestEntry>,
    normal2: Seq<RequestEntry>,
    patched2: Seq<RequestEntry>,
)
    requires
        requests_agree(normal, patched),
        normal2.len() == normal.len(),
        patched2.len() == patched.len(),
        forall|x: RequestEntry| normal2.contains(x) ==> normal.contains(x),
        forall|x: RequestEntry| patched.contains(x) ==> patched2.contains(x),
    ensures
        requests_agree(normal2, patched2),
{
    assert forall|i: int| 0 <= i < normal2.len() implies has_matching_request(
        #[trigger] normal2[i],
        patched2,
    ) by {
        assert(normal2.contains(normal2[i]));
        let k: int = choose|k: int| 0 <= k < normal.len() && normal[k] == normal2[i];
        assert(has_matching_request(normal[k], patched));
        let j: int = choose|j: int| 0 <= j < patched.len() && request_entries_match(normal[k], patched[j]);
        assert(patched.contains(patched[j]));
        let j2: int = choose|j2: int| 0 <= j2 < patched2.len() && patched2[j2] == patched[j];
        assert(request_entries_match(normal2[i], patched2[j2]));
    }
}

/// The verdict on the request tables does not depend on the order in which
/// the tables are walked: reordering either table leaves it unchanged.
pub proof fn lemma_request_verdict_ignores_walk_order(
    normal: Seq<RequestEntry>,
    patched: Seq<RequestEntry>,
    normal2: Seq<RequestEntry>,
    patched2: Seq<RequestEntry>,
)
    requires
        normal.to_multiset() == normal2.to_multiset(),
        patched.to_multiset() == patched2.to_multiset(),
    ensures
        requests_agree(normal, patched) == requests_agree(normal2, patched2),
{
    normal.to_multiset_ensures();
    normal2.to_multiset_ensures();
    patched.to_multiset_ensures();
    patched2.to_multiset_ensures();
    assert(normal.len() == normal2.len());
    assert(patched.len() == patched2.len());
    assert forall|x: RequestEntry| normal.contains(x) <==> normal2.contains(x) by {
        assert(normal.contains(x) <==> normal.to_multiset().count(x) > 0);
        assert(normal2.contains(x) <==> normal2.to_multiset().count(x) > 0);
    }
    assert forall|x: RequestEntry| patched.contains(x) <==> patched2.contains(x) by {
        assert(patched.contains(x) <==> patched.to_multiset().count(x) > 0);
        assert(patched2.contains(x) <==> patched2.to_multiset().count(x) > 0);
    }
    if requests_agree(normal, patched) {
        lemma_requests_agree_transfer(normal, patched, normal2, patched2);
    }
    if requests_agree(normal2, patched2) {
        lemma_requests_agree_transfer(normal2, patched2, normal, patched);
    }
}

proof fn lemma_batches_agree_transfer(
    normal: Seq<BatchEntry>,
    patched: Seq<BatchEntry>,
    normal2: Seq<BatchEntry>,
    patched2: Seq<BatchEntry>,
)
    requires
        batches_agree(normal, patched),
        normal2.len() == normal.len(),
        patched2.len() == patched.len(),
        forall|x: BatchEntry| normal2.contains(x) ==> normal.contains(x),
        forall|x: BatchEntry| patched.contains(x) ==> patched2.contains(x),
    ensures
        batches_agree(normal2, patched2),
{
    assert forall|i: int| 0 <= i < normal2.len() implies has_matching_batch(
        #[trigger] normal2[i],
        patched2,
    ) by {
        assert(normal2.contains(normal2[i]));
        let k: int = choose|k: int| 0 <= k < normal.len() && normal[k] == normal2[i];
        assert(has_matching_batch(normal[k], patched));
        let j: int = choose|j: int| 0 <= j < patched.len() && batch_entries_match(normal[k], patched[j]);
        assert(patched.contains(patched[j]));
        let j2: int = choose|j2: int| 0 <= j2 < patched2.len() && patched2[j2] == patched[j];
        assert(batch_entries_match(normal2[i], patched2[j2]));
    }
}

/// The verdict on the batch tables does not depend on the order in which the
/// tables are walked: reordering either table leaves it unchanged.
pub proof fn lemma_batch_verdict_ignores_walk_order(
    normal: Seq<BatchEntry>,
    patched: Seq<BatchEntry>,
    normal2: Seq<BatchEntry>,
    patched2: Seq<BatchEntry>,
)
    requires
        normal.to_multiset() == normal2.to_multiset(),
        patched.to_multiset() == patched2.to_multiset(),
    ensures
        batches_agree(normal, patched) == batches_agree(normal2, patched2),
{
    normal.to_multiset_ensures();
    normal2.to_multiset_ensures();
    patched.to_multiset_ensures();
    patched2.to_multiset_ensures();
    assert(normal.len() == normal2.len());
    assert(patched.len() == patched2.len());
    assert forall|x: BatchEntry| normal.contains(x) <==> normal2.contains(x) by {
        assert(normal.contains(x) <==> normal.to_multiset().count(x) > 0);
        assert(normal2.contains(x) <==> normal2.to_multiset().count(x) > 0);
    }
    assert forall|x: BatchEntry| patched.contains(x) <==> patched2.contains(x) by {
        assert(patched.contains(x) <==> patched.to_multiset().count(x) > 0);
        assert(patched2.contains(x) <==> patched2.to_multiset().count(x) > 0);
    }
    if batches_agree(normal, patched) {
        lemma_batches_agree_transfer(normal, patched, normal2, patched2);
    }
    if batches_agree(normal2, patched2) {
        lemma_batches_agree_transfer(normal2, patched2, normal, patched);
    }
}

proof fn lemma_walk_ignores_slots_after_gap(
    normal: Seq<Option<SlotSummary>>,
    patched: Seq<Option<SlotSummary>>,
    normal2: Seq<Option<SlotSummary>>,
    patched2: Seq<Option<SlotSummary>>,
    gap: int,
    k: int,
)
    requires
        0 <= k <= gap < normal.len(),
        normal[gap] is None || (gap < patched.len() && patched[gap] is None),
        normal2.len() == normal.len(),
        patched2.len() == patched.len(),
        forall|j: int| 0 <= j <= gap ==> #[trigger] normal2[j] == normal[j],
        forall|j: int| 0 <= j <= gap && j < patched.len() ==> #[trigger] patched2[j] == patched[j],
        slot_walk_in_bounds(normal, patched, k),
    ensures
        slot_walk(normal, patched, k) == slot_walk(normal2, patched2, k),
        slot_walk_in_bounds(normal2, patched2, k),
    decreases gap - k,
{
    assert(normal2[k] == normal[k]);
    match normal[k] {
        None => {},
        Some(a) => {
            assert(k < patched.len());
            assert(patched2[k] == patched[k]);
            match patched[k] {
                None => {},
                Some(b) => {
                    if k == gap {
                    } else if slots_agree(a, b) {
                        lemma_walk_ignores_slots_after_gap(normal, patched, normal2, patched2, gap, k + 1);
                    }
                },
            }
        },
    }
}

/// The log comparison reads no slot after the first slot that is empty in
/// either log: changing any later slot, in either log, leaves the verdict
/// unchanged (and the comparison still stays within the patched log).
pub proof fn lemma_log_verdict_ignores_slots_after_gap(
    normal: OrderingLogSummary,
    patched: OrderingLogSummary,
    normal2: OrderingLogSummary,
    patched2: OrderingLogSummary,
    gap: int,
)
    requires
        logs_comparable(normal, patched),
        0 <= gap < normal.slots@.len(),
        normal.slots@[gap] is None || (gap < patched.slots@.len() && patched.slots@[gap] is None),
        normal2.old_views == normal.old_views,
        normal2.current_view_len == normal.current_view_len,
        patched2.old_views == patched.old_views,
        patched2.current_view_len == patched.current_view_len,
        normal2.slots@.len() == normal.slots@.len(),
        patched2.slots@.len() == patched.slots@.len(),
        forall|j: int| 0 <= j <= gap ==> #[trigger] normal2.slots@[j] == normal.slots@[j],
        forall|j: int|
            0 <= j <= gap && j < patched.slots@.len() ==> #[trigger] patched2.slots@[j] == patched.slots@[j],
    ensures
        logs_agree(normal, patched) == logs_agree(normal2, patched2),
        logs_comparable(normal2, patched2),
{
    if normal.old_views == patched.old_views && normal.current_view_len == patched.current_view_len {
        lemma_walk_ignores_slots_after_gap(normal.slots@, patched.slots@, normal2.slots@, patched2.slots@, gap, 0);
    }
}

/// Two snapshots read the same replica state: every component is equal,
/// except that request payloads need only hold the same bytes.
pub open spec fn same_reading(a: ReplicaSnapshot, b: ReplicaSnapshot) -> bool {
    &&& a.id == b.id
    &&& a.low_mark == b.low_mark
    &&& a.next_sequence == b.next_sequence
    &&& a.last_commit == b.last_commit
    &&& a.view == b.view
    &&& a.state == b.state
    &&& a.requests@.len() == b.requests@.len()
    &&& forall|i: int|
        0 <= i < a.requests@.len() ==> request_entries_match(#[trigger] a.requests@[i], b.requests@[i])
    &&& a.instances@ == b.instances@
    &&& a.log.old_views == b.log.old_views
    &&& a.log.current_view_len == b.log.current_view_len
    &&& a.log.slots@ == b.log.slots@
    &&& a.checkpoints@ == b.checkpoints@
}

proof fn lemma_requests_agree_on_same_reading(
    normal: Seq<RequestEntry>,
    patched: Seq<RequestEntry>,
    normal2: Seq<RequestEntry>,
    patched2: Seq<RequestEntry>,
)
    requires
        requests_agree(normal, patched),
        normal2.len() == normal.len(),
        patched2.len() == patched.len(),
        forall|i: int| 0 <= i < normal.len() ==> request_entries_match(#[trigger] normal[i], normal2[i]),
        forall|i: int| 0 <= i < patched.len() ==> request_entries_match(#[trigger] patched[i], patched2[i]),
    ensures
        requests_agree(normal2, patched2),
{
    assert forall|i: int| 0 <= i < normal2.len() implies has_matching_request(
        #[trigger] normal2[i],
        patched2,
    ) by {
        assert(request_entries_match(normal[i], normal2[i]));
        assert(has_matching_request(normal[i], patched));
        let j: int = choose|j: int| 0 <= j < patched.len() && request_entries_match(normal[i], patched[j]);
        assert(request_entries_match(patched[j], patched2[j]));
        assert(request_entries_match(normal2[i], patched2[j]));
    }
}

/// The comparison's outcome is a function of what the two snapshots read:
/// comparing two readings of the same pair of replica states gives the same
/// verdict, and it can be carried out on one reading exactly when it can on
/// the other.
pub proof fn lemma_comparison_depends_only_on_readings(
    normal: ReplicaSnapshot,
    patched: ReplicaSnapshot,
    normal2: ReplicaSnapshot,
    patched2: ReplicaSnapshot,
)
    requires
        same_reading(normal, normal2),
        same_reading(patched, patched2),
    ensures
        first_divergence(normal, patched) == first_divergence(normal2, patched2),
        agree_before_log(normal, patched) == agree_before_log(normal2, patched2),
        logs_comparable(normal.log, patched.log) == logs_comparable(normal2.log, patched2.log),
{
    let n = normal.requests@;
    let p = patched.requests@;
    let n2 = normal2.requests@;
    let p2 = patched2.requests@;
    assert forall|i: int| 0 <= i < n2.len() implies request_entries_match(#[trigger] n2[i], n[i]) by {
        assert(request_entries_match(n[i], n2[i]));
    }
    assert forall|i: int| 0 <= i < p2.len() implies request_entries_match(#[trigger] p2[i], p[i]) by {
        assert(request_entries_match(p[i], p2[i]));
    }
    if requests_agree(n, p) {
        lemma_requests_agree_on_same_reading(n, p, n2, p2);
    }
    if requests_agree(n2, p2) {
        lemma_requests_agree_on_same_reading(n2, p2, n, p);
    }
}

/// The view states agree exactly when both are regular or both are in a view
/// change.
pub proof fn lemma_view_state_agreement(normal: ViewStateFlags, patched: ViewStateFlags)
    ensures
        states_agree(normal, patched) <==> ((normal.is_regular && patched.is_regular) || (
        normal.is_view_change && patched.is_view_change)),
{
}

/// `patched` holds a request with the sequence number and the payload bytes
/// of `entry`.
pub open spec fn request_found_in(entry: RequestEntry, patched: Seq<RequestEntry>) -> bool {
    exists|j: int|
        0 <= j < patched.len() && (#[trigger] patched[j]).sequence == entry.sequence
            && bytes_contents(patched[j].payload) == bytes_contents(entry.payload)
}

/// Every request of `normal` is found in `patched`.
pub open spec fn every_request_found(normal: Seq<RequestEntry>, patched: Seq<RequestEntry>) -> bool {
    forall|i: int| 0 <= i < normal.len() ==> request_found_in(#[trigger] normal[i], patched)
}

proof fn lemma_agree_finds_requests(normal: Seq<RequestEntry>, patched: Seq<RequestEntry>)
    requires
        requests_agree(normal, patched),
    ensures
        every_request_found(normal, patched),
{
    assert forall|i: int| 0 <= i < normal.len() implies request_found_in(#[trigger] normal[i], patched) by {
        assert(has_matching_request(normal[i], patched));
        let j: int = choose|j: int| 0 <= j < patched.len() && request_entries_match(normal[i], #[trigger] patched[j]);
        assert(request_entries_match(normal[i], patched[j]));
        assert(patched[j].sequence == normal[i].sequence);
        assert(bytes_contents(patched[j].payload) == bytes_contents(normal[i].payload));
    }
}

proof fn lemma_found_requests_agree(normal: Seq<RequestEntry>, patched: Seq<RequestEntry>)
    requires
        normal.len() == patched.len(),
        every_request_found(normal, patched),
    ensures
        requests_agree(normal, patched),
{
    assert forall|i: int| 0 <= i < normal.len() implies has_matching_request(#[trigger] normal[i], patched) by {
        assert(request_found_in(normal[i], patched));
        let j: int = choose|j: int|
            0 <= j < patched.len() && (#[trigger] patched[j]).sequence == normal[i].sequence
                && bytes_contents(patched[j].payload) == bytes_contents(normal[i].payload);
        assert(request_entries_match(normal[i], patched[j]));
    }
}

/// The request tables agree exactly when they are equally large and every
/// request of the unpatched replica has, somewhere in the patched table, a
/// request with the same sequence number and the same payload bytes.
pub proof fn lemma_request_table_agreement(normal: Seq<RequestEntry>, patched: Seq<RequestEntry>)
    ensures
        requests_agree(normal, patched) <==> (normal.len() == patched.len() && every_request_found(
            normal,
            patched,
        )),
{
    if requests_agree(normal, patched) {
        lemma_agree_finds_requests(normal, patched);
    }
    if normal.len() == patched.len() && every_request_found(normal, patched) {
        lemma_found_requests_agree(normal, patched);
    }
}

/// The batch tables agree exactly when they are equally large and every
/// batch of the unpatched replica is in a recognised state (open, missing or
/// prepared) and has, somewhere in the patched table, a batch with the same
/// sequence number in the very same state.
pub proof fn lemma_batch_table_agreement(normal: Seq<BatchEntry>, patched: Seq<BatchEntry>)
    ensures
        batches_agree(normal, patched) <==> {
            &&& normal.len() == patched.len()
            &&& forall|i: int|
                0 <= i < normal.len() ==> (#[trigger] normal[i]).state !is Other && exists|j: int|
                    0 <= j < patched.len() && (#[trigger] patched[j]).sequence == normal[i].sequence
                        && patched[j].state == normal[i].state
        },
{
    if batches_agree(normal, patched) {
        assert forall|i: int| 0 <= i < normal.len() implies (#[trigger] normal[i]).state !is Other
            && exists|j: int|
            0 <= j < patched.len() && (#[trigger] patched[j]).sequence == normal[i].sequence
                && patched[j].state == normal[i].state by {
            assert(has_matching_batch(normal[i], patched));
            let j: int = choose|j: int| 0 <= j < patched.len() && batch_entries_match(normal[i], patched[j]);
            assert(patched[j].sequence == normal[i].sequence);
        }
    }
    if normal.len() == patched.len() && forall|i: int|
        0 <= i < normal.len() ==> (#[trigger] normal[i]).state !is Other && exists|j: int|
            0 <= j < patched.len() && (#[trigger] patched[j]).sequence == normal[i].sequence
                && patched[j].state == normal[i].state {
        assert forall|i: int| 0 <= i < normal.len() implies has_matching_batch(
            #[trigger] normal[i],
            patched,
        ) by {
            assert(normal[i].state !is Other);
            let j: int = choose|j: int|
                0 <= j < patched.len() && (#[trigger] patched[j]).sequence == normal[i].sequence
                    && patched[j].state == normal[i].state;
            assert(batch_entries_match(normal[i], patched[j]));
        }
    }
}

/// The checkpoint tables agree exactly when they hold equally many keys and
/// the keys are equal position by position.
pub proof fn lemma_checkpoint_agreement(normal: Seq<u64>, patched: Seq<u64>)
    ensures
        checkpoints_agree(normal, patched) <==> (normal.len() == patched.len() && forall|k: int|
            0 <= k < normal.len() ==> normal[k] == patched[k]),
{
    if normal.len() == patched.len() && forall|k: int| 0 <= k < normal.len() ==> normal[k] == patched[k] {
        assert(normal =~= patched);
    }
}

proof fn lemma_walk_reaches(
    normal: Seq<Option<SlotSummary>>,
    patched: Seq<Option<SlotSummary>>,
    k: int,
    i: int,
)
    requires
        0 <= k <= i < normal.len(),
        i < patched.len(),
        slot_walk(normal, patched, k),
        forall|j: int| 0 <= j <= i ==> (#[trigger] normal[j]) is Some && patched[j] is Some,
    ensures
        slots_agree(normal[i]->0, patched[i]->0),
    decreases i - k,
{
    assert(normal[k] is Some && patched[k] is Some);
    if k < i {
        lemma_walk_reaches(normal, patched, k + 1, i);
    }
}

/// Where the logs are said to agree, they keep equally many old views,
/// report equal current-view lengths, and every pair of slots before the
/// first empty one holds the same recognised state (open, prepared or
/// committed), the same numbers of commits and prepares, and a pre-prepare in
/// both or in neither.
pub proof fn lemma_agreeing_logs_match_before_first_gap(
    normal: OrderingLogSummary,
    patched: OrderingLogSummary,
    i: int,
)
    requires
        logs_agree(normal, patched),
        0 <= i < normal.slots@.len(),
        i < patched.slots@.len(),
        forall|j: int| 0 <= j <= i ==> (#[trigger] normal.slots@[j]) is Some && patched.slots@[j] is Some,
    ensures
        normal.old_views == patched.old_views,
        normal.current_view_len == patched.current_view_len,
        normal.slots@[i]->0.state == patched.slots@[i]->0.state,
        normal.slots@[i]->0.state !is Other,
        normal.slots@[i]->0.commits == patched.slots@[i]->0.commits,
        normal.slots@[i]->0.prepares == patched.slots@[i]->0.prepares,
        normal.slots@[i]->0.has_pre_prepare == patched.slots@[i]->0.has_pre_prepare,
{
    lemma_walk_reaches(normal.slots@, patched.slots@, 0, i);
}

proof fn lemma_walk_succeeds(normal: Seq<Option<SlotSummary>>, patched: Seq<Option<SlotSummary>>, k: int)
    requires
        0 <= k,
        normal.len() <= patched.len(),
        forall|i: int|
            0 <= i < normal.len() && (#[trigger] normal[i]) is Some && patched[i] is Some ==> {
                let a = normal[i]->0;
                let b = patched[i]->0;
                &&& a.state == b.state
                &&& a.state !is Other
                &&& a.commits == b.commits
                &&& a.prepares == b.prepares
                &&& a.has_pre_prepare == b.has_pre_prepare
            },
    ensures
        slot_walk(normal, patched, k),
    decreases normal.len() - k,
{
    if k < normal.len() {
        if normal[k] is Some && patched[k] is Some {
            lemma_walk_succeeds(normal, patched, k + 1);
        }
    }
}

/// Logs agree when their headers match and, at every position of the
/// unpatched log that the patched log also has filled, both slots hold the
/// same recognised state, the same numbers of commits and prepares, and a
/// pre-prepare in both or in neither.
pub proof fn lemma_logs_agree_when_filled_slots_match(normal: OrderingLogSummary, patched: OrderingLogSummary)
    requires
        normal.old_views == patched.old_views,
        normal.current_view_len == patched.current_view_len,
        normal.slots@.len() <= patched.slots@.len(),
        forall|i: int|
            0 <= i < normal.slots@.len() && (#[trigger] normal.slots@[i]) is Some && patched.slots@[i] is Some
                ==> {
                let a = normal.slots@[i]->0;
                let b = patched.slots@[i]->0;
                &&& a.state == b.state
                &&& a.state !is Other
                &&& a.commits == b.commits
                &&& a.prepares == b.prepares
                &&& a.has_pre_prepare == b.has_pre_prepare
            },
    ensures
        logs_agree(normal, patched),
{
    lemma_walk_succeeds(normal.slots@, patched.slots@, 0);
}

/// The reported component is the first one that differs, in the order id,
/// low mark, next sequence, last commit, view, view state, requests, batches,
/// log, checkpoints; nothing is reported exactly when all of them agree.
pub proof fn lemma_divergence_order(normal: ReplicaSnapshot, patched: ReplicaSnapshot)
    ensures
        (first_divergence(normal, patched) == Some(Divergence::Id)) <==> normal.id != patched.id,
        (first_divergence(normal, patched) == Some(Divergence::LowMark)) <==> (normal.id == patched.id
            && normal.low_mark != patched.low_mark),
        (first_divergence(normal, patched) == Some(Divergence::NextSequence)) <==> (normal.id == patched.id
            && normal.low_mark == patched.low_mark && normal.next_sequence != patched.next_sequence),
        (first_divergence(normal, patched) == Some(Divergence::LastCommit)) <==> (normal.id == patched.id
            && normal.low_mark == patched.low_mark && normal.next_sequence == patched.next_sequence
            && normal.last_commit != patched.last_commit),
        (first_divergence(normal, patched) == Some(Divergence::View)) <==> (normal.id == patched.id
            && normal.low_mark == patched.low_mark && normal.next_sequence == patched.next_sequence
            && normal.last_commit == patched.last_commit && normal.view != patched.view),
        (first_divergence(normal, patched) == Some(Divergence::State)) <==> (normal.id == patched.id
            && normal.low_mark == patched.low_mark && normal.next_sequence == patched.next_sequence
            && normal.last_commit == patched.last_commit && normal.view == patched.view
            && !states_agree(normal.state, patched.state)),
        (first_divergence(normal, patched) == Some(Divergence::Requests)) <==> (normal.id == patched.id
            && normal.low_mark == patched.low_mark && normal.next_sequence == patched.next_sequence
            && normal.last_commit == patched.last_commit && normal.view == patched.view
            && states_agree(normal.state, patched.state)
            && !requests_agree(normal.requests@, patched.requests@)),
        (first_divergence(normal, patched) == Some(Divergence::Instances)) <==> (normal.id == patched.id
            && normal.low_mark == patched.low_mark && normal.next_sequence == patched.next_sequence
            && normal.last_commit == patched.last_commit && normal.view == patched.view
            && states_agree(normal.state, patched.state)
            && requests_agree(normal.requests@, patched.requests@)
            && !batches_agree(normal.instances@, patched.instances@)),
        (first_divergence(normal, patched) == Some(Divergence::Log)) <==> (agree_before_log(normal, patched)
            && !logs_agree(normal.log, patched.log)),
        (first_divergence(normal, patched) == Some(Divergence::Checkpointing)) <==> (agree_before_log(
            normal,
            patched,
        ) && logs_agree(normal.log, patched.log) && !checkpoints_agree(
            normal.checkpoints@,
            patched.checkpoints@,
        )),
        (first_divergence(normal, patched) is None) <==> (agree_before_log(normal, patched) && logs_agree(
            normal.log,
            patched.log,
        ) && checkpoints_agree(normal.checkpoints@, patched.checkpoints@)),
{
}

} // verus!
