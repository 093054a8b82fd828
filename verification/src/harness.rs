//! How one fuzz input is read, and how the sequence number of the next
//! message is chosen.
use vstd::prelude::*;
use crate::randomness::gen_range_inclusive;

verus! {

/// The number of message types that the unpatched replica is driven with.
pub const MESSAGE_TYPES: u64 = 13;

/// The fields of one fuzz input.
pub struct FuzzInput {
    /// The message type, the first byte taken modulo the number of types.
    pub msg_type: u64,
    pub source: u64,
    pub destination: u64,
    pub view: u64,
    /// Everything after the four header bytes.
    pub payload: Vec<u8>,
}

/// A fuzz input is used only when it holds more than five bytes.
pub open spec fn input_usable(data: Seq<u8>) -> bool {
    data.len() > 5
}

/// Reads a fuzz input: the message type, source, destination and view from
/// the first four bytes, the payload from the rest; `None` for an input too
/// short to be used.
pub fn decode_fuzz_input(data: &[u8]) -> (r: Option<FuzzInput>)
    ensures
        r is None <==> !input_usable(data@),
        r matches Some(input) ==> {
            &&& input.msg_type == data@[0] as u64 % MESSAGE_TYPES
            &&& input.source == data@[1] as u64
            &&& input.destination == data@[2] as u64
            &&& input.view == data@[3] as u64
            &&& input.payload@ == data@.subrange(4, data@.len() as int)
        },
{
    if data.len() <= 5 {
        return None;
    }
    let first: u64 = data[0] as u64;
    let rest = vstd::slice::slice_subrange(data, 4, data.len());
    Some(FuzzInput {
        msg_type: first % MESSAGE_TYPES,
        source: data[1] as u64,
        destination: data[2] as u64,
        view: data[3] as u64,
        payload: vstd::slice::slice_to_vec(rest),
    })
}

/// The sequence number chosen for a message and the value of the sequence
/// counter afterwards.
pub struct SequenceChoice {
    pub sequence: u64,
    pub next_counter: u64,
}

/// A replayed message takes the given earlier sequence number and leaves the
/// counter alone; a fresh one takes the counter's value and advances it.
pub open spec fn sequence_choice(counter: u64, replay: bool, replayed: u64) -> SequenceChoice {
    if replay {
        SequenceChoice { sequence: replayed, next_counter: counter }
    } else {
        SequenceChoice { sequence: counter, next_counter: (counter + 1) as u64 }
    }
}

pub fn choose_sequence(counter: u64, replay: bool, replayed: u64) -> (r: SequenceChoice)
    requires
        !replay ==> counter < u64::MAX,
    ensures
        r == sequence_choice(counter, replay, replayed),
{
    if replay {
        SequenceChoice { sequence: replayed, next_counter: counter }
    } else {
        SequenceChoice { sequence: counter, next_counter: counter + 1 }
    }
}

/// Chooses the sequence number of the next message: on a replay, a random
/// number no larger than the counter, drawn from `rng`; otherwise the
/// counter's value, with the counter advanced.
pub fn draw_sequence(rng: &mut rand::rngs::ThreadRng, counter: u64, replay: bool) -> (r: SequenceChoice)
    requires
        !replay ==> counter < u64::MAX,
    ensures
        replay ==> r.sequence <= counter && r == sequence_choice(counter, true, r.sequence),
        !replay ==> r == sequence_choice(counter, false, 0),
{
    let replayed: u64 = if replay {
        gen_range_inclusive(rng, 0, counter)
    } else {
        0
    };
    choose_sequence(counter, replay, replayed)
}

/// A replay takes the given number and leaves the counter alone; a fresh
/// message takes the counter's value and advances the counter by one. Either
/// way the counter never goes back, and a replay drawn at most the counter
/// stays at most the counter.
pub proof fn lemma_sequence_choice(counter: u64, replay: bool, replayed: u64)
    requires
        !replay ==> counter < u64::MAX,
    ensures
        replay ==> sequence_choice(counter, replay, replayed).sequence == replayed
            && sequence_choice(counter, replay, replayed).next_counter == counter,
        !replay ==> sequence_choice(counter, replay, replayed).sequence == counter
            && sequence_choice(counter, replay, replayed).next_counter == counter + 1,
        sequence_choice(counter, replay, replayed).next_counter >= counter,
        (replay ==> replayed <= counter) ==> sequence_choice(counter, replay, replayed).sequence <= counter,
{
}

} // verus!
