//! What is read from a timed sample, and how long the GPU may take for it.
use vstd::prelude::*;
use vstd::endian::{endianness, Endian};

verus! {

/// How long one sample may take until its timestamps are there, in nanoseconds.
pub const SUBMISSION_TIMEOUT_NS: u128 = 15_000_000_000;

/// What a timestamp query holds when it was not written.
pub const INVALID_TIMESTAMP: u64 = u64::MAX;

/// Why a sample has no duration.
#[derive(Clone, Copy, Debug, PartialEq, Eq, Structural)]
pub enum ObservationError {
    /// A timestamp was not written.
    InvalidTimestamp,
    /// The sample ended before it began.
    ReversedTimestamps,
}

impl ObservationError {
    /// The text of the error.
    pub open spec fn text(self) -> Seq<char> {
        match self {
            ObservationError::InvalidTimestamp => "invalid GPU timestamp sentinel"@,
            ObservationError::ReversedTimestamps => "GPU timestamps are reversed"@,
        }
    }

    /// Says why the sample has no duration.
    pub fn message(&self) -> (message: &'static str)
        ensures
            message@ == self.text(),
    {
        match self {
            ObservationError::InvalidTimestamp => "invalid GPU timestamp sentinel",
            ObservationError::ReversedTimestamps => "GPU timestamps are reversed",
        }
    }
}

/// The number that `bytes` spell with the least significant byte first.
pub open spec fn little_endian_value(bytes: Seq<u8>) -> int
    decreases bytes.len(),
{
    if bytes.len() == 0 {
        0
    } else {
        bytes[0] + 256 * little_endian_value(bytes.drop_first())
    }
}

/// The number that `bytes` spell in the byte order of the machine.
pub open spec fn native_value(bytes: Seq<u8>) -> int {
    match endianness() {
        Endian::Little => little_endian_value(bytes),
        Endian::Big => little_endian_value(bytes.reverse()),
    }
}

/// The ticks between two timestamps.
pub open spec fn ticks_between(begin: int, end: int) -> Result<int, ObservationError> {
    if begin == INVALID_TIMESTAMP || end == INVALID_TIMESTAMP {
        Err(ObservationError::InvalidTimestamp)
    } else if end < begin {
        Err(ObservationError::ReversedTimestamps)
    } else {
        Ok(end - begin)
    }
}

/// `u64::from_ne_bytes` reads a number in the byte order of the machine.
#[verifier::external_body]
fn native_word(bytes: [u8; 8]) -> (value: u64)
    ensures
        value == native_value(bytes@),
{
    u64::from_ne_bytes(bytes)
}

/// The ticks between two timestamps.
pub fn elapsed_ticks(begin: u64, end: u64) -> (result: Result<u64, ObservationError>)
    ensures
        match (result, ticks_between(begin as int, end as int)) {
            (Ok(ticks), Ok(expected)) => ticks == expected,
            (Err(error), Err(expected)) => error == expected,
            _ => false,
        },
{
    if begin == INVALID_TIMESTAMP || end == INVALID_TIMESTAMP {
        return Err(ObservationError::InvalidTimestamp);
    }
    match end.checked_sub(begin) {
        Some(ticks) => Ok(ticks),
        None => Err(ObservationError::ReversedTimestamps),
    }
}

/// The word at `bytes[from..from + 8]`.
fn word_at(bytes: &Vec<u8>, from: usize) -> (word: u64)
    requires
        from + 8 <= bytes.len(),
    ensures
        word == native_value(bytes@.subrange(from as int, from + 8)),
{
    let word: [u8; 8] = [
        bytes[from],
        bytes[from + 1],
        bytes[from + 2],
        bytes[from + 3],
        bytes[from + 4],
        bytes[from + 5],
        bytes[from + 6],
        bytes[from + 7],
    ];
    assert(word@ =~= bytes@.subrange(from as int, from + 8));
    native_word(word)
}

/// The ticks that a sample took, from what its two timestamp queries hold.
pub fn read_ticks(bytes: &Vec<u8>) -> (result: Result<u64, ObservationError>)
    requires
        bytes.len() >= 16,
    ensures
        match (
            result,
            ticks_between(native_value(bytes@.subrange(0, 8)), native_value(bytes@.subrange(8, 16))),
        ) {
            (Ok(ticks), Ok(expected)) => ticks == expected,
            (Err(error), Err(expected)) => error == expected,
            _ => false,
        },
{
    let begin: u64 = word_at(bytes, 0);
    let end: u64 = word_at(bytes, 8);
    elapsed_ticks(begin, end)
}

/// The time that is left of 15 seconds.
pub open spec fn sample_time_left(elapsed_ns: u128) -> Option<u128> {
    if elapsed_ns < SUBMISSION_TIMEOUT_NS {
        Some((SUBMISSION_TIMEOUT_NS - elapsed_ns) as u128)
    } else {
        None
    }
}

/// The time that is left until a deadline that has not passed.
pub open spec fn warmup_time_left(timeout_ns: u128, elapsed_ns: u128) -> Option<u128> {
    if elapsed_ns <= timeout_ns {
        Some((timeout_ns - elapsed_ns) as u128)
    } else {
        None
    }
}

/// The time that is left for a sample which has taken `elapsed_ns`, if any is left.
pub fn remaining_sample_time(elapsed_ns: u128) -> (left: Option<u128>)
    ensures
        left == if elapsed_ns < SUBMISSION_TIMEOUT_NS {
            Some((SUBMISSION_TIMEOUT_NS - elapsed_ns) as u128)
        } else {
            None
        },
        left == sample_time_left(elapsed_ns),
{
    if elapsed_ns < SUBMISSION_TIMEOUT_NS {
        Some(SUBMISSION_TIMEOUT_NS - elapsed_ns)
    } else {
        None
    }
}

/// The time that is left for a warm-up which has taken `elapsed_ns`, unless its deadline
/// has passed. At the deadline itself no time is left, but it has not passed.
pub fn remaining_warmup_time(timeout_ns: u128, elapsed_ns: u128) -> (left: Option<u128>)
    ensures
        left == if elapsed_ns <= timeout_ns {
            Some((timeout_ns - elapsed_ns) as u128)
        } else {
            None
        },
        left == warmup_time_left(timeout_ns, elapsed_ns),
{
    timeout_ns.checked_sub(elapsed_ns)
}

/// A sample has a duration exactly if both timestamps were written and are in order, and
/// the duration leads from one to the other.
pub proof fn law_durations_lead_from_begin_to_end(begin: u64, end: u64)
    ensures
        match ticks_between(begin as int, end as int) {
            Ok(ticks) => 0 <= ticks < u64::MAX && begin + ticks == end && end != INVALID_TIMESTAMP,
            Err(_) => begin == INVALID_TIMESTAMP || end == INVALID_TIMESTAMP || end < begin,
        },
{
}

/// Two timestamps have a duration exactly if neither is the value of an unwritten query, all
/// bits set, and the second is not before the first; an unwritten one is told first.
pub proof fn law_timestamps_are_judged_in_order(begin: u64, end: u64)
    ensures
        ({
            let unwritten = begin == u64::MAX || end == u64::MAX;
            let outcome = ticks_between(begin as int, end as int);
            &&& outcome == Err::<int, ObservationError>(ObservationError::InvalidTimestamp) <==> unwritten
            &&& outcome == Err::<int, ObservationError>(ObservationError::ReversedTimestamps) <==> !unwritten
                && end < begin
            &&& outcome is Ok <==> !unwritten && begin <= end
        }),
{
}

/// The duration does not depend on when the clock was started.
pub proof fn law_durations_do_not_depend_on_the_origin(begin: int, end: int, shift: int)
    requires
        0 <= begin <= end,
        0 <= shift,
        end + shift < u64::MAX,
    ensures
        ticks_between(begin + shift, end + shift) == ticks_between(begin, end),
        ticks_between(begin, end) == Ok::<int, ObservationError>(end - begin),
{
}

/// What was taken and what is left of a sample are 15 seconds together; at 15 seconds nothing is
/// left.
pub proof fn law_samples_have_fifteen_seconds(elapsed_ns: u128)
    ensures
        sample_time_left(elapsed_ns) is Some <==> elapsed_ns < 15_000_000_000,
        sample_time_left(elapsed_ns) matches Some(left) ==> elapsed_ns + left == 15_000_000_000 && left > 0,
{
}

/// What was taken and what is left of a warm-up are its timeout together, up to the deadline and
/// at the deadline itself.
pub proof fn law_warm_ups_have_their_timeout(timeout_ns: u128, elapsed_ns: u128)
    ensures
        warmup_time_left(timeout_ns, elapsed_ns) is Some <==> elapsed_ns <= timeout_ns,
        warmup_time_left(timeout_ns, elapsed_ns) matches Some(left) ==> elapsed_ns + left == timeout_ns,
{
}

/// Bytes with the least significant one first: a further byte in front adds its own value to 256
/// times the value of the others.
pub proof fn law_bytes_are_worth_their_place(first: u8, rest: Seq<u8>)
    ensures
        little_endian_value(seq![first] + rest) == first + 256 * little_endian_value(rest),
        little_endian_value(Seq::<u8>::empty()) == 0,
{
    assert((seq![first] + rest).drop_first() =~= rest);
}

}
