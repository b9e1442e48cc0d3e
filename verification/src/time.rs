use vstd::prelude::*;
use vstd::bytes::{
    lemma_auto_spec_u64_to_from_le_bytes, spec_u64_from_le_bytes, spec_u64_to_le_bytes,
    spec_u64_to_le_bytes_to_open, u64_from_le_bytes, u64_to_le_bytes,
};
use vstd::slice::slice_subrange;
use crate::config::MICROS_PER_SEC;

verus! {

/// Number of bytes that a `TimeVal` takes in a task's memory.
pub const TIMEVAL_SIZE: usize = 16;

/// A point in time as a task receives it: whole seconds, and the
/// microseconds past them.
#[derive(Clone, Copy, Debug, PartialEq, Eq, Structural)]
pub struct TimeVal {
    pub sec: usize,
    pub usec: usize,
}

impl TimeVal {
    /// The time that a count of microseconds stands for.
    pub open spec fn of_micros(us: usize) -> TimeVal {
        TimeVal { sec: us / MICROS_PER_SEC, usec: us % MICROS_PER_SEC }
    }

    /// The record as it lies in memory: the seconds, then the microseconds,
    /// each a 64-bit word with its lowest byte first.
    pub open spec fn wire(self) -> Seq<u8> {
        spec_u64_to_le_bytes(self.sec as u64) + spec_u64_to_le_bytes(self.usec as u64)
    }

    /// The record that sixteen bytes of memory hold.
    pub open spec fn of_wire(bytes: Seq<u8>) -> TimeVal
        recommends
            bytes.len() == TIMEVAL_SIZE,
    {
        TimeVal {
            sec: spec_u64_from_le_bytes(bytes.subrange(0, 8)) as usize,
            usec: spec_u64_from_le_bytes(bytes.subrange(8, 16)) as usize,
        }
    }

    /// Splits a count of microseconds into seconds and the rest.
    pub fn from_micros(us: usize) -> (time: TimeVal)
        ensures
            time == TimeVal::of_micros(us),
            time.sec * MICROS_PER_SEC + time.usec == us,
            time.usec < MICROS_PER_SEC,
    {
        TimeVal { sec: us / MICROS_PER_SEC, usec: us % MICROS_PER_SEC }
    }

    /// The bytes of the record in the order in which they lie in memory.
    pub fn to_bytes(&self) -> (bytes: Vec<u8>)
        ensures
            bytes@ == self.wire(),
            bytes@.len() == TIMEVAL_SIZE,
    {
        let mut bytes: Vec<u8> = u64_to_le_bytes(self.sec as u64);
        let mut low: Vec<u8> = u64_to_le_bytes(self.usec as u64);
        bytes.append(&mut low);
        bytes
    }

    /// Reads a record back from its bytes. There is none when `bytes` is not
    /// sixteen bytes long or a field does not fit in a machine word.
    pub fn from_bytes(bytes: &[u8]) -> (time: Option<TimeVal>)
        ensures
            time is Some <==> {
                &&& bytes@.len() == TIMEVAL_SIZE
                &&& spec_u64_from_le_bytes(bytes@.subrange(0, 8)) <= usize::MAX
                &&& spec_u64_from_le_bytes(bytes@.subrange(8, 16)) <= usize::MAX
            },
            time matches Some(t) ==> t == TimeVal::of_wire(bytes@),
    {
        if bytes.len() != TIMEVAL_SIZE {
            return None;
        }
        let sec: u64 = u64_from_le_bytes(slice_subrange(bytes, 0, 8));
        let usec: u64 = u64_from_le_bytes(slice_subrange(bytes, 8, 16));
        if sec > usize::MAX as u64 || usec > usize::MAX as u64 {
            return None;
        }
        Some(TimeVal { sec: sec as usize, usec: usec as usize })
    }
}

/// The eight bytes of a 64-bit word with its lowest byte first, byte by byte.
pub proof fn lemma_word_layout(word: u64)
    ensures
        spec_u64_to_le_bytes(word).len() == 8,
        spec_u64_to_le_bytes(word)[0] == word % 0x100,
        spec_u64_to_le_bytes(word)[1] == (word / 0x100) % 0x100,
        spec_u64_to_le_bytes(word)[2] == (word / 0x1_0000) % 0x100,
        spec_u64_to_le_bytes(word)[3] == (word / 0x100_0000) % 0x100,
        spec_u64_to_le_bytes(word)[4] == (word / 0x1_0000_0000) % 0x100,
        spec_u64_to_le_bytes(word)[5] == (word / 0x100_0000_0000) % 0x100,
        spec_u64_to_le_bytes(word)[6] == (word / 0x1_0000_0000_0000) % 0x100,
        spec_u64_to_le_bytes(word)[7] == (word / 0x100_0000_0000_0000) % 0x100,
{
    spec_u64_to_le_bytes_to_open(word);
    assert(word & 0xff == word % 0x100) by (bit_vector);
    assert((word >> 8) & 0xff == (word / 0x100) % 0x100) by (bit_vector);
    assert((word >> 16) & 0xff == (word / 0x1_0000) % 0x100) by (bit_vector);
    assert((word >> 24) & 0xff == (word / 0x100_0000) % 0x100) by (bit_vector);
    assert((word >> 32) & 0xff == (word / 0x1_0000_0000) % 0x100) by (bit_vector);
    assert((word >> 40) & 0xff == (word / 0x100_0000_0000) % 0x100) by (bit_vector);
    assert((word >> 48) & 0xff == (word / 0x1_0000_0000_0000) % 0x100) by (bit_vector);
    assert((word >> 56) & 0xff == (word / 0x100_0000_0000_0000) % 0x100) by (bit_vector);
}

/// In memory the seconds fill the first eight bytes of the record and the
/// microseconds the last eight, each as a word with its lowest byte first.
pub proof fn theorem_wire_layout(time: TimeVal)
    ensures
        time.wire().len() == TIMEVAL_SIZE,
        time.wire().subrange(0, 8) == spec_u64_to_le_bytes(time.sec as u64),
        time.wire().subrange(8, 16) == spec_u64_to_le_bytes(time.usec as u64),
{
    lemma_auto_spec_u64_to_from_le_bytes();
}

/// Writing a record to memory and reading it back gives the same record.
pub proof fn lemma_wire_round_trip(time: TimeVal)
    ensures
        time.wire().len() == TIMEVAL_SIZE,
        TimeVal::of_wire(time.wire()) == time,
{
    lemma_auto_spec_u64_to_from_le_bytes();
    theorem_wire_layout(time);
}

} // verus!
