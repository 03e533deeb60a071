//! The twenty bytes that are hashed: a 128-bit counter followed by a 32-bit
//! worker tag, both little-endian.

use vstd::prelude::*;
use crate::little_endian::{
    decode, le_bytes, le_value, lemma_le_bytes_len, lemma_le_bytes_of_value, lemma_le_value_bound,
    lemma_le_value_of_bytes, lemma_span_values, span,
};

verus! {

/// Length of a candidate in bytes.
pub const CANDIDATE_LEN: usize = 20;

/// Length of the counter at the front of a candidate.
pub const COUNTER_LEN: usize = 16;

/// The counter that the first sixteen bytes of `candidate` spell.
pub open spec fn counter_of(candidate: Seq<u8>) -> nat {
    le_value(candidate.subrange(0, COUNTER_LEN as int))
}

/// The worker tag that the last four bytes of `candidate` spell.
pub open spec fn tag_of(candidate: Seq<u8>) -> nat {
    le_value(candidate.subrange(COUNTER_LEN as int, CANDIDATE_LEN as int))
}

/// The candidate that holds `counter` and `tag`.
pub open spec fn candidate_of(counter: u128, tag: u32) -> Seq<u8> {
    le_bytes(counter as nat, 16) + le_bytes(tag as nat, 4)
}

/// A candidate built from a counter and a tag has twenty bytes and gives
/// both numbers back.
pub proof fn lemma_candidate_parts(counter: u128, tag: u32)
    ensures
        candidate_of(counter, tag).len() == CANDIDATE_LEN,
        counter_of(candidate_of(counter, tag)) == counter,
        tag_of(candidate_of(counter, tag)) == tag,
        candidate_of(counter, tag).subrange(0, 16) == le_bytes(counter as nat, 16),
        candidate_of(counter, tag).subrange(16, 20) == le_bytes(tag as nat, 4),
{
    let c = candidate_of(counter, tag);
    lemma_le_bytes_len(counter as nat, 16);
    lemma_le_bytes_len(tag as nat, 4);
    assert(c.subrange(0, 16) =~= le_bytes(counter as nat, 16));
    assert(c.subrange(16, 20) =~= le_bytes(tag as nat, 4));
    lemma_le_value_of_bytes(counter as nat, 16);
    lemma_le_value_of_bytes(tag as nat, 4);
    lemma_span_values();
    vstd::arithmetic::div_mod::lemma_small_mod(counter as nat, span(16));
    vstd::arithmetic::div_mod::lemma_small_mod(tag as nat, span(4));
}

/// Twenty bytes are the candidate of the counter and the tag that they spell.
pub proof fn lemma_candidate_of_parts(candidate: Seq<u8>)
    requires
        candidate.len() == CANDIDATE_LEN,
    ensures
        counter_of(candidate) <= u128::MAX,
        tag_of(candidate) <= u32::MAX,
        candidate_of(counter_of(candidate) as u128, tag_of(candidate) as u32) == candidate,
{
    let front = candidate.subrange(0, 16);
    let back = candidate.subrange(16, 20);
    lemma_le_value_bound(front);
    lemma_le_value_bound(back);
    lemma_span_values();
    lemma_le_bytes_of_value(front);
    lemma_le_bytes_of_value(back);
    assert(front + back =~= candidate);
}

/// Candidates are equal only if their counters and their tags are.
pub proof fn lemma_candidate_injective(c1: u128, t1: u32, c2: u128, t2: u32)
    requires
        candidate_of(c1, t1) == candidate_of(c2, t2),
    ensures
        c1 == c2,
        t1 == t2,
{
    lemma_candidate_parts(c1, t1);
    lemma_candidate_parts(c2, t2);
}

/// Writes `counter` and `tag` out as a candidate.
pub fn assemble(counter: u128, tag: u32) -> (candidate: [u8; 20])
    ensures
        candidate@ == candidate_of(counter, tag),
{
    let mut candidate = [0u8; 20];
    let mut rest: u128 = counter;
    let mut i: usize = 0;
    while i < 16
        invariant
            i <= 16,
            candidate@.subrange(0, i as int) + le_bytes(rest as nat, (16 - i) as nat) == le_bytes(
                counter as nat,
                16,
            ),
        decreases 16 - i,
    {
        let ghost before = candidate@;
        candidate[i] = (rest % 256) as u8;
        proof {
            let tail = le_bytes((rest / 256) as nat, (16 - i - 1) as nat);
            assert(le_bytes(rest as nat, (16 - i) as nat) == seq![(rest % 256) as u8] + tail);
            assert(candidate@.subrange(0, i + 1) + tail =~= before.subrange(0, i as int) + (seq![
                (rest % 256) as u8,
            ] + tail));
        }
        rest = rest / 256;
        i = i + 1;
    }
    let mut rest: u32 = tag;
    assert(candidate@.subrange(0, 16) =~= le_bytes(counter as nat, 16));
    while i < 20
        invariant
            16 <= i <= 20,
            candidate@.subrange(0, 16) == le_bytes(counter as nat, 16),
            candidate@.subrange(16, i as int) + le_bytes(rest as nat, (20 - i) as nat) == le_bytes(
                tag as nat,
                4,
            ),
        decreases 20 - i,
    {
        let ghost before = candidate@;
        candidate[i] = (rest % 256) as u8;
        proof {
            let tail = le_bytes((rest / 256) as nat, (20 - i - 1) as nat);
            assert(le_bytes(rest as nat, (20 - i) as nat) == seq![(rest % 256) as u8] + tail);
            assert(candidate@.subrange(16, i + 1) + tail =~= before.subrange(16, i as int) + (seq![
                (rest % 256) as u8,
            ] + tail));
            assert(candidate@.subrange(0, 16) =~= before.subrange(0, 16));
        }
        rest = rest / 256;
        i = i + 1;
    }
    assert(candidate@ =~= candidate@.subrange(0, 16) + candidate@.subrange(16, 20));
    assert(candidate@.subrange(16, 20) =~= le_bytes(tag as nat, 4));
    candidate
}

/// Reads the counter at the front of a candidate.
pub fn counter(candidate: &[u8; 20]) -> (value: u128)
    ensures
        value == counter_of(candidate@),
{
    decode(&candidate[0..16])
}

/// Reads the worker tag at the back of a candidate.
pub fn tag(candidate: &[u8; 20]) -> (value: u32)
    ensures
        value == tag_of(candidate@),
{
    let back = &candidate[16..20];
    proof {
        lemma_le_value_bound(back@);
        lemma_span_values();
    }
    decode(back) as u32
}

} // verus!
