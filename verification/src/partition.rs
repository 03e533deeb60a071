//! Where the workers start: one candidate per worker, spread over the whole
//! space of counters and tags without any talk between the workers.
//!
//! The seed is repeated to twenty bytes and read as a counter and a tag. The
//! worker with index `i` starts `i + 1` strides further on, a stride being
//! the whole range divided by the number of workers, plus the first `i + 1`
//! entries of a fixed table of offsets that is read round and round. All
//! sums wrap.

use vstd::prelude::*;
use crate::candidate::{
    assemble, candidate_of, counter, counter_of, lemma_candidate_of_parts, tag, tag_of,
};
use crate::error::{Input, WorkError};
use crate::little_endian::{lemma_span_values, span};

verus! {

/// Offsets for the counter, thirteen of them. They carry no meaning; proofs
/// that exist were found from these numbers, so they stay as they are.
pub const BIG_JITTER: [u128; 13] = [
    232948893588309592072343451646495443470u128,
    241772077400251990428921465086427460406u128,
    135466609762431670297680858806122516196u128,
    23843965500601499676577714028275613566u128,
    3980925650203285922593180965914241295u128,
    276996438161600802308531502845602322760u128,
    102314981229339036363969651202596767324u128,
    173696929416818359727323669108240964699u128,
    248234049680437024180525977804398658061u128,
    182129205137478248958828934085226751428u128,
    226858282864963269134484634927244451740u128,
    317700656064443789738604527115780206566u128,
    257667444946452812601551143022268928116u128,
];

/// Offsets for the worker tag, thirteen of them.
pub const SMALL_JITTER: [u32; 13] = [
    2633617217u32,
    1710307616u32,
    3543087939u32,
    3370472175u32,
    2302495969u32,
    1171085216u32,
    3321642826u32,
    3518920782u32,
    1060944841u32,
    2907445434u32,
    2811178615u32,
    2842243822u32,
    563823965u32,
];

/// Sum of the first `n` counter offsets, the table read round and round.
pub open spec fn big_jitter_sum(n: nat) -> nat
    decreases n,
{
    if n == 0 {
        0
    } else {
        big_jitter_sum((n - 1) as nat) + BIG_JITTER@[((n - 1) % 13) as int] as nat
    }
}

/// Sum of the first `n` tag offsets, the table read round and round.
pub open spec fn small_jitter_sum(n: nat) -> nat
    decreases n,
{
    if n == 0 {
        0
    } else {
        small_jitter_sum((n - 1) as nat) + SMALL_JITTER@[((n - 1) % 13) as int] as nat
    }
}

/// A seed that `start_points` accepts: one to twenty bytes.
pub open spec fn valid_seed(seed: Seq<u8>) -> bool {
    1 <= seed.len() <= 20
}

/// The seed repeated until twenty bytes are full.
pub open spec fn fill_seed(seed: Seq<u8>) -> Seq<u8> {
    Seq::new(20, |i: int| seed[i % seed.len() as int])
}

/// The distance between the counters of neighbouring workers, before the
/// offset: the largest counter divided by the number of workers.
pub open spec fn counter_stride(count: nat) -> nat {
    u128::MAX as nat / count
}

/// The distance between the tags of neighbouring workers, before the offset:
/// the largest tag divided by the number of workers, which is zero where
/// there are more workers than tags.
pub open spec fn tag_stride(count: nat) -> nat {
    u32::MAX as nat / count
}

/// The counter reached after `steps` strides from the seed's counter.
pub open spec fn counter_after(seed: Seq<u8>, count: nat, steps: nat) -> u128 {
    ((counter_of(fill_seed(seed)) + steps * counter_stride(count) + big_jitter_sum(steps)) % span(
        16,
    )) as u128
}

/// The tag reached after `steps` strides from the seed's tag.
pub open spec fn tag_after(seed: Seq<u8>, count: nat, steps: nat) -> u32 {
    ((tag_of(fill_seed(seed)) + steps * tag_stride(count) + small_jitter_sum(steps)) % span(4)) as u32
}

/// The candidate at which worker `index` of `count` starts.
pub open spec fn start_candidate(seed: Seq<u8>, count: nat, index: nat) -> Seq<u8> {
    candidate_of(counter_after(seed, count, index + 1), tag_after(seed, count, index + 1))
}

/// Adding a stride and an offset to a sum that was reduced gives the
/// reduced sum of all three.
proof fn lemma_wrapped_step(base: int, stride: int, jitter: int, modulus: int)
    requires
        modulus > 0,
    ensures
        (((base % modulus) + stride) % modulus + jitter) % modulus == (base + stride + jitter)
            % modulus,
{
    let reduced = base % modulus;
    vstd::arithmetic::div_mod::lemma_add_mod_noop_right(jitter, reduced + stride, modulus);
    vstd::arithmetic::div_mod::lemma_add_mod_noop_right(jitter + stride, base, modulus);
}

/// One turn of the loop in `start_points` moves the counter from
/// `counter_after(.., steps)` to `counter_after(.., steps + 1)`.
proof fn lemma_counter_step(seed: Seq<u8>, count: nat, steps: nat, stride: u128, jitter: u128)
    requires
        stride == counter_stride(count),
        jitter == BIG_JITTER@[(steps % 13) as int],
    ensures
        counter_after(seed, count, steps).wrapping_add(stride).wrapping_add(jitter)
            == counter_after(seed, count, steps + 1),
{
    lemma_span_values();
    let base = counter_of(fill_seed(seed)) + steps * counter_stride(count) + big_jitter_sum(steps);
    assert((steps + 1) * counter_stride(count) == steps * counter_stride(count) + counter_stride(
        count,
    )) by (nonlinear_arith);
    assert(big_jitter_sum(steps + 1) == big_jitter_sum(steps) + jitter);
    lemma_wrapped_step(base as int, stride as int, jitter as int, span(16) as int);
}

/// One turn of the loop in `start_points` moves the tag from
/// `tag_after(.., steps)` to `tag_after(.., steps + 1)`.
proof fn lemma_tag_step(seed: Seq<u8>, count: nat, steps: nat, stride: u32, jitter: u32)
    requires
        stride == tag_stride(count),
        jitter == SMALL_JITTER@[(steps % 13) as int],
    ensures
        tag_after(seed, count, steps).wrapping_add(stride).wrapping_add(jitter) == tag_after(
            seed,
            count,
            steps + 1,
        ),
{
    lemma_span_values();
    let base = tag_of(fill_seed(seed)) + steps * tag_stride(count) + small_jitter_sum(steps);
    assert((steps + 1) * tag_stride(count) == steps * tag_stride(count) + tag_stride(count))
        by (nonlinear_arith);
    assert(small_jitter_sum(steps + 1) == small_jitter_sum(steps) + jitter);
    lemma_wrapped_step(base as int, stride as int, jitter as int, span(4) as int);
}

/// Repeats a seed of one to twenty bytes until twenty bytes are full.
fn fill(seed: &[u8]) -> (filled: [u8; 20])
    requires
        valid_seed(seed@),
    ensures
        filled@ == fill_seed(seed@),
{
    let mut filled = [0u8; 20];
    let mut from: usize = 0;
    let mut i: usize = 0;
    while i < 20
        invariant
            i <= 20,
            valid_seed(seed@),
            from < seed@.len(),
            from == (i as int) % (seed@.len() as int),
            forall|k: int| 0 <= k < i ==> filled@[k] == seed@[k % seed@.len() as int],
        decreases 20 - i,
    {
        filled[i] = seed[from];
        proof {
            let n = seed@.len() as int;
            let at = i as int;
            let wrapped = if from + 1 == n {
                0
            } else {
                from + 1
            };
            assert((at + 1) % n == wrapped) by (nonlinear_arith)
                requires
                    n > 0,
                    0 <= at,
                    from == at % n,
                    wrapped == if from + 1 == n {
                        0
                    } else {
                        from + 1
                    },
            ;
        }
        from = if from + 1 == seed.len() {
            0
        } else {
            from + 1
        };
        i = i + 1;
    }
    assert(filled@ =~= fill_seed(seed@));
    filled
}

/// The candidates at which `count` workers start, in the order of the
/// workers, for a seed of one to twenty bytes.
///
/// Any other seed is refused. With no workers there are no candidates.
pub fn start_points(count: usize, seed: &[u8]) -> (r: Result<Vec<[u8; 20]>, WorkError>)
    ensures
        valid_seed(seed@) ==> r is Ok,
        r matches Ok(points) ==> {
            &&& valid_seed(seed@)
            &&& points@.len() == count
            &&& forall|i: int|
                0 <= i < count ==> (#[trigger] points@[i])@ == start_candidate(
                    seed@,
                    count as nat,
                    i as nat,
                )
        },
        r matches Err(e) ==> e == WorkError::InvalidInput(Input::Seed),
{
    if seed.len() == 0 || seed.len() > 20 {
        return Err(WorkError::InvalidInput(Input::Seed));
    }
    let mut points: Vec<[u8; 20]> = Vec::new();
    if count == 0 {
        return Ok(points);
    }
    let filled = fill(seed);
    let mut running_counter: u128 = counter(&filled);
    let mut running_tag: u32 = tag(&filled);
    let counter_step: u128 = u128::MAX / (count as u128);
    let tag_step: u32 = if count > u32::MAX as usize {
        0
    } else {
        u32::MAX / (count as u32)
    };
    proof {
        lemma_span_values();
        lemma_candidate_of_parts(filled@);
        vstd::arithmetic::div_mod::lemma_small_mod(counter_of(filled@), span(16));
        vstd::arithmetic::div_mod::lemma_small_mod(tag_of(filled@), span(4));
        assert(0 * counter_stride(count as nat) == 0) by (nonlinear_arith);
        assert(0 * tag_stride(count as nat) == 0) by (nonlinear_arith);
        if count > u32::MAX {
            vstd::arithmetic::div_mod::lemma_basic_div(u32::MAX as int, count as int);
        }
    }
    let mut slot: usize = 0;
    let mut done: usize = 0;
    while done < count
        invariant
            done <= count,
            slot == (done as int) % 13,
            counter_step == counter_stride(count as nat),
            tag_step == tag_stride(count as nat),
            running_counter == counter_after(seed@, count as nat, done as nat),
            running_tag == tag_after(seed@, count as nat, done as nat),
            points@.len() == done,
            forall|i: int|
                0 <= i < done ==> (#[trigger] points@[i])@ == start_candidate(
                    seed@,
                    count as nat,
                    i as nat,
                ),
        decreases count - done,
    {
        proof {
            lemma_counter_step(seed@, count as nat, done as nat, counter_step, BIG_JITTER[slot as int]);
            lemma_tag_step(seed@, count as nat, done as nat, tag_step, SMALL_JITTER[slot as int]);
        }
        running_counter = running_counter.wrapping_add(counter_step).wrapping_add(BIG_JITTER[slot]);
        running_tag = running_tag.wrapping_add(tag_step).wrapping_add(SMALL_JITTER[slot]);
        points.push(assemble(running_counter, running_tag));
        slot = if slot + 1 == 13 {
            0
        } else {
            slot + 1
        };
        done = done + 1;
    }
    Ok(points)
}

} // verus!
