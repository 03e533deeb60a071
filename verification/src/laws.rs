//! What holds of every worker, every step and every call, stated over the
//! views and specification functions that the contracts use.

use vstd::prelude::*;
use crate::candidate::{lemma_candidate_injective, lemma_candidate_parts, tag_of};
use crate::error::WorkError;
use crate::little_endian::{
    le_bytes, lemma_le_bytes_len, lemma_le_value_of_bytes, lemma_span_values, span,
};
use crate::partition::{counter_after, fill_seed, start_candidate, tag_after, valid_seed};
use crate::worker::{init_outcome, start_state, verify_outcome, views, WorkProof, WorkProofView};

verus! {

/// The state after `steps` steps.
pub open spec fn advance_by(state: WorkProofView, steps: nat) -> WorkProofView
    decreases steps,
{
    if steps == 0 {
        state
    } else {
        advance_by(state, (steps - 1) as nat).advance()
    }
}

/// Every worker starts in a state whose parts agree.
pub proof fn lemma_start_state_valid(count: nat, seed: Seq<u8>, hash: Seq<u8>, index: nat)
    requires
        hash.len() == 32,
    ensures
        start_state(count, seed, hash, index).valid(),
{
    lemma_candidate_parts(
        counter_after(seed, count, index + 1),
        tag_after(seed, count, index + 1),
    );
}

/// A step keeps the parts in agreement, the target and the worker tag, and
/// moves the counter on by one, from the largest counter to zero.
pub proof fn lemma_advance(state: WorkProofView)
    requires
        state.valid(),
    ensures
        state.advance().valid(),
        state.advance().target == state.target,
        tag_of(state.advance().candidate) == tag_of(state.candidate),
        state.advance().counter as nat == (state.counter as nat + 1) % span(16),
{
    let next = state.advance();
    lemma_span_values();
    lemma_le_bytes_len(next.counter as nat, 16);
    lemma_le_value_of_bytes(next.counter as nat, 16);
    vstd::arithmetic::div_mod::lemma_small_mod(next.counter as nat, span(16));
    assert(next.candidate.subrange(0, 16) =~= le_bytes(next.counter as nat, 16));
    assert(next.candidate.subrange(16, 20) =~= state.candidate.subrange(16, 20));
}

/// After a step, verifying the new candidate against the same hash gives
/// the difficulty that the step returned.
pub proof fn lemma_verify_after_advance(state: WorkProofView)
    requires
        state.valid(),
    ensures
        verify_outcome(state.advance().candidate, state.target) == Some(
            state.advance().difficulty,
        ),
{
    lemma_advance(state);
}

/// The difficulty that a worker holds is what verifying its candidate
/// against its hash gives.
pub proof fn lemma_difficulty_is_verified(state: WorkProofView)
    requires
        state.valid(),
    ensures
        verify_outcome(state.candidate, state.target) == Some(state.difficulty),
{
}

/// However far a worker goes, its parts agree and its tag is the one it
/// started with.
pub proof fn lemma_tag_stays(state: WorkProofView, steps: nat)
    requires
        state.valid(),
    ensures
        advance_by(state, steps).valid(),
        tag_of(advance_by(state, steps).candidate) == tag_of(state.candidate),
    decreases steps,
{
    if steps > 0 {
        lemma_tag_stays(state, (steps - 1) as nat);
        lemma_advance(advance_by(state, (steps - 1) as nat));
    }
}

/// Two workers with different tags never hold the same candidate, however
/// many steps each has taken.
pub proof fn lemma_workers_never_meet(
    first: WorkProofView,
    second: WorkProofView,
    first_steps: nat,
    second_steps: nat,
)
    requires
        first.valid(),
        second.valid(),
        tag_of(first.candidate) != tag_of(second.candidate),
    ensures
        advance_by(first, first_steps).candidate != advance_by(second, second_steps).candidate,
{
    lemma_tag_stays(first, first_steps);
    lemma_tag_stays(second, second_steps);
}

/// Two workers start at the same candidate only if both their counters and
/// their tags are the same.
pub proof fn lemma_same_start(seed: Seq<u8>, count: nat, i: nat, j: nat)
    requires
        start_candidate(seed, count, i) == start_candidate(seed, count, j),
    ensures
        counter_after(seed, count, i + 1) == counter_after(seed, count, j + 1),
        tag_after(seed, count, i + 1) == tag_after(seed, count, j + 1),
{
    lemma_candidate_injective(
        counter_after(seed, count, i + 1),
        tag_after(seed, count, i + 1),
        counter_after(seed, count, j + 1),
        tag_after(seed, count, j + 1),
    );
}

/// Filling a seed that is already full changes nothing.
pub proof fn lemma_fill_is_idempotent(seed: Seq<u8>)
    requires
        valid_seed(seed),
    ensures
        valid_seed(fill_seed(seed)),
        fill_seed(fill_seed(seed)) == fill_seed(seed),
{
    assert(fill_seed(fill_seed(seed)) =~= fill_seed(seed));
}

/// A seed and the twenty bytes that it fills give the same workers.
pub proof fn lemma_seed_repetition(count: nat, seed: Seq<u8>, hash: Seq<u8>)
    requires
        valid_seed(seed),
    ensures
        init_outcome(count, seed, hash) == init_outcome(count, fill_seed(seed), hash),
{
    lemma_fill_is_idempotent(seed);
    let full = fill_seed(seed);
    if hash.len() == 32 {
        assert forall|i: nat| start_state(count, seed, hash, i) == start_state(count, full, hash, i) by {
        }
        assert(Seq::new(count, |i: int| start_state(count, seed, hash, i as nat)) =~= Seq::new(
            count,
            |i: int| start_state(count, full, hash, i as nat),
        ));
    }
}

/// A seed of one byte gives the same workers as that byte twenty times.
pub proof fn lemma_single_byte_seed(count: nat, byte: u8, hash: Seq<u8>)
    ensures
        init_outcome(count, seq![byte], hash) == init_outcome(
            count,
            Seq::new(20, |i: int| byte),
            hash,
        ),
{
    let short = seq![byte];
    let long = Seq::new(20, |i: int| byte);
    assert(fill_seed(short) =~= long);
    assert(fill_seed(long) =~= long);
    lemma_seed_repetition(count, short, hash);
    lemma_seed_repetition(count, long, hash);
}

/// Two results of `init` for the same arguments hold the same candidates
/// and the same difficulties, worker by worker.
pub proof fn lemma_init_repeatable(
    count: nat,
    seed: Seq<u8>,
    hash: Seq<u8>,
    first: Seq<WorkProof>,
    second: Seq<WorkProof>,
)
    requires
        init_outcome(count, seed, hash) == Ok::<_, WorkError>(views(first)),
        init_outcome(count, seed, hash) == Ok::<_, WorkError>(views(second)),
    ensures
        first.len() == second.len(),
        forall|i: int| 0 <= i < first.len() ==> first[i]@ == second[i]@,
{
    assert(views(first) == views(second));
    assert(views(first).len() == first.len());
    assert(views(second).len() == second.len());
    assert forall|i: int| 0 <= i < first.len() implies first[i]@ == second[i]@ by {
        assert(views(first)[i] == first[i]@);
        assert(views(second)[i] == second[i]@);
    }
}

} // verus!
