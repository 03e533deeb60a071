//! One worker's search for a proof of work on a 32-byte hash.
//!
//! A proof is a twenty-byte candidate. Hashed with the target hash as salt it
//! gives sixteen bytes, and these, read as a little-endian number, are its
//! difficulty in raw form: the nearer to 2^128, the less likely the candidate
//! was found by chance. The customary figure, the base-10 logarithm of
//! `2^128 / (2^128 - raw)`, grows with the raw number and is left to the
//! caller, who has floating point.

use vstd::prelude::*;
use crate::argon::argon2_accepts;
use crate::candidate::{
    assemble, counter, counter_of, lemma_candidate_of_parts, lemma_candidate_parts, tag, tag_of,
    CANDIDATE_LEN,
};
use crate::error::{Input, WorkError};
use crate::hashing::{digest, refusal_text, Scratch};
use crate::little_endian::{decode, le_bytes, le_value, lemma_le_value_bound, lemma_span_values};
use crate::partition::{counter_after, start_candidate, start_points, tag_after, valid_seed};

verus! {

/// Length of the hash that a proof is bound to.
pub const HASH_LEN: usize = 32;

/// The raw difficulty of `proof` for `hash`: the digest read as a number.
pub open spec fn difficulty_of(proof: Seq<u8>, hash: Seq<u8>) -> u128 {
    le_value(digest(proof, hash)) as u128
}

/// What verifying `proof` against `hash` gives: its raw difficulty, or
/// nothing where the hash function refuses the lengths.
pub open spec fn verify_outcome(proof: Seq<u8>, hash: Seq<u8>) -> Option<u128> {
    if argon2_accepts(proof.len(), hash.len()) {
        Some(difficulty_of(proof, hash))
    } else {
        None
    }
}

/// What a `WorkProof` holds, as mathematics.
pub struct WorkProofView {
    /// The current candidate, twenty bytes.
    pub candidate: Seq<u8>,
    /// The hash that the proof is for, thirty-two bytes.
    pub target: Seq<u8>,
    /// The counter that the candidate's first sixteen bytes spell.
    pub counter: u128,
    /// The raw difficulty of the candidate.
    pub difficulty: u128,
}

impl WorkProofView {
    /// The parts agree: the counter is the candidate's, and the difficulty is
    /// that of the candidate for the target.
    pub open spec fn valid(self) -> bool {
        &&& self.candidate.len() == CANDIDATE_LEN
        &&& self.target.len() == HASH_LEN
        &&& self.counter == counter_of(self.candidate)
        &&& self.difficulty == difficulty_of(self.candidate, self.target)
    }

    /// The state after one step: the counter one higher, wrapping at 2^128,
    /// the worker tag as it was, and the difficulty of the new candidate.
    pub open spec fn advance(self) -> WorkProofView {
        let counter = self.counter.wrapping_add(1);
        let candidate = le_bytes(counter as nat, 16) + self.candidate.subrange(16, 20);
        WorkProofView {
            candidate,
            target: self.target,
            counter,
            difficulty: difficulty_of(candidate, self.target),
        }
    }
}

/// The state in which worker `index` of `count` starts.
pub open spec fn start_state(count: nat, seed: Seq<u8>, hash: Seq<u8>, index: nat) -> WorkProofView {
    let candidate = start_candidate(seed, count, index);
    WorkProofView {
        candidate,
        target: hash,
        counter: counter_after(seed, count, index + 1),
        difficulty: difficulty_of(candidate, hash),
    }
}

/// What `WorkProof::init` gives for its arguments: the seed is looked at
/// first, then the hash, and with both in order every worker gets its state.
pub open spec fn init_outcome(count: nat, seed: Seq<u8>, hash: Seq<u8>) -> Result<
    Seq<WorkProofView>,
    WorkError,
> {
    if !valid_seed(seed) {
        Err(WorkError::InvalidInput(Input::Seed))
    } else if hash.len() != HASH_LEN {
        Err(WorkError::InvalidInput(Input::Hash))
    } else {
        Ok(Seq::new(count, |i: int| start_state(count, seed, hash, i as nat)))
    }
}

/// Generates and checks proofs of work.
///
/// `init` makes one for each worker, `next` tries the next candidate,
/// `proof_bytes` hands out the candidate to keep once `difficulty` is high enough,
/// and `verify` checks a candidate that somebody kept.
#[derive(Debug)]
pub struct WorkProof {
    pwd: [u8; 20],
    salt: [u8; 32],
    difficulty: u128,
    iter: u128,
}

impl View for WorkProof {
    type V = WorkProofView;

    closed spec fn view(&self) -> WorkProofView {
        WorkProofView {
            candidate: self.pwd@,
            target: self.salt@,
            counter: self.iter,
            difficulty: self.difficulty,
        }
    }
}

/// The views of a sequence of workers.
pub open spec fn views(states: Seq<WorkProof>) -> Seq<WorkProofView> {
    Seq::new(states.len(), |i: int| states[i]@)
}

/// Copies a hash of thirty-two bytes.
fn to_target(hash: &[u8]) -> (target: [u8; 32])
    requires
        hash@.len() == 32,
    ensures
        target@ == hash@,
{
    let mut target = [0u8; 32];
    let mut i: usize = 0;
    while i < 32
        invariant
            i <= 32,
            hash@.len() == 32,
            forall|k: int| 0 <= k < i ==> target@[k] == hash@[k],
        decreases 32 - i,
    {
        target[i] = hash[i];
        i = i + 1;
    }
    assert(target@ =~= hash@);
    target
}

impl WorkProof {
    #[verifier::type_invariant]
    spec fn consistent(&self) -> bool {
        self@.valid()
    }

    /// One `WorkProof` for each of `count` workers, for a seed of one to
    /// twenty bytes and a hash of thirty-two. Any other seed or hash is
    /// refused, and the same arguments always give the same workers.
    ///
    /// The seed need not be secret or well spread if the hash is. Allocates
    /// working memory for the time of the call; `init_with` uses the
    /// caller's.
    pub fn init(count: usize, seed: &[u8], hash: &[u8]) -> (r: Result<Vec<WorkProof>, WorkError>)
        ensures
            match r {
                Ok(states) => init_outcome(count as nat, seed@, hash@) == Ok::<_, WorkError>(
                    views(states@),
                ),
                Err(e) => init_outcome(count as nat, seed@, hash@) == Err::<Seq<WorkProofView>, _>(
                    e,
                ),
            },
    {
        let mut scratch = Scratch::new();
        Self::init_with(&mut scratch, count, seed, hash)
    }

    /// As `init`, with working memory that the caller keeps.
    pub fn init_with(scratch: &mut Scratch, count: usize, seed: &[u8], hash: &[u8]) -> (r: Result<
        Vec<WorkProof>,
        WorkError,
    >)
        ensures
            match r {
                Ok(states) => init_outcome(count as nat, seed@, hash@) == Ok::<_, WorkError>(
                    views(states@),
                ),
                Err(e) => init_outcome(count as nat, seed@, hash@) == Err::<Seq<WorkProofView>, _>(
                    e,
                ),
            },
            final(scratch).allocated() == (old(scratch).allocated() || (r is Ok && count > 0)),
    {
        if seed.len() == 0 || seed.len() > 20 {
            return Err(WorkError::InvalidInput(Input::Seed));
        }
        if hash.len() != 32 {
            return Err(WorkError::InvalidInput(Input::Hash));
        }
        let points = match start_points(count, seed) {
            Ok(points) => points,
            Err(e) => {
                return Err(e);
            },
        };
        let target = to_target(hash);
        let mut states: Vec<WorkProof> = Vec::new();
        let mut i: usize = 0;
        while i < count
            invariant
                i <= count,
                points@.len() == count,
                valid_seed(seed@),
                hash@.len() == 32,
                target@ == hash@,
                forall|k: int|
                    0 <= k < count ==> (#[trigger] points@[k])@ == start_candidate(
                        seed@,
                        count as nat,
                        k as nat,
                    ),
                states@.len() == i,
                forall|k: int|
                    0 <= k < i ==> (#[trigger] states@[k])@ == start_state(
                        count as nat,
                        seed@,
                        hash@,
                        k as nat,
                    ),
                scratch.allocated() == (old(scratch).allocated() || i > 0),
            decreases count - i,
        {
            let candidate = points[i];
            let iter = counter(&candidate);
            let difficulty = match Self::verify_with(scratch, &candidate, &target) {
                Ok(difficulty) => difficulty,
                Err(e) => {
                    return Err(e);
                },
            };
            proof {
                lemma_candidate_parts(
                    counter_after(seed@, count as nat, (i + 1) as nat),
                    tag_after(seed@, count as nat, (i + 1) as nat),
                );
            }
            states.push(WorkProof { pwd: candidate, salt: target, difficulty, iter });
            i = i + 1;
        }
        assert(views(states@) =~= Seq::new(
            count as nat,
            |k: int| start_state(count as nat, seed@, hash@, k as nat),
        ));
        Ok(states)
    }

    /// The raw difficulty of `proof` for `hash`.
    ///
    /// Meant for a candidate of twenty bytes and a hash of thirty-two, but
    /// any lengths that the hash function takes are hashed; others fail with
    /// `HashingFailure` and the hash function's own words. Allocates working
    /// memory for the time of the call; `verify_with` uses the caller's.
    pub fn verify(proof: &[u8], hash: &[u8]) -> (r: Result<u128, WorkError>)
        ensures
            match verify_outcome(proof@, hash@) {
                Some(difficulty) => r == Ok::<u128, WorkError>(difficulty),
                None => r matches Err(WorkError::HashingFailure(text)) && refusal_text(text),
            },
    {
        let mut scratch = Scratch::new();
        Self::verify_with(&mut scratch, proof, hash)
    }

    /// As `verify`, with working memory that the caller keeps.
    pub fn verify_with(scratch: &mut Scratch, proof: &[u8], hash: &[u8]) -> (r: Result<
        u128,
        WorkError,
    >)
        ensures
            match verify_outcome(proof@, hash@) {
                Some(difficulty) => r == Ok::<u128, WorkError>(difficulty),
                None => r matches Err(WorkError::HashingFailure(text)) && refusal_text(text),
            },
            final(scratch).allocated(),
    {
        match scratch.hash(proof, hash) {
            Ok(tag) => {
                proof {
                    lemma_le_value_bound(tag@);
                    lemma_span_values();
                }
                Ok(decode(&tag))
            },
            Err(e) => Err(e),
        }
    }

    /// Tries the next candidate and returns its raw difficulty.
    ///
    /// Never fails: a candidate and a hash are of lengths that the hash
    /// function takes. Allocates working memory for the time of the call;
    /// `next_with` uses the caller's.
    pub fn next(&mut self) -> (r: Result<u128, WorkError>)
        ensures
            final(self)@ == old(self)@.advance(),
            final(self)@.valid(),
            r == Ok::<u128, WorkError>(final(self)@.difficulty),
    {
        let mut scratch = Scratch::new();
        self.next_with(&mut scratch)
    }

    /// As `next`, with working memory that the caller keeps.
    pub fn next_with(&mut self, scratch: &mut Scratch) -> (r: Result<u128, WorkError>)
        ensures
            final(self)@ == old(self)@.advance(),
            final(self)@.valid(),
            r == Ok::<u128, WorkError>(final(self)@.difficulty),
            final(scratch).allocated(),
    {
        proof {
            use_type_invariant(&*self);
            lemma_candidate_of_parts(self.pwd@);
        }
        let counter = self.iter.wrapping_add(1);
        let candidate = assemble(counter, tag(&self.pwd));
        proof {
            lemma_candidate_parts(counter, tag_of(self.pwd@) as u32);
            assert(candidate@ =~= old(self)@.advance().candidate);
        }
        match Self::verify_with(scratch, &candidate, &self.salt) {
            Ok(difficulty) => {
                *self = WorkProof { pwd: candidate, salt: self.salt, difficulty, iter: counter };
                Ok(difficulty)
            },
            Err(e) => Err(e),
        }
    }

    /// The current candidate: what to keep once the difficulty is enough.
    pub fn proof_bytes(&self) -> (candidate: Vec<u8>)
        ensures
            candidate@ == self@.candidate,
            self@.valid(),
    {
        proof {
            use_type_invariant(self);
        }
        let mut candidate: Vec<u8> = Vec::new();
        let mut i: usize = 0;
        while i < 20
            invariant
                i <= 20,
                candidate@ == self.pwd@.subrange(0, i as int),
            decreases 20 - i,
        {
            candidate.push(self.pwd[i]);
            i = i + 1;
        }
        assert(candidate@ =~= self.pwd@);
        candidate
    }

    /// The raw difficulty of the current candidate, as last computed.
    pub fn difficulty(&self) -> (difficulty: u128)
        ensures
            difficulty == self@.difficulty,
            self@.valid(),
    {
        proof {
            use_type_invariant(self);
        }
        self.difficulty
    }
}

} // verus!
