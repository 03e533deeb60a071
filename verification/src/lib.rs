//! Proof of work on a 32-byte hash, by Argon2id.
//!
//! Key pairs cost nothing to make. Where that is a problem, a public key (or
//! any other data, through its hash) can be asked to come with a proof that
//! work was spent on it: twenty bytes which, hashed with the key's hash as
//! salt, give a number close to the largest there is. The closer, the more
//! tries it took, on average, to find them.
//!
//! - [`WorkProof::init`] makes one searcher per worker, each starting at a
//!   place of its own ([`partition`]).
//! - [`WorkProof::next`] tries the next candidate.
//! - [`WorkProof::proof_bytes`] is the candidate to keep once
//!   [`WorkProof::difficulty`] is high enough.
//! - [`WorkProof::verify`] checks a candidate that somebody kept.
//!
//! The hash is fixed at 16 MiB of memory, one pass, one lane and sixteen
//! bytes of output ([`hashing`]). The `_with` forms of the functions take a
//! [`Scratch`], so that a thread allocates that memory once.
//!
//! Difficulties are raw here: the sixteen bytes read as a little-endian
//! number. A caller that wants the usual decimal figure takes the base-10
//! logarithm of `2^128 / (2^128 - raw)`.
//!
//! The functions are verified with Verus against the contracts in their
//! headers; [`laws`] states what follows for every worker and every step.
//! The Argon2 computation itself is taken on trust ([`argon`]).

pub mod argon;
pub mod candidate;
pub mod error;
pub mod hashing;
pub mod laws;
pub mod little_endian;
pub mod partition;
pub mod worker;

pub use crate::error::{Input, WorkError};
pub use crate::hashing::Scratch;
pub use crate::partition::start_points;
pub use crate::worker::{WorkProof, WorkProofView};
