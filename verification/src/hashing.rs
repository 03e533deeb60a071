//! The hash at the cost that this crate fixes, and the working memory that
//! it needs.

use vstd::prelude::*;
use crate::argon::{argon2_accepts, argon2id_16, argon2id_tag};
use crate::error::WorkError;

verus! {

/// Memory cost: the number of 1 KiB blocks that one hash fills (16 MiB).
pub const MEMORY_BLOCKS: u32 = 16384;

/// Time cost: the number of passes over the memory.
pub const PASSES: u32 = 1;

/// Degree of parallelism: the number of lanes.
pub const LANES: u32 = 1;

/// The digest of `password` under `salt` at this crate's fixed cost.
pub open spec fn digest(password: Seq<u8>, salt: Seq<u8>) -> Seq<u8> {
    argon2id_tag(password, salt, MEMORY_BLOCKS, PASSES, LANES)
}

/// Whether `text` is what some `argon2::Error` displays as.
pub open spec fn refusal_text(text: String) -> bool {
    exists|e: argon2::Error| #[trigger]
        vstd::string::to_string_from_display_ensures::<argon2::Error>(&e, text)
}

/// Working memory for the hash: sixteen MiB, allocated when first used and
/// kept for the calls that follow. One per thread of work; it holds nothing
/// that a result depends on.
pub struct Scratch {
    blocks: Vec<argon2::Block>,
}

impl Scratch {
    /// The number of blocks that the scratch holds.
    pub closed spec fn blocks(&self) -> nat {
        self.blocks@.len()
    }

    /// Whether the memory has been allocated: exactly `MEMORY_BLOCKS` blocks.
    pub open spec fn allocated(&self) -> bool {
        self.blocks() == MEMORY_BLOCKS
    }

    /// A scratch that holds no memory yet.
    pub fn new() -> (scratch: Scratch)
        ensures
            scratch.blocks() == 0,
    {
        Scratch { blocks: Vec::new() }
    }

    /// Whether the memory has been allocated.
    pub fn is_allocated(&self) -> (yes: bool)
        ensures
            yes == self.allocated(),
    {
        self.blocks.len() == MEMORY_BLOCKS as usize
    }

    /// Hashes `password` under `salt`, allocating the memory if this is the
    /// first use.
    ///
    /// Fails with `HashingFailure`, and the text of the error that Argon2
    /// gave, exactly when the lengths are not ones that Argon2 accepts.
    pub fn hash(&mut self, password: &[u8], salt: &[u8]) -> (r: Result<[u8; 16], WorkError>)
        ensures
            final(self).allocated(),
            argon2_accepts(password@.len(), salt@.len()) ==> r is Ok,
            r matches Ok(tag) ==> argon2_accepts(password@.len(), salt@.len()) && tag@ == digest(
                password@,
                salt@,
            ),
            r matches Err(e) ==> e matches WorkError::HashingFailure(text) && refusal_text(text),
    {
        if self.blocks.len() != MEMORY_BLOCKS as usize {
            self.blocks = vec![argon2::Block::new(); MEMORY_BLOCKS as usize];
        }
        match argon2id_16(password, salt, MEMORY_BLOCKS, PASSES, LANES, &mut self.blocks) {
            Ok(tag) => Ok(tag),
            Err(e) => Err(WorkError::HashingFailure(e.to_string())),
        }
    }
}

} // verus!
