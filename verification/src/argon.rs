//! Argon2id, version 1.3, as the `argon2` crate computes it.
//!
//! Nothing about Argon2 is proved in this crate. Everything that Verus takes
//! on trust stands in this file: two outside types, `Block::new`, the name
//! `argon2id_tag` for what the hash returns, and the wrapper `argon2id_16`
//! that makes the call.

use vstd::prelude::*;

verus! {

/// `argon2::Block`, one KiB of working memory. Opaque: nothing is read from
/// it here, it is only allocated and handed to the hash.
#[verifier::external_type_specification]
#[verifier::external_body]
pub struct ExBlock(argon2::Block);

/// `argon2::Error`, the reason for which the hash refused its input. Opaque
/// but for its text.
#[verifier::external_type_specification]
#[verifier::external_body]
pub struct ExArgon2Error(argon2::Error);

/// `argon2::Block::new` returns a block (of zeros, which no contract here
/// relies on).
pub assume_specification[ argon2::Block::new ]() -> (block: argon2::Block)
;

/// The sixteen bytes that Argon2id version 1.3 derives from `password` and
/// `salt` at memory cost `m_cost` (in blocks), time cost `t_cost` and
/// parallelism `p_cost`, with no secret and no associated data.
pub uninterp spec fn argon2id_tag(
    password: Seq<u8>,
    salt: Seq<u8>,
    m_cost: u32,
    t_cost: u32,
    p_cost: u32,
) -> Seq<u8>;

/// The costs that `argon2::Params::new` accepts.
pub open spec fn valid_cost(m_cost: u32, t_cost: u32, p_cost: u32) -> bool {
    &&& 8 <= m_cost
    &&& 8 * p_cost <= m_cost
    &&& 1 <= t_cost
    &&& 1 <= p_cost <= 0xFF_FFFF
}

/// The lengths of password and salt that Argon2 accepts: a password of at
/// most 2^32 - 1 bytes, a salt of 8 to 2^32 - 1 bytes.
pub open spec fn argon2_accepts(password_len: nat, salt_len: nat) -> bool {
    password_len <= 0xFFFF_FFFF && 8 <= salt_len <= 0xFFFF_FFFF
}

/// Calls `argon2::Params::new`, `argon2::Argon2::new` with
/// `Algorithm::Argon2id` and `Version::V0x13`, and
/// `Argon2::hash_password_into_with_memory` with a sixteen-byte output.
///
/// Trusted: with valid costs and memory of at least `m_cost` blocks, the call
/// fails exactly when the password is longer than 2^32 - 1 bytes or the salt
/// is shorter than 8 or longer than 2^32 - 1 bytes; otherwise the output is
/// the Argon2id tag of the arguments, whatever the memory held before. The
/// memory keeps its length.
#[verifier::external_body]
pub(crate) fn argon2id_16(
    password: &[u8],
    salt: &[u8],
    m_cost: u32,
    t_cost: u32,
    p_cost: u32,
    memory: &mut Vec<argon2::Block>,
) -> (r: Result<[u8; 16], argon2::Error>)
    requires
        valid_cost(m_cost, t_cost, p_cost),
        old(memory)@.len() >= m_cost,
    ensures
        final(memory)@.len() == old(memory)@.len(),
        r is Ok <==> argon2_accepts(password@.len(), salt@.len()),
        r matches Ok(tag) ==> tag@ == argon2id_tag(password@, salt@, m_cost, t_cost, p_cost),
{
    let mut out = [0u8; 16];
    let params = argon2::Params::new(m_cost, t_cost, p_cost, Some(out.len()))?;
    argon2::Argon2::new(argon2::Algorithm::Argon2id, argon2::Version::V0x13, params)
        .hash_password_into_with_memory(password, salt, &mut out, memory)?;
    Ok(out)
}

} // verus!
