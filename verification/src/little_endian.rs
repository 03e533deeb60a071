//! Little-endian numerals: a byte string read as a number in base 256, least
//! significant byte first, and a number written out as such a string.
//!
//! The specifications are arithmetic (`+`, `*`, `/`, `%` on `nat`), so that
//! counting on the numbers and looking at the bytes can be related in proofs.

use vstd::prelude::*;

verus! {

/// 256 to the power `len`: the number of values that `len` bytes can spell.
pub open spec fn span(len: nat) -> nat
    decreases len,
{
    if len == 0 {
        1
    } else {
        256 * span((len - 1) as nat)
    }
}

/// The number that `bytes` spell, least significant byte first.
pub open spec fn le_value(bytes: Seq<u8>) -> nat
    decreases bytes.len(),
{
    if bytes.len() == 0 {
        0
    } else {
        bytes[0] as nat + 256 * le_value(bytes.drop_first())
    }
}

/// The `len` lowest base-256 digits of `value`, least significant first.
/// Digits of `value` beyond the `len`-th are dropped.
pub open spec fn le_bytes(value: nat, len: nat) -> Seq<u8>
    decreases len,
{
    if len == 0 {
        Seq::empty()
    } else {
        seq![(value % 256) as u8] + le_bytes(value / 256, (len - 1) as nat)
    }
}

/// `span` never shrinks as the length grows, and is never zero.
pub proof fn lemma_span_monotonic(a: nat, b: nat)
    requires
        a <= b,
    ensures
        0 < span(a) <= span(b),
    decreases b,
{
    if b == 0 {
    } else if a == b {
        lemma_span_monotonic(0, (b - 1) as nat);
    } else {
        lemma_span_monotonic(a, (b - 1) as nat);
    }
}

/// The spans of the widths this crate uses, as plain numbers.
pub proof fn lemma_span_values()
    ensures
        span(0) == 1,
        span(4) == 0x1_0000_0000,
        span(15) == 0x100_0000_0000_0000_0000_0000_0000_0000,
        span(16) == 0x1_0000_0000_0000_0000_0000_0000_0000_0000,
{
    reveal_with_fuel(span, 17);
}

/// `n` bytes spell a number below `span(n)`.
pub proof fn lemma_le_value_bound(bytes: Seq<u8>)
    ensures
        le_value(bytes) < span(bytes.len()),
    decreases bytes.len(),
{
    if bytes.len() > 0 {
        lemma_le_value_bound(bytes.drop_first());
    }
}

/// Writing `len` digits gives `len` bytes.
pub proof fn lemma_le_bytes_len(value: nat, len: nat)
    ensures
        le_bytes(value, len).len() == len,
    decreases len,
{
    if len > 0 {
        lemma_le_bytes_len(value / 256, (len - 1) as nat);
    }
}

/// Reading back what was written gives the number, reduced to the width
/// that was written.
pub proof fn lemma_le_value_of_bytes(value: nat, len: nat)
    ensures
        le_value(le_bytes(value, len)) == value % span(len),
    decreases len,
{
    if len > 0 {
        let rest = le_bytes(value / 256, (len - 1) as nat);
        let all = le_bytes(value, len);
        lemma_le_value_of_bytes(value / 256, (len - 1) as nat);
        lemma_span_monotonic(0, (len - 1) as nat);
        assert(all.drop_first() =~= rest);
        vstd::arithmetic::div_mod::lemma_mod_breakdown(
            value as int,
            256,
            span((len - 1) as nat) as int,
        );
    }
}

/// Writing out what was read gives the bytes back.
pub proof fn lemma_le_bytes_of_value(bytes: Seq<u8>)
    ensures
        le_bytes(le_value(bytes), bytes.len()) == bytes,
    decreases bytes.len(),
{
    if bytes.len() > 0 {
        let rest = bytes.drop_first();
        lemma_le_bytes_of_value(rest);
        assert(le_value(bytes) / 256 == le_value(rest));
        assert(le_value(bytes) % 256 == bytes[0]);
        assert(seq![bytes[0]] + rest =~= bytes);
    }
}

/// Reads up to sixteen bytes as a little-endian number.
pub fn decode(bytes: &[u8]) -> (value: u128)
    requires
        bytes@.len() <= 16,
    ensures
        value == le_value(bytes@),
{
    let mut value: u128 = 0;
    let mut i: usize = bytes.len();
    assert(bytes@.skip(i as int) =~= Seq::<u8>::empty());
    while i > 0
        invariant
            i <= bytes@.len() <= 16,
            value == le_value(bytes@.skip(i as int)),
        decreases i,
    {
        proof {
            let seen = bytes@.skip(i as int);
            lemma_le_value_bound(seen);
            lemma_span_monotonic(seen.len(), 15);
            lemma_span_values();
            assert(bytes@.skip(i - 1).drop_first() =~= seen);
        }
        i = i - 1;
        value = value * 256 + bytes[i] as u128;
    }
    assert(bytes@.skip(0) =~= bytes@);
    value
}

} // verus!
