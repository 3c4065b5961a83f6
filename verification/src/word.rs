//! The value of a run of bytes under a byte order, and its inverse.

use vstd::prelude::*;

verus! {

/// Byte order in which a multi-byte scalar is laid out.
#[derive(Clone, Copy, Debug, PartialEq, Eq, Structural)]
pub enum Endian {
    Little,
    Big,
}

/// The number that `bytes` spell with the least significant byte first.
pub open spec fn le_value(bytes: Seq<u8>) -> nat
    decreases bytes.len(),
{
    if bytes.len() == 0 {
        0
    } else {
        bytes[0] as nat + 256 * le_value(bytes.drop_first())
    }
}

/// The `width` low-order bytes of `value`, least significant first.
pub open spec fn le_bytes(value: nat, width: nat) -> Seq<u8>
    decreases width,
{
    if width == 0 {
        Seq::empty()
    } else {
        seq![(value % 256) as u8] + le_bytes(value / 256, (width - 1) as nat)
    }
}

/// The number that `bytes` spell under `order`.
pub open spec fn word_value(bytes: Seq<u8>, order: Endian) -> nat {
    match order {
        Endian::Little => le_value(bytes),
        Endian::Big => le_value(bytes.reverse()),
    }
}

/// The `width` bytes that spell `value` under `order`.
pub open spec fn word_bytes(value: nat, width: nat, order: Endian) -> Seq<u8> {
    match order {
        Endian::Little => le_bytes(value, width),
        Endian::Big => le_bytes(value, width).reverse(),
    }
}

/// One more than the largest number that `width` bytes can spell.
pub open spec fn word_limit(width: nat) -> nat
    decreases width,
{
    if width == 0 {
        1
    } else {
        256 * word_limit((width - 1) as nat)
    }
}

/// `le_bytes` gives as many bytes as asked for.
pub proof fn lemma_le_bytes_len(value: nat, width: nat)
    ensures
        le_bytes(value, width).len() == width,
    decreases width,
{
    if width > 0 {
        lemma_le_bytes_len(value / 256, (width - 1) as nat);
    }
}

/// A value below the limit of `width` bytes is spelled by its `width` low-order
/// bytes.
pub proof fn lemma_le_round_trip(value: nat, width: nat)
    requires
        value < word_limit(width),
    ensures
        le_value(le_bytes(value, width)) == value,
    decreases width,
{
    if width > 0 {
        let rest = le_bytes(value / 256, (width - 1) as nat);
        let all = le_bytes(value, width);
        assert(all.drop_first() =~= rest);
        assert(all[0] == (value % 256) as u8);
        lemma_le_round_trip(value / 256, (width - 1) as nat);
    }
}

/// Reading back what was written gives the value again, in either order.
pub proof fn lemma_word_round_trip(value: nat, width: nat, order: Endian)
    requires
        value < word_limit(width),
    ensures
        word_bytes(value, width, order).len() == width,
        word_value(word_bytes(value, width, order), order) == value,
{
    lemma_le_bytes_len(value, width);
    lemma_le_round_trip(value, width);
    let b = le_bytes(value, width);
    assert(b.reverse().reverse() =~= b);
}

} // verus!
