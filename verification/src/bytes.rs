//! Numbers as big-endian byte strings.

use vstd::prelude::*;

verus! {

/// The number that `bytes` spells in base 256, most significant byte first.
pub open spec fn be_value(bytes: Seq<u8>) -> nat
    decreases bytes.len(),
{
    if bytes.len() == 0 {
        0
    } else {
        be_value(bytes.drop_last()) * 256 + bytes.last() as nat
    }
}

/// The `width` bytes that spell `value` modulo 256^`width` in base 256, most
/// significant byte first.
pub open spec fn be_bytes(value: nat, width: nat) -> Seq<u8>
    decreases width,
{
    if width == 0 {
        Seq::empty()
    } else {
        be_bytes(value / 256, (width - 1) as nat).push((value % 256) as u8)
    }
}

/// 256 to the power `width`.
pub open spec fn be_range(width: nat) -> nat
    decreases width,
{
    if width == 0 {
        1
    } else {
        be_range((width - 1) as nat) * 256
    }
}

/// Spelling a number out and reading it back gives the number, as far as the
/// bytes have room for it.
pub proof fn lemma_be_bytes_read_back(value: nat, width: nat)
    requires
        value < be_range(width),
    ensures
        be_bytes(value, width).len() == width,
        be_value(be_bytes(value, width)) == value,
    decreases width,
{
    if width > 0 {
        lemma_be_bytes_read_back(value / 256, (width - 1) as nat);
        let bytes = be_bytes(value, width);
        assert(bytes.drop_last() =~= be_bytes(value / 256, (width - 1) as nat));
    }
}

} // verus!
