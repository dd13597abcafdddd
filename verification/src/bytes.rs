//! Byte strings read as natural numbers, in either byte order.

use vstd::prelude::*;

verus! {

/// `256^n`.
pub open spec fn pow256(n: nat) -> nat
    decreases n,
{
    if n == 0 {
        1
    } else {
        256 * pow256((n - 1) as nat)
    }
}

/// The number a byte string stands for when its first byte is the least
/// significant one.
pub open spec fn le_value(bytes: Seq<u8>) -> nat
    decreases bytes.len(),
{
    if bytes.len() == 0 {
        0
    } else {
        bytes[0] as nat + 256 * le_value(bytes.drop_first())
    }
}

/// The number a byte string stands for when its last byte is the least
/// significant one.
pub open spec fn be_value(bytes: Seq<u8>) -> nat
    decreases bytes.len(),
{
    if bytes.len() == 0 {
        0
    } else {
        256 * be_value(bytes.drop_last()) + bytes.last() as nat
    }
}

/// The `len` low-order base-256 digits of `v`, most significant first.
pub open spec fn be_bytes_of(v: nat, len: nat) -> Seq<u8>
    decreases len,
{
    if len == 0 {
        Seq::empty()
    } else {
        be_bytes_of(v / 256, (len - 1) as nat).push((v % 256) as u8)
    }
}

/// `256^32` is `2^256`.
pub proof fn lemma_pow256_of_32()
    ensures
        pow256(32)
            == 0x1_0000_0000_0000_0000_0000_0000_0000_0000_0000_0000_0000_0000_0000_0000_0000_0000nat,
{
    reveal_with_fuel(pow256, 9);
    assert(pow256(8) == 0x1_0000_0000_0000_0000nat);
    assert(pow256(16) == 0x1_0000_0000_0000_0000nat * pow256(8));
    assert(pow256(24) == 0x1_0000_0000_0000_0000nat * pow256(16));
    assert(pow256(32) == 0x1_0000_0000_0000_0000nat * pow256(24));
}

/// Writing a number big-endian gives `len` bytes that read back as the
/// number, provided it fits.
pub proof fn lemma_be_value_of_bytes(v: nat, len: nat)
    requires
        v < pow256(len),
    ensures
        be_bytes_of(v, len).len() == len,
        be_value(be_bytes_of(v, len)) == v,
    decreases len,
{
    if len > 0 {
        lemma_be_value_of_bytes(v / 256, (len - 1) as nat);
        let s = be_bytes_of(v, len);
        assert(s.drop_last() =~= be_bytes_of(v / 256, (len - 1) as nat));
    }
}

/// Reading a byte string big-endian and writing the number back at the same
/// length gives the same bytes.
pub proof fn lemma_be_bytes_of_value(bytes: Seq<u8>)
    ensures
        be_bytes_of(be_value(bytes), bytes.len()) == bytes,
    decreases bytes.len(),
{
    if bytes.len() > 0 {
        lemma_be_bytes_of_value(bytes.drop_last());
        let v = be_value(bytes);
        assert(v / 256 == be_value(bytes.drop_last()));
        assert(v % 256 == bytes.last() as nat);
        assert(be_bytes_of(v, bytes.len()) =~= bytes);
    } else {
        assert(be_bytes_of(be_value(bytes), bytes.len()) =~= bytes);
    }
}

} // verus!
