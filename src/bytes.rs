//! Integers read from byte sequences, in either byte order.
use vstd::prelude::*;

verus! {

/// The unsigned integer held little-endian in `n` bytes of `b` from `off`.
pub open spec fn uint_le(b: Seq<u8>, off: int, n: nat) -> nat
    decreases n,
{
    if n == 0 {
        0
    } else {
        b[off] as nat + 256 * uint_le(b, off + 1, (n - 1) as nat)
    }
}

/// The unsigned integer held big-endian in `n` bytes of `b` from `off`.
pub open spec fn uint_be(b: Seq<u8>, off: int, n: nat) -> nat
    decreases n,
{
    if n == 0 {
        0
    } else {
        uint_be(b, off, (n - 1) as nat) * 256 + b[off + n - 1] as nat
    }
}

/// The unsigned integer held in `n` bytes of `b` from `off`, in the given order.
pub open spec fn uint_at(b: Seq<u8>, off: int, n: nat, little: bool) -> nat {
    if little {
        uint_le(b, off, n)
    } else {
        uint_be(b, off, n)
    }
}

} // verus!
