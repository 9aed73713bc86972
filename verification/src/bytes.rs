//! Plain byte vectors: making, copying and joining them.

use vstd::prelude::*;

verus! {

/// The sequence of `len` zero bytes.
pub open spec fn zeroes(len: nat) -> Seq<u8> {
    Seq::new(len, |i: int| 0u8)
}

/// A vector of `len` zero bytes.
pub fn zeroed(len: usize) -> (bytes: Vec<u8>)
    ensures
        bytes@ == zeroes(len as nat),
{
    let mut bytes: Vec<u8> = Vec::with_capacity(len);
    let mut i: usize = 0;
    while i < len
        invariant
            i <= len,
            bytes@ == zeroes(i as nat),
        decreases len - i,
    {
        bytes.push(0u8);
        i = i + 1;
    }
    bytes
}

/// A copy of the bytes of `source` from `from` up to `to`.
pub fn copy_range(source: &Vec<u8>, from: usize, to: usize) -> (bytes: Vec<u8>)
    requires
        from <= to <= source@.len(),
    ensures
        bytes@ == source@.subrange(from as int, to as int),
{
    let mut bytes: Vec<u8> = Vec::with_capacity(to - from);
    let mut i: usize = from;
    while i < to
        invariant
            from <= i <= to <= source@.len(),
            bytes@ == source@.subrange(from as int, i as int),
        decreases to - i,
    {
        bytes.push(source[i]);
        i = i + 1;
    }
    bytes
}

/// Appends the bytes of `tail` to `head`.
pub fn append_bytes(head: &mut Vec<u8>, tail: &Vec<u8>)
    ensures
        final(head)@ == old(head)@ + tail@,
{
    let mut i: usize = 0;
    while i < tail.len()
        invariant
            i <= tail@.len(),
            head@ == old(head)@ + tail@.subrange(0, i as int),
        decreases tail@.len() - i,
    {
        head.push(tail[i]);
        i = i + 1;
    }
}

} // verus!
