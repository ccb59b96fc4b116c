//! Big-endian numbers and comparisons on byte sequences.

use vstd::prelude::*;

verus! {

/// The 16-bit big-endian number at an offset.
pub open spec fn be16(bytes: Seq<u8>, at: int) -> u16 {
    (bytes[at] * 256 + bytes[at + 1]) as u16
}

/// The 32-bit big-endian number at an offset.
pub open spec fn be32(bytes: Seq<u8>, at: int) -> u32 {
    (be16(bytes, at) * 0x1_0000 + be16(bytes, at + 2)) as u32
}

/// The 64-bit big-endian number at an offset.
pub open spec fn be64(bytes: Seq<u8>, at: int) -> u64 {
    (be32(bytes, at) * 0x1_0000_0000 + be32(bytes, at + 4)) as u64
}

/// The 128-bit big-endian number at an offset.
pub open spec fn be128(bytes: Seq<u8>, at: int) -> u128 {
    (be64(bytes, at) * 0x1_0000_0000_0000_0000 + be64(bytes, at + 8)) as u128
}

pub fn read_be16(bytes: &[u8], at: usize) -> (value: u16)
    requires
        at + 2 <= bytes@.len(),
    ensures
        value == be16(bytes@, at as int),
{
    bytes[at] as u16 * 256 + bytes[at + 1] as u16
}

pub fn read_be32(bytes: &[u8], at: usize) -> (value: u32)
    requires
        at + 4 <= bytes@.len(),
    ensures
        value == be32(bytes@, at as int),
{
    assert(bytes.len() == bytes@.len());
    read_be16(bytes, at) as u32 * 0x1_0000 + read_be16(bytes, at + 2) as u32
}

pub fn read_be64(bytes: &[u8], at: usize) -> (value: u64)
    requires
        at + 8 <= bytes@.len(),
    ensures
        value == be64(bytes@, at as int),
{
    assert(bytes.len() == bytes@.len());
    read_be32(bytes, at) as u64 * 0x1_0000_0000 + read_be32(bytes, at + 4) as u64
}

pub fn read_be128(bytes: &[u8], at: usize) -> (value: u128)
    requires
        at + 16 <= bytes@.len(),
    ensures
        value == be128(bytes@, at as int),
{
    assert(bytes.len() == bytes@.len());
    read_be64(bytes, at) as u128 * 0x1_0000_0000_0000_0000 + read_be64(bytes, at + 8) as u128
}

/// Whether two byte strings are the same.
pub fn same_bytes(left: &[u8], right: &[u8]) -> (same: bool)
    ensures
        same == (left@ == right@),
{
    if left.len() != right.len() {
        return false;
    }
    let mut i: usize = 0;
    while i < left.len()
        invariant
            i <= left@.len(),
            left@.len() == right@.len(),
            forall|j: int| 0 <= j < i ==> left@[j] == right@[j],
        decreases left@.len() - i,
    {
        if left[i] != right[i] {
            assert(left@[i as int] != right@[i as int]);
            return false;
        }
        i += 1;
    }
    assert(left@ =~= right@);
    true
}

/// Appends a byte string to a buffer.
pub fn append_bytes(buffer: &mut Vec<u8>, more: &[u8])
    ensures
        final(buffer)@ == old(buffer)@ + more@,
{
    let ghost before = buffer@;
    let mut i: usize = 0;
    while i < more.len()
        invariant
            i <= more@.len(),
            buffer@ == before + more@.subrange(0, i as int),
        decreases more@.len() - i,
    {
        buffer.push(more[i]);
        i += 1;
        assert(more@.subrange(0, i as int) =~= more@.subrange(0, i - 1).push(more@[i - 1]));
        assert(buffer@ =~= before + more@.subrange(0, i as int));
    }
    assert(more@.subrange(0, i as int) =~= more@);
}

/// A byte string of its own with the same contents.
pub fn copy_bytes(bytes: &[u8]) -> (copy: Vec<u8>)
    ensures
        copy@ == bytes@,
{
    let mut copy: Vec<u8> = Vec::new();
    append_bytes(&mut copy, bytes);
    assert(copy@ =~= bytes@);
    copy
}

} // verus!
