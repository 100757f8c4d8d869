use byteorder::{ByteOrder, LittleEndian};
use vstd::prelude::*;
use vstd::slice::slice_subrange;

verus! {

/// Whether `n` bytes starting at `at` lie within `bytes`.
pub open spec fn in_bounds(bytes: Seq<u8>, at: int, n: int) -> bool {
    0 <= at && 0 <= n && at + n <= bytes.len()
}

/// The 16-bit number stored least significant byte first at `at`.
pub open spec fn spec_le_u16(bytes: Seq<u8>, at: int) -> u16 {
    (bytes[at] + 0x100 * bytes[at + 1]) as u16
}

/// The 32-bit number stored least significant byte first at `at`.
pub open spec fn spec_le_u32(bytes: Seq<u8>, at: int) -> u32 {
    (bytes[at] + 0x100 * bytes[at + 1] + 0x1_0000 * bytes[at + 2] + 0x100_0000 * bytes[at + 3]) as u32
}

/// `byteorder::LittleEndian::read_u16`: the number that the first two bytes
/// of `buf` hold, least significant byte first. The call panics on a shorter
/// slice, which the precondition excludes.
#[verifier::external_body]
fn le_u16(buf: &[u8]) -> (r: u16)
    requires
        buf@.len() >= 2,
    ensures
        r == spec_le_u16(buf@, 0),
{
    LittleEndian::read_u16(buf)
}

/// `byteorder::LittleEndian::read_u32`: the number that the first four bytes
/// of `buf` hold, least significant byte first. The call panics on a shorter
/// slice, which the precondition excludes.
#[verifier::external_body]
fn le_u32(buf: &[u8]) -> (r: u32)
    requires
        buf@.len() >= 4,
    ensures
        r == spec_le_u32(buf@, 0),
{
    LittleEndian::read_u32(buf)
}

/// Reads the little-endian `u16` at `at`.
pub fn read_u16_at(bytes: &[u8], at: usize) -> (r: u16)
    requires
        in_bounds(bytes@, at as int, 2),
    ensures
        r == spec_le_u16(bytes@, at as int),
{
    assert(bytes@.len() == bytes.len());
    le_u16(slice_subrange(bytes, at, at + 2))
}

/// Reads the little-endian `u32` at `at`.
pub fn read_u32_at(bytes: &[u8], at: usize) -> (r: u32)
    requires
        in_bounds(bytes@, at as int, 4),
    ensures
        r == spec_le_u32(bytes@, at as int),
{
    assert(bytes@.len() == bytes.len());
    le_u32(slice_subrange(bytes, at, at + 4))
}

/// Whether two slices hold the same bytes.
pub fn same_bytes(a: &[u8], b: &[u8]) -> (r: bool)
    ensures
        r == (a@ == b@),
{
    if a.len() != b.len() {
        return false;
    }
    let mut i: usize = 0;
    while i < a.len()
        invariant
            a@.len() == b@.len(),
            i <= a@.len(),
            forall|k: int| 0 <= k < i ==> a@[k] == b@[k],
        decreases a@.len() - i,
    {
        if a[i] != b[i] {
            assert(a@[i as int] != b@[i as int]);
            return false;
        }
        i += 1;
    }
    assert(a@ =~= b@);
    true
}

} // verus!
