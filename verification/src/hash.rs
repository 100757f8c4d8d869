use vstd::prelude::*;
use vstd::slice::slice_subrange;
use vstd::string::StringSliceAdditionalSpecFns;

pub use crate::hash_consts::{FFXIV_CRC_TABLE, FFXIV_SEED};

verus! {

/// The byte that stands for `b` when case is folded: an ASCII capital
/// letter gives its small letter, every other byte itself.
pub open spec fn ascii_lower(b: u8) -> u8 {
    if 0x41 <= b <= 0x5a {
        b | 0x20
    } else {
        b
    }
}

/// The bytes of `bytes` with every ASCII capital letter made small.
pub open spec fn ascii_to_lower(bytes: Seq<u8>) -> Seq<u8> {
    bytes.map_values(|b: u8| ascii_lower(b))
}

/// One step of the checksum: what `crc` becomes when the byte `b` is fed.
pub open spec fn spec_step(table: Seq<u32>, crc: u32, b: u8) -> u32 {
    (crc >> 8) ^ table[(b ^ ((crc & 0xff) as u8)) as int]
}

/// The checksum of `bytes`: the seed, with every byte fed in order, folded
/// to lower case first where `lower` is set. There is no final inversion.
pub open spec fn spec_hash(seed: u32, table: Seq<u32>, bytes: Seq<u8>, lower: bool) -> u32
    decreases bytes.len(),
{
    if bytes.len() == 0 {
        seed
    } else {
        let b = bytes.last();
        spec_step(
            table,
            spec_hash(seed, table, bytes.drop_last(), lower),
            if lower {
                ascii_lower(b)
            } else {
                b
            },
        )
    }
}

/// The checksum of a whole slice.
pub(crate) fn hash_bytes(seed: u32, table: &[u32], bytes: &[u8], lower: bool) -> (crc: u32)
    requires
        table@.len() >= 256,
    ensures
        crc == spec_hash(seed, table@, bytes@, lower),
{
    let mut crc = seed;
    let mut i: usize = 0;
    while i < bytes.len()
        invariant
            i <= bytes@.len(),
            table@.len() >= 256,
            crc == spec_hash(seed, table@, bytes@.take(i as int), lower),
        decreases bytes@.len() - i,
    {
        let raw = bytes[i];
        let mut b = raw;
        if lower && raw >= 0x41 && raw <= 0x5a {
            b = raw ^ 0x20;
            assert(b == raw | 0x20) by (bit_vector)
                requires
                    0x41 <= raw <= 0x5a,
                    b == raw ^ 0x20,
            ;
        }
        let low = crc & 0xff;
        assert(low < 256) by (bit_vector)
            requires
                low == crc & 0xff,
        ;
        let index = b ^ (low as u8);
        proof {
            assert(bytes@.take(i + 1).drop_last() =~= bytes@.take(i as int));
        }
        crc = (crc >> 8) ^ table[index as usize];
        i += 1;
    }
    assert(bytes@.take(i as int) =~= bytes@);
    crc
}

/// Computes the checksum of `size` bytes of `buffer`, starting at `start`,
/// from a seed and a lookup table. With `lower` set the checksum is that of
/// the bytes with all ASCII capital letters made small.
pub fn compute_with_seed(
    seed: u32,
    table: &[u32],
    buffer: &[u8],
    start: u32,
    size: u32,
    lower: bool,
) -> (crc: u32)
    requires
        table@.len() >= 256,
        start + size <= u32::MAX,
        start + size <= buffer@.len(),
    ensures
        crc == spec_hash(seed, table@, buffer@.subrange(start as int, start + size), lower),
{
    assert(buffer@.len() == buffer.len());
    hash_bytes(seed, table, slice_subrange(buffer, start as usize, (start + size) as usize), lower)
}

/// Computes the checksum of a string's bytes with the seed and table of the
/// game, case kept.
pub fn compute_str(val: &str) -> (crc: u32)
    ensures
        crc == spec_hash(FFXIV_SEED, FFXIV_CRC_TABLE@, val.spec_bytes(), false),
{
    let table: &[u32] = &FFXIV_CRC_TABLE;
    hash_bytes(FFXIV_SEED, table, val.as_bytes(), false)
}

/// Computes the checksum of a string's bytes with the seed and table of the
/// game, as if all ASCII capital letters were small.
pub fn compute_str_lower(val: &str) -> (crc: u32)
    ensures
        crc == spec_hash(FFXIV_SEED, FFXIV_CRC_TABLE@, val.spec_bytes(), true),
{
    let table: &[u32] = &FFXIV_CRC_TABLE;
    hash_bytes(FFXIV_SEED, table, val.as_bytes(), true)
}

/// The folding checksum of any bytes is the plain checksum of the bytes
/// folded to lower case. Only ASCII capital letters are folded: every other
/// byte, among them all bytes of multibyte characters, is fed as it is.
pub proof fn lemma_case_folding(seed: u32, table: Seq<u32>, bytes: Seq<u8>)
    ensures
        spec_hash(seed, table, bytes, true) == spec_hash(
            seed,
            table,
            ascii_to_lower(bytes),
            false,
        ),
    decreases bytes.len(),
{
    if bytes.len() > 0 {
        lemma_case_folding(seed, table, bytes.drop_last());
        assert(ascii_to_lower(bytes).drop_last() =~= ascii_to_lower(bytes.drop_last()));
    }
}

/// Folding changes nothing where no byte is an ASCII capital letter: so the
/// bytes of multibyte characters, which all lie above the ASCII range, are
/// never touched.
pub proof fn lemma_folding_keeps_other_bytes(seed: u32, table: Seq<u32>, bytes: Seq<u8>)
    requires
        forall|i: int| 0 <= i < bytes.len() ==> !(0x41 <= #[trigger] bytes[i] <= 0x5a),
    ensures
        spec_hash(seed, table, bytes, true) == spec_hash(seed, table, bytes, false),
    decreases bytes.len(),
{
    if bytes.len() > 0 {
        lemma_folding_keeps_other_bytes(seed, table, bytes.drop_last());
    }
}

/// Folding twice is folding once, so the folding checksum does not tell a
/// path from its lower-case form.
pub proof fn lemma_case_insensitive(seed: u32, table: Seq<u32>, bytes: Seq<u8>)
    ensures
        spec_hash(seed, table, ascii_to_lower(bytes), true) == spec_hash(seed, table, bytes, true),
{
    let low = ascii_to_lower(bytes);
    assert forall|i: int| 0 <= i < low.len() implies ascii_lower(low[i]) == low[i] by {
        let b: u8 = bytes[i];
        assert(0x41 <= b <= 0x5a ==> !(0x41 <= (b | 0x20) <= 0x5a)) by (bit_vector);
    }
    assert(ascii_to_lower(low) =~= low);
    lemma_case_folding(seed, table, low);
    lemma_case_folding(seed, table, bytes);
}

} // verus!
