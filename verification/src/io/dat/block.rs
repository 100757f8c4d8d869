use crate::error::{IoErrorKind, SqResult, SqpackError};
use crate::io::dat::inflate::{inflate, inflated};
use crate::io::le::{in_bounds, read_u32_at, spec_le_u32};
use crate::io::source::ByteSource;
use vstd::prelude::*;
use vstd::slice::{slice_subrange, slice_to_vec};

verus! {

/// The length of the header of a block.
pub const BLOCK_HEADER_LEN: u64 = 16;

/// The boundary to which compressed blocks are padded on disk.
pub const BLOCK_PADDING: u32 = 0x80;

/// The value of a block's compressed length that marks it as stored without
/// compression. A block with a smaller value is compressed; a larger value
/// is malformed.
pub const UNCOMPRESSED_MARK: u32 = 32000;

/// A record of a block table.
#[derive(Copy, Clone, Eq, PartialEq, Debug, Structural)]
pub struct BlockTableEntry {
    /// Where the block starts, counted from the end of the entry's header.
    pub offset: u32,
    /// The size of the block on disk.
    pub block_size: u16,
}

/// The header of a block.
#[derive(Copy, Clone, Eq, PartialEq, Debug, Structural)]
pub struct BlockHeader {
    /// The length that the header states for itself.
    pub header_len: u32,
    /// The length of the compressed payload, or [`UNCOMPRESSED_MARK`].
    pub compressed_len: u32,
    /// The length of the payload once it is decoded.
    pub decompressed_len: u32,
}

/// The block header that starts at `at`.
pub open spec fn spec_block_header(bytes: Seq<u8>, at: int) -> BlockHeader {
    BlockHeader {
        header_len: spec_le_u32(bytes, at),
        compressed_len: spec_le_u32(bytes, at + 8),
        decompressed_len: spec_le_u32(bytes, at + 12),
    }
}

impl BlockHeader {
    /// Whether the payload is a DEFLATE stream.
    pub open spec fn spec_is_compressed(&self) -> bool {
        self.compressed_len < UNCOMPRESSED_MARK
    }

    /// Whether the header breaks the rule that a block which is not
    /// compressed carries exactly [`UNCOMPRESSED_MARK`] as its compressed
    /// length.
    pub open spec fn spec_is_malformed(&self) -> bool {
        self.compressed_len > UNCOMPRESSED_MARK
    }

    /// How many bytes are read behind the header of a block that the table
    /// lists with `table_entry`: a payload that is stored as it is has its
    /// decoded length; a compressed one has its compressed length, and, where
    /// table size plus header length is no multiple of the padding, what
    /// fills it up to the next such boundary.
    pub open spec fn spec_read_len(&self, table_entry: BlockTableEntry) -> int {
        if self.spec_is_compressed() {
            if (table_entry.block_size + self.header_len) % (BLOCK_PADDING as int) != 0 {
                self.compressed_len + BLOCK_PADDING - ((table_entry.block_size - self.header_len) % (
                BLOCK_PADDING as int))
            } else {
                self.compressed_len as int
            }
        } else {
            self.decompressed_len as int
        }
    }

    /// Decodes the 16 bytes of a block header at `at`.
    pub fn parse(bytes: &[u8], at: usize) -> (h: BlockHeader)
        requires
            in_bounds(bytes@, at as int, BLOCK_HEADER_LEN as int),
        ensures
            h == spec_block_header(bytes@, at as int),
    {
        assert(bytes@.len() == bytes.len());
        BlockHeader {
            header_len: read_u32_at(bytes, at),
            compressed_len: read_u32_at(bytes, at + 8),
            decompressed_len: read_u32_at(bytes, at + 12),
        }
    }

    /// Whether the payload is a DEFLATE stream.
    pub fn is_compressed(&self) -> (r: bool)
        ensures
            r == self.spec_is_compressed(),
    {
        self.compressed_len < UNCOMPRESSED_MARK
    }

    /// The number of payload bytes to read, or invalid data for a malformed
    /// header.
    pub fn read_len(&self, table_entry: &BlockTableEntry) -> (r: SqResult<u32>)
        ensures
            match r {
                Ok(n) => !self.spec_is_malformed() && n == self.spec_read_len(*table_entry),
                Err(e) => self.spec_is_malformed() && e == SqpackError::IO(IoErrorKind::InvalidData),
            },
    {
        if self.compressed_len > UNCOMPRESSED_MARK {
            return Err(SqpackError::IO(IoErrorKind::InvalidData));
        }
        if self.compressed_len < UNCOMPRESSED_MARK {
            let size = table_entry.block_size as u64;
            let header_len = self.header_len as u64;
            if (size + header_len) % 128 != 0 {
                let over = ((size + 0x1_0000_0000 - header_len) % 128) as u32;
                assert(over == (table_entry.block_size - self.header_len) % 128);
                Ok(self.compressed_len + BLOCK_PADDING - over)
            } else {
                Ok(self.compressed_len)
            }
        } else {
            Ok(self.decompressed_len)
        }
    }
}

/// Whether a block is stored as a DEFLATE stream or as it is.
#[derive(Copy, Clone, Eq, PartialEq, Debug, Structural)]
pub enum BlockKind {
    /// A raw DEFLATE stream.
    Compressed,
    /// The payload itself.
    Uncompressed,
}

/// The block that a stream is reading: its decoded bytes and a cursor into
/// them.
pub struct ReadingBlock {
    kind: BlockKind,
    buffer: Vec<u8>,
    pos: usize,
}

impl ReadingBlock {
    #[verifier::type_invariant]
    spec fn inv(self) -> bool {
        self.pos <= self.buffer@.len()
    }

    /// How the block was stored.
    pub closed spec fn kind(&self) -> BlockKind {
        self.kind
    }

    /// The decoded bytes that have not been handed out yet.
    pub closed spec fn rest(&self) -> Seq<u8> {
        self.buffer@.skip(self.pos as int)
    }

    /// A block over a payload that was stored as it is.
    pub fn uncompressed(payload: Vec<u8>) -> (b: ReadingBlock)
        ensures
            b.kind() == BlockKind::Uncompressed,
            b.rest() == payload@,
    {
        ReadingBlock { kind: BlockKind::Uncompressed, buffer: payload, pos: 0 }
    }

    /// A block over what inflating a compressed payload gave, or the error
    /// with which inflating failed.
    pub fn from_inflated(outcome: Result<Vec<u8>, IoErrorKind>) -> (r: SqResult<ReadingBlock>)
        ensures
            match outcome {
                Ok(decoded) => r matches Ok(b) && b.kind() == BlockKind::Compressed && b.rest()
                    == decoded@,
                Err(e) => r matches Err(err) && err == SqpackError::IO(e),
            },
    {
        match outcome {
            Ok(decoded) => Ok(ReadingBlock { kind: BlockKind::Compressed, buffer: decoded, pos: 0 }),
            Err(e) => Err(SqpackError::IO(e)),
        }
    }

    /// Appends what is left of the block to `out`.
    pub fn drain_into(self, out: &mut Vec<u8>)
        ensures
            final(out)@ == old(out)@ + self.rest(),
    {
        proof {
            use_type_invariant(&self);
        }
        let all = self.buffer.as_slice();
        out.extend_from_slice(slice_subrange(all, self.pos, all.len()));
    }

    /// Copies the next bytes of the block to the start of `buf`: as many as
    /// both hold. The result is their number; 0 says that the block is at
    /// its end or that `buf` is empty.
    pub fn read(&mut self, buf: &mut [u8]) -> (n: usize)
        ensures
            n == if old(buf)@.len() <= old(self).rest().len() {
                old(buf)@.len()
            } else {
                old(self).rest().len()
            },
            final(buf)@ == old(self).rest().take(n as int) + old(buf)@.skip(n as int),
            final(self).rest() == old(self).rest().skip(n as int),
            final(self).kind() == old(self).kind(),
    {
        proof {
            use_type_invariant(&*self);
        }
        let left = self.buffer.len() - self.pos;
        let n = if buf.len() <= left {
            buf.len()
        } else {
            left
        };
        let start = self.pos;
        let mut i: usize = 0;
        while i < n
            invariant
                i <= n,
                start + n <= self.buffer@.len() <= usize::MAX,
                n <= buf@.len(),
                buf@.len() == old(buf)@.len(),
                self.pos == start,
                self.kind == old(self).kind,
                self.buffer@ == old(self).buffer@,
                forall|k: int| 0 <= k < i ==> buf@[k] == self.buffer@[start + k],
                forall|k: int| i <= k < buf@.len() ==> buf@[k] == old(buf)@[k],
            decreases n - i,
        {
            buf[i] = self.buffer[start + i];
            i += 1;
        }
        self.pos = start + n;
        assert(buf@ =~= old(self).rest().take(n as int) + old(buf)@.skip(n as int));
        assert(self.rest() =~= old(self).rest().skip(n as int));
        n
    }
}

/// What the block that starts at `at` decodes to: its payload, inflated
/// where it is compressed. The block's header must lie within the bytes, its
/// compressed length must not exceed [`UNCOMPRESSED_MARK`], and its payload
/// must lie within the bytes and, where compressed, inflate.
pub open spec fn spec_block_output(bytes: Seq<u8>, at: int, table_entry: BlockTableEntry) -> SqResult<
    Seq<u8>,
> {
    if !in_bounds(bytes, at, BLOCK_HEADER_LEN as int) {
        Err(SqpackError::IO(IoErrorKind::UnexpectedEof))
    } else {
        let header = spec_block_header(bytes, at);
        let start = at + BLOCK_HEADER_LEN;
        let n = header.spec_read_len(table_entry);
        if header.spec_is_malformed() {
            Err(SqpackError::IO(IoErrorKind::InvalidData))
        } else if !in_bounds(bytes, start, n) {
            Err(SqpackError::IO(IoErrorKind::UnexpectedEof))
        } else if header.spec_is_compressed() {
            match inflated(bytes.subrange(start, start + n)) {
                Ok(decoded) => Ok(decoded),
                Err(e) => Err(SqpackError::IO(e)),
            }
        } else {
            Ok(bytes.subrange(start, start + n))
        }
    }
}

/// Loads the block that starts at `at`: reads its header, then its payload,
/// and inflates the payload where it is compressed.
pub fn load_block(reader: &mut ByteSource, at: u64, table_entry: &BlockTableEntry) -> (r: SqResult<
    ReadingBlock,
>)
    ensures
        final(reader).bytes() == old(reader).bytes(),
        match r {
            Ok(block) => {
                &&& spec_block_output(old(reader).bytes(), at as int, *table_entry) == Ok::<
                    Seq<u8>,
                    SqpackError,
                >(block.rest())
                &&& block.kind() == if spec_block_header(
                    old(reader).bytes(),
                    at as int,
                ).spec_is_compressed() {
                    BlockKind::Compressed
                } else {
                    BlockKind::Uncompressed
                }
            },
            Err(e) => spec_block_output(old(reader).bytes(), at as int, *table_entry) == Err::<
                Seq<u8>,
                SqpackError,
            >(e),
        },
{
    reader.seek(at);
    let header_at = match reader.advance(16) {
        Ok(start) => start,
        Err(e) => { return Err(SqpackError::IO(e)); },
    };
    let header = BlockHeader::parse(reader.as_slice(), header_at);
    let n = match header.read_len(table_entry) {
        Ok(n) => n as usize,
        Err(e) => { return Err(e); },
    };
    let start = match reader.advance(n) {
        Ok(start) => start,
        Err(e) => { return Err(SqpackError::IO(e)); },
    };
    let payload = slice_subrange(reader.as_slice(), start, start + n);
    if header.is_compressed() {
        ReadingBlock::from_inflated(inflate(payload))
    } else {
        Ok(ReadingBlock::uncompressed(slice_to_vec(payload)))
    }
}

/// A block whose header states a compressed length above
/// [`UNCOMPRESSED_MARK`] is refused as invalid data, whatever else it
/// holds.
pub proof fn lemma_block_sentinel(bytes: Seq<u8>, at: int, table_entry: BlockTableEntry)
    requires
        in_bounds(bytes, at, BLOCK_HEADER_LEN as int),
        spec_block_header(bytes, at).compressed_len >= UNCOMPRESSED_MARK,
        spec_block_header(bytes, at).compressed_len != UNCOMPRESSED_MARK,
    ensures
        spec_block_output(bytes, at, table_entry) == Err::<Seq<u8>, SqpackError>(
            SqpackError::IO(IoErrorKind::InvalidData),
        ),
{
}

} // verus!
