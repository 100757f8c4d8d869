use crate::error::{IoErrorKind, SqResult, SqpackError};
use crate::io::dat::block::{load_block, spec_block_output, BlockTableEntry, ReadingBlock};
use crate::io::dat::{spec_content_type, ContentType};
use crate::io::index::IndexFileEntry;
use crate::io::le::{in_bounds, read_u16_at, read_u32_at, spec_le_u16, spec_le_u32};
use crate::io::source::ByteSource;
use vstd::prelude::*;

verus! {

/// The length of the header that precedes the block table of an entry.
pub const ENTRY_HEADER_LEN: u64 = 24;

/// The length of one record of a block table.
pub const BLOCK_TABLE_RECORD_LEN: u64 = 8;

/// The header of an entry of a data file.
#[derive(Copy, Clone, Eq, PartialEq, Debug, Structural)]
pub struct DatInfo {
    /// The distance from the start of the entry to its first block.
    pub header_len: u32,
    /// The kind of content that the entry stores.
    pub content_type: ContentType,
    /// The length of the file once all its blocks are decoded.
    pub uncompressed_size: u32,
    /// The number of records in the block table.
    pub blocks_len: u32,
}

/// The header of an entry that starts at `entry.data_offset` in `bytes`.
pub open spec fn spec_dat_info(bytes: Seq<u8>, entry: IndexFileEntry) -> SqResult<DatInfo> {
    let at = entry.data_offset as int;
    if !in_bounds(bytes, at, ENTRY_HEADER_LEN as int) {
        Err(SqpackError::IO(IoErrorKind::UnexpectedEof))
    } else {
        match spec_content_type(spec_le_u32(bytes, at + 4)) {
            Err(e) => Err(e),
            Ok(content_type) => Ok(
                DatInfo {
                    header_len: spec_le_u32(bytes, at),
                    content_type,
                    uncompressed_size: spec_le_u32(bytes, at + 8),
                    blocks_len: spec_le_u32(bytes, at + 20),
                },
            ),
        }
    }
}

/// The record of a block table that starts at `at`.
pub open spec fn spec_block_table_entry(bytes: Seq<u8>, at: int) -> BlockTableEntry {
    BlockTableEntry { offset: spec_le_u32(bytes, at), block_size: spec_le_u16(bytes, at + 4) }
}

/// Where the block table of `entry` starts.
pub open spec fn spec_block_table_start(entry: IndexFileEntry) -> int {
    entry.data_offset + ENTRY_HEADER_LEN
}

/// The block table of an entry: `blocks_len` records that follow the entry's
/// header, or a short read where the bytes end before the table does.
pub open spec fn spec_block_table(bytes: Seq<u8>, entry: IndexFileEntry, blocks_len: u32) -> SqResult<
    Seq<BlockTableEntry>,
> {
    let start = spec_block_table_start(entry);
    if !in_bounds(bytes, start, BLOCK_TABLE_RECORD_LEN * blocks_len) {
        Err(SqpackError::IO(IoErrorKind::UnexpectedEof))
    } else {
        Ok(
            Seq::new(
                blocks_len as nat,
                |i: int| spec_block_table_entry(bytes, start + BLOCK_TABLE_RECORD_LEN * i),
            ),
        )
    }
}

impl DatInfo {
    /// Reads the header of the entry that `index_entry` points to. The
    /// cursor of `reader` ends behind the header where there is one, and at
    /// its start where the bytes end too early.
    pub fn read_header(reader: &mut ByteSource, index_entry: &IndexFileEntry) -> (r: SqResult<
        DatInfo,
    >)
        ensures
            r == spec_dat_info(old(reader).bytes(), *index_entry),
            final(reader).bytes() == old(reader).bytes(),
            final(reader).position() == if in_bounds(
                old(reader).bytes(),
                index_entry.data_offset as int,
                ENTRY_HEADER_LEN as int,
            ) {
                index_entry.data_offset + ENTRY_HEADER_LEN
            } else {
                index_entry.data_offset as int
            },
    {
        reader.seek(index_entry.data_offset as u64);
        let at = match reader.advance(ENTRY_HEADER_LEN as usize) {
            Ok(at) => at,
            Err(e) => { return Err(SqpackError::IO(e)); },
        };
        let bytes = reader.as_slice();
        let header_len = read_u32_at(bytes, at);
        let content_type = match ContentType::try_from(read_u32_at(bytes, at + 4)) {
            Ok(c) => c,
            Err(e) => { return Err(e); },
        };
        let uncompressed_size = read_u32_at(bytes, at + 8);
        let blocks_len = read_u32_at(bytes, at + 20);
        Ok(DatInfo { header_len, content_type, uncompressed_size, blocks_len })
    }
}

/// Reads the block table of the entry that `index_entry` points to, whose
/// header is `dat_info`. Only entries with binary content have a block table
/// of this form.
pub fn read_block_table_entries(
    reader: &mut ByteSource,
    index_entry: &IndexFileEntry,
    dat_info: &DatInfo,
) -> (r: SqResult<Vec<BlockTableEntry>>)
    requires
        dat_info.content_type == ContentType::Binary,
    ensures
        final(reader).bytes() == old(reader).bytes(),
        match r {
            Ok(blocks) => spec_block_table(old(reader).bytes(), *index_entry, dat_info.blocks_len)
                == Ok::<Seq<BlockTableEntry>, SqpackError>(blocks@),
            Err(e) => spec_block_table(old(reader).bytes(), *index_entry, dat_info.blocks_len)
                == Err::<Seq<BlockTableEntry>, SqpackError>(e),
        },
{
    reader.seek(index_entry.data_offset as u64 + ENTRY_HEADER_LEN);
    let count = dat_info.blocks_len as u64;
    let len = reader.as_slice().len();
    if count > (len as u64) / BLOCK_TABLE_RECORD_LEN {
        return Err(SqpackError::IO(IoErrorKind::UnexpectedEof));
    }
    let start = match reader.advance((count * BLOCK_TABLE_RECORD_LEN) as usize) {
        Ok(start) => start,
        Err(e) => { return Err(SqpackError::IO(e)); },
    };
    let bytes = reader.as_slice();
    let ghost all = reader.bytes();
    let mut blocks: Vec<BlockTableEntry> = Vec::new();
    let mut i: usize = 0;
    while i < count as usize
        invariant
            bytes@ == all,
            all.len() == len,
            i <= count,
            BLOCK_TABLE_RECORD_LEN * count <= len,
            start == spec_block_table_start(*index_entry),
            start + BLOCK_TABLE_RECORD_LEN * count <= all.len(),
            blocks@.len() == i,
            forall|k: int|
                0 <= k < i ==> blocks@[k] == spec_block_table_entry(
                    all,
                    start + BLOCK_TABLE_RECORD_LEN * k,
                ),
        decreases count - i,
    {
        let at = start + 8 * i;
        blocks.push(
            BlockTableEntry { offset: read_u32_at(bytes, at), block_size: read_u16_at(bytes, at + 4) },
        );
        i += 1;
    }
    proof {
        let want = spec_block_table(all, *index_entry, dat_info.blocks_len);
        assert(want is Ok);
        assert(blocks@ =~= want->Ok_0);
    }
    Ok(blocks)
}

/// Where the block that `table_entry` lists starts in the data file.
pub open spec fn spec_block_start(
    entry: IndexFileEntry,
    info: DatInfo,
    table_entry: BlockTableEntry,
) -> int {
    entry.data_offset + info.header_len + table_entry.offset
}

/// What a stream reads from: the bytes of the data file, the entry it
/// reads, and the entry's header and block table.
pub struct StreamSource {
    /// The bytes of the data file.
    pub bytes: Seq<u8>,
    /// The index entry of the file that is read.
    pub entry: IndexFileEntry,
    /// The header of the file's entry.
    pub info: DatInfo,
    /// The block table of the file.
    pub table: Seq<BlockTableEntry>,
}

/// What one read does: the bytes it hands out or the error it fails with,
/// and what is left of the current block and which block comes next
/// afterwards.
pub struct ReadOutcome {
    /// The bytes that the read hands out, or the error it fails with.
    pub delivered: SqResult<Seq<u8>>,
    /// What is left of the current block after the read.
    pub pending: Seq<u8>,
    /// The number of the next block to load after the read.
    pub next_block: nat,
}

/// What reading a stream to its end gives: the bytes up to the end or to the
/// first block that fails to load, that failure if there is one, and the
/// number of the block that would be loaded next.
pub struct DrainOutcome {
    /// The bytes up to the end of the stream or to the first failure.
    pub bytes: Seq<u8>,
    /// The failure that ends the reading early, if there is one.
    pub error: Option<SqpackError>,
    /// The number of the block that would be loaded next.
    pub next_block: nat,
}

impl StreamSource {
    /// What block number `i` of the table decodes to.
    pub open spec fn block_output(self, i: int) -> SqResult<Seq<u8>> {
        spec_block_output(
            self.bytes,
            spec_block_start(self.entry, self.info, self.table[i]),
            self.table[i],
        )
    }

    /// Handing out of `block` what fits into a buffer of `wanted` bytes.
    pub open spec fn deliver(block: Seq<u8>, wanted: nat, next_block: nat) -> ReadOutcome {
        let n = if wanted <= block.len() {
            wanted as int
        } else {
            block.len() as int
        };
        ReadOutcome { delivered: Ok(block.take(n)), pending: block.skip(n), next_block }
    }

    /// A read that finds nothing to hand out in the current block: it loads
    /// block after block, from number `i` on, until one has bytes for the
    /// buffer, one fails to load, or the table is at its end.
    pub open spec fn advance(self, i: nat, wanted: nat) -> ReadOutcome
        decreases self.table.len() - i,
    {
        if i >= self.table.len() {
            ReadOutcome { delivered: Ok(Seq::empty()), pending: Seq::empty(), next_block: i }
        } else {
            match self.block_output(i as int) {
                Err(e) => ReadOutcome {
                    delivered: Err(e),
                    pending: Seq::empty(),
                    next_block: i + 1,
                },
                Ok(block) => if block.len() > 0 && wanted > 0 {
                    Self::deliver(block, wanted, i + 1)
                } else {
                    self.advance(i + 1, wanted)
                },
            }
        }
    }

    /// A read into a buffer of `wanted` bytes, with `pending` left of the
    /// current block and `next_block` the next to load: from the current
    /// block where that holds bytes for the buffer, else from the blocks
    /// that follow.
    pub open spec fn read(self, pending: Seq<u8>, next_block: nat, wanted: nat) -> ReadOutcome {
        if pending.len() > 0 && wanted > 0 {
            Self::deliver(pending, wanted, next_block)
        } else {
            self.advance(next_block, wanted)
        }
    }

    /// What the blocks from number `i` on decode to, one after the other, up
    /// to the first that fails to load.
    pub open spec fn drain_from(self, i: nat) -> DrainOutcome
        decreases self.table.len() - i,
    {
        if i >= self.table.len() {
            DrainOutcome { bytes: Seq::empty(), error: None, next_block: i }
        } else {
            match self.block_output(i as int) {
                Err(e) => DrainOutcome { bytes: Seq::empty(), error: Some(e), next_block: i + 1 },
                Ok(block) => {
                    let rest = self.drain_from(i + 1);
                    DrainOutcome { bytes: block + rest.bytes, ..rest }
                },
            }
        }
    }

    /// What is left of a stream: the pending bytes, then the blocks not
    /// loaded yet.
    pub open spec fn drain(self, pending: Seq<u8>, next_block: nat) -> DrainOutcome {
        let rest = self.drain_from(next_block);
        DrainOutcome { bytes: pending + rest.bytes, ..rest }
    }
}

/// What opening the entry that `entry` points to in `bytes` reads: the
/// entry's header and its block table.
pub open spec fn spec_open(bytes: Seq<u8>, entry: IndexFileEntry) -> SqResult<
    (DatInfo, Seq<BlockTableEntry>),
> {
    match spec_dat_info(bytes, entry) {
        Err(e) => Err(e),
        Ok(info) => match spec_block_table(bytes, entry, info.blocks_len) {
            Err(e) => Err(e),
            Ok(table) => Ok((info, table)),
        },
    }
}

/// A file stored within a data file, read as a stream of bytes: the blocks
/// of the file are decoded one by one, in the order of the block table, and
/// their bytes handed out one after the other.
pub struct SqFile {
    /// The bytes of the data file.
    inner: ByteSource,
    /// The index entry of the file that is read.
    index_entry: IndexFileEntry,
    /// The block table of the file.
    blocks: Vec<BlockTableEntry>,
    /// The number of the next block to load.
    next_block: usize,
    /// The block that is being read, if any.
    current_block: Option<ReadingBlock>,
    /// The header of the file's entry.
    dat_info: DatInfo,
}

impl SqFile {
    /// What the stream reads from.
    pub closed spec fn source(&self) -> StreamSource {
        StreamSource {
            bytes: self.inner.bytes(),
            entry: self.index_entry,
            info: self.dat_info,
            table: self.blocks@,
        }
    }

    /// The decoded bytes of the current block that are not handed out yet.
    pub closed spec fn pending(&self) -> Seq<u8> {
        match self.current_block {
            Some(block) => block.rest(),
            None => Seq::empty(),
        }
    }

    /// The number of the next block to load.
    pub closed spec fn next_block(&self) -> nat {
        self.next_block as nat
    }

    /// Opens the file that `index_entry` points to within the bytes of a
    /// data file: reads the entry's header and block table. With an entry of
    /// another data file this fails, or succeeds on bytes that mean nothing.
    pub fn open_reader(reader: Vec<u8>, index_entry: IndexFileEntry) -> (r: SqResult<SqFile>)
        ensures
            match r {
                Ok(file) => {
                    &&& spec_open(reader@, index_entry) == Ok::<
                        (DatInfo, Seq<BlockTableEntry>),
                        SqpackError,
                    >((file.source().info, file.source().table))
                    &&& file.source().bytes == reader@
                    &&& file.source().entry == index_entry
                    &&& file.pending() == Seq::<u8>::empty()
                    &&& file.next_block() == 0
                },
                Err(e) => spec_open(reader@, index_entry) == Err::<
                    (DatInfo, Seq<BlockTableEntry>),
                    SqpackError,
                >(e),
            },
    {
        let mut inner = ByteSource::new(reader);
        let dat_info = DatInfo::read_header(&mut inner, &index_entry)?;
        let blocks = read_block_table_entries(&mut inner, &index_entry, &dat_info)?;
        Ok(SqFile { inner, index_entry, blocks, next_block: 0, current_block: None, dat_info })
    }

    /// Opens another file of the same data file, without handing the bytes
    /// over anew.
    pub fn reopen(self, index_entry: IndexFileEntry) -> (r: SqResult<SqFile>)
        ensures
            match r {
                Ok(file) => {
                    &&& spec_open(self.source().bytes, index_entry) == Ok::<
                        (DatInfo, Seq<BlockTableEntry>),
                        SqpackError,
                    >((file.source().info, file.source().table))
                    &&& file.source().bytes == self.source().bytes
                    &&& file.source().entry == index_entry
                    &&& file.pending() == Seq::<u8>::empty()
                    &&& file.next_block() == 0
                },
                Err(e) => spec_open(self.source().bytes, index_entry) == Err::<
                    (DatInfo, Seq<BlockTableEntry>),
                    SqpackError,
                >(e),
            },
    {
        let mut inner = self.inner;
        let dat_info = DatInfo::read_header(&mut inner, &index_entry)?;
        let blocks = read_block_table_entries(&mut inner, &index_entry, &dat_info)?;
        Ok(SqFile { inner, index_entry, blocks, next_block: 0, current_block: None, dat_info })
    }

    /// The kind of content stored within this file.
    pub fn content_type(&self) -> (r: ContentType)
        ensures
            r == self.source().info.content_type,
    {
        self.dat_info.content_type
    }

    /// The size that the entry's header states for the decoded file. It can
    /// be used to prepare a buffer.
    pub fn total_size(&self) -> (r: usize)
        ensures
            r == self.source().info.uncompressed_size,
    {
        self.dat_info.uncompressed_size as usize
    }
}

impl SqFile {
    /// Begins reading the block that `entry` lists: loads its payload from
    /// the data file and decodes it.
    fn start_block(&mut self, entry: BlockTableEntry) -> (r: SqResult<ReadingBlock>)
        ensures
            final(self).source() == old(self).source(),
            final(self).current_block == old(self).current_block,
            final(self).next_block == old(self).next_block,
            final(self).blocks == old(self).blocks,
            match r {
                Ok(block) => spec_block_output(
                    old(self).source().bytes,
                    spec_block_start(old(self).source().entry, old(self).source().info, entry),
                    entry,
                ) == Ok::<Seq<u8>, SqpackError>(block.rest()),
                Err(e) => spec_block_output(
                    old(self).source().bytes,
                    spec_block_start(old(self).source().entry, old(self).source().info, entry),
                    entry,
                ) == Err::<Seq<u8>, SqpackError>(e),
            },
    {
        let block_offset = self.index_entry.data_offset as u64 + self.dat_info.header_len as u64
            + entry.offset as u64;
        load_block(&mut self.inner, block_offset, &entry)
    }

    /// Reads the next bytes of the file into the start of `buf` and returns
    /// their number. What is left of the current block is handed out first;
    /// where nothing is left, or `buf` is empty, the blocks that follow are
    /// loaded until one has bytes for `buf`. A block that fails to load ends
    /// the call with its error and is passed over by the next call. The
    /// result 0 says that the block table is at its end.
    pub fn read(&mut self, buf: &mut [u8]) -> (r: SqResult<usize>)
        ensures
            final(self).source() == old(self).source(),
            final(self).pending() == old(self).spec_read(old(buf)@.len()).pending,
            final(self).next_block() == old(self).spec_read(old(buf)@.len()).next_block,
            match r {
                Ok(n) => {
                    &&& old(self).spec_read(old(buf)@.len()).delivered matches Ok(bytes)
                    &&& n == bytes.len()
                    &&& final(buf)@ == bytes + old(buf)@.skip(n as int)
                },
                Err(e) => {
                    &&& old(self).spec_read(old(buf)@.len()).delivered == Err::<
                        Seq<u8>,
                        SqpackError,
                    >(e)
                    &&& final(buf)@ == old(buf)@
                },
            },
    {
        let ghost source = self.source();
        let ghost wanted = buf@.len();
        let ghost goal = self.spec_read(wanted);
        let mut current = self.current_block.take();
        loop
            invariant
                buf@ == old(buf)@,
                wanted == buf@.len(),
                source == old(self).source(),
                self.source() == source,
                goal == old(self).spec_read(wanted),
                self.current_block is None,
                goal == source.read(
                    match current {
                        Some(block) => block.rest(),
                        None => Seq::empty(),
                    },
                    self.next_block as nat,
                    wanted,
                ),
            decreases 2 * (self.blocks@.len() - self.next_block) + (if current is Some {
                1int
            } else {
                0int
            }),
        {
            if let Some(mut block) = current {
                let n = block.read(buf);
                if n > 0 {
                    self.current_block = Some(block);
                    assert(old(buf)@.skip(n as int) =~= buf@.skip(n as int));
                    return Ok(n);
                }
            }
            current = None;
            assert(goal == source.advance(self.next_block as nat, wanted));
            if self.next_block < self.blocks.len() {
                let entry = self.blocks[self.next_block];
                self.next_block = self.next_block + 1;
                match self.start_block(entry) {
                    Ok(block) => {
                        current = Some(block);
                    },
                    Err(e) => {
                        return Err(e);
                    },
                }
            } else {
                assert(buf@.skip(0) =~= buf@);
                assert(Seq::<u8>::empty() + buf@ =~= buf@);
                return Ok(0);
            }
        }
    }

    /// Reads all that is left of the file and appends it to `buf`; the
    /// result is the number of bytes appended. Where a block fails to load,
    /// the bytes before it stay in `buf`, and the next call goes on behind
    /// that block.
    pub fn read_to_end(&mut self, buf: &mut Vec<u8>) -> (r: SqResult<usize>)
        ensures
            final(self).source() == old(self).source(),
            final(self).pending() == Seq::<u8>::empty(),
            final(self).next_block() == old(self).spec_drain().next_block,
            final(buf)@ == old(buf)@ + old(self).spec_drain().bytes,
            match r {
                Ok(n) => old(self).spec_drain().error is None && n == old(
                    self,
                ).spec_drain().bytes.len(),
                Err(e) => old(self).spec_drain().error == Some(e),
            },
    {
        let ghost source = self.source();
        let ghost goal = self.spec_drain();
        let start_len = buf.len();
        if let Some(block) = self.current_block.take() {
            block.drain_into(buf);
        }
        let ghost mut done: Seq<u8> = old(self).pending();
        assert(buf@ == old(buf)@ + done);
        while self.next_block < self.blocks.len()
            invariant
                self.source() == source,
                source == old(self).source(),
                goal == old(self).spec_drain(),
                self.current_block is None,
                start_len == old(buf)@.len(),
                buf@ == old(buf)@ + done,
                goal.bytes == done + source.drain_from(self.next_block as nat).bytes,
                goal.error == source.drain_from(self.next_block as nat).error,
                goal.next_block == source.drain_from(self.next_block as nat).next_block,
            decreases self.blocks@.len() - self.next_block,
        {
            let entry = self.blocks[self.next_block];
            self.next_block = self.next_block + 1;
            match self.start_block(entry) {
                Ok(block) => {
                    proof {
                        let rest = source.drain_from(self.next_block as nat).bytes;
                        assert(done + (block.rest() + rest) =~= (done + block.rest()) + rest);
                        assert(old(buf)@ + (done + block.rest()) =~= (old(buf)@ + done)
                            + block.rest());
                        done = done + block.rest();
                    }
                    block.drain_into(buf);
                },
                Err(e) => {
                    assert(done + Seq::<u8>::empty() =~= done);
                    return Err(e);
                },
            }
        }
        assert(done + Seq::<u8>::empty() =~= done);
        Ok(buf.len() - start_len)
    }

    /// What a read into a buffer of `wanted` bytes does to this stream.
    pub open spec fn spec_read(&self, wanted: nat) -> ReadOutcome {
        self.source().read(self.pending(), self.next_block(), wanted)
    }

    /// What is left of this stream.
    pub open spec fn spec_drain(&self) -> DrainOutcome {
        self.source().drain(self.pending(), self.next_block())
    }
}

/// How loading blocks from number `i` on, for a buffer that is not empty,
/// relates to what these blocks decode to: the read hands out a start of
/// those bytes and leaves the rest, and it fails where the first block that
/// holds any bytes fails to load.
proof fn lemma_advance_follows_stream(source: StreamSource, i: nat, wanted: nat)
    requires
        wanted > 0,
    ensures
        ({
            let read = source.advance(i, wanted);
            let all = source.drain_from(i);
            let left = source.drain(read.pending, read.next_block);
            match read.delivered {
                Ok(bytes) => {
                    &&& bytes.len() <= all.bytes.len()
                    &&& bytes == all.bytes.take(bytes.len() as int)
                    &&& left.bytes == all.bytes.skip(bytes.len() as int)
                    &&& left.error == all.error
                    &&& bytes.len() == 0 <==> all.bytes.len() == 0 && all.error is None
                },
                Err(e) => all.bytes.len() == 0 && all.error == Some(e),
            }
        }),
    decreases source.table.len() - i,
{
    if i < source.table.len() {
        match source.block_output(i as int) {
            Err(e) => {},
            Ok(block) => {
                let rest = source.drain_from(i + 1);
                if block.len() > 0 {
                    let n = if wanted <= block.len() {
                        wanted as int
                    } else {
                        block.len() as int
                    };
                    assert((block + rest.bytes).take(n) =~= block.take(n));
                    assert((block + rest.bytes).skip(n) =~= block.skip(n) + rest.bytes);
                } else {
                    lemma_advance_follows_stream(source, i + 1, wanted);
                    assert(block + rest.bytes =~= rest.bytes);
                }
            },
        }
    } else {
        let empty = Seq::<u8>::empty();
        assert(empty.take(0) =~= empty);
        assert(empty + empty =~= empty);
        assert(empty.skip(0) =~= empty);
    }
}

/// A read into a buffer that is not empty hands out the next bytes of what
/// is left of the stream, in order and without loss, and what is left
/// afterwards is the remainder. It returns no bytes exactly when nothing is
/// left and no block failed, and it fails exactly when the first block that
/// has not been handed out fails to load. So a stream whose blocks all load
/// yields, before the read that returns 0, the bytes that its blocks decode
/// to: as many as the entry's header states, where the archive is
/// consistent.
pub proof fn lemma_read_follows_stream(
    source: StreamSource,
    pending: Seq<u8>,
    next_block: nat,
    wanted: nat,
)
    requires
        wanted > 0,
    ensures
        ({
            let read = source.read(pending, next_block, wanted);
            let all = source.drain(pending, next_block);
            let left = source.drain(read.pending, read.next_block);
            match read.delivered {
                Ok(bytes) => {
                    &&& bytes.len() <= all.bytes.len()
                    &&& bytes == all.bytes.take(bytes.len() as int)
                    &&& left.bytes == all.bytes.skip(bytes.len() as int)
                    &&& left.error == all.error
                    &&& bytes.len() == 0 <==> all.bytes.len() == 0 && all.error is None
                },
                Err(e) => all.bytes.len() == 0 && all.error == Some(e),
            }
        }),
{
    let rest = source.drain_from(next_block);
    if pending.len() > 0 {
        let n = if wanted <= pending.len() {
            wanted as int
        } else {
            pending.len() as int
        };
        assert((pending + rest.bytes).take(n) =~= pending.take(n));
        assert((pending + rest.bytes).skip(n) =~= pending.skip(n) + rest.bytes);
    } else {
        lemma_advance_follows_stream(source, next_block, wanted);
        assert(pending + rest.bytes =~= rest.bytes);
    }
}

} // verus!
