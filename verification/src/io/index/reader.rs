use crate::error::{IoErrorKind, SqResult, SqpackError};
use crate::io::index::IndexFileEntry;
use crate::io::le::{in_bounds, read_u32_at, same_bytes, spec_le_u32};
use crate::io::source::ByteSource;
use crate::sqpath::SqIndexHash;
use vstd::prelude::*;
use vstd::slice::slice_subrange;

verus! {

/// The signature with which SqPack files start: the letters `SqPack`.
pub const SQPACK_SIGNATURE: [u8; 6] = [0x53, 0x71, 0x50, 0x61, 0x63, 0x6b];

/// Where the byte that tells the type of a SqPack file stands.
pub const SQPACK_TYPE_OFFSET: u64 = 0x14;

/// The type of SqPack index files.
pub const SQPACK_INDEX_TYPE: u8 = 2;

/// Where the length of the SqPack header stands.
pub const HEADER_LENGTH_OFFSET: u64 = 0x0c;

/// Where, behind the SqPack header, the offset of the files segment stands.
pub const FILE_INFO_OFFSET: u64 = 0x8;

/// Where, behind `FILE_INFO_OFFSET`, the length of the files segment stands.
pub const FILE_LENGTH_OFFSET: u64 = 0x4;

/// Where, behind the SqPack header, the offset of the folders segment
/// stands.
pub const FOLDER_INFO_OFFSET: u64 = 0xe4;

/// Where, behind `FOLDER_INFO_OFFSET`, the length of the folders segment
/// stands.
pub const FOLDER_LENGTH_OFFSET: u64 = 0x4;

/// The length of a record of the files or the folders segment.
pub const RECORD_LEN: u64 = 16;

/// Why `bytes` are no index, if they are none: they are too short, do not
/// start with the signature, or have another type than that of an index.
pub open spec fn spec_index_fault(bytes: Seq<u8>) -> Option<SqpackError> {
    if !in_bounds(bytes, 0, SQPACK_SIGNATURE@.len() as int) {
        Some(SqpackError::IO(IoErrorKind::UnexpectedEof))
    } else if bytes.subrange(0, SQPACK_SIGNATURE@.len() as int) != SQPACK_SIGNATURE@ {
        Some(SqpackError::ReaderIsNotSqPack)
    } else if !in_bounds(bytes, SQPACK_TYPE_OFFSET as int, 1) {
        Some(SqpackError::IO(IoErrorKind::UnexpectedEof))
    } else if bytes[SQPACK_TYPE_OFFSET as int] != SQPACK_INDEX_TYPE {
        Some(SqpackError::ReaderIsNotIndex)
    } else {
        None
    }
}

/// The little-endian `u32` at `at`, where four bytes stand there.
pub open spec fn spec_u32_at(bytes: Seq<u8>, at: int) -> Option<u32> {
    if in_bounds(bytes, at, 4) {
        Some(spec_le_u32(bytes, at))
    } else {
        None
    }
}

/// The length of the SqPack header.
pub open spec fn spec_header_length(bytes: Seq<u8>) -> Option<u32> {
    spec_u32_at(bytes, HEADER_LENGTH_OFFSET as int)
}

/// The number that stands `offset` bytes behind the SqPack header.
pub open spec fn spec_header_field(bytes: Seq<u8>, offset: int) -> Option<u32> {
    match spec_header_length(bytes) {
        Some(header_length) => spec_u32_at(bytes, header_length + offset),
        None => None,
    }
}

/// Where the files segment starts.
pub open spec fn spec_files_offset(bytes: Seq<u8>) -> Option<u32> {
    spec_header_field(bytes, FILE_INFO_OFFSET as int)
}

/// The length of the files segment in bytes.
pub open spec fn spec_files_length(bytes: Seq<u8>) -> Option<u32> {
    spec_header_field(bytes, FILE_INFO_OFFSET + FILE_LENGTH_OFFSET)
}

/// Where the folders segment starts.
pub open spec fn spec_folders_offset(bytes: Seq<u8>) -> Option<u32> {
    spec_header_field(bytes, FOLDER_INFO_OFFSET as int)
}

/// The length of the folders segment in bytes.
pub open spec fn spec_folders_length(bytes: Seq<u8>) -> Option<u32> {
    spec_header_field(bytes, FOLDER_INFO_OFFSET + FOLDER_LENGTH_OFFSET)
}

/// The data file that the packed location `packed` of a file record names.
pub open spec fn spec_dat_file(packed: u32) -> u8 {
    ((packed & 0x7) >> 1) as u8
}

/// The offset within its data file that the packed location `packed` of a
/// file record names.
pub open spec fn spec_data_offset(packed: u32) -> u32 {
    (packed & 0xffff_fff8) << 3
}

/// The file record that starts at `at`: the hash of the file, that of its
/// folder, and its packed location.
pub open spec fn spec_file_entry(bytes: Seq<u8>, at: int) -> IndexFileEntry {
    IndexFileEntry {
        path_hash: SqIndexHash {
            folder_hash: spec_le_u32(bytes, at + 4),
            file_hash: spec_le_u32(bytes, at),
        },
        data_offset: spec_data_offset(spec_le_u32(bytes, at + 8)),
        dat_file: spec_dat_file(spec_le_u32(bytes, at + 8)),
    }
}

/// What reading a file record at `at` gives: the record, or a short read
/// where fewer than 16 bytes stand there.
pub open spec fn spec_read_file_entry(bytes: Seq<u8>, at: int) -> SqResult<IndexFileEntry> {
    if in_bounds(bytes, at, RECORD_LEN as int) {
        Ok(spec_file_entry(bytes, at))
    } else {
        Err(SqpackError::IO(IoErrorKind::UnexpectedEof))
    }
}

/// What a folder record says: the hash of the folder, and where its file
/// records stand and how many they are.
#[derive(Copy, Clone, Eq, PartialEq, Debug, Structural)]
pub struct IndexFolderInfo {
    /// The hash of the folder's name.
    pub folder_hash: u32,
    /// Where the run of the folder's file records starts.
    pub files_offset: u32,
    /// How many file records the folder has.
    pub files_count: u32,
}

/// The folder record that starts at `at`: the hash of the folder, the place
/// of its file records, and their size in bytes, of which a sixteenth is
/// their number.
pub open spec fn spec_folder_entry(bytes: Seq<u8>, at: int) -> IndexFolderInfo {
    IndexFolderInfo {
        folder_hash: spec_le_u32(bytes, at),
        files_offset: spec_le_u32(bytes, at + 4),
        files_count: spec_le_u32(bytes, at + 8) >> 4,
    }
}

/// The part of a folder record that is read; its last four bytes are passed
/// over.
pub const FOLDER_RECORD_READ: u64 = 12;

/// What reading a folder record at `at` gives: the record, or a short read
/// where fewer than 12 bytes stand there.
pub open spec fn spec_read_folder_entry(bytes: Seq<u8>, at: int) -> SqResult<IndexFolderInfo> {
    if in_bounds(bytes, at, FOLDER_RECORD_READ as int) {
        Ok(spec_folder_entry(bytes, at))
    } else {
        Err(SqpackError::IO(IoErrorKind::UnexpectedEof))
    }
}

/// The data file of a record is one of the first eight, and its offset is a
/// multiple of 64. The offset is a multiple of 128 exactly where bit 3 of
/// the packed location is clear.
pub proof fn lemma_offset_decoding(packed: u32)
    ensures
        spec_dat_file(packed) < 8,
        spec_data_offset(packed) % 64 == 0,
        (spec_data_offset(packed) % 128 == 0) <==> (packed & 0x8 == 0),
{
    assert(((packed & 0x7) >> 1) < 4) by (bit_vector);
    assert(((packed & 0xffff_fff8) << 3) % 64 == 0) by (bit_vector);
    assert((((packed & 0xffff_fff8) << 3) % 128 == 0) <==> (packed & 0x8 == 0)) by (bit_vector);
}

/// Decodes the packed location of a file record: the data file and the
/// offset within it.
pub fn unpack_location(packed: u32) -> (r: (u8, u32))
    ensures
        r.0 == spec_dat_file(packed),
        r.1 == spec_data_offset(packed),
        r.0 < 8,
        r.1 % 64 == 0,
        packed & 0x8 == 0 ==> r.1 % 128 == 0,
{
    proof {
        lemma_offset_decoding(packed);
    }
    let low = (packed & 0x7) >> 1;
    assert(low < 4) by (bit_vector)
        requires
            low == (packed & 0x7) >> 1,
    ;
    (low as u8, (packed & 0xffff_fff8) << 3)
}

/// The header fields of an index that have been read so far.
#[derive(Copy, Clone, PartialEq, Eq, Debug, Structural)]
struct CachedInfo {
    header_length: Option<u32>,
    files_offset: Option<u32>,
    folders_offset: Option<u32>,
    files_length: Option<u32>,
    folders_length: Option<u32>,
}

/// A reader of index files over their bytes. It reads the fields of the
/// header when they are first asked for and keeps them.
pub struct IndexReader {
    inner: ByteSource,
    cache: CachedInfo,
}

impl IndexReader {
    /// The bytes are those of an index, and every header field that is kept
    /// is the one that the bytes hold.
    #[verifier::type_invariant]
    spec fn inv(self) -> bool {
        let bytes = self.inner.bytes();
        &&& spec_index_fault(bytes) is None
        &&& self.cache.header_length is Some ==> self.cache.header_length == spec_header_length(
            bytes,
        )
        &&& self.cache.files_offset is Some ==> self.cache.files_offset == spec_files_offset(bytes)
        &&& self.cache.files_length is Some ==> self.cache.files_length == spec_files_length(bytes)
        &&& self.cache.folders_offset is Some ==> self.cache.folders_offset == spec_folders_offset(
            bytes,
        )
        &&& self.cache.folders_length is Some ==> self.cache.folders_length == spec_folders_length(
            bytes,
        )
    }

    /// The bytes of the index.
    pub closed spec fn bytes(&self) -> Seq<u8> {
        self.inner.bytes()
    }

    /// Where the cursor of the reader stands.
    pub closed spec fn position(&self) -> u64 {
        self.inner.position()
    }

    /// A reader over the bytes of an index file. Bytes that do not start
    /// with the SqPack signature, or that are SqPack data of another type,
    /// are refused. The cursor of a new reader stands behind the byte that
    /// tells the type.
    pub fn new(inner: Vec<u8>) -> (r: SqResult<IndexReader>)
        ensures
            match r {
                Ok(reader) => {
                    &&& spec_index_fault(inner@) is None
                    &&& reader.bytes() == inner@
                    &&& reader.position() == SQPACK_TYPE_OFFSET + 1
                },
                Err(e) => spec_index_fault(inner@) == Some(e),
            },
    {
        let mut inner = ByteSource::new(inner);
        inner.seek(0);
        let at = match inner.advance(SQPACK_SIGNATURE.len()) {
            Ok(at) => at,
            Err(e) => { return Err(SqpackError::IO(e)); },
        };
        let signature: &[u8] = &SQPACK_SIGNATURE;
        if !same_bytes(slice_subrange(inner.as_slice(), at, at + signature.len()), signature) {
            return Err(SqpackError::ReaderIsNotSqPack);
        }
        inner.seek(SQPACK_TYPE_OFFSET);
        let at = match inner.advance(1) {
            Ok(at) => at,
            Err(e) => { return Err(SqpackError::IO(e)); },
        };
        let sqtype = inner.as_slice()[at];
        if sqtype == SQPACK_INDEX_TYPE {
            Ok(
                IndexReader {
                    inner,
                    cache: CachedInfo {
                        header_length: None,
                        files_offset: None,
                        folders_offset: None,
                        files_length: None,
                        folders_length: None,
                    },
                },
            )
        } else {
            Err(SqpackError::ReaderIsNotIndex)
        }
    }

    /// Where the cursor of the reader stands.
    pub fn tell(&self) -> (pos: u64)
        ensures
            pos == self.position(),
    {
        self.inner.tell()
    }

    /// Reads the little-endian `u32` at `at`.
    fn read_u32(&mut self, at: u64) -> (r: SqResult<u32>)
        ensures
            final(self).bytes() == old(self).bytes(),
            final(self).cache == old(self).cache,
            match r {
                Ok(v) => spec_u32_at(old(self).bytes(), at as int) == Some(v),
                Err(e) => spec_u32_at(old(self).bytes(), at as int) is None && e
                    == SqpackError::IO(IoErrorKind::UnexpectedEof),
            },
    {
        proof {
            use_type_invariant(&*self);
        }
        self.inner.seek(at);
        match self.inner.advance(4) {
            Ok(start) => Ok(read_u32_at(self.inner.as_slice(), start)),
            Err(e) => Err(SqpackError::IO(e)),
        }
    }

    /// Reads the length of the SqPack header. The cursor may stand anywhere
    /// afterwards.
    fn header_length(&mut self) -> (r: SqResult<u32>)
        ensures
            final(self).bytes() == old(self).bytes(),
            match r {
                Ok(v) => spec_header_length(old(self).bytes()) == Some(v),
                Err(e) => spec_header_length(old(self).bytes()) is None && e == SqpackError::IO(
                    IoErrorKind::UnexpectedEof,
                ),
            },
    {
        proof {
            use_type_invariant(&*self);
        }
        if let Some(len) = self.cache.header_length {
            Ok(len)
        } else {
            let len = self.read_u32(HEADER_LENGTH_OFFSET)?;
            proof {
                use_type_invariant(&*self);
            }
            self.cache.header_length = Some(len);
            Ok(len)
        }
    }

    /// Reads the number that stands `offset` bytes behind the SqPack
    /// header.
    fn header_field(&mut self, offset: u64) -> (r: SqResult<u32>)
        requires
            offset <= 0x100,
        ensures
            final(self).bytes() == old(self).bytes(),
            match r {
                Ok(v) => spec_header_field(old(self).bytes(), offset as int) == Some(v),
                Err(e) => spec_header_field(old(self).bytes(), offset as int) is None && e
                    == SqpackError::IO(IoErrorKind::UnexpectedEof),
            },
    {
        let header_len = self.header_length()?;
        self.read_u32(header_len as u64 + offset)
    }
}

impl IndexReader {
    /// Reads where the files segment starts. The cursor may stand anywhere
    /// afterwards.
    fn files_offset(&mut self) -> (r: SqResult<u32>)
        ensures
            final(self).bytes() == old(self).bytes(),
            match r {
                Ok(v) => spec_files_offset(old(self).bytes()) == Some(v),
                Err(e) => spec_files_offset(old(self).bytes()) is None && e == SqpackError::IO(
                    IoErrorKind::UnexpectedEof,
                ),
            },
    {
        proof {
            use_type_invariant(&*self);
        }
        if let Some(offset) = self.cache.files_offset {
            Ok(offset)
        } else {
            let val = self.header_field(FILE_INFO_OFFSET)?;
            proof {
                use_type_invariant(&*self);
            }
            self.cache.files_offset = Some(val);
            Ok(val)
        }
    }

    /// Reads the length of the files segment in bytes. The cursor may stand
    /// anywhere afterwards.
    fn files_length(&mut self) -> (r: SqResult<u32>)
        ensures
            final(self).bytes() == old(self).bytes(),
            match r {
                Ok(v) => spec_files_length(old(self).bytes()) == Some(v),
                Err(e) => spec_files_length(old(self).bytes()) is None && e == SqpackError::IO(
                    IoErrorKind::UnexpectedEof,
                ),
            },
    {
        proof {
            use_type_invariant(&*self);
        }
        if let Some(len) = self.cache.files_length {
            Ok(len)
        } else {
            let length = self.header_field(FILE_INFO_OFFSET + FILE_LENGTH_OFFSET)?;
            proof {
                use_type_invariant(&*self);
            }
            self.cache.files_length = Some(length);
            Ok(length)
        }
    }

    /// Reads where the folders segment starts. The cursor may stand
    /// anywhere afterwards.
    fn folders_offset(&mut self) -> (r: SqResult<u32>)
        ensures
            final(self).bytes() == old(self).bytes(),
            match r {
                Ok(v) => spec_folders_offset(old(self).bytes()) == Some(v),
                Err(e) => spec_folders_offset(old(self).bytes()) is None && e == SqpackError::IO(
                    IoErrorKind::UnexpectedEof,
                ),
            },
    {
        proof {
            use_type_invariant(&*self);
        }
        if let Some(offset) = self.cache.folders_offset {
            Ok(offset)
        } else {
            let val = self.header_field(FOLDER_INFO_OFFSET)?;
            proof {
                use_type_invariant(&*self);
            }
            self.cache.folders_offset = Some(val);
            Ok(val)
        }
    }

    /// Reads the length of the folders segment in bytes. The cursor may
    /// stand anywhere afterwards.
    fn folders_length(&mut self) -> (r: SqResult<u32>)
        ensures
            final(self).bytes() == old(self).bytes(),
            match r {
                Ok(v) => spec_folders_length(old(self).bytes()) == Some(v),
                Err(e) => spec_folders_length(old(self).bytes()) is None && e == SqpackError::IO(
                    IoErrorKind::UnexpectedEof,
                ),
            },
    {
        proof {
            use_type_invariant(&*self);
        }
        if let Some(len) = self.cache.folders_length {
            Ok(len)
        } else {
            let length = self.header_field(FOLDER_INFO_OFFSET + FOLDER_LENGTH_OFFSET)?;
            proof {
                use_type_invariant(&*self);
            }
            self.cache.folders_length = Some(length);
            Ok(length)
        }
    }

    /// Reads the number of file records that the index states: a sixteenth
    /// of the length of the files segment. The cursor may stand anywhere
    /// afterwards.
    pub fn files_count(&mut self) -> (r: SqResult<usize>)
        ensures
            final(self).bytes() == old(self).bytes(),
            match r {
                Ok(n) => spec_files_length(old(self).bytes()) matches Some(len) && n == len >> 4,
                Err(e) => spec_files_length(old(self).bytes()) is None && e == SqpackError::IO(
                    IoErrorKind::UnexpectedEof,
                ),
            },
    {
        match self.files_length() {
            Ok(len) => Ok((len >> 4) as usize),
            Err(e) => Err(e),
        }
    }

    /// Reads the number of folder records that the index states: a
    /// sixteenth of the length of the folders segment. The cursor may stand
    /// anywhere afterwards.
    pub fn folders_count(&mut self) -> (r: SqResult<usize>)
        ensures
            final(self).bytes() == old(self).bytes(),
            match r {
                Ok(n) => spec_folders_length(old(self).bytes()) matches Some(len) && n == len
                    >> 4,
                Err(e) => spec_folders_length(old(self).bytes()) is None && e == SqpackError::IO(
                    IoErrorKind::UnexpectedEof,
                ),
            },
    {
        match self.folders_length() {
            Ok(len) => Ok((len >> 4) as usize),
            Err(e) => Err(e),
        }
    }

    /// Moves the cursor to the files segment.
    pub fn seek_files(&mut self) -> (r: SqResult<()>)
        ensures
            final(self).bytes() == old(self).bytes(),
            match r {
                Ok(_) => spec_files_offset(old(self).bytes()) == Some(
                    final(self).position() as u32,
                ) && final(self).position() <= u32::MAX,
                Err(e) => spec_files_offset(old(self).bytes()) is None && e == SqpackError::IO(
                    IoErrorKind::UnexpectedEof,
                ),
            },
    {
        let offset = self.files_offset()?;
        proof {
            use_type_invariant(&*self);
        }
        self.inner.seek(offset as u64);
        Ok(())
    }

    /// Moves the cursor to the folders segment.
    pub fn seek_folders(&mut self) -> (r: SqResult<()>)
        ensures
            final(self).bytes() == old(self).bytes(),
            match r {
                Ok(_) => spec_folders_offset(old(self).bytes()) == Some(
                    final(self).position() as u32,
                ) && final(self).position() <= u32::MAX,
                Err(e) => spec_folders_offset(old(self).bytes()) is None && e == SqpackError::IO(
                    IoErrorKind::UnexpectedEof,
                ),
            },
    {
        let offset = self.folders_offset()?;
        proof {
            use_type_invariant(&*self);
        }
        self.inner.seek(offset as u64);
        Ok(())
    }

    /// Moves the cursor to the file records of the folder `info`.
    pub fn seek_folder_contents(&mut self, info: &IndexFolderInfo) -> (r: SqResult<()>)
        ensures
            final(self).bytes() == old(self).bytes(),
            r is Ok,
            final(self).position() == info.files_offset,
    {
        proof {
            use_type_invariant(&*self);
        }
        self.inner.seek(info.files_offset as u64);
        Ok(())
    }

    /// Reads the file record at the cursor and moves the cursor behind it.
    /// Where fewer than 16 bytes are left, the read is short and the cursor
    /// stays. The cursor must stand at a file record, or the result means
    /// nothing; see `seek_files`.
    pub fn read_file_entry(&mut self) -> (r: SqResult<IndexFileEntry>)
        ensures
            final(self).bytes() == old(self).bytes(),
            r == spec_read_file_entry(old(self).bytes(), old(self).position() as int),
            final(self).position() == if r is Ok {
                old(self).position() + RECORD_LEN
            } else {
                old(self).position() as int
            },
    {
        proof {
            use_type_invariant(&*self);
        }
        let at = match self.inner.advance(16) {
            Ok(at) => at,
            Err(e) => { return Err(SqpackError::IO(e)); },
        };
        let bytes = self.inner.as_slice();
        let file_hash = read_u32_at(bytes, at);
        let folder_hash = read_u32_at(bytes, at + 4);
        let (dat_file, data_offset) = unpack_location(read_u32_at(bytes, at + 8));
        Ok(
            IndexFileEntry {
                path_hash: SqIndexHash { folder_hash, file_hash },
                data_offset,
                dat_file,
            },
        )
    }

    /// Reads the folder record at the cursor and moves the cursor behind
    /// it. The last four bytes of a record are passed over, not read: where
    /// fewer than 12 bytes are left, the read is short and the cursor stays.
    /// The cursor must stand at a folder record, or the result means
    /// nothing; see `seek_folders`.
    pub fn read_folder_entry(&mut self) -> (r: SqResult<IndexFolderInfo>)
        ensures
            final(self).bytes() == old(self).bytes(),
            r == spec_read_folder_entry(old(self).bytes(), old(self).position() as int),
            final(self).position() == if r is Err {
                old(self).position() as int
            } else if old(self).position() + RECORD_LEN <= u64::MAX {
                old(self).position() + RECORD_LEN
            } else {
                u64::MAX as int
            },
    {
        proof {
            use_type_invariant(&*self);
        }
        let at = match self.inner.advance(12) {
            Ok(at) => at,
            Err(e) => { return Err(SqpackError::IO(e)); },
        };
        let bytes = self.inner.as_slice();
        let folder_hash = read_u32_at(bytes, at);
        let files_offset = read_u32_at(bytes, at + 4);
        let files_size = read_u32_at(bytes, at + 8);
        let start = at as u64;
        self.inner.seek(
            if start <= u64::MAX - RECORD_LEN {
                start + RECORD_LEN
            } else {
                u64::MAX
            },
        );
        let files_count = files_size >> 4;
        Ok(IndexFolderInfo { folder_hash, files_offset, files_count })
    }
}

/// The file records of an index, one after the other. It holds the reader
/// until it is dropped; asking the reader for the records again starts
/// anew.
pub struct IndexFiles<'a> {
    /// The reader, whose cursor stands at the next record.
    pub reader: &'a mut IndexReader,
    /// How many records there are.
    pub count: usize,
    /// How many records have been handed out.
    pub visited: usize,
}

/// The folder records of an index, one after the other. It holds the reader
/// until it is dropped; asking the reader for the records again starts
/// anew.
pub struct IndexFolders<'a> {
    /// The reader, whose cursor stands at the next record.
    pub reader: &'a mut IndexReader,
    /// How many records there are.
    pub count: usize,
    /// How many records have been handed out.
    pub visited: usize,
}

/// The file records of one folder of an index, one after the other.
pub struct IndexFolderContents<'a> {
    /// The reader, whose cursor stands at the next record.
    pub reader: &'a mut IndexReader,
    /// How many records the folder has.
    pub files_count: u32,
    /// How many records have been handed out.
    pub files_visited: u32,
}

impl IndexReader {
    /// The file records of the index: as many as the header states, read
    /// from the start of the files segment.
    pub fn files(&mut self) -> (r: SqResult<IndexFiles<'_>>)
        ensures
            match r {
                Ok(files) => {
                    &&& spec_files_length(old(self).bytes()) matches Some(len) && files.count
                        == len >> 4
                    &&& spec_files_offset(old(self).bytes()) == Some(
                        files.reader.position() as u32,
                    )
                    &&& files.reader.position() <= u32::MAX
                    &&& files.visited == 0
                    &&& files.reader.bytes() == old(self).bytes()
                    &&& *final(files.reader) == *final(self)
                },
                Err(e) => {
                    &&& spec_files_length(old(self).bytes()) is None || spec_files_offset(
                        old(self).bytes(),
                    ) is None
                    &&& e == SqpackError::IO(IoErrorKind::UnexpectedEof)
                    &&& final(self).bytes() == old(self).bytes()
                },
            },
    {
        let count = self.files_count()?;
        self.seek_files()?;
        Ok(IndexFiles { reader: self, count, visited: 0 })
    }

    /// The folder records of the index: as many as the header states, read
    /// from the start of the folders segment. The files of a folder are
    /// had from `folder_contents`.
    pub fn folders(&mut self) -> (r: SqResult<IndexFolders<'_>>)
        ensures
            match r {
                Ok(folders) => {
                    &&& spec_folders_length(old(self).bytes()) matches Some(len) && folders.count
                        == len >> 4
                    &&& spec_folders_offset(old(self).bytes()) == Some(
                        folders.reader.position() as u32,
                    )
                    &&& folders.reader.position() <= u32::MAX
                    &&& folders.visited == 0
                    &&& folders.reader.bytes() == old(self).bytes()
                    &&& *final(folders.reader) == *final(self)
                },
                Err(e) => {
                    &&& spec_folders_length(old(self).bytes()) is None || spec_folders_offset(
                        old(self).bytes(),
                    ) is None
                    &&& e == SqpackError::IO(IoErrorKind::UnexpectedEof)
                    &&& final(self).bytes() == old(self).bytes()
                },
            },
    {
        let count = self.folders_count()?;
        self.seek_folders()?;
        Ok(IndexFolders { reader: self, count, visited: 0 })
    }

    /// The file records of the folder `folder_info`: as many as the folder
    /// states, read from where it says they start.
    pub fn folder_contents(&mut self, folder_info: &IndexFolderInfo) -> (r: SqResult<
        IndexFolderContents<'_>,
    >)
        ensures
            r matches Ok(contents) && {
                &&& contents.files_count == folder_info.files_count
                &&& contents.files_visited == 0
                &&& contents.reader.position() == folder_info.files_offset
                &&& contents.reader.bytes() == old(self).bytes()
                &&& *final(contents.reader) == *final(self)
            },
    {
        self.seek_folder_contents(folder_info)?;
        Ok(
            IndexFolderContents {
                reader: self,
                files_count: folder_info.files_count,
                files_visited: 0,
            },
        )
    }
}

impl<'a> IndexFiles<'a> {
    /// The next file record, or `None` when as many were handed out as the
    /// index states. A record that cannot be read is handed out as its
    /// error, and counts.
    pub fn next(&mut self) -> (r: Option<SqResult<IndexFileEntry>>)
        ensures
            final(self).count == old(self).count,
            final(self).reader.bytes() == old(self).reader.bytes(),
            *final(final(self).reader) == *final(old(self).reader),
            r is Some <==> old(self).visited < old(self).count,
            match r {
                Some(item) => {
                    &&& final(self).visited == old(self).visited + 1
                    &&& item == spec_read_file_entry(
                        old(self).reader.bytes(),
                        old(self).reader.position() as int,
                    )
                    &&& final(self).reader.position() == if item is Ok {
                        old(self).reader.position() + RECORD_LEN
                    } else {
                        old(self).reader.position() as int
                    }
                },
                None => {
                    &&& final(self).visited == old(self).visited
                    &&& final(self).reader.position() == old(self).reader.position()
                },
            },
    {
        if self.visited < self.count {
            self.visited += 1;
            Some(self.reader.read_file_entry())
        } else {
            None
        }
    }

    /// How many records are still to come: the lower and the upper bound
    /// are the same number.
    pub fn size_hint(&self) -> (r: (usize, Option<usize>))
        ensures
            r.0 == if self.visited <= self.count {
                self.count - self.visited
            } else {
                0
            },
            r.1 == Some(r.0),
    {
        let c = if self.visited <= self.count {
            self.count - self.visited
        } else {
            0
        };
        (c, Some(c))
    }

    /// Hands out all records that are still to come and returns their
    /// number.
    pub fn count(self) -> (n: usize)
        ensures
            n == if self.visited <= self.count {
                self.count - self.visited
            } else {
                0
            },
    {
        let mut records = self;
        let mut n: usize = 0;
        loop
            invariant_except_break
                records.count == self.count,
                self.visited <= records.visited,
                records.visited <= self.count || records.visited == self.visited,
                n == records.visited - self.visited,
            ensures
                n == if self.visited <= self.count {
                    self.count - self.visited
                } else {
                    0
                },
            decreases records.count - records.visited,
        {
            match records.next() {
                Some(_) => {
                    n += 1;
                },
                None => {
                    break;
                },
            }
        }
        n
    }
}

impl<'a> IndexFolders<'a> {
    /// The next folder record, or `None` when as many were handed out as
    /// the index states. A record that cannot be read is handed out as its
    /// error, and counts.
    pub fn next(&mut self) -> (r: Option<SqResult<IndexFolderInfo>>)
        ensures
            final(self).count == old(self).count,
            final(self).reader.bytes() == old(self).reader.bytes(),
            *final(final(self).reader) == *final(old(self).reader),
            r is Some <==> old(self).visited < old(self).count,
            match r {
                Some(item) => {
                    &&& final(self).visited == old(self).visited + 1
                    &&& item == spec_read_folder_entry(
                        old(self).reader.bytes(),
                        old(self).reader.position() as int,
                    )
                    &&& final(self).reader.position() == if item is Err {
                        old(self).reader.position() as int
                    } else if old(self).reader.position() + RECORD_LEN <= u64::MAX {
                        old(self).reader.position() + RECORD_LEN
                    } else {
                        u64::MAX as int
                    }
                },
                None => {
                    &&& final(self).visited == old(self).visited
                    &&& final(self).reader.position() == old(self).reader.position()
                },
            },
    {
        if self.visited < self.count {
            self.visited += 1;
            Some(self.reader.read_folder_entry())
        } else {
            None
        }
    }

    /// How many records are still to come: the lower and the upper bound
    /// are the same number.
    pub fn size_hint(&self) -> (r: (usize, Option<usize>))
        ensures
            r.0 == if self.visited <= self.count {
                self.count - self.visited
            } else {
                0
            },
            r.1 == Some(r.0),
    {
        let c = if self.visited <= self.count {
            self.count - self.visited
        } else {
            0
        };
        (c, Some(c))
    }

    /// Hands out all records that are still to come and returns their
    /// number.
    pub fn count(self) -> (n: usize)
        ensures
            n == if self.visited <= self.count {
                self.count - self.visited
            } else {
                0
            },
    {
        let mut records = self;
        let mut n: usize = 0;
        loop
            invariant_except_break
                records.count == self.count,
                self.visited <= records.visited,
                records.visited <= self.count || records.visited == self.visited,
                n == records.visited - self.visited,
            ensures
                n == if self.visited <= self.count {
                    self.count - self.visited
                } else {
                    0
                },
            decreases records.count - records.visited,
        {
            match records.next() {
                Some(_) => {
                    n += 1;
                },
                None => {
                    break;
                },
            }
        }
        n
    }
}

impl<'a> IndexFolderContents<'a> {
    /// The next file record of the folder, or `None` when as many were
    /// handed out as the folder states. A record that cannot be read is
    /// handed out as its error, and counts.
    pub fn next(&mut self) -> (r: Option<SqResult<IndexFileEntry>>)
        ensures
            final(self).files_count == old(self).files_count,
            final(self).reader.bytes() == old(self).reader.bytes(),
            *final(final(self).reader) == *final(old(self).reader),
            r is Some <==> old(self).files_visited < old(self).files_count,
            match r {
                Some(item) => {
                    &&& final(self).files_visited == old(self).files_visited + 1
                    &&& item == spec_read_file_entry(
                        old(self).reader.bytes(),
                        old(self).reader.position() as int,
                    )
                    &&& final(self).reader.position() == if item is Ok {
                        old(self).reader.position() + RECORD_LEN
                    } else {
                        old(self).reader.position() as int
                    }
                },
                None => {
                    &&& final(self).files_visited == old(self).files_visited
                    &&& final(self).reader.position() == old(self).reader.position()
                },
            },
    {
        if self.files_visited < self.files_count {
            self.files_visited += 1;
            Some(self.reader.read_file_entry())
        } else {
            None
        }
    }
}

} // verus!
