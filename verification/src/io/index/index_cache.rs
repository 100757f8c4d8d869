use crate::error::{IoErrorKind, SqResult, SqpackError};
use crate::io::index::reader::{
    spec_file_entry, spec_folder_entry, spec_folders_length, spec_folders_offset, IndexFolderInfo,
    IndexReader, FOLDER_RECORD_READ, RECORD_LEN,
};
use crate::io::le::in_bounds;
use crate::sqpath::SqIndexHash;
use std::collections::HashMap;
use vstd::prelude::*;

verus! {

/// A file entry of an index. It says where in the data files the file's
/// data is found.
#[derive(Copy, Clone, Eq, PartialEq, Debug, Hash, Structural)]
pub struct IndexFileEntry {
    /// The hashes of the entry.
    pub path_hash: SqIndexHash,
    /// Where in the data file the entry's header starts.
    pub data_offset: u32,
    /// Which data file holds the entry.
    pub dat_file: u8,
}

/// Whether `count` records that start at `at` can be read, `need` bytes of
/// each: the last of them lies within the bytes, and so do all before it.
pub open spec fn spec_run_readable(bytes: Seq<u8>, at: int, count: nat, need: int) -> bool {
    count == 0 || in_bounds(bytes, at + RECORD_LEN * (count - 1), need)
}

/// The folder records of the index `bytes`, or `None` where the header or
/// one of the records cannot be read.
pub open spec fn spec_folders(bytes: Seq<u8>) -> Option<Seq<IndexFolderInfo>> {
    match (spec_folders_length(bytes), spec_folders_offset(bytes)) {
        (Some(len), Some(at)) => {
            let count = (len >> 4) as nat;
            if spec_run_readable(bytes, at as int, count, FOLDER_RECORD_READ as int) {
                Some(Seq::new(count, |k: int| spec_folder_entry(bytes, at + RECORD_LEN * k)))
            } else {
                None
            }
        },
        _ => None,
    }
}

/// The file records of the folder `info`, or `None` where one of them
/// cannot be read.
pub open spec fn spec_folder_files(bytes: Seq<u8>, info: IndexFolderInfo) -> Option<
    Seq<IndexFileEntry>,
> {
    if spec_run_readable(bytes, info.files_offset as int, info.files_count as nat, RECORD_LEN as int) {
        Some(
            Seq::new(
                info.files_count as nat,
                |k: int| spec_file_entry(bytes, info.files_offset + RECORD_LEN * k),
            ),
        )
    } else {
        None
    }
}

/// The records `entries` by the hash of their file name. Of two records
/// with one hash the later stays.
pub open spec fn spec_files_map(entries: Seq<IndexFileEntry>) -> Map<u32, IndexFileEntry>
    decreases entries.len(),
{
    if entries.len() == 0 {
        Map::empty()
    } else {
        spec_files_map(entries.drop_last()).insert(
            entries.last().path_hash.file_hash,
            entries.last(),
        )
    }
}

/// The files of the folders `folders` by the hash of the folder, or `None`
/// where a file record cannot be read. Of two folders with one hash the
/// later stays.
pub open spec fn spec_cache_of(bytes: Seq<u8>, folders: Seq<IndexFolderInfo>) -> Option<
    Map<u32, Map<u32, IndexFileEntry>>,
>
    decreases folders.len(),
{
    if folders.len() == 0 {
        Some(Map::empty())
    } else {
        match (spec_cache_of(bytes, folders.drop_last()), spec_folder_files(bytes, folders.last())) {
            (Some(before), Some(files)) => Some(
                before.insert(folders.last().folder_hash, spec_files_map(files)),
            ),
            _ => None,
        }
    }
}

/// What a cache of the index `bytes` holds: for every folder record the
/// files that the folder lists, or `None` where the index cannot be read.
pub open spec fn spec_cache(bytes: Seq<u8>) -> Option<Map<u32, Map<u32, IndexFileEntry>>> {
    match spec_folders(bytes) {
        Some(folders) => spec_cache_of(bytes, folders),
        None => None,
    }
}

/// The entry that a cache holds for `hash`, if any.
pub open spec fn spec_lookup(cache: Map<u32, Map<u32, IndexFileEntry>>, hash: SqIndexHash) -> Option<
    IndexFileEntry,
> {
    if cache.contains_key(hash.folder_hash) && cache[hash.folder_hash].contains_key(hash.file_hash) {
        Some(cache[hash.folder_hash][hash.file_hash])
    } else {
        None
    }
}

/// Where the files of all of `folders` can be read, those of the first `i`
/// of them can.
proof fn lemma_cache_prefix(bytes: Seq<u8>, folders: Seq<IndexFolderInfo>, i: int)
    requires
        0 <= i <= folders.len(),
    ensures
        spec_cache_of(bytes, folders) is Some ==> spec_cache_of(bytes, folders.take(i)) is Some,
    decreases folders.len(),
{
    if i == folders.len() {
        assert(folders.take(i) =~= folders);
    } else {
        lemma_cache_prefix(bytes, folders.drop_last(), i);
        assert(folders.drop_last().take(i) =~= folders.take(i));
    }
}

/// A folder of an index cache: the files of the folder by the hash of their
/// name.
#[derive(PartialEq, Debug)]
pub struct IndexFolderEntry {
    folder_hash: u32,
    files: HashMap<u32, IndexFileEntry>,
}

impl View for IndexFolderEntry {
    type V = Map<u32, IndexFileEntry>;

    /// The files of the folder by the hash of their name.
    closed spec fn view(&self) -> Map<u32, IndexFileEntry> {
        self.files@
    }
}

impl Clone for IndexFolderEntry {
    /// A folder with the same hash and the same files.
    fn clone(&self) -> (r: IndexFolderEntry)
        ensures
            r@ == self@,
            r.spec_folder_hash() == self.spec_folder_hash(),
    {
        IndexFolderEntry { folder_hash: self.folder_hash, files: self.files.clone() }
    }
}

impl IndexFolderEntry {
    /// The hash of the folder's name.
    pub closed spec fn spec_folder_hash(&self) -> u32 {
        self.folder_hash
    }

    /// The hash of the folder's name.
    pub fn folder_hash(&self) -> (r: u32)
        ensures
            r == self.spec_folder_hash(),
    {
        self.folder_hash
    }

    /// The entry of the file with the hash `file_hash`, if the folder lists
    /// one.
    pub fn get(&self, file_hash: u32) -> (r: Option<IndexFileEntry>)
        ensures
            r == if self@.contains_key(file_hash) {
                Some(self@[file_hash])
            } else {
                None
            },
    {
        match self.files.get(&file_hash) {
            Some(entry) => Some(*entry),
            None => None,
        }
    }
}

/// An index file held in memory: every file record, found by the hash of its
/// folder and that of its name. It is made once from a reader and does not
/// change.
#[derive(PartialEq, Debug)]
pub struct IndexCache {
    folders: HashMap<u32, IndexFolderEntry>,
}

/// Whether every folder of `folders` is kept under its own hash.
spec fn spec_keyed_by_hash(folders: Map<u32, IndexFolderEntry>) -> bool {
    forall|k: u32| folders.contains_key(k) ==> (#[trigger] folders[k]).folder_hash == k
}

impl View for IndexCache {
    type V = Map<u32, Map<u32, IndexFileEntry>>;

    /// The files of every folder, by the hash of the folder and then by
    /// that of the file.
    closed spec fn view(&self) -> Map<u32, Map<u32, IndexFileEntry>> {
        Map::new(|k: u32| self.folders@.contains_key(k), |k: u32| self.folders@[k]@)
    }
}

/// Reads all folder records of the index.
fn read_folders(reader: &mut IndexReader) -> (r: SqResult<Vec<IndexFolderInfo>>)
    ensures
        final(reader).bytes() == old(reader).bytes(),
        match r {
            Ok(folders) => spec_folders(old(reader).bytes()) == Some(folders@),
            Err(e) => spec_folders(old(reader).bytes()) is None && e == SqpackError::IO(
                IoErrorKind::UnexpectedEof,
            ),
        },
{
    let ghost bytes = reader.bytes();
    let ghost end = *final(reader);
    let mut folders: Vec<IndexFolderInfo> = Vec::new();
    let mut records = reader.folders()?;
    let ghost at = records.reader.position() as int;
    let mut failure: Option<SqpackError> = None;
    loop
        invariant_except_break
            failure is None,
            spec_folders_length(bytes) matches Some(len) && records.count == len >> 4,
            spec_folders_offset(bytes) == Some(at as u32),
            0 <= at <= u32::MAX,
            records.visited <= records.count,
            records.count <= u32::MAX,
            records.reader.position() == at + RECORD_LEN * records.visited,
            folders@.len() == records.visited,
            records.visited > 0 ==> in_bounds(
                bytes,
                at + RECORD_LEN * (records.visited - 1),
                FOLDER_RECORD_READ as int,
            ),
            forall|k: int|
                0 <= k < records.visited ==> folders@[k] == spec_folder_entry(
                    bytes,
                    at + RECORD_LEN * k,
                ),
        invariant
            records.reader.bytes() == bytes,
            *final(records.reader) == end,
        ensures
            match failure {
                Some(e) => spec_folders(bytes) is None && e == SqpackError::IO(
                    IoErrorKind::UnexpectedEof,
                ),
                None => spec_folders(bytes) == Some(folders@),
            },
        decreases records.count - records.visited,
    {
        match records.next() {
            Some(Ok(folder)) => {
                folders.push(folder);
            },
            Some(Err(e)) => {
                failure = Some(e);
                break;
            },
            None => {
                assert(folders@ =~= spec_folders(bytes)->Some_0);
                break;
            },
        }
    }
    match failure {
        Some(e) => Err(e),
        None => Ok(folders),
    }
}

/// Reads the file records of the folder `info` into a map by the hash of
/// the file name.
fn read_folder_files(reader: &mut IndexReader, info: &IndexFolderInfo) -> (r: SqResult<
    HashMap<u32, IndexFileEntry>,
>)
    ensures
        final(reader).bytes() == old(reader).bytes(),
        match r {
            Ok(files) => spec_folder_files(old(reader).bytes(), *info) matches Some(entries)
                && files@ == spec_files_map(entries),
            Err(e) => spec_folder_files(old(reader).bytes(), *info) is None && e
                == SqpackError::IO(IoErrorKind::UnexpectedEof),
        },
{
    let ghost bytes = reader.bytes();
    let ghost end = *final(reader);
    let ghost at = info.files_offset as int;
    let ghost all = Seq::new(
        info.files_count as nat,
        |k: int| spec_file_entry(bytes, at + RECORD_LEN * k),
    );
    let mut files: HashMap<u32, IndexFileEntry> = HashMap::new();
    let mut records = reader.folder_contents(info)?;
    let mut failure: Option<SqpackError> = None;
    loop
        invariant_except_break
            failure is None,
            records.files_count == info.files_count,
            at == info.files_offset,
            records.files_visited <= records.files_count,
            records.reader.position() == at + RECORD_LEN * records.files_visited,
            all == Seq::new(
                info.files_count as nat,
                |k: int| spec_file_entry(bytes, at + RECORD_LEN * k),
            ),
            records.files_visited > 0 ==> in_bounds(
                bytes,
                at + RECORD_LEN * (records.files_visited - 1),
                RECORD_LEN as int,
            ),
            files@ == spec_files_map(all.take(records.files_visited as int)),
        invariant
            records.reader.bytes() == bytes,
            *final(records.reader) == end,
        ensures
            match failure {
                Some(e) => spec_folder_files(bytes, *info) is None && e == SqpackError::IO(
                    IoErrorKind::UnexpectedEof,
                ),
                None => spec_folder_files(bytes, *info) == Some(all) && files@ == spec_files_map(
                    all,
                ),
            },
        decreases records.files_count - records.files_visited,
    {
        let ghost seen = records.files_visited as int;
        match records.next() {
            Some(Ok(file)) => {
                assert(all.take(seen + 1).drop_last() =~= all.take(seen));
                assert(all.take(seen + 1).last() == file);
                files.insert(file.path_hash.file_hash, file);
            },
            Some(Err(e)) => {
                failure = Some(e);
                break;
            },
            None => {
                assert(all.take(seen) =~= all);
                break;
            },
        }
    }
    match failure {
        Some(e) => Err(e),
        None => Ok(files),
    }
}

impl Clone for IndexCache {
    /// A cache that holds the same entries.
    fn clone(&self) -> (r: IndexCache)
        ensures
            r@ == self@,
    {
        proof {
            use_type_invariant(self);
        }
        IndexCache { folders: self.folders.clone() }
    }
}

impl IndexCache {
    /// Every folder is kept under its own hash.
    #[verifier::type_invariant]
    spec fn inv(self) -> bool {
        spec_keyed_by_hash(self.folders@)
    }

    /// Creates a cache of an index from a reader: reads all folder records,
    /// then the file records of each folder. The cursor of the reader may
    /// stand anywhere afterwards.
    pub fn from_reader(reader: &mut IndexReader) -> (r: SqResult<IndexCache>)
        ensures
            final(reader).bytes() == old(reader).bytes(),
            match r {
                Ok(cache) => spec_cache(old(reader).bytes()) == Some(cache@),
                Err(e) => spec_cache(old(reader).bytes()) is None && e == SqpackError::IO(
                    IoErrorKind::UnexpectedEof,
                ),
            },
    {
        let ghost bytes = reader.bytes();
        let folders = read_folders(reader)?;
        let mut folder_map: HashMap<u32, IndexFolderEntry> = HashMap::new();
        let ghost mut listed: Map<u32, Map<u32, IndexFileEntry>> = Map::empty();
        let mut i: usize = 0;
        while i < folders.len()
            invariant
                i <= folders@.len(),
                reader.bytes() == bytes,
                bytes == old(reader).bytes(),
                spec_folders(bytes) == Some(folders@),
                spec_cache_of(bytes, folders@.take(i as int)) == Some(listed),
                spec_keyed_by_hash(folder_map@),
                listed.dom() == folder_map@.dom(),
                forall|k: u32| folder_map@.contains_key(k) ==> listed[k] == (
                #[trigger] folder_map@[k])@,
            decreases folders@.len() - i,
        {
            let folder = folders[i];
            proof {
                assert(folders@.take(i + 1).drop_last() =~= folders@.take(i as int));
                assert(folders@.take(i + 1).last() == folder);
                lemma_cache_prefix(bytes, folders@, i + 1);
            }
            let files = read_folder_files(reader, &folder)?;
            proof {
                listed = listed.insert(folder.folder_hash, files@);
            }
            folder_map.insert(
                folder.folder_hash,
                IndexFolderEntry { folder_hash: folder.folder_hash, files },
            );
            i += 1;
        }
        assert(folders@.take(i as int) =~= folders@);
        let cache = IndexCache { folders: folder_map };
        assert(cache@ =~= listed);
        Ok(cache)
    }

    /// The folder with the hash `folder_hash`, if the index lists one.
    pub fn folder(&self, folder_hash: u32) -> (r: Option<&IndexFolderEntry>)
        ensures
            match r {
                Some(folder) => {
                    &&& self@.contains_key(folder_hash)
                    &&& folder@ == self@[folder_hash]
                    &&& folder.spec_folder_hash() == folder_hash
                },
                None => !self@.contains_key(folder_hash),
            },
    {
        proof {
            use_type_invariant(self);
        }
        self.folders.get(&folder_hash)
    }

    /// The entry of the file with the hashes `hash`, if the index lists
    /// one.
    pub fn get(&self, hash: &SqIndexHash) -> (r: Option<IndexFileEntry>)
        ensures
            r == spec_lookup(self@, *hash),
    {
        match self.folder(hash.folder_hash) {
            Some(folder) => folder.get(hash.file_hash),
            None => None,
        }
    }
}

} // verus!
