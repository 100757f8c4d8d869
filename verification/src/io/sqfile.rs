use crate::error::{IoErrorKind, SqResult, SqpackError};
use crate::io::index::{
    spec_file_entry, spec_files_length, spec_files_offset, spec_lookup, IndexCache,
    IndexFileEntry, IndexReader, RECORD_LEN,
};
use crate::io::le::in_bounds;
use crate::sqpath::{
    spec_archive_path, spec_dat_extension, spec_index_hash, SqIndexHash, SqPath,
};
use vstd::prelude::*;

verus! {

/// The highest number that a data file can have.
pub const MAX_DAT_FILE: u8 = 7;

/// What has to be read first to open a path: the index file, and in it the
/// entry with these hashes.
pub struct IndexRequest {
    /// The hashes of the path.
    pub hash: SqIndexHash,
    /// The index file that lists the path.
    pub index_path: String,
}

/// What has to be read to open an entry: the data file that holds it.
pub struct DatRequest {
    /// The entry that the index lists for the path.
    pub entry: IndexFileEntry,
    /// The data file that holds the entry.
    pub dat_path: String,
}

/// The first of `count` file records from `at` on whose hashes are `hash`.
/// The search ends with a short read at a record that cannot be read, and
/// with "not found" behind the last record.
pub open spec fn spec_scan(bytes: Seq<u8>, at: int, count: nat, hash: SqIndexHash) -> SqResult<
    IndexFileEntry,
>
    decreases count,
{
    if count == 0 {
        Err(SqpackError::SqFileNotFound)
    } else if !in_bounds(bytes, at, RECORD_LEN as int) {
        Err(SqpackError::IO(IoErrorKind::UnexpectedEof))
    } else if spec_file_entry(bytes, at).path_hash == hash {
        Ok(spec_file_entry(bytes, at))
    } else {
        spec_scan(bytes, at + RECORD_LEN, (count - 1) as nat, hash)
    }
}

/// The entry that the index `bytes` lists first for `hash`.
pub open spec fn spec_find_entry(bytes: Seq<u8>, hash: SqIndexHash) -> SqResult<IndexFileEntry> {
    match (spec_files_length(bytes), spec_files_offset(bytes)) {
        (Some(len), Some(at)) => spec_scan(bytes, at as int, (len >> 4) as nat, hash),
        _ => Err(SqpackError::IO(IoErrorKind::UnexpectedEof)),
    }
}

/// The first step of opening `sqpath` below the directory `sqpack`: the
/// hashes of the path and the index file that lists it. A path that cannot
/// be hashed, or that names no index file, is not found.
pub fn locate_index(sqpath: &SqPath, sqpack: &str) -> (r: SqResult<IndexRequest>)
    ensures
        match r {
            Ok(request) => {
                &&& spec_index_hash(sqpath@) == Some(request.hash)
                &&& spec_archive_path(sqpath@, sqpack@, ".win32.index"@) == Some(
                    request.index_path@,
                )
            },
            Err(e) => {
                &&& e == SqpackError::SqFileNotFound
                &&& spec_index_hash(sqpath@) is None || spec_archive_path(
                    sqpath@,
                    sqpack@,
                    ".win32.index"@,
                ) is None
            },
        },
{
    let hash = match sqpath.sq_index_hash() {
        Some(hash) => hash,
        None => { return Err(SqpackError::SqFileNotFound); },
    };
    let index_path = match sqpath.sqpack_index_path(sqpack) {
        Some(path) => path,
        None => { return Err(SqpackError::SqFileNotFound); },
    };
    Ok(IndexRequest { hash, index_path })
}

/// The second step: scans the file records of the index for the first with
/// the hashes `hash`.
pub fn find_entry(index: &mut IndexReader, hash: &SqIndexHash) -> (r: SqResult<IndexFileEntry>)
    ensures
        final(index).bytes() == old(index).bytes(),
        r == spec_find_entry(old(index).bytes(), *hash),
{
    let ghost bytes = index.bytes();
    let ghost end = *final(index);
    let mut files = index.files()?;
    let mut outcome: SqResult<IndexFileEntry> = Err(SqpackError::SqFileNotFound);
    loop
        invariant_except_break
            files.visited <= files.count,
            files.reader.position() <= u32::MAX + RECORD_LEN * files.visited,
            spec_find_entry(bytes, *hash) == spec_scan(
                bytes,
                files.reader.position() as int,
                (files.count - files.visited) as nat,
                *hash,
            ),
        invariant
            files.reader.bytes() == bytes,
            *final(files.reader) == end,
            files.count <= u32::MAX,
        ensures
            outcome == spec_find_entry(bytes, *hash),
        decreases files.count - files.visited,
    {
        match files.next() {
            Some(Ok(file)) => {
                if file.path_hash.folder_hash == hash.folder_hash && file.path_hash.file_hash
                    == hash.file_hash {
                    outcome = Ok(file);
                    break;
                }
            },
            Some(Err(e)) => {
                outcome = Err(e);
                break;
            },
            None => {
                outcome = Err(SqpackError::SqFileNotFound);
                break;
            },
        }
    }
    outcome
}

/// The second step with a cache in place of the index: looks the hashes up.
pub fn find_cached_entry(index: &IndexCache, hash: &SqIndexHash) -> (r: SqResult<IndexFileEntry>)
    ensures
        r == match spec_lookup(index@, *hash) {
            Some(entry) => Ok::<IndexFileEntry, SqpackError>(entry),
            None => Err(SqpackError::SqFileNotFound),
        },
{
    match index.get(hash) {
        Some(entry) => Ok(entry),
        None => Err(SqpackError::SqFileNotFound),
    }
}

/// The third step: the data file that holds `entry`. An entry that names a
/// data file above number 7 is invalid data; a path that names no data
/// file is not found.
pub fn locate_dat(sqpath: &SqPath, sqpack: &str, entry: &IndexFileEntry) -> (r: SqResult<
    DatRequest,
>)
    ensures
        match r {
            Ok(request) => {
                &&& entry.dat_file <= MAX_DAT_FILE
                &&& request.entry == *entry
                &&& spec_archive_path(sqpath@, sqpack@, spec_dat_extension(entry.dat_file))
                    == Some(request.dat_path@)
            },
            Err(e) => if entry.dat_file > MAX_DAT_FILE {
                e == SqpackError::IO(IoErrorKind::InvalidData)
            } else {
                &&& e == SqpackError::SqFileNotFound
                &&& spec_archive_path(sqpath@, sqpack@, spec_dat_extension(entry.dat_file))
                    is None
            },
        },
{
    if entry.dat_file > MAX_DAT_FILE {
        return Err(SqpackError::IO(IoErrorKind::InvalidData));
    }
    match sqpath.sqpack_dat_path(sqpack, entry.dat_file) {
        Some(dat_path) => Ok(DatRequest { entry: *entry, dat_path }),
        None => Err(SqpackError::SqFileNotFound),
    }
}

/// Opening `sqpath` with a cache of its index: the entry that the cache
/// holds for the path, and the data file to read it from.
pub fn locate_with_index(sqpath: &SqPath, index: &IndexCache, sqpack: &str) -> (r: SqResult<
    DatRequest,
>)
    ensures
        match r {
            Ok(request) => {
                &&& spec_index_hash(sqpath@) matches Some(hash) && spec_lookup(index@, hash)
                    == Some(request.entry)
                &&& request.entry.dat_file <= MAX_DAT_FILE
                &&& spec_archive_path(
                    sqpath@,
                    sqpack@,
                    spec_dat_extension(request.entry.dat_file),
                ) == Some(request.dat_path@)
            },
            Err(e) => match spec_index_hash(sqpath@) {
                None => e == SqpackError::SqFileNotFound,
                Some(hash) => match spec_lookup(index@, hash) {
                    None => e == SqpackError::SqFileNotFound,
                    Some(entry) => if entry.dat_file > MAX_DAT_FILE {
                        e == SqpackError::IO(IoErrorKind::InvalidData)
                    } else {
                        &&& e == SqpackError::SqFileNotFound
                        &&& spec_archive_path(
                            sqpath@,
                            sqpack@,
                            spec_dat_extension(entry.dat_file),
                        ) is None
                    },
                },
            },
        },
{
    let hash = match sqpath.sq_index_hash() {
        Some(hash) => hash,
        None => { return Err(SqpackError::SqFileNotFound); },
    };
    let entry = find_cached_entry(index, &hash)?;
    locate_dat(sqpath, sqpack, &entry)
}

} // verus!
