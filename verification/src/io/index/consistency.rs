use crate::io::index::index_cache::{
    spec_cache, spec_cache_of, spec_files_map, spec_folder_files, spec_folders, spec_lookup,
    spec_run_readable, IndexFileEntry,
};
use crate::io::index::reader::{
    spec_file_entry, spec_files_length, spec_files_offset, IndexFolderInfo, RECORD_LEN,
};
use vstd::prelude::*;

verus! {

/// The file records of the index `bytes`, or `None` where the header or
/// one of the records cannot be read.
pub open spec fn spec_files(bytes: Seq<u8>) -> Option<Seq<IndexFileEntry>> {
    match (spec_files_length(bytes), spec_files_offset(bytes)) {
        (Some(len), Some(at)) => {
            let count = (len >> 4) as nat;
            if spec_run_readable(bytes, at as int, count, RECORD_LEN as int) {
                Some(Seq::new(count, |k: int| spec_file_entry(bytes, at + RECORD_LEN * k)))
            } else {
                None
            }
        },
        _ => None,
    }
}

/// The number of files that `folders` state, all together.
pub open spec fn spec_total_files(folders: Seq<IndexFolderInfo>) -> nat
    decreases folders.len(),
{
    if folders.len() == 0 {
        0
    } else {
        spec_total_files(folders.drop_last()) + folders.last().files_count as nat
    }
}

/// Whether the runs of file records of `folders` lie end to end, in the
/// order of the folders, from `start` to `end`.
pub open spec fn spec_folders_tile(folders: Seq<IndexFolderInfo>, start: int, end: int) -> bool
    decreases folders.len(),
{
    if folders.len() == 0 {
        start == end
    } else {
        let last = folders.last();
        &&& spec_folders_tile(folders.drop_last(), start, last.files_offset as int)
        &&& end == last.files_offset + RECORD_LEN * last.files_count
    }
}

/// Runs that lie end to end hold as many records as the bytes they cover
/// have room for.
proof fn lemma_tiled_total(folders: Seq<IndexFolderInfo>, start: int, end: int)
    requires
        spec_folders_tile(folders, start, end),
    ensures
        end - start == RECORD_LEN * spec_total_files(folders),
    decreases folders.len(),
{
    if folders.len() > 0 {
        lemma_tiled_total(folders.drop_last(), start, folders.last().files_offset as int);
    }
}

/// In an index whose folders have their file records end to end, filling
/// the files segment, the numbers of files that the folders state add up to
/// the number of file records of the index.
pub proof fn lemma_folder_counts_add_up(bytes: Seq<u8>)
    requires
        spec_folders(bytes) is Some,
        spec_files_offset(bytes) is Some,
        spec_files_length(bytes) is Some,
        spec_folders_tile(
            spec_folders(bytes)->Some_0,
            spec_files_offset(bytes)->Some_0 as int,
            spec_files_offset(bytes)->Some_0 + spec_files_length(bytes)->Some_0,
        ),
    ensures
        spec_total_files(spec_folders(bytes)->Some_0) == spec_files_length(bytes)->Some_0 >> 4,
{
    let len = spec_files_length(bytes)->Some_0;
    let at = spec_files_offset(bytes)->Some_0;
    lemma_tiled_total(spec_folders(bytes)->Some_0, at as int, at + len);
    assert(len >> 4 == len / 16) by (bit_vector);
}

/// Whether no two of `entries` have the same file hash.
pub open spec fn spec_file_hashes_differ(entries: Seq<IndexFileEntry>) -> bool {
    forall|a: int, b: int|
        0 <= a < b < entries.len() ==> entries[a].path_hash.file_hash
            != entries[b].path_hash.file_hash
}

/// Whether no two of `folders` have the same hash.
pub open spec fn spec_folder_hashes_differ(folders: Seq<IndexFolderInfo>) -> bool {
    forall|a: int, b: int|
        0 <= a < b < folders.len() ==> folders[a].folder_hash != folders[b].folder_hash
}

/// Whether the file record at `at` is record number `j` of the folder
/// `folder` and names that folder.
pub open spec fn spec_record_of(
    bytes: Seq<u8>,
    at: int,
    folder: IndexFolderInfo,
    j: int,
) -> bool {
    &&& 0 <= j < folder.files_count
    &&& at == folder.files_offset + RECORD_LEN * j
    &&& spec_file_entry(bytes, at).path_hash.folder_hash == folder.folder_hash
}

/// Whether the folders of the index `bytes` account for its files: no two
/// folders have one hash, no two files of a folder have one hash, and every
/// record of the files segment belongs to a folder that it names.
pub open spec fn spec_index_consistent(bytes: Seq<u8>) -> bool {
    &&& spec_folders(bytes) is Some
    &&& spec_files(bytes) is Some
    &&& spec_cache(bytes) is Some
    &&& spec_folder_hashes_differ(spec_folders(bytes)->Some_0)
    &&& forall|i: int|
        0 <= i < spec_folders(bytes)->Some_0.len() ==> spec_file_hashes_differ(
            #[trigger] spec_folder_files(bytes, spec_folders(bytes)->Some_0[i])->Some_0,
        )
    &&& forall|k: int|
        0 <= k < spec_files(bytes)->Some_0.len() ==> #[trigger] spec_record_has_folder(bytes, k)
}

/// Whether record number `k` of the files segment belongs to a folder of
/// the index that it names.
pub open spec fn spec_record_has_folder(bytes: Seq<u8>, k: int) -> bool {
    exists|i: int, j: int|
        0 <= i < spec_folders(bytes)->Some_0.len() && #[trigger] spec_record_of(
            bytes,
            spec_files_offset(bytes)->Some_0 + RECORD_LEN * k,
            spec_folders(bytes)->Some_0[i],
            j,
        )
}

/// A map of records with different file hashes holds each of them under
/// its hash.
proof fn lemma_files_map_holds(entries: Seq<IndexFileEntry>, j: int)
    requires
        spec_file_hashes_differ(entries),
        0 <= j < entries.len(),
    ensures
        spec_files_map(entries).contains_key(entries[j].path_hash.file_hash),
        spec_files_map(entries)[entries[j].path_hash.file_hash] == entries[j],
    decreases entries.len(),
{
    if j < entries.len() - 1 {
        lemma_files_map_holds(entries.drop_last(), j);
    }
}

/// A cache of folders with different hashes holds the files of each of
/// them under its hash.
proof fn lemma_cache_holds(bytes: Seq<u8>, folders: Seq<IndexFolderInfo>, i: int)
    requires
        spec_folder_hashes_differ(folders),
        spec_cache_of(bytes, folders) is Some,
        0 <= i < folders.len(),
    ensures
        spec_folder_files(bytes, folders[i]) is Some,
        spec_cache_of(bytes, folders)->Some_0.contains_key(folders[i].folder_hash),
        spec_cache_of(bytes, folders)->Some_0[folders[i].folder_hash] == spec_files_map(
            spec_folder_files(bytes, folders[i])->Some_0,
        ),
    decreases folders.len(),
{
    if i < folders.len() - 1 {
        lemma_cache_holds(bytes, folders.drop_last(), i);
    }
}

/// Of an index whose folders account for its files, the cache holds every
/// file record under the hashes of the record: looking up the hashes of
/// record number `k` of the files segment gives that record.
pub proof fn lemma_cache_finds_every_file(bytes: Seq<u8>, k: int)
    requires
        spec_index_consistent(bytes),
        0 <= k < spec_files(bytes)->Some_0.len(),
    ensures
        spec_lookup(spec_cache(bytes)->Some_0, spec_files(bytes)->Some_0[k].path_hash) == Some(
            spec_files(bytes)->Some_0[k],
        ),
{
    let folders = spec_folders(bytes)->Some_0;
    let at = spec_files_offset(bytes)->Some_0 + RECORD_LEN * k;
    assert(spec_record_has_folder(bytes, k));
    let (i, j) = choose|i: int, j: int|
        0 <= i < folders.len() && #[trigger] spec_record_of(bytes, at, folders[i], j);
    lemma_cache_holds(bytes, folders, i);
    let listed = spec_folder_files(bytes, folders[i])->Some_0;
    assert(spec_file_hashes_differ(listed));
    lemma_files_map_holds(listed, j);
}

} // verus!
