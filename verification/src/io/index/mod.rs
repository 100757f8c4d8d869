mod consistency;
mod index_cache;
mod reader;

pub use self::index_cache::{
    spec_cache, spec_cache_of, spec_files_map, spec_folder_files, spec_folders, spec_lookup,
    spec_run_readable, IndexCache, IndexFileEntry, IndexFolderEntry,
};
pub use self::consistency::{
    lemma_cache_finds_every_file, lemma_folder_counts_add_up, spec_file_hashes_differ,
    spec_files, spec_folder_hashes_differ, spec_folders_tile, spec_index_consistent,
    spec_record_has_folder, spec_record_of, spec_total_files,
};
pub use self::reader::{
    lemma_offset_decoding, spec_dat_file, spec_data_offset, spec_file_entry, spec_files_length,
    spec_files_offset, spec_folder_entry, spec_folders_length, spec_folders_offset,
    spec_header_field, spec_header_length, spec_index_fault, spec_read_file_entry,
    spec_read_folder_entry, spec_u32_at, unpack_location, IndexFiles,
    IndexFolderContents, IndexFolderInfo, IndexFolders, IndexReader, FILE_INFO_OFFSET,
    FILE_LENGTH_OFFSET, FOLDER_INFO_OFFSET, FOLDER_LENGTH_OFFSET, FOLDER_RECORD_READ,
    HEADER_LENGTH_OFFSET, RECORD_LEN, SQPACK_INDEX_TYPE, SQPACK_SIGNATURE,
    SQPACK_TYPE_OFFSET,
};
