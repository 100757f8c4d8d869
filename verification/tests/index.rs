use sqpack::io::index::{
    unpack_location, IndexCache, IndexFileEntry, IndexFolderInfo, IndexReader,
};
use sqpack::io::sqfile::{find_cached_entry, find_entry, locate_dat, locate_index, locate_with_index};
use sqpack::sqpath::SqIndexHash;
use sqpack::{IoErrorKind, SqPath, SqpackError};

const HEADER_LEN: u32 = 0x400;
const FILES_AT: u32 = 0x800;

fn put_u32(bytes: &mut Vec<u8>, at: usize, value: u32) {
    if bytes.len() < at + 4 {
        bytes.resize(at + 4, 0);
    }
    bytes[at..at + 4].copy_from_slice(&value.to_le_bytes());
}

/// One file record: file hash, folder hash, packed location.
type Record = (u32, u32, u32);

/// An index with the given folders, each with its file records, laid out as
/// the game does: all file records in the files segment, folder by folder,
/// and the folder records behind them.
fn index_of(folders: &[(u32, Vec<Record>)]) -> Vec<u8> {
    let mut bytes = Vec::new();
    bytes.extend_from_slice(b"SqPack");
    bytes.resize(0x15, 0);
    put_u32(&mut bytes, 0x0c, HEADER_LEN);
    bytes[0x14] = 2;
    let files: usize = folders.iter().map(|f| f.1.len()).sum();
    let folders_at = FILES_AT + 16 * files as u32;
    put_u32(&mut bytes, (HEADER_LEN + 0x08) as usize, FILES_AT);
    put_u32(&mut bytes, (HEADER_LEN + 0x0c) as usize, 16 * files as u32);
    put_u32(&mut bytes, (HEADER_LEN + 0xe4) as usize, folders_at);
    put_u32(&mut bytes, (HEADER_LEN + 0xe8) as usize, 16 * folders.len() as u32);
    let mut at = FILES_AT as usize;
    let mut folder_at = folders_at as usize;
    for (folder_hash, records) in folders {
        put_u32(&mut bytes, folder_at, *folder_hash);
        put_u32(&mut bytes, folder_at + 4, at as u32);
        put_u32(&mut bytes, folder_at + 8, 16 * records.len() as u32);
        put_u32(&mut bytes, folder_at + 12, 0);
        folder_at += 16;
        for (file_hash, folder, packed) in records {
            put_u32(&mut bytes, at, *file_hash);
            put_u32(&mut bytes, at + 4, *folder);
            put_u32(&mut bytes, at + 8, *packed);
            put_u32(&mut bytes, at + 12, 0);
            at += 16;
        }
    }
    bytes
}

fn sample() -> Vec<u8> {
    index_of(&[
        (0x0AF2_69D6, vec![(0xE3B7_1579, 0x0AF2_69D6, 0x10), (0x1111_1111, 0x0AF2_69D6, 0x22)]),
        (0x2000_0000, vec![]),
        (0x3000_0000, vec![(0xE3B7_1579, 0x3000_0000, 0xffff_fff6)]),
    ])
}

fn entry(file_hash: u32, folder_hash: u32, data_offset: u32, dat_file: u8) -> IndexFileEntry {
    IndexFileEntry { path_hash: SqIndexHash { folder_hash, file_hash }, data_offset, dat_file }
}

fn all_files(reader: &mut IndexReader) -> Vec<Result<IndexFileEntry, SqpackError>> {
    let mut files = reader.files().unwrap();
    let mut out = Vec::new();
    while let Some(item) = files.next() {
        out.push(item);
    }
    out
}

fn all_folders(reader: &mut IndexReader) -> Vec<Result<IndexFolderInfo, SqpackError>> {
    let mut folders = reader.folders().unwrap();
    let mut out = Vec::new();
    while let Some(item) = folders.next() {
        out.push(item);
    }
    out
}

#[test]
fn bytes_without_signature_are_not_sqpack() {
    let mut bytes = sample();
    bytes[5] = b'K';
    assert!(matches!(IndexReader::new(bytes), Err(SqpackError::ReaderIsNotSqPack)));
    assert!(matches!(
        IndexReader::new(b"SqPacx and more bytes than the header needs".to_vec()),
        Err(SqpackError::ReaderIsNotSqPack)
    ));
}

#[test]
fn sqpack_of_another_type_is_no_index() {
    let mut bytes = sample();
    bytes[0x14] = 1;
    assert!(matches!(IndexReader::new(bytes), Err(SqpackError::ReaderIsNotIndex)));
}

#[test]
fn short_bytes_are_a_short_read() {
    let eof = SqpackError::IO(IoErrorKind::UnexpectedEof);
    assert_eq!(IndexReader::new(Vec::new()).err(), Some(eof));
    assert_eq!(IndexReader::new(b"SqPac".to_vec()).err(), Some(eof));
    // signature there, type byte missing
    assert_eq!(IndexReader::new(b"SqPack".to_vec()).err(), Some(eof));
    let mut bytes = sample();
    bytes.truncate(0x14);
    assert_eq!(IndexReader::new(bytes).err(), Some(eof));
    // the signature is looked at first
    assert_eq!(IndexReader::new(b"XqPack".to_vec()).err(), Some(SqpackError::ReaderIsNotSqPack));
}

#[test]
fn counts_are_a_sixteenth_of_the_segment_lengths() {
    let mut reader = IndexReader::new(sample()).unwrap();
    assert_eq!(reader.files_count().unwrap(), 3);
    assert_eq!(reader.folders_count().unwrap(), 3);
    // asked again, the kept values come back
    assert_eq!(reader.files_count().unwrap(), 3);
    assert_eq!(reader.folders_count().unwrap(), 3);

    let mut bytes = sample();
    put_u32(&mut bytes, (HEADER_LEN + 0x0c) as usize, 47);
    put_u32(&mut bytes, (HEADER_LEN + 0xe8) as usize, 15);
    let mut reader = IndexReader::new(bytes).unwrap();
    assert_eq!(reader.files_count().unwrap(), 2);
    assert_eq!(reader.folders_count().unwrap(), 0);
}

#[test]
fn file_records_are_decoded() {
    let mut reader = IndexReader::new(sample()).unwrap();
    assert_eq!(
        all_files(&mut reader),
        vec![
            Ok(entry(0xE3B7_1579, 0x0AF2_69D6, 0x80, 0)),
            Ok(entry(0x1111_1111, 0x0AF2_69D6, 0x100, 1)),
            Ok(entry(0xE3B7_1579, 0x3000_0000, 0xffff_ff80, 3)),
        ]
    );
}

#[test]
fn iterators_start_anew() {
    let mut reader = IndexReader::new(sample()).unwrap();
    let first = all_files(&mut reader);
    let folders = all_folders(&mut reader);
    let second = all_files(&mut reader);
    assert_eq!(first, second);
    assert_eq!(folders, all_folders(&mut reader));
    assert_eq!(first.len(), 3);
}

#[test]
fn folder_records_are_decoded() {
    let mut reader = IndexReader::new(sample()).unwrap();
    assert_eq!(
        all_folders(&mut reader),
        vec![
            Ok(IndexFolderInfo { folder_hash: 0x0AF2_69D6, files_offset: FILES_AT, files_count: 2 }),
            Ok(IndexFolderInfo {
                folder_hash: 0x2000_0000,
                files_offset: FILES_AT + 32,
                files_count: 0
            }),
            Ok(IndexFolderInfo {
                folder_hash: 0x3000_0000,
                files_offset: FILES_AT + 32,
                files_count: 1
            }),
        ]
    );
}

#[test]
fn iterators_yield_as_many_items_as_the_header_states() {
    let mut reader = IndexReader::new(sample()).unwrap();
    let files_count = reader.files_count().unwrap();
    let folders_count = reader.folders_count().unwrap();
    assert_eq!(reader.files().unwrap().size_hint(), (3, Some(3)));
    assert_eq!(reader.files().unwrap().count(), files_count);
    assert_eq!(reader.folders().unwrap().size_hint(), (3, Some(3)));
    assert_eq!(reader.folders().unwrap().count(), folders_count);
    let mut files = reader.files().unwrap();
    files.next();
    assert_eq!(files.size_hint(), (2, Some(2)));
    assert_eq!(files.count(), 2);
}

#[test]
fn folder_counts_add_up_to_the_number_of_files() {
    let mut reader = IndexReader::new(sample()).unwrap();
    let files = reader.files().unwrap().count();
    let mut sum = 0;
    for folder in all_folders(&mut reader) {
        sum += folder.unwrap().files_count as usize;
    }
    assert_eq!(sum, files);
}

#[test]
fn folder_contents_are_the_files_of_the_folder() {
    let mut reader = IndexReader::new(sample()).unwrap();
    let folders = all_folders(&mut reader);
    let mut seen = Vec::new();
    for folder in folders {
        let folder = folder.unwrap();
        let mut contents = reader.folder_contents(&folder).unwrap();
        let mut count: u32 = 0;
        while let Some(file) = contents.next() {
            let file = file.unwrap();
            assert_eq!(file.path_hash.folder_hash, folder.folder_hash);
            seen.push(Ok(file));
            count += 1;
        }
        assert_eq!(folder.files_count, count);
    }
    assert_eq!(seen, all_files(&mut reader));
}

#[test]
fn reading_by_hand() {
    let mut reader = IndexReader::new(sample()).unwrap();
    reader.seek_files().unwrap();
    assert_eq!(reader.read_file_entry(), Ok(entry(0xE3B7_1579, 0x0AF2_69D6, 0x80, 0)));
    assert_eq!(reader.read_file_entry(), Ok(entry(0x1111_1111, 0x0AF2_69D6, 0x100, 1)));
    reader.seek_folders().unwrap();
    let folder = reader.read_folder_entry().unwrap();
    assert_eq!(folder.folder_hash, 0x0AF2_69D6);
    let empty = reader.read_folder_entry().unwrap();
    assert_eq!(empty.files_count, 0);
    let last = reader.read_folder_entry().unwrap();
    reader.seek_folder_contents(&last).unwrap();
    assert_eq!(reader.read_file_entry(), Ok(entry(0xE3B7_1579, 0x3000_0000, 0xffff_ff80, 3)));
}

#[test]
fn the_cursor_moves_with_the_records() {
    let mut reader = IndexReader::new(sample()).unwrap();
    assert_eq!(reader.tell(), 0x15);
    reader.seek_files().unwrap();
    assert_eq!(reader.tell(), FILES_AT as u64);
    reader.read_file_entry().unwrap();
    assert_eq!(reader.tell(), FILES_AT as u64 + 16);
    reader.seek_folders().unwrap();
    assert_eq!(reader.tell(), FILES_AT as u64 + 48);
    reader.read_folder_entry().unwrap();
    assert_eq!(reader.tell(), FILES_AT as u64 + 64);
    let folder = IndexFolderInfo { folder_hash: 0, files_offset: 0xffff_fff0, files_count: 2 };
    reader.seek_folder_contents(&folder).unwrap();
    assert_eq!(reader.tell(), 0xffff_fff0);
    // a read that fails leaves the cursor where it stands
    assert_eq!(reader.read_file_entry(), Err(SqpackError::IO(IoErrorKind::UnexpectedEof)));
    assert_eq!(reader.tell(), 0xffff_fff0);
    assert_eq!(reader.read_folder_entry(), Err(SqpackError::IO(IoErrorKind::UnexpectedEof)));
    assert_eq!(reader.tell(), 0xffff_fff0);
    let mut files = reader.files().unwrap();
    assert_eq!(files.reader.tell(), FILES_AT as u64);
    files.next();
    files.next();
    assert_eq!(files.reader.tell(), FILES_AT as u64 + 32);
    let mut contents = reader.folder_contents(&folder).unwrap();
    assert_eq!(contents.next(), Some(Err(SqpackError::IO(IoErrorKind::UnexpectedEof))));
    assert_eq!(contents.next(), Some(Err(SqpackError::IO(IoErrorKind::UnexpectedEof))));
    assert_eq!(contents.next(), None);
    assert_eq!(contents.reader.tell(), 0xffff_fff0);
}

#[test]
fn records_past_the_end_are_short_reads() {
    let eof = SqpackError::IO(IoErrorKind::UnexpectedEof);
    let mut bytes = sample();
    // the last folder record loses its last five bytes: 11 are left, 12 are read
    let len = bytes.len();
    bytes.truncate(len - 5);
    let mut reader = IndexReader::new(bytes.clone()).unwrap();
    let folders = all_folders(&mut reader);
    assert_eq!(folders.len(), 3);
    assert!(folders[0].is_ok() && folders[1].is_ok());
    assert_eq!(folders[2], Err(eof));
    assert_eq!(IndexCache::from_reader(&mut reader).err(), Some(eof));
    // with the last four bytes gone the record is still read
    bytes.extend_from_slice(&[0]);
    let mut reader = IndexReader::new(bytes).unwrap();
    assert!(all_folders(&mut reader).iter().all(|f| f.is_ok()));

    // a files segment that is stated longer than the bytes
    let mut bytes = index_of(&[]);
    let end = bytes.len() as u32;
    put_u32(&mut bytes, (HEADER_LEN + 0x08) as usize, end - 20);
    put_u32(&mut bytes, (HEADER_LEN + 0x0c) as usize, 48);
    let mut reader = IndexReader::new(bytes).unwrap();
    let files = all_files(&mut reader);
    assert_eq!(files.len(), 3);
    assert!(files[0].is_ok());
    assert_eq!(files[1], Err(eof));
    assert_eq!(files[2], Err(eof));
}

#[test]
fn a_header_past_the_end_is_a_short_read() {
    let eof = SqpackError::IO(IoErrorKind::UnexpectedEof);
    let mut bytes = sample();
    put_u32(&mut bytes, 0x0c, 0x00ff_ffff);
    let mut reader = IndexReader::new(bytes).unwrap();
    assert_eq!(reader.files_count(), Err(eof));
    assert_eq!(reader.folders_count(), Err(eof));
    assert_eq!(reader.seek_files(), Err(eof));
    assert_eq!(reader.seek_folders(), Err(eof));
    assert_eq!(reader.files().err(), Some(eof));
    assert_eq!(reader.folders().err(), Some(eof));
    assert_eq!(IndexCache::from_reader(&mut reader).err(), Some(eof));
    assert_eq!(
        find_entry(&mut reader, &SqIndexHash { folder_hash: 1, file_hash: 2 }),
        Err(eof)
    );
    let mut short = sample();
    short.truncate(0x0e);
    short.resize(0x15, 0);
    short[0x14] = 2;
    short.truncate(0x15);
    let mut reader = IndexReader::new(short).unwrap();
    // the header length itself lies within the bytes here, the fields do not
    assert_eq!(reader.files_count(), Err(eof));
}

#[test]
fn locations_are_unpacked() {
    assert_eq!(unpack_location(0), (0, 0));
    assert_eq!(unpack_location(0x10), (0, 0x80));
    assert_eq!(unpack_location(0x16), (3, 0x80));
    assert_eq!(unpack_location(0x17), (3, 0x80));
    assert_eq!(unpack_location(0x8), (0, 0x40));
    assert_eq!(unpack_location(0xffff_ffff), (3, 0xffff_ffc0));
    assert_eq!(unpack_location(0x2000_0010), (0, 0x80));
}

#[test]
fn data_files_and_offsets_of_all_records() {
    let mut packed: u32 = 1;
    for _ in 0..2000 {
        packed = packed.wrapping_mul(1_664_525).wrapping_add(1_013_904_223);
        let (dat_file, data_offset) = unpack_location(packed);
        assert!(dat_file < 8);
        assert_eq!(data_offset % 64, 0);
        assert_eq!(data_offset % 128 == 0, packed & 8 == 0);
        assert_eq!(dat_file as u32, (packed & 7) >> 1);
        assert_eq!(data_offset, (packed & 0xffff_fff8) << 3);
    }
}

#[test]
fn the_cache_finds_every_file() {
    let mut reader = IndexReader::new(sample()).unwrap();
    let cache = IndexCache::from_reader(&mut reader).unwrap();
    let files = all_files(&mut reader);
    assert_eq!(files.len(), 3);
    for file in files {
        let file = file.unwrap();
        assert_eq!(cache.get(&file.path_hash), Some(file));
        assert_eq!(find_cached_entry(&cache, &file.path_hash), Ok(file));
    }
}

#[test]
fn the_cache_knows_what_it_does_not_hold() {
    let mut reader = IndexReader::new(sample()).unwrap();
    let cache = IndexCache::from_reader(&mut reader).unwrap();
    // a folder without files, a file of another folder, a folder that is not there
    assert_eq!(cache.get(&SqIndexHash { folder_hash: 0x2000_0000, file_hash: 0xE3B7_1579 }), None);
    assert_eq!(cache.get(&SqIndexHash { folder_hash: 0x3000_0000, file_hash: 0x1111_1111 }), None);
    assert_eq!(cache.get(&SqIndexHash { folder_hash: 0x4000_0000, file_hash: 0x1111_1111 }), None);
    assert_eq!(
        find_cached_entry(&cache, &SqIndexHash { folder_hash: 0x4000_0000, file_hash: 1 }),
        Err(SqpackError::SqFileNotFound)
    );
}

#[test]
fn the_cache_hands_out_its_folders() {
    let mut reader = IndexReader::new(sample()).unwrap();
    let cache = IndexCache::from_reader(&mut reader).unwrap();
    let folder = cache.folder(0x0AF2_69D6).unwrap();
    assert_eq!(folder.folder_hash(), 0x0AF2_69D6);
    assert_eq!(folder.get(0x1111_1111), Some(entry(0x1111_1111, 0x0AF2_69D6, 0x100, 1)));
    assert_eq!(folder.get(0x1111_1112), None);
    assert_eq!(folder.clone(), *folder);
    let empty = cache.folder(0x2000_0000).unwrap();
    assert_eq!(empty.folder_hash(), 0x2000_0000);
    assert_eq!(empty.get(0xE3B7_1579), None);
    assert!(cache.folder(0x2000_0001).is_none());
}

#[test]
fn the_cache_goes_by_the_folder_records() {
    // a record that names another folder than the one that lists it is
    // found under the folder that lists it; of two records with one hash
    // the later stays
    let bytes = index_of(&[(7, vec![(1, 9, 0x10), (2, 7, 0x20), (2, 7, 0x30)])]);
    let mut reader = IndexReader::new(bytes).unwrap();
    let cache = IndexCache::from_reader(&mut reader).unwrap();
    assert_eq!(cache.get(&SqIndexHash { folder_hash: 9, file_hash: 1 }), None);
    assert_eq!(
        cache.get(&SqIndexHash { folder_hash: 7, file_hash: 1 }),
        Some(entry(1, 9, 0x80, 0))
    );
    assert_eq!(
        cache.get(&SqIndexHash { folder_hash: 7, file_hash: 2 }),
        Some(entry(2, 7, 0x180, 0))
    );
    assert_eq!(cache.clone(), cache);
}

#[test]
fn the_scan_finds_the_first_match() {
    let mut reader = IndexReader::new(sample()).unwrap();
    assert_eq!(
        find_entry(&mut reader, &SqIndexHash { folder_hash: 0x3000_0000, file_hash: 0xE3B7_1579 }),
        Ok(entry(0xE3B7_1579, 0x3000_0000, 0xffff_ff80, 3))
    );
    assert_eq!(
        find_entry(&mut reader, &SqIndexHash { folder_hash: 0x0AF2_69D6, file_hash: 0xE3B7_1579 }),
        Ok(entry(0xE3B7_1579, 0x0AF2_69D6, 0x80, 0))
    );
    assert_eq!(
        find_entry(&mut reader, &SqIndexHash { folder_hash: 0x0AF2_69D6, file_hash: 5 }),
        Err(SqpackError::SqFileNotFound)
    );
    let twice = index_of(&[(7, vec![(2, 7, 0x20), (2, 7, 0x30)])]);
    let mut reader = IndexReader::new(twice).unwrap();
    assert_eq!(
        find_entry(&mut reader, &SqIndexHash { folder_hash: 7, file_hash: 2 }),
        Ok(entry(2, 7, 0x100, 0))
    );
}

#[test]
fn the_steps_of_opening_a_path() {
    let path = SqPath::new("music/ffxiv/BGM_System_Title.scd");
    let request = locate_index(&path, "/root/sqpack").unwrap();
    assert_eq!(request.hash, SqIndexHash { folder_hash: 0x0AF2_69D6, file_hash: 0xE3B7_1579 });
    assert_eq!(request.index_path, "/root/sqpack/ffxiv/0c0000.win32.index");

    let mut reader = IndexReader::new(sample()).unwrap();
    let found = find_entry(&mut reader, &request.hash).unwrap();
    let dat = locate_dat(&path, "/root/sqpack", &found).unwrap();
    assert_eq!(dat.entry, found);
    assert_eq!(dat.dat_path, "/root/sqpack/ffxiv/0c0000.win32.dat0");

    let cache = IndexCache::from_reader(&mut reader).unwrap();
    let cached = locate_with_index(&path, &cache, "/root/sqpack").unwrap();
    assert_eq!(cached.entry, found);
    assert_eq!(cached.dat_path, dat.dat_path);
}

#[test]
fn paths_that_cannot_be_opened() {
    let not_found = Some(SqpackError::SqFileNotFound);
    assert_eq!(locate_index(&SqPath::new("music"), "/root/sqpack").err(), not_found);
    assert_eq!(locate_index(&SqPath::new("musik/ffxiv/a.scd"), "/root/sqpack").err(), not_found);
    assert_eq!(locate_index(&SqPath::new("music/ex9/a.scd"), "/root/sqpack").err(), not_found);
    assert_eq!(locate_index(&SqPath::new("music/ffxiv"), "/root/sqpack").err(), not_found);

    let mut reader = IndexReader::new(sample()).unwrap();
    let cache = IndexCache::from_reader(&mut reader).unwrap();
    let path = SqPath::new("music/ffxiv/other.scd");
    assert_eq!(locate_with_index(&path, &cache, "/root/sqpack").err(), not_found);
    assert_eq!(locate_with_index(&SqPath::new("other"), &cache, "/root/sqpack").err(), not_found);

    let found = entry(1, 2, 0x80, 8);
    assert_eq!(
        locate_dat(&SqPath::new("music/ffxiv/a.scd"), "/root/sqpack", &found).err(),
        Some(SqpackError::IO(IoErrorKind::InvalidData))
    );
    let found = entry(1, 2, 0x80, 7);
    assert_eq!(
        locate_dat(&SqPath::new("music/ffxiv/a.scd"), "d", &found).unwrap().dat_path,
        "d/ffxiv/0c0000.win32.dat7"
    );
    assert_eq!(locate_dat(&SqPath::new("musik/ffxiv/a.scd"), "d", &found).err(), not_found);
}

#[test]
fn errors_describe_themselves() {
    assert_eq!(SqpackError::SqFileNotFound.to_string(), "SqPath not found in index!");
    assert_eq!(
        SqpackError::IO(IoErrorKind::UnexpectedEof).to_string(),
        "Underlying IO Error (UnexpectedEof)"
    );
    assert_eq!(
        SqpackError::IO(IoErrorKind::InvalidData).to_string(),
        "Underlying IO Error (InvalidData)"
    );
    assert_eq!(
        SqpackError::IO(IoErrorKind::InvalidInput).to_string(),
        "Underlying IO Error (InvalidInput)"
    );
    assert_eq!(
        SqpackError::ReaderIsNotSqPack.to_string(),
        "The underlying reader is not SqPack data"
    );
    assert_eq!(
        SqpackError::ReaderIsNotIndex.to_string(),
        "The underlying reader is not SqPack Index data"
    );
    assert_eq!(
        SqpackError::UnknownContentType(0).to_string(),
        "Unknown content type found while reading .dat: 0"
    );
    assert_eq!(
        SqpackError::UnknownContentType(4_294_967_295).to_string(),
        "Unknown content type found while reading .dat: 4294967295"
    );
    assert_eq!(
        SqpackError::UnknownContentType(1030).to_string(),
        "Unknown content type found while reading .dat: 1030"
    );
}
