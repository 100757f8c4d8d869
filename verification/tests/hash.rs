use sqpack::hash::{compute_str, compute_str_lower, compute_with_seed, FFXIV_CRC_TABLE, FFXIV_SEED};

#[test]
fn case_eq() {
    assert_eq!(
        compute_str_lower("music/ffxiv/BGM_System_Title.scd"),
        compute_str_lower("music/ffxiv/bgm_system_title.scd")
    );
    assert_eq!(
        compute_str_lower("music/ffxiv/BGM_System_Title.scd"),
        compute_str("music/ffxiv/bgm_system_title.scd")
    );
    assert_ne!(
        compute_str("music/ffxiv/BGM_System_Title.scd"),
        compute_str("music/ffxiv/bgm_system_title.scd")
    );
    assert_ne!(
        compute_str("music/ffxiv/BGM_System_Title.scd"),
        compute_str_lower("music/ffxiv/bgm_system_title.scd")
    );
}

#[test]
fn test_hash_file_name() {
    assert_eq!(compute_str("bgm_system_title.scd"), 0xE3B71579);
    assert_eq!(compute_str_lower("BGM_System_Title.scd"), 0xE3B71579);
}

#[test]
fn test_hash_folder_name() {
    assert_eq!(compute_str("music/ffxiv"), 0x0AF269D6);
    assert_eq!(compute_str_lower("music/ffxiv"), 0x0AF269D6);
}

#[test]
fn seed_and_table_are_those_of_the_game() {
    assert_eq!(FFXIV_SEED, 0xffff_ffff);
    assert_eq!(FFXIV_CRC_TABLE.len(), 256);
    assert_eq!(FFXIV_CRC_TABLE[0], 0);
    assert_eq!(FFXIV_CRC_TABLE[1], 0x7707_3096);
    assert_eq!(FFXIV_CRC_TABLE[255], 0x2d02_ef8d);
}

#[test]
fn empty_input_gives_the_seed() {
    assert_eq!(compute_str(""), FFXIV_SEED);
    assert_eq!(compute_str_lower(""), FFXIV_SEED);
    assert_eq!(compute_with_seed(7, &FFXIV_CRC_TABLE, b"abc", 1, 0, true), 7);
}

#[test]
fn one_step_of_the_checksum() {
    // crc = (seed >> 8) ^ table[(b ^ seed) & 0xff]
    let seed: u32 = 0x1234_5678;
    let b: u8 = 0x61;
    let want = (seed >> 8) ^ FFXIV_CRC_TABLE[((b as u32 ^ seed) & 0xff) as usize];
    assert_eq!(compute_with_seed(seed, &FFXIV_CRC_TABLE, &[b], 0, 1, false), want);
    assert_eq!(want, 0x0012_3456 ^ FFXIV_CRC_TABLE[0x19]);
}

#[test]
fn compute_with_seed_takes_a_window() {
    let text = b"xxBGM_System_Title.scdyy";
    let whole = b"BGM_System_Title.scd";
    assert_eq!(
        compute_with_seed(FFXIV_SEED, &FFXIV_CRC_TABLE, text, 2, whole.len() as u32, true),
        0xE3B71579
    );
    assert_eq!(
        compute_with_seed(FFXIV_SEED, &FFXIV_CRC_TABLE, whole, 0, whole.len() as u32, true),
        0xE3B71579
    );
    assert_ne!(
        compute_with_seed(FFXIV_SEED, &FFXIV_CRC_TABLE, whole, 0, whole.len() as u32, false),
        0xE3B71579
    );
}

#[test]
fn folding_is_the_hash_of_the_lower_case_text() {
    for text in [
        "music/ffxiv/BGM_System_Title.scd",
        "EXD/Root.EXL",
        "AZaz09_/.@[`{",
        "chara/Ünïcödé/ÀÉZ.tex",
    ] {
        let lower: String = text.chars().map(|c| c.to_ascii_lowercase()).collect();
        assert_eq!(compute_str_lower(text), compute_str(&lower));
        assert_eq!(compute_str_lower(&lower), compute_str_lower(text));
    }
}

#[test]
fn folding_leaves_bytes_outside_the_capitals_alone() {
    // '@' (0x40) and '[' (0x5b) border the capital letters; 0xc0 is part of
    // a multibyte character.
    assert_ne!(compute_str_lower("@"), compute_str_lower("`"));
    assert_ne!(compute_str_lower("["), compute_str_lower("{"));
    assert_eq!(compute_str_lower("A"), compute_str("a"));
    assert_eq!(compute_str_lower("Z"), compute_str("z"));
    assert_eq!(compute_str_lower("É"), compute_str("É"));
    assert_ne!(compute_str_lower("É"), compute_str("é"));
}
