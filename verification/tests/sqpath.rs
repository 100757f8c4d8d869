use sqpack::sqpath::{Expansion, FileType, SqIndexHash, SqPackNumber, SqPathBuf};
use sqpack::SqPath;

#[test]
fn basic_sqpath() {
    let path = SqPath::new("asdasd");
    assert_eq!(path.as_str(), "asdasd");
}

#[test]
fn sqpath_as_refs() {
    let a: SqPath = SqPath::new("uwu");
    let b: SqPath = a;
    let s = String::from("uwu");
    let c: SqPath = SqPath::new(&s);
    let sqpb = SqPathBuf::new("uwu");
    let d: SqPath = sqpb.as_path();
    assert_eq!(a.as_str(), "uwu");
    assert_eq!(b.as_str(), "uwu");
    assert_eq!(c.as_str(), "uwu");
    assert_eq!(d.as_str(), "uwu");
    assert_eq!(a, d);
}

#[test]
fn basic_sqpathbuf() {
    let sqpb = SqPathBuf::new("uwu");
    assert_eq!(sqpb.as_str(), "uwu");
    assert_eq!(sqpb.clone(), sqpb);
}

#[test]
fn new_params_any() {
    SqPathBuf::new("uwu");
    let s = String::from("uwu");
    SqPathBuf::new(&s);
}

#[test]
fn sq_index_path() {
    let sq_path = SqPath::new("music/ffxiv/BGM_System_Title.scd");
    let sq_index_path = sq_path.sq_index_hash().expect("Path was not well formed");
    assert_eq!(sq_index_path.folder_hash, 0x0AF269D6);
    assert_eq!(sq_index_path.file_hash, 0xE3B71579);

    let sq_pathbuf: SqPathBuf = sq_path.to_owned();
    let sq_index_path = sq_pathbuf
        .as_path()
        .sq_index_hash()
        .expect("Path was not well formed");
    assert_eq!(sq_index_path.folder_hash, 0x0AF269D6);
    assert_eq!(sq_index_path.file_hash, 0xE3B71579);
}

#[test]
fn to_owned_and_borrow() {
    let sqpath = SqPath::new("uwu");
    let a: SqPathBuf = sqpath.to_owned();
    assert_eq!(a.as_str(), sqpath.as_str());

    let x: SqPath = a.as_path();
    assert_eq!(x.as_str(), a.as_str());
}

#[test]
fn file_type_parse() {
    let sqpath = SqPath::new("music/ffxiv/BGM_System_Title.scd");
    let ftype = FileType::parse_from_sqpath(&sqpath);
    assert!(ftype.is_some());
    assert_eq!(ftype.unwrap(), FileType::Music);

    let sqpath = SqPath::new("exd/ffxiv/root.exl");
    let ftype = FileType::parse_from_sqpath(&sqpath);
    assert!(ftype.is_some());
    assert_eq!(ftype.unwrap(), FileType::EXD);
}

#[test]
fn file_type_index_fragment() {
    assert_eq!(FileType::Common.file_name_prefix_str(), "00");
    assert_eq!(FileType::BGCommon.file_name_prefix_str(), "01");
    assert_eq!(FileType::BG.file_name_prefix_str(), "02");
    assert_eq!(FileType::Cut.file_name_prefix_str(), "03");
    assert_eq!(FileType::Chara.file_name_prefix_str(), "04");
    assert_eq!(FileType::Shader.file_name_prefix_str(), "05");
    assert_eq!(FileType::UI.file_name_prefix_str(), "06");
    assert_eq!(FileType::Sound.file_name_prefix_str(), "07");
    assert_eq!(FileType::VFX.file_name_prefix_str(), "08");
    assert_eq!(FileType::UIScript.file_name_prefix_str(), "09");
    assert_eq!(FileType::EXD.file_name_prefix_str(), "0a");
    assert_eq!(FileType::GameScript.file_name_prefix_str(), "0b");
    assert_eq!(FileType::Music.file_name_prefix_str(), "0c");
    assert_eq!(FileType::SqpackTest.file_name_prefix_str(), "12");
    assert_eq!(FileType::Debug.file_name_prefix_str(), "13");
}

fn file_type_name(path: &str) -> &'static str {
    FileType::parse_from_sqpath(&SqPath::new(path)).unwrap().as_str()
}

#[test]
fn file_type_parse_and_as_str_eq() {
    assert_eq!(file_type_name("common/ffxiv/asdfdfh"), "common");
    assert_eq!(file_type_name("bgcommon/ex1/asdfdfh"), "bgcommon");
    assert_eq!(file_type_name("bg/ex2/asdfdfh"), "bg");
    assert_eq!(file_type_name("cut/ex3/dfsdfg"), "cut");
    assert_eq!(file_type_name("chara/ffxiv/sdfgdfs"), "chara");
    assert_eq!(file_type_name("shader/ffxiv/fdgsdgs"), "shader");
    assert_eq!(file_type_name("ui/ex3/srdsfvr"), "ui");
    assert_eq!(file_type_name("sound/ffxiv/sdfgdfg"), "sound");
    assert_eq!(file_type_name("vfx/ffxiv/sdfdfg"), "vfx");
    assert_eq!(file_type_name("ui_script/ffxiv/sdfsdf"), "ui_script");
    assert_eq!(file_type_name("exd/ffxiv/sdfdsfg"), "exd");
    assert_eq!(file_type_name("game_script/ffxiv/sdfdsfg"), "game_script");
    assert_eq!(file_type_name("music/ffxiv/sdfdsfg"), "music");
    assert_eq!(file_type_name("_sqpack_test/ffxiv/sdfdsfg"), "_sqpack_test");
    assert_eq!(file_type_name("_debug/ffxiv/sdfdsfg"), "_debug");
}

#[test]
fn file_type_file_name_prefix() {
    assert_eq!(FileType::Common.file_name_prefix(), 0x00u8);
    assert_eq!(FileType::BGCommon.file_name_prefix(), 0x01u8);
    assert_eq!(FileType::BG.file_name_prefix(), 0x02u8);
    assert_eq!(FileType::Cut.file_name_prefix(), 0x03u8);
    assert_eq!(FileType::Chara.file_name_prefix(), 0x04u8);
    assert_eq!(FileType::Shader.file_name_prefix(), 0x05u8);
    assert_eq!(FileType::UI.file_name_prefix(), 0x06u8);
    assert_eq!(FileType::Sound.file_name_prefix(), 0x07u8);
    assert_eq!(FileType::VFX.file_name_prefix(), 0x08u8);
    assert_eq!(FileType::UIScript.file_name_prefix(), 0x09u8);
    assert_eq!(FileType::EXD.file_name_prefix(), 0x0au8);
    assert_eq!(FileType::GameScript.file_name_prefix(), 0x0bu8);
    assert_eq!(FileType::Music.file_name_prefix(), 0x0cu8);
    assert_eq!(FileType::SqpackTest.file_name_prefix(), 0x12u8);
    assert_eq!(FileType::Debug.file_name_prefix(), 0x13u8);
}

#[test]
fn expansion_parse() {
    let sqpath = SqPath::new("music/ffxiv/BGM_System_Title.scd");
    let exp = Expansion::parse_from_sqpath(&sqpath);
    assert!(exp.is_some());
    assert_eq!(exp.unwrap(), Expansion::FFXIV);

    let sqpath = SqPath::new("music/ex2/dfgdfgsdfg.scd");
    let exp = Expansion::parse_from_sqpath(&sqpath);
    assert!(exp.is_some());
    assert_eq!(exp.unwrap(), Expansion::Stormblood);
}

#[test]
fn expansion_index_fragment() {
    assert_eq!(Expansion::FFXIV.file_name_prefix_str(), "00");
    assert_eq!(Expansion::Heavensward.file_name_prefix_str(), "01");
    assert_eq!(Expansion::Stormblood.file_name_prefix_str(), "02");
    assert_eq!(Expansion::Shadowbringers.file_name_prefix_str(), "03");
}

fn expansion_name(path: &str) -> &'static str {
    Expansion::parse_from_sqpath(&SqPath::new(path)).unwrap().as_str()
}

#[test]
fn expansion_parse_and_as_str_eq() {
    assert_eq!(expansion_name("common/ffxiv/dfgsdfg.asd"), "ffxiv");
    assert_eq!(expansion_name("bgcommon/ex1/asdasd.fgh"), "ex1");
    assert_eq!(expansion_name("bg/ex2/dfhdfgh.hhjg"), "ex2");
    assert_eq!(expansion_name("cut/ex3/dfghds.yss"), "ex3");
    assert_eq!(expansion_name("cut/ex3/165_dfghds.yss"), "ex3");
}

#[test]
fn expansion_file_name_prefix() {
    assert_eq!(Expansion::FFXIV.file_name_prefix(), 0x00u8);
    assert_eq!(Expansion::Heavensward.file_name_prefix(), 0x01u8);
    assert_eq!(Expansion::Stormblood.file_name_prefix(), 0x02u8);
    assert_eq!(Expansion::Shadowbringers.file_name_prefix(), 0x03u8);
}

fn pack_number(path: &str) -> Option<u8> {
    SqPackNumber::parse_from_sqpath(&SqPath::new(path)).map(|n| n.0)
}

#[test]
fn parse_sqpack_number() {
    assert_eq!(pack_number("common/ffxiv/sdfsfda.adasd").unwrap(), 0);
    assert_eq!(pack_number("common/ex2/001_sdfsfda.adasd").unwrap(), 1);
    assert_eq!(pack_number("common/ex2/00b_sdfsfda.adasd").unwrap(), 11);
}

#[test]
fn sqpack_number_prefix() {
    assert_eq!(
        std::str::from_utf8(&SqPackNumber(0).file_name_prefix_str()).unwrap(),
        "00"
    );
    assert_eq!(
        std::str::from_utf8(&SqPackNumber(1).file_name_prefix_str()).unwrap(),
        "01"
    );
    assert_eq!(
        std::str::from_utf8(&SqPackNumber(10).file_name_prefix_str()).unwrap(),
        "0a"
    );
    assert_eq!(
        std::str::from_utf8(&SqPackNumber(16).file_name_prefix_str()).unwrap(),
        "10"
    );
    assert_eq!(
        std::str::from_utf8(&SqPackNumber(255).file_name_prefix_str()).unwrap(),
        "ff"
    );
}

#[test]
fn sqpack_index_path() {
    let index = SqPath::new("music/ffxiv/BGM_System_Title.scd")
        .sqpack_index_path("/home/uwu/ffxiv/sqpack/");
    let pb = index.unwrap();
    assert_eq!(pb.as_str(), "/home/uwu/ffxiv/sqpack/ffxiv/0c0000.win32.index");

    let path = "/home/uwu/ffxiv/sqpack";
    assert_eq!(
        SqPath::new("music/ex3/BGM_EX3_Event_05.scd")
            .sqpack_index_path(path)
            .unwrap()
            .as_str(),
        "/home/uwu/ffxiv/sqpack/ex3/0c0300.win32.index"
    );
    assert_eq!(
        SqPath::new("common/ex2/0fe_uwu.owo")
            .sqpack_index_path(path)
            .unwrap()
            .as_str(),
        "/home/uwu/ffxiv/sqpack/ex2/0002fe.win32.index"
    );
}

#[test]
fn index_hash_of_the_title_music() {
    assert_eq!(
        SqPath::new("music/ffxiv/BGM_System_Title.scd").sq_index_hash(),
        Some(SqIndexHash { folder_hash: 0x0AF269D6, file_hash: 0xE3B71579 })
    );
}

#[test]
fn index_hash_splits_at_the_last_slash() {
    let hash = SqPath::new("a/b/c").sq_index_hash().unwrap();
    assert_eq!(hash.folder_hash, sqpack::hash::compute_str("a/b"));
    assert_eq!(hash.file_hash, sqpack::hash::compute_str("c"));
    let hash = SqPath::new("A/").sq_index_hash().unwrap();
    assert_eq!(hash.folder_hash, sqpack::hash::compute_str("a"));
    assert_eq!(hash.file_hash, sqpack::hash::compute_str(""));
    let hash = SqPath::new("/x").sq_index_hash().unwrap();
    assert_eq!(hash.folder_hash, sqpack::hash::compute_str(""));
    assert_eq!(hash.file_hash, sqpack::hash::compute_str("x"));
}

#[test]
fn index_hash_needs_a_slash() {
    assert_eq!(SqPath::new("").sq_index_hash(), None);
    assert_eq!(SqPath::new("music").sq_index_hash(), None);
}

#[test]
fn index_paths_below_root_sqpack() {
    assert_eq!(
        SqPath::new("music/ffxiv/BGM_System_Title.scd").sqpack_index_path("/root/sqpack"),
        Some(String::from("/root/sqpack/ffxiv/0c0000.win32.index"))
    );
    assert_eq!(
        SqPath::new("music/ex3/BGM_EX3_Event_05.scd").sqpack_index_path("/root/sqpack"),
        Some(String::from("/root/sqpack/ex3/0c0300.win32.index"))
    );
    assert_eq!(
        SqPath::new("common/ex2/0fe_uwu.owo").sqpack_index_path("/root/sqpack"),
        Some(String::from("/root/sqpack/ex2/0002fe.win32.index"))
    );
}

#[test]
fn index_path_of_an_empty_or_odd_directory() {
    assert_eq!(
        SqPath::new("exd/ex1/root.exl").sqpack_index_path(""),
        Some(String::from("ex1/0a0100.win32.index"))
    );
    assert_eq!(
        SqPath::new("exd/ex1/root.exl").sqpack_index_path("/"),
        Some(String::from("/ex1/0a0100.win32.index"))
    );
    assert_eq!(
        SqPath::new("exd/ex1/root.exl").sqpack_index_path("spiel/daten/é"),
        Some(String::from("spiel/daten/é/ex1/0a0100.win32.index"))
    );
}

#[test]
fn unknown_category_has_no_index_path() {
    assert_eq!(SqPath::new("musik/ffxiv/x.scd").sqpack_index_path("/root/sqpack"), None);
    assert_eq!(SqPath::new("Music/ffxiv/x.scd").sqpack_index_path("/root/sqpack"), None);
    assert_eq!(SqPath::new("/ffxiv/x.scd").sqpack_index_path("/root/sqpack"), None);
    assert_eq!(FileType::parse_from_sqpath(&SqPath::new("musik/ffxiv/x.scd")), None);
    assert_eq!(FileType::parse_from_sqpath(&SqPath::new("music")), None);
    assert_eq!(FileType::parse_from_sqpath(&SqPath::new("")), None);
}

#[test]
fn unknown_expansion_or_missing_file_has_no_index_path() {
    assert_eq!(SqPath::new("music/ex5/x.scd").sqpack_index_path("/root/sqpack"), None);
    assert_eq!(SqPath::new("music/ffxiv").sqpack_index_path("/root/sqpack"), None);
    assert_eq!(Expansion::parse_from_sqpath(&SqPath::new("music/ex5/x.scd")), None);
    assert_eq!(Expansion::parse_from_sqpath(&SqPath::new("music")), None);
    assert_eq!(Expansion::parse_from_sqpath(&SqPath::new("music/ex4")), Some(Expansion::Endwalker));
    assert_eq!(Expansion::Endwalker.file_name_prefix_str(), "04");
    assert_eq!(Expansion::Endwalker.file_name_prefix(), 4);
    assert_eq!(Expansion::Endwalker.as_str(), "ex4");
}

#[test]
fn data_paths() {
    let path = SqPath::new("music/ffxiv/BGM_System_Title.scd");
    assert_eq!(
        path.sqpack_dat_path("/root/sqpack", 0),
        Some(String::from("/root/sqpack/ffxiv/0c0000.win32.dat0"))
    );
    assert_eq!(
        path.sqpack_dat_path("/root/sqpack/", 7),
        Some(String::from("/root/sqpack/ffxiv/0c0000.win32.dat7"))
    );
    assert_eq!(
        SqPath::new("common/ex2/0fe_uwu.owo").sqpack_dat_path("d", 3),
        Some(String::from("d/ex2/0002fe.win32.dat3"))
    );
    assert_eq!(SqPath::new("nope/ex2/0fe_uwu.owo").sqpack_dat_path("d", 3), None);
}

#[test]
fn pack_number_edge_cases() {
    // fewer than three segments: no pack number
    assert_eq!(pack_number("common/ffxiv"), None);
    assert_eq!(pack_number("common"), None);
    // an empty third segment, or one that starts with `_`, spells nothing
    assert_eq!(pack_number("common/ffxiv/"), Some(0));
    assert_eq!(pack_number("common/ffxiv/_ff"), Some(0));
    // either case, leading zeros, one sign
    assert_eq!(pack_number("common/ffxiv/0FE_x"), Some(0xfe));
    assert_eq!(pack_number("common/ffxiv/fF"), Some(0xff));
    assert_eq!(pack_number("common/ffxiv/0000000000a_x"), Some(10));
    assert_eq!(pack_number("common/ffxiv/+1f_x"), Some(0x1f));
    assert_eq!(pack_number("common/ffxiv/+_x"), Some(0));
    assert_eq!(pack_number("common/ffxiv/++1_x"), Some(0));
    assert_eq!(pack_number("common/ffxiv/-1_x"), Some(0));
    // more than a byte, or no number at all
    assert_eq!(pack_number("common/ffxiv/100_x"), Some(0));
    assert_eq!(pack_number("common/ffxiv/165_dfghds.yss"), Some(0));
    assert_eq!(pack_number("common/ffxiv/1g_x"), Some(0));
    assert_eq!(pack_number("common/ffxiv/BGM_System_Title.scd"), Some(0));
    // the segment ends at the next slash
    assert_eq!(pack_number("common/ffxiv/0a/1b_x"), Some(10));
    assert_eq!(SqPackNumber::default(), SqPackNumber(0));
}

#[test]
fn segments_lie_between_slashes() {
    let path = SqPath::new("music/ffxiv/BGM_System_Title.scd");
    assert_eq!(path.segment(0), Some(&b"music"[..]));
    assert_eq!(path.segment(1), Some(&b"ffxiv"[..]));
    assert_eq!(path.segment(2), Some(&b"BGM_System_Title.scd"[..]));
    assert_eq!(path.segment(3), None);
    assert_eq!(path.segment(usize::MAX), None);
    let path = SqPath::new("/a//");
    assert_eq!(path.segment(0), Some(&b""[..]));
    assert_eq!(path.segment(1), Some(&b"a"[..]));
    assert_eq!(path.segment(2), Some(&b""[..]));
    assert_eq!(path.segment(3), Some(&b""[..]));
    assert_eq!(path.segment(4), None);
    assert_eq!(SqPath::new("").segment(0), Some(&b""[..]));
}
