use crate::hash::{hash_bytes, spec_hash, FFXIV_CRC_TABLE, FFXIV_SEED};
use crate::io::le::same_bytes;
use vstd::prelude::*;
use vstd::slice::slice_subrange;
use vstd::string::{is_ascii, StringExecFns, StringSliceAdditionalSpecFns};

verus! {

/// The byte that parts the segments of a path.
pub const SLASH: u8 = 0x2f;

/// The byte that ends the pack number at the start of a file name.
pub const UNDERSCORE: u8 = 0x5f;

/// The index of the first `b` in `s` at or behind `from`, or the length of
/// `s` where there is none.
pub open spec fn find_byte(s: Seq<u8>, b: u8, from: int) -> int
    decreases s.len() - from,
{
    if from >= s.len() {
        s.len() as int
    } else if s[from] == b {
        from
    } else {
        find_byte(s, b, from + 1)
    }
}

/// The index of the last `b` among the first `upto` bytes of `s`, or -1
/// where there is none.
pub open spec fn rfind_byte(s: Seq<u8>, b: u8, upto: int) -> int
    decreases upto,
{
    if upto <= 0 {
        -1
    } else if s[upto - 1] == b {
        upto - 1
    } else {
        rfind_byte(s, b, upto - 1)
    }
}

/// What `find_byte` finds: it lies between `from` and the length, no byte
/// before it is `b`, and it is `b` unless it is the length.
pub proof fn lemma_find_byte(s: Seq<u8>, b: u8, from: int)
    requires
        0 <= from <= s.len(),
    ensures
        from <= find_byte(s, b, from) <= s.len(),
        find_byte(s, b, from) < s.len() ==> s[find_byte(s, b, from)] == b,
        forall|k: int| from <= k < find_byte(s, b, from) ==> s[k] != b,
    decreases s.len() - from,
{
    if from < s.len() && s[from] != b {
        lemma_find_byte(s, b, from + 1);
    }
}

/// What `rfind_byte` finds: it lies below `upto`, no byte behind it and
/// below `upto` is `b`, and it is `b` unless it is -1.
pub proof fn lemma_rfind_byte(s: Seq<u8>, b: u8, upto: int)
    requires
        0 <= upto <= s.len(),
    ensures
        -1 <= rfind_byte(s, b, upto) < upto,
        rfind_byte(s, b, upto) >= 0 ==> s[rfind_byte(s, b, upto)] == b,
        forall|k: int| rfind_byte(s, b, upto) < k < upto ==> s[k] != b,
    decreases upto,
{
    if upto > 0 && s[upto - 1] != b {
        lemma_rfind_byte(s, b, upto - 1);
    }
}

/// Finds the first `b` at or behind `from`.
fn position(s: &[u8], b: u8, from: usize) -> (at: usize)
    requires
        from <= s@.len(),
    ensures
        at == find_byte(s@, b, from as int),
        from <= at <= s@.len(),
{
    let mut i = from;
    while i < s.len() && s[i] != b
        invariant
            from <= i <= s@.len(),
            find_byte(s@, b, from as int) == find_byte(s@, b, i as int),
        decreases s@.len() - i,
    {
        i += 1;
    }
    i
}

/// Finds the last `b`.
fn last_position(s: &[u8], b: u8) -> (at: Option<usize>)
    ensures
        match at {
            Some(i) => i < s@.len() && i == rfind_byte(s@, b, s@.len() as int),
            None => rfind_byte(s@, b, s@.len() as int) == -1,
        },
{
    let mut i = s.len();
    while i > 0 && s[i - 1] != b
        invariant
            i <= s@.len(),
            rfind_byte(s@, b, s@.len() as int) == rfind_byte(s@, b, i as int),
        decreases i,
    {
        i -= 1;
    }
    if i > 0 {
        Some(i - 1)
    } else {
        None
    }
}

/// The two hashes under which an index lists a file: that of the folder it
/// lies in and that of its name.
#[derive(Copy, Clone, Eq, PartialEq, Debug, Hash, Structural)]
pub struct SqIndexHash {
    /// The hash of everything before the last `/` of the path.
    pub folder_hash: u32,
    /// The hash of everything after the last `/` of the path.
    pub file_hash: u32,
}

/// The hash under which the game lists `bytes`: its checksum with the seed
/// and table of the game, case folded.
pub open spec fn spec_hash_lower(bytes: Seq<u8>) -> u32 {
    spec_hash(FFXIV_SEED, FFXIV_CRC_TABLE@, bytes, true)
}

/// The hashes of the path `path`: those of what stands before and behind its
/// last `/`. A path without `/` has none.
pub open spec fn spec_index_hash(path: Seq<u8>) -> Option<SqIndexHash> {
    let at = rfind_byte(path, SLASH, path.len() as int);
    if at < 0 {
        None
    } else {
        Some(
            SqIndexHash {
                folder_hash: spec_hash_lower(path.subrange(0, at)),
                file_hash: spec_hash_lower(path.subrange(at + 1, path.len() as int)),
            },
        )
    }
}

/// A location within the data files of the game, such as
/// `music/ffxiv/BGM_System_Title.scd`: a borrowed string whose segments are
/// parted by `/`. Case does not matter where the path is hashed.
#[derive(Copy, Clone, Ord, PartialOrd, Eq, PartialEq, Debug, Hash)]
pub struct SqPath<'a> {
    inner: &'a str,
}

impl<'a> View for SqPath<'a> {
    type V = Seq<u8>;

    /// The bytes of the path.
    closed spec fn view(&self) -> Seq<u8> {
        self.inner.spec_bytes()
    }
}

impl<'a> SqPath<'a> {
    /// The path as a string.
    pub closed spec fn spec_as_str(&self) -> &'a str {
        self.inner
    }

    /// The bytes of a path are those of its string.
    pub proof fn lemma_view(&self)
        ensures
            self@ == self.spec_as_str().spec_bytes(),
    {
    }

    /// A path over the string `s`.
    pub fn new(s: &'a str) -> (path: SqPath<'a>)
        ensures
            path.spec_as_str() == s,
            path@ == s.spec_bytes(),
    {
        SqPath { inner: s }
    }

    /// The hashes by which an index lists this path, or `None` for a path
    /// without `/`. This does not say that the file exists, only that the
    /// path can be hashed.
    pub fn sq_index_hash(&self) -> (r: Option<SqIndexHash>)
        ensures
            r == spec_index_hash(self@),
    {
        let path = self.inner.as_bytes();
        let table: &[u32] = &FFXIV_CRC_TABLE;
        let len = path.len();
        match last_position(path, SLASH) {
            Some(index) => {
                proof {
                    lemma_rfind_byte(path@, SLASH, path@.len() as int);
                }
                Some(
                    SqIndexHash {
                        folder_hash: hash_bytes(
                            FFXIV_SEED,
                            table,
                            slice_subrange(path, 0, index),
                            true,
                        ),
                        file_hash: hash_bytes(
                            FFXIV_SEED,
                            table,
                            slice_subrange(path, index + 1, len),
                            true,
                        ),
                    },
                )
            },
            None => None,
        }
    }

    /// This path as a string.
    pub fn as_str(&self) -> (s: &'a str)
        ensures
            s == self.spec_as_str(),
    {
        self.inner
    }

    /// Segment number `k` of this path, counted from 0: the bytes between
    /// two slashes, or between a slash and an end of the path. `None` where
    /// the path has fewer than `k` slashes.
    pub fn segment(&self, k: usize) -> (r: Option<&'a [u8]>)
        ensures
            match r {
                Some(seg) => spec_segment(self@, k as nat) == Some(seg@),
                None => spec_segment(self@, k as nat) is None,
            },
    {
        let path = self.inner.as_bytes();
        match segment(path, k) {
            Some((start, end)) => Some(slice_subrange(path, start, end)),
            None => None,
        }
    }

    /// An owned copy of this path.
    pub fn to_owned(&self) -> (owned: SqPathBuf)
        ensures
            owned@ == self@,
    {
        SqPathBuf::new(self.inner)
    }
}

/// An owned location within the data files of the game. [`SqPathBuf::as_path`]
/// lends it as a [`SqPath`], which has the functions that read it.
#[derive(Ord, PartialOrd, PartialEq, Eq, Debug, Hash)]
pub struct SqPathBuf {
    inner: String,
}

impl View for SqPathBuf {
    type V = Seq<u8>;

    /// The bytes of the path.
    closed spec fn view(&self) -> Seq<u8> {
        vstd::utf8::encode_utf8(self.inner@)
    }
}

impl Clone for SqPathBuf {
    /// A path with the same text.
    fn clone(&self) -> (r: SqPathBuf)
        ensures
            r@ == self@,
    {
        SqPathBuf { inner: self.inner.clone() }
    }
}

impl SqPathBuf {
    /// An owned path with the text of `s`.
    pub fn new(s: &str) -> (path: SqPathBuf)
        ensures
            path@ == s.spec_bytes(),
    {
        let inner = String::from_str(s);
        SqPathBuf { inner }
    }

    /// Lends this path.
    pub fn as_path(&self) -> (path: SqPath<'_>)
        ensures
            path@ == self@,
    {
        SqPath::new(self.inner.as_str())
    }

    /// This path as a string.
    pub fn as_str(&self) -> (s: &str)
        ensures
            s.spec_bytes() == self@,
    {
        self.inner.as_str()
    }
}


/// The digit that stands for `d` in lower-case hexadecimal, as a byte.
pub open spec fn spec_hex_digit(d: u8) -> u8 {
    if d < 10 {
        (0x30 + d) as u8
    } else {
        (0x61 + d - 10) as u8
    }
}

/// The two lower-case hexadecimal digits of `n`, as bytes.
pub open spec fn spec_hex_pair(n: u8) -> Seq<u8> {
    seq![spec_hex_digit(n / 16), spec_hex_digit(n % 16)]
}

/// The two lower-case hexadecimal digits of `n`, as characters.
pub open spec fn spec_hex_chars(n: u8) -> Seq<char> {
    seq![spec_hex_digit(n / 16) as char, spec_hex_digit(n % 16) as char]
}

/// Where segment number `k` of `path` starts: the first at 0, each other
/// behind the `/` that ends the one before it. A path with fewer than `k`
/// slashes has no such segment.
pub open spec fn spec_segment_start(path: Seq<u8>, k: nat) -> Option<int>
    decreases k,
{
    if k == 0 {
        Some(0)
    } else {
        match spec_segment_start(path, (k - 1) as nat) {
            None => None,
            Some(start) => {
                let end = find_byte(path, SLASH, start);
                if end < path.len() {
                    Some(end + 1)
                } else {
                    None
                }
            },
        }
    }
}

/// Segment number `k` of `path`: what stands between its start and the next
/// `/`, or the end of the path.
pub open spec fn spec_segment(path: Seq<u8>, k: nat) -> Option<Seq<u8>> {
    match spec_segment_start(path, k) {
        None => None,
        Some(start) => Some(path.subrange(start, find_byte(path, SLASH, start))),
    }
}

/// A path that lacks a segment lacks all later ones.
proof fn lemma_no_later_segment(path: Seq<u8>, j: nat, k: nat)
    requires
        j <= k,
        spec_segment_start(path, j) is None,
    ensures
        spec_segment_start(path, k) is None,
    decreases k,
{
    if j < k {
        lemma_no_later_segment(path, j, (k - 1) as nat);
    }
}

/// Finds segment number `k` of `path`: where it starts and where it ends.
fn segment(path: &[u8], k: usize) -> (r: Option<(usize, usize)>)
    ensures
        match r {
            Some((start, end)) => {
                &&& spec_segment_start(path@, k as nat) == Some(start as int)
                &&& end == find_byte(path@, SLASH, start as int)
                &&& start <= end <= path@.len()
                &&& spec_segment(path@, k as nat) == Some(path@.subrange(start as int, end as int))
            },
            None => spec_segment_start(path@, k as nat) is None && spec_segment(path@, k as nat)
                is None,
        },
{
    let len = path.len();
    let mut start: usize = 0;
    let mut done: usize = 0;
    while done < k
        invariant
            done <= k,
            len == path@.len(),
            start <= len,
            spec_segment_start(path@, done as nat) == Some(start as int),
        decreases k - done,
    {
        let end = position(path, SLASH, start);
        if end >= len {
            proof {
                lemma_no_later_segment(path@, (done + 1) as nat, k as nat);
            }
            return None;
        }
        start = end + 1;
        done += 1;
    }
    let end = position(path, SLASH, start);
    Some((start, end))
}

/// Whether the bytes of `seg` are those of `name`.
fn segment_is(seg: &[u8], name: &str) -> (r: bool)
    ensures
        r == (seg@ == name.spec_bytes()),
{
    same_bytes(seg, name.as_bytes())
}

/// The bytes of a string of ASCII characters are its characters.
pub proof fn lemma_ascii_bytes(s: &str)
    requires
        is_ascii(s),
    ensures
        s.spec_bytes().len() == s@.len(),
        forall|i: int| 0 <= i < s@.len() ==> s.spec_bytes()[i] == s@[i] as u8,
{
    vstd::utf8::is_ascii_chars_encode_utf8(s@);
}

/// The kind of file that a path names by its first segment. Each kind has
/// index and data files of its own, whose names start with its number.
#[derive(Copy, Clone, Eq, PartialEq, Debug, Hash, Structural)]
pub enum FileType {
    Common,
    BGCommon,
    BG,
    Cut,
    Chara,
    Shader,
    UI,
    Sound,
    VFX,
    UIScript,
    EXD,
    GameScript,
    Music,
    SqpackTest,
    Debug,
}

impl FileType {
    /// The name of this kind, as it stands in paths.
    pub open spec fn spec_as_str(&self) -> &'static str {
        match self {
            FileType::Common => "common",
            FileType::BGCommon => "bgcommon",
            FileType::BG => "bg",
            FileType::Cut => "cut",
            FileType::Chara => "chara",
            FileType::Shader => "shader",
            FileType::UI => "ui",
            FileType::Sound => "sound",
            FileType::VFX => "vfx",
            FileType::UIScript => "ui_script",
            FileType::EXD => "exd",
            FileType::GameScript => "game_script",
            FileType::Music => "music",
            FileType::SqpackTest => "_sqpack_test",
            FileType::Debug => "_debug",
        }
    }

    /// The number of this kind.
    pub open spec fn spec_file_name_prefix(&self) -> u8 {
        match self {
            FileType::Common => 0x00,
            FileType::BGCommon => 0x01,
            FileType::BG => 0x02,
            FileType::Cut => 0x03,
            FileType::Chara => 0x04,
            FileType::Shader => 0x05,
            FileType::UI => 0x06,
            FileType::Sound => 0x07,
            FileType::VFX => 0x08,
            FileType::UIScript => 0x09,
            FileType::EXD => 0x0a,
            FileType::GameScript => 0x0b,
            FileType::Music => 0x0c,
            FileType::SqpackTest => 0x12,
            FileType::Debug => 0x13,
        }
    }

    /// The bytes of this kind's name.
    pub open spec fn spec_name(&self) -> Seq<u8> {
        self.spec_as_str().spec_bytes()
    }

    /// The name of this kind: its length, and its first byte.
    pub proof fn lemma_name(&self)
        ensures
            is_ascii(self.spec_as_str()),
            self.spec_name().len() == match self {
                FileType::Common => 6nat,
                FileType::BGCommon => 8nat,
                FileType::BG => 2nat,
                FileType::Cut => 3nat,
                FileType::Chara => 5nat,
                FileType::Shader => 6nat,
                FileType::UI => 2nat,
                FileType::Sound => 5nat,
                FileType::VFX => 3nat,
                FileType::UIScript => 9nat,
                FileType::EXD => 3nat,
                FileType::GameScript => 11nat,
                FileType::Music => 5nat,
                FileType::SqpackTest => 12nat,
                FileType::Debug => 6nat,
            },
            self.spec_name()[0] == match self {
                FileType::Common => 0x63u8,
                FileType::BGCommon => 0x62u8,
                FileType::BG => 0x62u8,
                FileType::Cut => 0x63u8,
                FileType::Chara => 0x63u8,
                FileType::Shader => 0x73u8,
                FileType::UI => 0x75u8,
                FileType::Sound => 0x73u8,
                FileType::VFX => 0x76u8,
                FileType::UIScript => 0x75u8,
                FileType::EXD => 0x65u8,
                FileType::GameScript => 0x67u8,
                FileType::Music => 0x6du8,
                FileType::SqpackTest => 0x5fu8,
                FileType::Debug => 0x5fu8,
            },
    {
        reveal_strlit("common");
        reveal_strlit("bgcommon");
        reveal_strlit("bg");
        reveal_strlit("cut");
        reveal_strlit("chara");
        reveal_strlit("shader");
        reveal_strlit("ui");
        reveal_strlit("sound");
        reveal_strlit("vfx");
        reveal_strlit("ui_script");
        reveal_strlit("exd");
        reveal_strlit("game_script");
        reveal_strlit("music");
        reveal_strlit("_sqpack_test");
        reveal_strlit("_debug");
        lemma_ascii_bytes(self.spec_as_str());
    }

    /// No two kinds have the same name.
    pub proof fn lemma_names_differ(a: FileType, b: FileType)
        ensures
            a.spec_name() == b.spec_name() ==> a == b,
    {
        a.lemma_name();
        b.lemma_name();
    }
}


/// The kind of file whose name is `seg`, if there is one.
pub open spec fn spec_file_type_named(seg: Seq<u8>) -> Option<FileType> {
    if exists|t: FileType| t.spec_name() == seg {
        Some(choose|t: FileType| t.spec_name() == seg)
    } else {
        None
    }
}

/// The kind of file that `path` names: the one whose name is segment 0
/// of the path, where a `/` stands before segment 1. A path without `/`, or
/// with another name in that place, names none.
pub open spec fn spec_file_type(path: Seq<u8>) -> Option<FileType> {
    if spec_segment_start(path, 1) is Some {
        spec_file_type_named(spec_segment(path, 0)->Some_0)
    } else {
        None
    }
}

impl FileType {
    /// The value whose name is `seg` is this one, where `seg` is the name
    /// of this one.
    proof fn lemma_named(&self, seg: Seq<u8>)
        requires
            self.spec_name() == seg,
        ensures
            spec_file_type_named(seg) == Some(*self),
    {
        FileType::lemma_names_differ(choose|t: FileType| t.spec_name() == seg, *self);
    }

    /// Parses the kind of file that `sqpath` names, or `None` where the path is
    /// too short or the name is not known.
    pub fn parse_from_sqpath(sqpath: &SqPath) -> (r: Option<FileType>)
        ensures
            r == spec_file_type(sqpath@),
    {
        let path = sqpath.as_str().as_bytes();
        if segment(path, 1).is_none() {
            return None;
        }
        let (start, end) = match segment(path, 0) {
            Some(found) => found,
            None => {
                proof {
                    lemma_no_later_segment(path@, 0, 1);
                }
                return None;
            },
        };
        let seg = slice_subrange(path, start, end);
        if segment_is(seg, "common") {
            proof {
                FileType::Common.lemma_named(seg@);
            }
            return Some(FileType::Common);
        }
        if segment_is(seg, "bgcommon") {
            proof {
                FileType::BGCommon.lemma_named(seg@);
            }
            return Some(FileType::BGCommon);
        }
        if segment_is(seg, "bg") {
            proof {
                FileType::BG.lemma_named(seg@);
            }
            return Some(FileType::BG);
        }
        if segment_is(seg, "cut") {
            proof {
                FileType::Cut.lemma_named(seg@);
            }
            return Some(FileType::Cut);
        }
        if segment_is(seg, "chara") {
            proof {
                FileType::Chara.lemma_named(seg@);
            }
            return Some(FileType::Chara);
        }
        if segment_is(seg, "shader") {
            proof {
                FileType::Shader.lemma_named(seg@);
            }
            return Some(FileType::Shader);
        }
        if segment_is(seg, "ui") {
            proof {
                FileType::UI.lemma_named(seg@);
            }
            return Some(FileType::UI);
        }
        if segment_is(seg, "sound") {
            proof {
                FileType::Sound.lemma_named(seg@);
            }
            return Some(FileType::Sound);
        }
        if segment_is(seg, "vfx") {
            proof {
                FileType::VFX.lemma_named(seg@);
            }
            return Some(FileType::VFX);
        }
        if segment_is(seg, "ui_script") {
            proof {
                FileType::UIScript.lemma_named(seg@);
            }
            return Some(FileType::UIScript);
        }
        if segment_is(seg, "exd") {
            proof {
                FileType::EXD.lemma_named(seg@);
            }
            return Some(FileType::EXD);
        }
        if segment_is(seg, "game_script") {
            proof {
                FileType::GameScript.lemma_named(seg@);
            }
            return Some(FileType::GameScript);
        }
        if segment_is(seg, "music") {
            proof {
                FileType::Music.lemma_named(seg@);
            }
            return Some(FileType::Music);
        }
        if segment_is(seg, "_sqpack_test") {
            proof {
                FileType::SqpackTest.lemma_named(seg@);
            }
            return Some(FileType::SqpackTest);
        }
        if segment_is(seg, "_debug") {
            proof {
                FileType::Debug.lemma_named(seg@);
            }
            return Some(FileType::Debug);
        }
        assert forall|t: FileType| t.spec_name() != seg@ by {}
        None
    }

    /// The two hexadecimal digits of this value's number, as they stand at
    /// the start of the names of index and data files.
    pub fn file_name_prefix_str(&self) -> (r: &'static str)
        ensures
            r@ == spec_hex_chars(self.spec_file_name_prefix()),
    {
        proof {
            reveal_strlit("00");
            reveal_strlit("01");
            reveal_strlit("02");
            reveal_strlit("03");
            reveal_strlit("04");
            reveal_strlit("05");
            reveal_strlit("06");
            reveal_strlit("07");
            reveal_strlit("08");
            reveal_strlit("09");
            reveal_strlit("0a");
            reveal_strlit("0b");
            reveal_strlit("0c");
            reveal_strlit("12");
            reveal_strlit("13");
        }
        let r = match self {
            FileType::Common => "00",
            FileType::BGCommon => "01",
            FileType::BG => "02",
            FileType::Cut => "03",
            FileType::Chara => "04",
            FileType::Shader => "05",
            FileType::UI => "06",
            FileType::Sound => "07",
            FileType::VFX => "08",
            FileType::UIScript => "09",
            FileType::EXD => "0a",
            FileType::GameScript => "0b",
            FileType::Music => "0c",
            FileType::SqpackTest => "12",
            FileType::Debug => "13",
        };
        assert(r@ =~= spec_hex_chars(self.spec_file_name_prefix()));
        r
    }

    /// The number of this value. See `file_name_prefix_str`.
    pub fn file_name_prefix(&self) -> (r: u8)
        ensures
            r == self.spec_file_name_prefix(),
    {
        match self {
            FileType::Common => 0x00,
            FileType::BGCommon => 0x01,
            FileType::BG => 0x02,
            FileType::Cut => 0x03,
            FileType::Chara => 0x04,
            FileType::Shader => 0x05,
            FileType::UI => 0x06,
            FileType::Sound => 0x07,
            FileType::VFX => 0x08,
            FileType::UIScript => 0x09,
            FileType::EXD => 0x0a,
            FileType::GameScript => 0x0b,
            FileType::Music => 0x0c,
            FileType::SqpackTest => 0x12,
            FileType::Debug => 0x13,
        }
    }

    /// The name of this value, as it stands in paths.
    pub fn as_str(&self) -> (r: &'static str)
        ensures
            r == self.spec_as_str(),
    {
        match self {
            FileType::Common => "common",
            FileType::BGCommon => "bgcommon",
            FileType::BG => "bg",
            FileType::Cut => "cut",
            FileType::Chara => "chara",
            FileType::Shader => "shader",
            FileType::UI => "ui",
            FileType::Sound => "sound",
            FileType::VFX => "vfx",
            FileType::UIScript => "ui_script",
            FileType::EXD => "exd",
            FileType::GameScript => "game_script",
            FileType::Music => "music",
            FileType::SqpackTest => "_sqpack_test",
            FileType::Debug => "_debug",
        }
    }
}

/// The expansion of the game that a path names by its second segment:
/// the base game, `ffxiv`, or one of `ex1` to `ex4`.
#[derive(Copy, Clone, Eq, PartialEq, Debug, Hash, Structural)]
pub enum Expansion {
    FFXIV,
    Heavensward,
    Stormblood,
    Shadowbringers,
    Endwalker,
}

impl Expansion {
    /// The name of this value, as it stands in paths.
    pub open spec fn spec_as_str(&self) -> &'static str {
        match self {
            Expansion::FFXIV => "ffxiv",
            Expansion::Heavensward => "ex1",
            Expansion::Stormblood => "ex2",
            Expansion::Shadowbringers => "ex3",
            Expansion::Endwalker => "ex4",
        }
    }

    /// The number of this value.
    pub open spec fn spec_file_name_prefix(&self) -> u8 {
        match self {
            Expansion::FFXIV => 0x00,
            Expansion::Heavensward => 0x01,
            Expansion::Stormblood => 0x02,
            Expansion::Shadowbringers => 0x03,
            Expansion::Endwalker => 0x04,
        }
    }

    /// The bytes of this value's name.
    pub open spec fn spec_name(&self) -> Seq<u8> {
        self.spec_as_str().spec_bytes()
    }

    /// The name of this value: its length, and one of its bytes.
    pub proof fn lemma_name(&self)
        ensures
            is_ascii(self.spec_as_str()),
            self.spec_name().len() == match self {
                Expansion::FFXIV => 5nat,
                Expansion::Heavensward => 3nat,
                Expansion::Stormblood => 3nat,
                Expansion::Shadowbringers => 3nat,
                Expansion::Endwalker => 3nat,
            },
            self.spec_name()[2] == match self {
                Expansion::FFXIV => 0x78u8,
                Expansion::Heavensward => 0x31u8,
                Expansion::Stormblood => 0x32u8,
                Expansion::Shadowbringers => 0x33u8,
                Expansion::Endwalker => 0x34u8,
            },
    {
        reveal_strlit("ffxiv");
        reveal_strlit("ex1");
        reveal_strlit("ex2");
        reveal_strlit("ex3");
        reveal_strlit("ex4");
        lemma_ascii_bytes(self.spec_as_str());
    }

    /// No two values have the same name.
    pub proof fn lemma_names_differ(a: Expansion, b: Expansion)
        ensures
            a.spec_name() == b.spec_name() ==> a == b,
    {
        a.lemma_name();
        b.lemma_name();
    }
}

/// The expansion whose name is `seg`, if there is one.
pub open spec fn spec_expansion_named(seg: Seq<u8>) -> Option<Expansion> {
    if exists|t: Expansion| t.spec_name() == seg {
        Some(choose|t: Expansion| t.spec_name() == seg)
    } else {
        None
    }
}

/// The expansion that `path` names: the one whose name is segment 1
/// of the path, where a `/` stands before segment 1. A path without `/`, or
/// with another name in that place, names none.
pub open spec fn spec_expansion(path: Seq<u8>) -> Option<Expansion> {
    if spec_segment_start(path, 1) is Some {
        spec_expansion_named(spec_segment(path, 1)->Some_0)
    } else {
        None
    }
}

impl Expansion {
    /// The value whose name is `seg` is this one, where `seg` is the name
    /// of this one.
    proof fn lemma_named(&self, seg: Seq<u8>)
        requires
            self.spec_name() == seg,
        ensures
            spec_expansion_named(seg) == Some(*self),
    {
        Expansion::lemma_names_differ(choose|t: Expansion| t.spec_name() == seg, *self);
    }

    /// Parses the expansion that `sqpath` names, or `None` where the path is
    /// too short or the name is not known.
    pub fn parse_from_sqpath(sqpath: &SqPath) -> (r: Option<Expansion>)
        ensures
            r == spec_expansion(sqpath@),
    {
        let path = sqpath.as_str().as_bytes();
        if segment(path, 1).is_none() {
            return None;
        }
        let (start, end) = match segment(path, 1) {
            Some(found) => found,
            None => {
                proof {
                    lemma_no_later_segment(path@, 1, 1);
                }
                return None;
            },
        };
        let seg = slice_subrange(path, start, end);
        if segment_is(seg, "ffxiv") {
            proof {
                Expansion::FFXIV.lemma_named(seg@);
            }
            return Some(Expansion::FFXIV);
        }
        if segment_is(seg, "ex1") {
            proof {
                Expansion::Heavensward.lemma_named(seg@);
            }
            return Some(Expansion::Heavensward);
        }
        if segment_is(seg, "ex2") {
            proof {
                Expansion::Stormblood.lemma_named(seg@);
            }
            return Some(Expansion::Stormblood);
        }
        if segment_is(seg, "ex3") {
            proof {
                Expansion::Shadowbringers.lemma_named(seg@);
            }
            return Some(Expansion::Shadowbringers);
        }
        if segment_is(seg, "ex4") {
            proof {
                Expansion::Endwalker.lemma_named(seg@);
            }
            return Some(Expansion::Endwalker);
        }
        assert forall|t: Expansion| t.spec_name() != seg@ by {}
        None
    }

    /// The two hexadecimal digits of this value's number, as they stand at
    /// the start of the names of index and data files.
    pub fn file_name_prefix_str(&self) -> (r: &'static str)
        ensures
            r@ == spec_hex_chars(self.spec_file_name_prefix()),
    {
        proof {
            reveal_strlit("00");
            reveal_strlit("01");
            reveal_strlit("02");
            reveal_strlit("03");
            reveal_strlit("04");
        }
        let r = match self {
            Expansion::FFXIV => "00",
            Expansion::Heavensward => "01",
            Expansion::Stormblood => "02",
            Expansion::Shadowbringers => "03",
            Expansion::Endwalker => "04",
        };
        assert(r@ =~= spec_hex_chars(self.spec_file_name_prefix()));
        r
    }

    /// The number of this value. See `file_name_prefix_str`.
    pub fn file_name_prefix(&self) -> (r: u8)
        ensures
            r == self.spec_file_name_prefix(),
    {
        match self {
            Expansion::FFXIV => 0x00,
            Expansion::Heavensward => 0x01,
            Expansion::Stormblood => 0x02,
            Expansion::Shadowbringers => 0x03,
            Expansion::Endwalker => 0x04,
        }
    }

    /// The name of this value, as it stands in paths.
    pub fn as_str(&self) -> (r: &'static str)
        ensures
            r == self.spec_as_str(),
    {
        match self {
            Expansion::FFXIV => "ffxiv",
            Expansion::Heavensward => "ex1",
            Expansion::Stormblood => "ex2",
            Expansion::Shadowbringers => "ex3",
            Expansion::Endwalker => "ex4",
        }
    }
}


/// The sign that may stand before the digits of a number.
pub const PLUS: u8 = 0x2b;

/// The value of the hexadecimal digit `b`, in either case; `None` for every
/// other byte.
pub open spec fn spec_hex_value(b: u8) -> Option<nat> {
    if 0x30 <= b <= 0x39 {
        Some((b - 0x30) as nat)
    } else if 0x61 <= b <= 0x66 {
        Some((b - 0x61 + 10) as nat)
    } else if 0x41 <= b <= 0x46 {
        Some((b - 0x41 + 10) as nat)
    } else {
        None
    }
}

/// The number that `digits` spell in hexadecimal, most significant digit
/// first; `None` where a byte is no hexadecimal digit.
pub open spec fn spec_hex_number(digits: Seq<u8>) -> Option<nat>
    decreases digits.len(),
{
    if digits.len() == 0 {
        Some(0)
    } else {
        match (spec_hex_number(digits.drop_last()), spec_hex_value(digits.last())) {
            (Some(high), Some(low)) => Some(16 * high + low),
            _ => None,
        }
    }
}

/// The byte that `text` spells in hexadecimal: one `+` may stand before the
/// digits, at least one digit must be there, and the number must not exceed
/// 255.
pub open spec fn spec_parse_hex_u8(text: Seq<u8>) -> Option<u8> {
    let digits = if text.len() >= 2 && text[0] == PLUS {
        text.skip(1)
    } else {
        text
    };
    if digits.len() == 0 {
        None
    } else {
        match spec_hex_number(digits) {
            Some(v) => if v <= 255 {
                Some(v as u8)
            } else {
                None
            },
            None => None,
        }
    }
}

/// Where `digits` spell a number, every start of them spells one that is no
/// greater.
proof fn lemma_hex_prefix(digits: Seq<u8>, i: int)
    requires
        0 <= i <= digits.len(),
    ensures
        spec_hex_number(digits) matches Some(v) ==> spec_hex_number(digits.take(i)) matches Some(p)
            && p <= v,
    decreases digits.len(),
{
    if i == digits.len() {
        assert(digits.take(i) =~= digits);
    } else {
        lemma_hex_prefix(digits.drop_last(), i);
        assert(digits.drop_last().take(i) =~= digits.take(i));
    }
}

/// Parses a byte written in hexadecimal.
fn parse_hex_u8(text: &[u8]) -> (r: Option<u8>)
    ensures
        r == spec_parse_hex_u8(text@),
{
    let len = text.len();
    let first: usize = if len >= 2 && text[0] == PLUS {
        1
    } else {
        0
    };
    if first == len {
        return None;
    }
    let ghost digits = if first == 1 {
        text@.skip(1)
    } else {
        text@
    };
    let mut value: u32 = 0;
    let mut i: usize = first;
    while i < len
        invariant
            first <= i <= len,
            len == text@.len(),
            first <= 1,
            (first == 1) == (len >= 2 && text@[0] == PLUS),
            digits == if first == 1 {
                text@.skip(1)
            } else {
                text@
            },
            spec_hex_number(digits.take(i - first)) == Some(value as nat),
            value <= 255,
        decreases len - i,
    {
        let b = text[i];
        proof {
            let upto = digits.take(i - first + 1);
            assert(upto.drop_last() =~= digits.take(i - first));
            assert(upto.last() == b);
            lemma_hex_prefix(digits, i - first + 1);
        }
        let low: u32 = if b >= 0x30 && b <= 0x39 {
            (b - 0x30) as u32
        } else if b >= 0x61 && b <= 0x66 {
            (b - 0x61 + 10) as u32
        } else if b >= 0x41 && b <= 0x46 {
            (b - 0x41 + 10) as u32
        } else {
            return None;
        };
        value = 16 * value + low;
        if value > 255 {
            return None;
        }
        i += 1;
    }
    assert(digits.take(len - first) =~= digits);
    Some(value as u8)
}

/// The number that parts the index and data files of one kind and
/// expansion. A path names it by the hexadecimal digits at the start of its
/// third segment.
#[derive(Ord, PartialOrd, Eq, PartialEq, Copy, Clone, Debug, Hash, Structural)]
pub struct SqPackNumber(pub u8);

impl Default for SqPackNumber {
    /// The number 0.
    fn default() -> (r: SqPackNumber)
        ensures
            r.0 == 0,
    {
        SqPackNumber(0)
    }
}

/// The pack number that `path` names: what the third segment, up to its
/// first `_` or its end, spells as a byte in hexadecimal, and 0 where it
/// spells none. A path with fewer than three segments names no pack number.
pub open spec fn spec_pack_number(path: Seq<u8>) -> Option<SqPackNumber> {
    match spec_segment(path, 2) {
        None => None,
        Some(name) => Some(
            SqPackNumber(
                match spec_parse_hex_u8(name.subrange(0, find_byte(name, UNDERSCORE, 0))) {
                    Some(v) => v,
                    None => 0,
                },
            ),
        ),
    }
}

/// The digit that stands for `d` in lower-case hexadecimal.
fn hex_digit(d: u8) -> (r: u8)
    requires
        d < 16,
    ensures
        r == spec_hex_digit(d),
{
    if d < 10 {
        d + 0x30
    } else {
        d + 0x61 - 10
    }
}

impl SqPackNumber {
    /// Parses the pack number that `sqpath` names, or `None` where the path
    /// has no third segment.
    pub fn parse_from_sqpath(sqpath: &SqPath) -> (r: Option<SqPackNumber>)
        ensures
            r == spec_pack_number(sqpath@),
    {
        let path = sqpath.as_str().as_bytes();
        match segment(path, 2) {
            None => None,
            Some((start, end)) => {
                let name = slice_subrange(path, start, end);
                let stop = position(name, UNDERSCORE, 0);
                let val = match parse_hex_u8(slice_subrange(name, 0, stop)) {
                    Some(v) => v,
                    None => 0,
                };
                Some(SqPackNumber(val))
            },
        }
    }

    /// The two hexadecimal digits of this number, as they stand in the
    /// names of index and data files.
    pub fn file_name_prefix_str(&self) -> (r: [u8; 2])
        ensures
            r@ == spec_hex_pair(self.0),
    {
        let n = self.0;
        let left = n >> 4;
        let right = n & 0xf;
        assert(left == n / 16 && right == n % 16) by (bit_vector)
            requires
                left == n >> 4,
                right == n & 0xf,
        ;
        let r = [hex_digit(left), hex_digit(right)];
        assert(r@ =~= spec_hex_pair(self.0));
        r
    }
}


/// The character that parts the directories of a path on disk.
pub const SEPARATOR: char = '/';

/// `tail` appended to the directory `base`: with a separator between them,
/// unless `base` is empty or ends with one.
pub open spec fn spec_join(base: Seq<char>, tail: Seq<char>) -> Seq<char> {
    if base.len() == 0 || base.last() == SEPARATOR {
        base + tail
    } else {
        base + seq![SEPARATOR] + tail
    }
}

/// The six hexadecimal digits with which the names of the index and data
/// files of a path start: two each for the kind of file, the expansion and
/// the pack number.
pub open spec fn spec_file_stem(file_type: FileType, expansion: Expansion, number: SqPackNumber) -> Seq<
    char,
> {
    spec_hex_chars(file_type.spec_file_name_prefix()) + spec_hex_chars(
        expansion.spec_file_name_prefix(),
    ) + spec_hex_chars(number.0)
}

/// The file below the directory `sqpack` that belongs to `path` and ends
/// with `extension`: it lies in the directory named after the expansion,
/// and its name is the stem of the path and the extension. There is none
/// where the path names no kind of file, no expansion or no pack number.
pub open spec fn spec_archive_path(path: Seq<u8>, sqpack: Seq<char>, extension: Seq<char>) -> Option<
    Seq<char>,
> {
    match (spec_file_type(path), spec_expansion(path), spec_pack_number(path)) {
        (Some(file_type), Some(expansion), Some(number)) => Some(
            spec_join(
                spec_join(sqpack, expansion.spec_as_str()@),
                spec_file_stem(file_type, expansion, number) + extension,
            ),
        ),
        _ => None,
    }
}

/// The extension of data file number `dat_file`.
pub open spec fn spec_dat_extension(dat_file: u8) -> Seq<char> {
    ".win32.dat"@ + seq![spec_hex_digit(dat_file) as char]
}

/// `tail` appended to the directory `base`.
fn join(base: String, tail: &str) -> (r: String)
    ensures
        r@ == spec_join(base@, tail@),
{
    let len = base.as_str().unicode_len();
    let mut r = base;
    if len != 0 && r.as_str().get_char(len - 1) != SEPARATOR {
        proof {
            reveal_strlit("/");
        }
        r.append("/");
        assert(r@ =~= base@ + seq![SEPARATOR]);
    }
    r.append(tail);
    r
}

/// The one hexadecimal digit of `d`, as a string.
fn hex_digit_str(d: u8) -> (r: &'static str)
    requires
        d < 16,
    ensures
        r@ == seq![spec_hex_digit(d) as char],
{
    proof {
        reveal_strlit("0");
        reveal_strlit("1");
        reveal_strlit("2");
        reveal_strlit("3");
        reveal_strlit("4");
        reveal_strlit("5");
        reveal_strlit("6");
        reveal_strlit("7");
        reveal_strlit("8");
        reveal_strlit("9");
        reveal_strlit("a");
        reveal_strlit("b");
        reveal_strlit("c");
        reveal_strlit("d");
        reveal_strlit("e");
        reveal_strlit("f");
    }
    let r = match d {
        0 => "0",
        1 => "1",
        2 => "2",
        3 => "3",
        4 => "4",
        5 => "5",
        6 => "6",
        7 => "7",
        8 => "8",
        9 => "9",
        10 => "a",
        11 => "b",
        12 => "c",
        13 => "d",
        14 => "e",
        _ => "f",
    };
    assert(r@ =~= seq![spec_hex_digit(d) as char]);
    r
}

impl<'a> SqPath<'a> {
    /// The file below `sqpack` that belongs to this path and ends with
    /// `extension`.
    fn archive_path(&self, sqpack: &str, extension: &str) -> (r: Option<String>)
        ensures
            match r {
                Some(file) => spec_archive_path(self@, sqpack@, extension@) == Some(file@),
                None => spec_archive_path(self@, sqpack@, extension@) is None,
            },
    {
        let file_type = match FileType::parse_from_sqpath(self) {
            Some(file_type) => file_type,
            None => { return None; },
        };
        let expansion = match Expansion::parse_from_sqpath(self) {
            Some(expansion) => expansion,
            None => { return None; },
        };
        let number = match SqPackNumber::parse_from_sqpath(self) {
            Some(number) => number,
            None => { return None; },
        };
        let n = number.0;
        let left = n >> 4;
        let right = n & 0xf;
        assert(left == n / 16 && right == n % 16) by (bit_vector)
            requires
                left == n >> 4,
                right == n & 0xf,
        ;
        let mut name = String::from_str(file_type.file_name_prefix_str());
        name.append(expansion.file_name_prefix_str());
        name.append(hex_digit_str(left));
        name.append(hex_digit_str(right));
        assert(name@ =~= spec_file_stem(file_type, expansion, number));
        name.append(extension);
        let dir = join(String::from_str(sqpack), expansion.as_str());
        Some(join(dir, name.as_str()))
    }

    /// The index file that lists this path, below the directory `sqpack`
    /// that holds the archives: `<sqpack>/<expansion>/<stem>.win32.index`.
    /// `None` where the path names no known kind of file or expansion, or
    /// has no third segment.
    pub fn sqpack_index_path(&self, sqpack: &str) -> (r: Option<String>)
        ensures
            match r {
                Some(file) => spec_archive_path(self@, sqpack@, ".win32.index"@) == Some(file@),
                None => spec_archive_path(self@, sqpack@, ".win32.index"@) is None,
            },
    {
        self.archive_path(sqpack, ".win32.index")
    }

    /// The data file number `dat_file` that belongs to this path, below the
    /// directory `sqpack`: `<sqpack>/<expansion>/<stem>.win32.dat<N>`.
    pub fn sqpack_dat_path(&self, sqpack: &str, dat_file: u8) -> (r: Option<String>)
        requires
            dat_file <= 7,
        ensures
            match r {
                Some(file) => spec_archive_path(self@, sqpack@, spec_dat_extension(dat_file))
                    == Some(file@),
                None => spec_archive_path(self@, sqpack@, spec_dat_extension(dat_file)) is None,
            },
    {
        let mut extension = String::from_str(".win32.dat");
        extension.append(hex_digit_str(dat_file));
        self.archive_path(sqpack, extension.as_str())
    }
}

} // verus!
