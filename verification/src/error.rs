use vstd::prelude::*;
use vstd::string::StringExecFns;

verus! {

/// Why reading from a byte source failed.
#[derive(Copy, Clone, PartialEq, Eq, Debug, Structural)]
pub enum IoErrorKind {
    /// The source ended before the bytes asked for were read, or a DEFLATE
    /// stream ended before its last block.
    UnexpectedEof,
    /// A value stored in the archive breaks a rule of the format.
    InvalidData,
    /// A DEFLATE stream is corrupt.
    InvalidInput,
}

/// Errors specific to SqPack reading.
#[derive(Copy, Clone, PartialEq, Eq, Debug, Structural)]
pub enum SqpackError {
    /// A file was not found within an index, or a path failed to resolve.
    SqFileNotFound,
    /// Reading from the underlying bytes failed.
    IO(IoErrorKind),
    /// The bytes do not start with the SqPack signature.
    ReaderIsNotSqPack,
    /// The bytes are SqPack data, but not an index.
    ReaderIsNotIndex,
    /// The content type read from a data file is not supported. The values
    /// 1, 3 and 4 are known kinds of content that this library cannot decode.
    UnknownContentType(u32),
}

/// Results whose error is a [`SqpackError`].
pub type SqResult<T> = Result<T, SqpackError>;

/// The character of the decimal digit `d`.
pub open spec fn spec_digit(d: nat) -> char {
    ((0x30 + d) as u8) as char
}

/// `n` written in decimal, without leading zeros.
pub open spec fn spec_decimal(n: nat) -> Seq<char>
    decreases n,
{
    if n < 10 {
        seq![spec_digit(n)]
    } else {
        spec_decimal(n / 10) + seq![spec_digit(n % 10)]
    }
}

/// The text that describes `e`.
pub open spec fn spec_message(e: SqpackError) -> Seq<char> {
    match e {
        SqpackError::SqFileNotFound => "SqPath not found in index!"@,
        SqpackError::IO(kind) => "Underlying IO Error ("@ + kind.spec_as_str()@ + ")"@,
        SqpackError::ReaderIsNotSqPack => "The underlying reader is not SqPack data"@,
        SqpackError::ReaderIsNotIndex => "The underlying reader is not SqPack Index data"@,
        SqpackError::UnknownContentType(unk) => "Unknown content type found while reading .dat: "@
            + spec_decimal(unk as nat),
    }
}

/// The decimal digit `d` as a string.
fn digit_str(d: u32) -> (r: &'static str)
    requires
        d < 10,
    ensures
        r@ == seq![spec_digit(d as nat)],
{
    proof {
        reveal_strlit("0");
        reveal_strlit("1");
        reveal_strlit("2");
        reveal_strlit("3");
        reveal_strlit("4");
        reveal_strlit("5");
        reveal_strlit("6");
        reveal_strlit("7");
        reveal_strlit("8");
        reveal_strlit("9");
    }
    let r = match d {
        0 => "0",
        1 => "1",
        2 => "2",
        3 => "3",
        4 => "4",
        5 => "5",
        6 => "6",
        7 => "7",
        8 => "8",
        _ => "9",
    };
    assert(r@ =~= seq![spec_digit(d as nat)]);
    r
}

/// Appends `n` in decimal to `out`.
fn push_decimal(out: &mut String, n: u32)
    ensures
        final(out)@ == old(out)@ + spec_decimal(n as nat),
    decreases n,
{
    if n >= 10 {
        push_decimal(out, n / 10);
    }
    out.append(digit_str(n % 10));
    assert(out@ =~= old(out)@ + spec_decimal(n as nat));
}

impl IoErrorKind {
    /// The name of this kind of failure.
    pub open spec fn spec_as_str(&self) -> &'static str {
        match self {
            IoErrorKind::UnexpectedEof => "UnexpectedEof",
            IoErrorKind::InvalidData => "InvalidData",
            IoErrorKind::InvalidInput => "InvalidInput",
        }
    }

    /// The name of this kind of failure.
    pub fn as_str(&self) -> (r: &'static str)
        ensures
            r == self.spec_as_str(),
    {
        match self {
            IoErrorKind::UnexpectedEof => "UnexpectedEof",
            IoErrorKind::InvalidData => "InvalidData",
            IoErrorKind::InvalidInput => "InvalidInput",
        }
    }
}

impl SqpackError {
    /// A text that describes this error, for people to read.
    pub fn to_string(&self) -> (r: String)
        ensures
            r@ == spec_message(*self),
    {
        match self {
            SqpackError::SqFileNotFound => String::from_str("SqPath not found in index!"),
            SqpackError::IO(kind) => {
                let mut text = String::from_str("Underlying IO Error (");
                text.append(kind.as_str());
                text.append(")");
                text
            },
            SqpackError::ReaderIsNotSqPack => String::from_str(
                "The underlying reader is not SqPack data",
            ),
            SqpackError::ReaderIsNotIndex => String::from_str(
                "The underlying reader is not SqPack Index data",
            ),
            SqpackError::UnknownContentType(unk) => {
                let mut text = String::from_str("Unknown content type found while reading .dat: ");
                push_decimal(&mut text, *unk);
                text
            },
        }
    }
}

} // verus!
