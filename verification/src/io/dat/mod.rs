use crate::error::SqpackError;
use vstd::prelude::*;

mod block;
mod inflate;
mod sqfile;

pub use self::block::{
    lemma_block_sentinel, load_block, spec_block_header, spec_block_output, BlockHeader, BlockKind,
    BlockTableEntry, ReadingBlock, BLOCK_HEADER_LEN, BLOCK_PADDING, UNCOMPRESSED_MARK,
};
pub use self::inflate::inflated;
pub use self::sqfile::{
    lemma_read_follows_stream, read_block_table_entries, spec_block_start, spec_block_table,
    spec_block_table_entry, spec_block_table_start, spec_dat_info, spec_open, DatInfo,
    DrainOutcome, ReadOutcome, SqFile, StreamSource, BLOCK_TABLE_RECORD_LEN, ENTRY_HEADER_LEN,
};

verus! {

/// The kind of content stored within a file of a data file.
#[derive(Copy, Clone, Eq, PartialEq, Hash, Debug, Structural)]
pub enum ContentType {
    /// An empty placeholder file (not supported).
    Empty,
    /// Binary data (anything that is no model or texture).
    Binary,
    /// Model data (not supported).
    Model,
    /// Texture data (not supported).
    Texture,
}

impl ContentType {
    /// The content type that the number `value` stands for in an entry
    /// header. Only binary content, the number 2, can be decoded; every other
    /// number is handed back in the error.
    pub fn try_from(value: u32) -> (r: Result<ContentType, SqpackError>)
        ensures
            r == spec_content_type(value),
    {
        if value == 2 {
            Ok(ContentType::Binary)
        } else {
            Err(SqpackError::UnknownContentType(value))
        }
    }
}

/// The content type that the number `value` stands for in an entry header:
/// 2 is binary content, and every other number is refused with itself in the
/// error.
pub open spec fn spec_content_type(value: u32) -> Result<ContentType, SqpackError> {
    if value == 2 {
        Ok(ContentType::Binary)
    } else {
        Err(SqpackError::UnknownContentType(value))
    }
}

} // verus!
