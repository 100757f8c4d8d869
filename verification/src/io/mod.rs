/// Little-endian integers in byte slices, and comparing byte slices.
pub mod le;

/// A random-access byte source held in memory.
pub mod source;

/// Types and functions relating to index files.
pub mod index;

/// Types and functions relating to the files stored in data files.
pub mod dat;

/// The steps of opening a path, between which the caller reads the files.
pub mod sqfile;

pub use crate::error::{SqResult, SqpackError};
