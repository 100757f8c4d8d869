//! Read-only access to SqPack archives, the content-addressed virtual
//! filesystem of FFXIV.
//!
//! A logical path such as `music/ffxiv/BGM_System_Title.scd` is hashed
//! ([`hash`], [`sqpath`]), the hash is looked up in an index file
//! ([`io::index`]), and the entry found there names the place in a data file
//! where the blocks of the archived file are stored ([`io::dat`]).
//!
//! The library works on bytes held in memory: the caller reads the index and
//! data files and hands their contents over.

/// Errors of this library.
pub mod error;

/// The checksum by which the archives address folders and files.
pub mod hash;
mod hash_consts;

/// Reading index and data files.
pub mod io;

/// Logical paths and what they say about where a file is stored.
pub mod sqpath;

pub use error::{IoErrorKind, SqResult, SqpackError};
pub use sqpath::SqPath;
