//! Reading and writing the Outlook personal folders (PST) file format.

pub mod codec;
pub mod crc;
pub mod ndb;
pub mod amap;
pub mod rebuild;
pub mod ltp;
pub mod messaging;
pub mod compressed_rtf;

use vstd::prelude::*;
use ndb::NdbError;

verus! {

/// Errors of the file level operations.
#[derive(Debug, PartialEq, Eq)]
pub enum PstError {
    /// The file cannot be written; the path is given.
    NoWriteAccess(String),
    /// The file could not be locked.
    LockError,
    /// A file offset does not fit in the integer type of the file's format.
    IntegerConversion,
    /// An error of the node database layer.
    NodeDatabaseError(NdbError),
    /// No allocation map page covers the given page number.
    AllocationMapPageNotFound(usize),
}

} // verus!
