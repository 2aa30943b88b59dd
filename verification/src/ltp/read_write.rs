//! Reading and writing the structures of the LTP layer as bytes.

use vstd::prelude::*;
use crate::codec::view_result;
use super::LtpError;
use super::prop_type::PropertyType;
use super::table_context::TableContextInfo;

verus! {

/// A heap id: built from its index and block index, read from and written to its bytes.
pub trait HeapIdReadWrite: Copy + Sized {
    /// The heap id of item `index` of block `block_index`.
    fn new(index: u16, block_index: u16) -> Result<Self, LtpError>;

    /// Reads a heap id from the start of `b`.
    fn read(b: &[u8]) -> Result<Self, LtpError>;

    /// Appends the bytes of the heap id.
    fn write(&self, out: &mut Vec<u8>);
}

/// A value stored in a fixed number of bytes of a heap item.
pub trait HeapNodeReadWrite: View + Sized {
    /// The number of bytes that a value takes.
    spec fn encoded_size() -> nat;

    /// The bytes of a value whose view is `v`.
    spec fn encoded(v: Self::V) -> Seq<u8>;

    /// The view of the value held in the `encoded_size` bytes `s`, or why they hold none.
    spec fn decoded(s: Seq<u8>) -> Result<Self::V, LtpError>;

    /// The bytes of every value are `encoded_size` of them.
    proof fn lemma_encoded_len(v: Self::V)
        ensures
            Self::encoded(v).len() == Self::encoded_size(),
    ;

    /// Reads a value from the start of `b`.
    fn read(b: &[u8]) -> (r: Result<Self, LtpError>)
        ensures
            b@.len() < Self::encoded_size() ==> r == Err::<Self, LtpError>(LtpError::UnexpectedEndOfData),
            b@.len() >= Self::encoded_size() ==> view_result(r) == Self::decoded(
                b@.subrange(0, Self::encoded_size() as int),
            ),
    ;

    /// Appends the bytes of the value.
    fn write(&self, out: &mut Vec<u8>)
        ensures
            final(out)@ == old(out)@ + Self::encoded(self@),
    ;
}

/// A property tree record, read from and written to its bytes.
pub trait PropertyTreeRecordReadWrite: Sized {
    /// Reads a record from the start of `b`.
    fn read(b: &[u8]) -> Result<Self, LtpError>;

    /// Appends the bytes of the record.
    fn write(&self, out: &mut Vec<u8>);
}

/// A property value, read from and written to the bytes that hold it.
pub trait PropertyValueReadWrite: Sized {
    /// Whether the layout of the value fits the machine's integers.
    spec fn fits(&self) -> bool;

    /// Reads a value of type `prop_type` from `b`.
    fn read(b: &[u8], prop_type: PropertyType) -> Result<Self, LtpError>;

    /// Appends the bytes of the value.
    fn write(&self, out: &mut Vec<u8>) -> Result<(), LtpError>
        requires
            self.fits(),
    ;
}

/// A part of a table context's description, read from and written to its bytes.
pub trait TableContextReadWrite: Sized {
    /// Whether reading `s` stays within the machine's integers.
    spec fn readable(s: Seq<u8>) -> bool;

    /// Reads the description from the start of `b`.
    fn read(b: &[u8]) -> Result<Self, LtpError>
        requires
            Self::readable(b@),
    ;

    /// Appends the bytes of the description.
    fn write(&self, out: &mut Vec<u8>) -> Result<(), LtpError>;
}

/// A row of a table, read from and written to the bytes of the row matrix.
pub trait TableRowReadWrite: Sized {
    /// Whether rows can be read with the layout of `context`.
    spec fn readable(context: &TableContextInfo) -> bool;

    /// Reads a row from the start of `b`, laid out as `context` says.
    fn read(b: &[u8], context: &TableContextInfo) -> Result<Self, LtpError>
        requires
            Self::readable(context),
    ;

    /// Appends the bytes of the row.
    fn write(&self, out: &mut Vec<u8>);
}

} // verus!
