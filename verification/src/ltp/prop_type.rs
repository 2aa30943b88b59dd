//! Property Data Types

use vstd::prelude::*;
use super::LtpError;

verus! {

/// The type of a property value.
#[derive(Debug, Clone, Copy, PartialEq, Eq, Structural)]
pub enum PropertyType {
    /// `PtypNull`: none; a placeholder
    Null,
    /// `PtypInteger16`: a 16-bit integer
    Integer16,
    /// `PtypInteger32`: a 32-bit integer
    Integer32,
    /// `PtypFloating32`: a 32-bit floating-point number
    Floating32,
    /// `PtypFloating64`: a 64-bit floating-point number
    Floating64,
    /// `PtypCurrency`: a 64-bit scaled integer
    Currency,
    /// `PtypFloatingTime`: a 64-bit floating-point date
    FloatingTime,
    /// `PtypErrorCode`: a 32-bit error code
    ErrorCode,
    /// `PtypBoolean`: one byte, 0 or 1
    Boolean,
    /// `PtypObject`: an object
    Object,
    /// `PtypInteger64`: a 64-bit integer
    Integer64,
    /// `PtypString8`: a null-terminated multibyte string
    String8,
    /// `PtypString`: a null-terminated UTF-16LE string
    Unicode,
    /// `PtypTime`: 100-nanosecond intervals since 1601
    Time,
    /// `PtypGuid`: a GUID
    Guid,
    /// `PtypBinary`: bytes
    Binary,
    /// `PtypMultipleInteger16`
    MultipleInteger16,
    /// `PtypMultipleInteger32`
    MultipleInteger32,
    /// `PtypMultipleFloating32`
    MultipleFloating32,
    /// `PtypMultipleFloating64`
    MultipleFloating64,
    /// `PtypMultipleCurrency`
    MultipleCurrency,
    /// `PtypMultipleFloatingTime`
    MultipleFloatingTime,
    /// `PtypMultipleInteger64`
    MultipleInteger64,
    /// `PtypMultipleString8`
    MultipleString8,
    /// `PtypMultipleString`
    MultipleUnicode,
    /// `PtypMultipleTime`
    MultipleTime,
    /// `PtypMultipleGuid`
    MultipleGuid,
    /// `PtypMultipleBinary`
    MultipleBinary,
}

impl PropertyType {
    /// The 16-bit code of each property type.
    pub open spec fn spec_code(self) -> u16 {
        match self {
            PropertyType::Null => 0x0001,
            PropertyType::Integer16 => 0x0002,
            PropertyType::Integer32 => 0x0003,
            PropertyType::Floating32 => 0x0004,
            PropertyType::Floating64 => 0x0005,
            PropertyType::Currency => 0x0006,
            PropertyType::FloatingTime => 0x0007,
            PropertyType::ErrorCode => 0x000A,
            PropertyType::Boolean => 0x000B,
            PropertyType::Object => 0x000D,
            PropertyType::Integer64 => 0x0014,
            PropertyType::String8 => 0x001E,
            PropertyType::Unicode => 0x001F,
            PropertyType::Time => 0x0040,
            PropertyType::Guid => 0x0048,
            PropertyType::Binary => 0x0102,
            PropertyType::MultipleInteger16 => 0x1002,
            PropertyType::MultipleInteger32 => 0x1003,
            PropertyType::MultipleFloating32 => 0x1004,
            PropertyType::MultipleFloating64 => 0x1005,
            PropertyType::MultipleCurrency => 0x1006,
            PropertyType::MultipleFloatingTime => 0x1007,
            PropertyType::MultipleInteger64 => 0x1014,
            PropertyType::MultipleString8 => 0x101E,
            PropertyType::MultipleUnicode => 0x101F,
            PropertyType::MultipleTime => 0x1040,
            PropertyType::MultipleGuid => 0x1048,
            PropertyType::MultipleBinary => 0x1102,
        }
    }

    /// The property type whose code is `value`, if any.
    pub open spec fn spec_from_code(value: u16) -> Option<PropertyType> {
        if value == 0x0001 { Some(PropertyType::Null) }
        else if value == 0x0002 { Some(PropertyType::Integer16) }
        else if value == 0x0003 { Some(PropertyType::Integer32) }
        else if value == 0x0004 { Some(PropertyType::Floating32) }
        else if value == 0x0005 { Some(PropertyType::Floating64) }
        else if value == 0x0006 { Some(PropertyType::Currency) }
        else if value == 0x0007 { Some(PropertyType::FloatingTime) }
        else if value == 0x000A { Some(PropertyType::ErrorCode) }
        else if value == 0x000B { Some(PropertyType::Boolean) }
        else if value == 0x000D { Some(PropertyType::Object) }
        else if value == 0x0014 { Some(PropertyType::Integer64) }
        else if value == 0x001E { Some(PropertyType::String8) }
        else if value == 0x001F { Some(PropertyType::Unicode) }
        else if value == 0x0040 { Some(PropertyType::Time) }
        else if value == 0x0048 { Some(PropertyType::Guid) }
        else if value == 0x0102 { Some(PropertyType::Binary) }
        else if value == 0x1002 { Some(PropertyType::MultipleInteger16) }
        else if value == 0x1003 { Some(PropertyType::MultipleInteger32) }
        else if value == 0x1004 { Some(PropertyType::MultipleFloating32) }
        else if value == 0x1005 { Some(PropertyType::MultipleFloating64) }
        else if value == 0x1006 { Some(PropertyType::MultipleCurrency) }
        else if value == 0x1007 { Some(PropertyType::MultipleFloatingTime) }
        else if value == 0x1014 { Some(PropertyType::MultipleInteger64) }
        else if value == 0x101E { Some(PropertyType::MultipleString8) }
        else if value == 0x101F { Some(PropertyType::MultipleUnicode) }
        else if value == 0x1040 { Some(PropertyType::MultipleTime) }
        else if value == 0x1048 { Some(PropertyType::MultipleGuid) }
        else if value == 0x1102 { Some(PropertyType::MultipleBinary) }
        else { None }
    }

    /// The 16-bit code of this property type.
    pub fn code(self) -> (r: u16)
        ensures
            r == self.spec_code(),
    {
        match self {
            PropertyType::Null => 0x0001,
            PropertyType::Integer16 => 0x0002,
            PropertyType::Integer32 => 0x0003,
            PropertyType::Floating32 => 0x0004,
            PropertyType::Floating64 => 0x0005,
            PropertyType::Currency => 0x0006,
            PropertyType::FloatingTime => 0x0007,
            PropertyType::ErrorCode => 0x000A,
            PropertyType::Boolean => 0x000B,
            PropertyType::Object => 0x000D,
            PropertyType::Integer64 => 0x0014,
            PropertyType::String8 => 0x001E,
            PropertyType::Unicode => 0x001F,
            PropertyType::Time => 0x0040,
            PropertyType::Guid => 0x0048,
            PropertyType::Binary => 0x0102,
            PropertyType::MultipleInteger16 => 0x1002,
            PropertyType::MultipleInteger32 => 0x1003,
            PropertyType::MultipleFloating32 => 0x1004,
            PropertyType::MultipleFloating64 => 0x1005,
            PropertyType::MultipleCurrency => 0x1006,
            PropertyType::MultipleFloatingTime => 0x1007,
            PropertyType::MultipleInteger64 => 0x1014,
            PropertyType::MultipleString8 => 0x101E,
            PropertyType::MultipleUnicode => 0x101F,
            PropertyType::MultipleTime => 0x1040,
            PropertyType::MultipleGuid => 0x1048,
            PropertyType::MultipleBinary => 0x1102,
        }
    }

    /// The property type whose code is `value`.
    pub fn try_from_u16(value: u16) -> (r: Result<PropertyType, LtpError>)
        ensures
            r == (match Self::spec_from_code(value) {
                Some(t) => Ok(t),
                None => Err(LtpError::InvalidPropertyType(value)),
            }),
    {
        match value {
            0x0001 => Ok(PropertyType::Null),
            0x0002 => Ok(PropertyType::Integer16),
            0x0003 => Ok(PropertyType::Integer32),
            0x0004 => Ok(PropertyType::Floating32),
            0x0005 => Ok(PropertyType::Floating64),
            0x0006 => Ok(PropertyType::Currency),
            0x0007 => Ok(PropertyType::FloatingTime),
            0x000A => Ok(PropertyType::ErrorCode),
            0x000B => Ok(PropertyType::Boolean),
            0x000D => Ok(PropertyType::Object),
            0x0014 => Ok(PropertyType::Integer64),
            0x001E => Ok(PropertyType::String8),
            0x001F => Ok(PropertyType::Unicode),
            0x0040 => Ok(PropertyType::Time),
            0x0048 => Ok(PropertyType::Guid),
            0x0102 => Ok(PropertyType::Binary),
            0x1002 => Ok(PropertyType::MultipleInteger16),
            0x1003 => Ok(PropertyType::MultipleInteger32),
            0x1004 => Ok(PropertyType::MultipleFloating32),
            0x1005 => Ok(PropertyType::MultipleFloating64),
            0x1006 => Ok(PropertyType::MultipleCurrency),
            0x1007 => Ok(PropertyType::MultipleFloatingTime),
            0x1014 => Ok(PropertyType::MultipleInteger64),
            0x101E => Ok(PropertyType::MultipleString8),
            0x101F => Ok(PropertyType::MultipleUnicode),
            0x1040 => Ok(PropertyType::MultipleTime),
            0x1048 => Ok(PropertyType::MultipleGuid),
            0x1102 => Ok(PropertyType::MultipleBinary),
            _ => Err(LtpError::InvalidPropertyType(value)),
        }
    }
}

/// The code of a property type gives the type back.
pub proof fn lemma_property_type_code_roundtrip(t: PropertyType)
    ensures
        PropertyType::spec_from_code(t.spec_code()) == Some(t),
{
}

} // verus!
