//! The dictionary of Compressed RTF.

pub mod dictionary;
