//! How the file identifier of the trailer is made.
use vstd::prelude::*;

verus! {

pub enum FileIdentifierMode {
    /// No identifier is written.
    Omitted,
    /// An MD5 digest of the document.
    AutoMD5,
    /// The given bytes.
    Custom(Vec<u8>),
}

} // verus!
