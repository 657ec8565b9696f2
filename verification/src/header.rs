//! The file header: `%PDF-` and the version, then a comment line of non-ASCII bytes that
//! marks the file as binary.
use vstd::prelude::*;
use crate::version::{Version, version_text};

verus! {

pub struct Header {
    version: Version,
}

/// The bytes of the header for `v`: `%PDF-1.7`, a carriage return and a line feed, then the
/// UTF-8 bytes of `âãÏÓ`, a carriage return and a line feed.
pub open spec fn header_bytes(v: Version) -> Seq<u8> {
    seq!['%' as u8, 'P' as u8, 'D' as u8, 'F' as u8, '-' as u8] + version_text(v) + seq![13u8, 10u8]
        + seq![0xc3u8, 0xa2u8, 0xc3u8, 0xa3u8, 0xc3u8, 0x8fu8, 0xc3u8, 0x93u8, 13u8, 10u8]
}

impl Header {
    pub closed spec fn spec_version(&self) -> Version {
        self.version
    }

    /// A header for the default version.
    pub fn new() -> (h: Self)
        ensures
            h.spec_version() == Version::V1_7,
    {
        Header { version: Version::default_version() }
    }

    pub fn with_version(self, version: Version) -> (h: Self)
        ensures
            h.spec_version() == version,
    {
        let mut s = self;
        s.version = version;
        s
    }

    pub fn version(&self) -> (v: Version)
        ensures
            v == self.spec_version(),
    {
        self.version
    }

    /// The bytes of the header (see [`header_bytes`]).
    pub fn to_bytes(&self) -> (b: Vec<u8>)
        ensures
            b@ == header_bytes(self.spec_version()),
    {
        let mut arr: Vec<u8> = Vec::new();
        arr.push('%' as u8);
        arr.push('P' as u8);
        arr.push('D' as u8);
        arr.push('F' as u8);
        arr.push('-' as u8);
        let v = self.version.as_bytes();
        crate::encoding::push_slice(&mut arr, v.as_slice());
        arr.push(13u8);
        arr.push(10u8);
        let marker: [u8; 10] = [0xc3u8, 0xa2u8, 0xc3u8, 0xa3u8, 0xc3u8, 0x8fu8, 0xc3u8, 0x93u8, 13u8, 10u8];
        crate::encoding::push_slice(&mut arr, &marker);
        assert(arr@ =~= header_bytes(self.version));
        arr
    }
}

} // verus!
