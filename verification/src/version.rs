use vstd::prelude::*;

verus! {

/// A version of the PDF specification.
#[derive(Debug, Clone, Copy, PartialEq, Eq, Structural)]
pub enum Version {
    V1_0,
    V1_1,
    V1_2,
    V1_3,
    V1_4,
    V1_5,
    V1_6,
    V1_7,
    V2_2017,
}

/// The position of a version in order of publication.
pub open spec fn version_rank(v: Version) -> int {
    match v {
        Version::V1_0 => 0,
        Version::V1_1 => 1,
        Version::V1_2 => 2,
        Version::V1_3 => 3,
        Version::V1_4 => 4,
        Version::V1_5 => 5,
        Version::V1_6 => 6,
        Version::V1_7 => 7,
        Version::V2_2017 => 8,
    }
}

/// The version number as written in the file header, such as `1.7`.
pub open spec fn version_text(v: Version) -> Seq<u8> {
    let minor: u8 = match v {
        Version::V1_0 => '0' as u8,
        Version::V1_1 => '1' as u8,
        Version::V1_2 => '2' as u8,
        Version::V1_3 => '3' as u8,
        Version::V1_4 => '4' as u8,
        Version::V1_5 => '5' as u8,
        Version::V1_6 => '6' as u8,
        Version::V1_7 => '7' as u8,
        Version::V2_2017 => '0' as u8,
    };
    let major: u8 = if v == Version::V2_2017 { '2' as u8 } else { '1' as u8 };
    seq![major, '.' as u8, minor]
}

impl Version {
    /// The version used when none is chosen: PDF 1.7.
    pub fn default_version() -> (v: Version)
        ensures
            v == Version::V1_7,
    {
        Version::V1_7
    }

    /// Whether `self` is the same as or later than `other`.
    pub fn is_at_least(&self, other: Version) -> (b: bool)
        ensures
            b == (version_rank(*self) >= version_rank(other)),
    {
        self.rank() >= other.rank()
    }

    fn rank(&self) -> (r: u8)
        ensures
            r as int == version_rank(*self),
    {
        match self {
            Version::V1_0 => 0,
            Version::V1_1 => 1,
            Version::V1_2 => 2,
            Version::V1_3 => 3,
            Version::V1_4 => 4,
            Version::V1_5 => 5,
            Version::V1_6 => 6,
            Version::V1_7 => 7,
            Version::V2_2017 => 8,
        }
    }

    /// The version number as written in the file header.
    pub fn as_bytes(&self) -> (b: Vec<u8>)
        ensures
            b@ == version_text(*self),
    {
        let mut b: Vec<u8> = Vec::new();
        let major: u8 = match self {
            Version::V2_2017 => '2' as u8,
            _ => '1' as u8,
        };
        let minor: u8 = match self {
            Version::V1_0 => '0' as u8,
            Version::V1_1 => '1' as u8,
            Version::V1_2 => '2' as u8,
            Version::V1_3 => '3' as u8,
            Version::V1_4 => '4' as u8,
            Version::V1_5 => '5' as u8,
            Version::V1_6 => '6' as u8,
            Version::V1_7 => '7' as u8,
            Version::V2_2017 => '0' as u8,
        };
        b.push(major);
        b.push('.' as u8);
        b.push(minor);
        assert(b@ =~= version_text(*self));
        b
    }
}

impl Default for Version {
    fn default() -> (v: Version)
        ensures
            v == Version::V1_7,
    {
        Version::V1_7
    }
}

} // verus!
