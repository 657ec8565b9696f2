//! Where an object stands in the cross-reference table.
use vstd::prelude::*;
use crate::encoding::{ascii_chars, zero_padded};

verus! {

/// The status of an object in the cross-reference table.
#[derive(Debug, Clone, Copy, PartialEq, Eq, Structural)]
pub enum ObjectStatus {
    /// deleted or never used
    Free,
    /// a normal, active object
    InUse,
}

/// The character of a status in the cross-reference table: `f` or `n`.
pub open spec fn status_char(s: ObjectStatus) -> char {
    match s {
        ObjectStatus::Free => 'f',
        ObjectStatus::InUse => 'n',
    }
}

impl ObjectStatus {
    pub fn as_char(&self) -> (c: char)
        ensures
            c == status_char(*self),
    {
        match self {
            ObjectStatus::Free => 'f',
            ObjectStatus::InUse => 'n',
        }
    }
}

impl Default for ObjectStatus {
    fn default() -> (s: Self)
        ensures
            s == ObjectStatus::InUse,
    {
        ObjectStatus::InUse
    }
}

/// A generation number: 65535 for the free head object 0, 0 for the objects of a new file.
#[derive(Debug, Clone, Copy, PartialEq, Eq, Structural)]
pub enum Generation {
    Root,
    Normal,
}

/// The number of a generation.
pub open spec fn generation_number(g: Generation) -> u16 {
    match g {
        Generation::Root => 65535,
        Generation::Normal => 0,
    }
}

impl Generation {
    /// The generation number of object 0, the head of the list of free objects.
    pub const ROOT_GENERATION: u16 = 65535;

    pub fn as_u16(&self) -> (n: u16)
        ensures
            n == generation_number(*self),
    {
        match self {
            Generation::Root => Self::ROOT_GENERATION,
            Generation::Normal => 0,
        }
    }
}

/// The number, generation, status and byte offset of an object.
#[derive(Debug, Clone, PartialEq, Eq, Structural)]
pub struct PdfMetadata {
    /// None for unassigned objects
    pub object_identifier: Option<usize>,
    pub generation_number: Generation,
    pub status: ObjectStatus,
    /// Byte offset in the PDF file
    pub offset: usize,
}

/// The cross-reference entry of an object, `nnnnnnnnnn ggggg n/f \r\n`: its offset in ten
/// digits, a space, its generation in five digits, a space, its status character, a space,
/// a carriage return and a line feed.
pub open spec fn metadata_xref_text(m: PdfMetadata) -> Seq<char> {
    ascii_chars(zero_padded(m.offset as nat, 10)) + " "@ + ascii_chars(
        zero_padded(generation_number(m.generation_number) as nat, 5),
    ) + " "@ + seq![status_char(m.status)] + " \r\n"@
}

impl PdfMetadata {
    /// The metadata of an unnumbered object in use.
    pub open spec fn default_spec() -> PdfMetadata {
        PdfMetadata {
            object_identifier: None,
            generation_number: Generation::Normal,
            status: ObjectStatus::InUse,
            offset: 0,
        }
    }

    pub fn new() -> (m: Self)
        ensures
            m == (PdfMetadata {
                object_identifier: None,
                generation_number: Generation::Normal,
                status: ObjectStatus::InUse,
                offset: 0,
            }),
    {
        PdfMetadata {
            object_identifier: None,
            generation_number: Generation::Normal,
            status: ObjectStatus::InUse,
            offset: 0,
        }
    }

    pub fn new_free() -> (m: Self)
        ensures
            m == (PdfMetadata {
                object_identifier: None,
                generation_number: Generation::Normal,
                status: ObjectStatus::Free,
                offset: 0,
            }),
    {
        let mut m = PdfMetadata::new();
        m.status = ObjectStatus::Free;
        m
    }

    /// The cross-reference entry of this object (see [`metadata_xref_text`]).
    pub fn format_xref_entry(&self) -> (s: String)
        ensures
            s@ == metadata_xref_text(*self),
    {
        let mut s = String::new();
        crate::encoding::string_push_zero_padded(&mut s, self.offset as u64, 10);
        crate::encoding::string_push_str(&mut s, " ");
        crate::encoding::string_push_zero_padded(&mut s, self.generation_number.as_u16() as u64, 5);
        crate::encoding::string_push_str(&mut s, " ");
        crate::encoding::string_push_char(&mut s, self.status.as_char());
        crate::encoding::string_push_str(&mut s, " \r\n");
        assert(s@ =~= metadata_xref_text(*self));
        s
    }
}

impl Default for PdfMetadata {
    fn default() -> (m: Self)
        ensures
            m == (PdfMetadata {
                object_identifier: None,
                generation_number: Generation::Normal,
                status: ObjectStatus::InUse,
                offset: 0,
            }),
    {
        Self::new()
    }
}

} // verus!
