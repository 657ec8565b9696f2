//! Objects that carry their own cross-reference data: number, offset, status, generation.
use vstd::prelude::*;
use crate::encoding::{ascii_chars, dec_digits, zero_padded};
pub use crate::objects::metadata::ObjectStatus;
use crate::objects::metadata::status_char;

verus! {

/// The number, offset, status and generation of an object.
#[derive(Debug, Clone, PartialEq, Eq, Structural)]
pub struct PdfMetadata {
    /// `None` until the object is given a number.
    pub number: Option<usize>,
    /// Where the object starts in the file.
    pub offset: usize,
    pub status: ObjectStatus,
    /// 0 for the objects of a new file, 65535 for the free object 0.
    pub generation: u32,
}

/// The metadata of an unnumbered object in use.
pub open spec fn default_metadata() -> PdfMetadata {
    PdfMetadata { number: None, offset: 0, status: ObjectStatus::InUse, generation: 0 }
}

/// The cross-reference entry of an object: its offset in ten digits, its generation in five
/// digits and its status character, each followed by a space.
pub open spec fn xref_entry_text(m: PdfMetadata) -> Seq<char> {
    ascii_chars(zero_padded(m.offset as nat, 10)) + " "@ + ascii_chars(zero_padded(m.generation as nat, 5)) + " "@
        + seq![status_char(m.status)] + " "@
}

impl Default for PdfMetadata {
    fn default() -> (m: Self)
        ensures
            m == default_metadata(),
    {
        PdfMetadata { number: None, offset: 0, status: ObjectStatus::InUse, generation: 0 }
    }
}

impl PdfMetadata {
    pub fn new() -> (m: Self)
        ensures
            m == default_metadata(),
    {
        Self::default()
    }

    /// The metadata of an unnumbered free object.
    pub fn new_free() -> (m: Self)
        ensures
            m == (PdfMetadata { status: ObjectStatus::Free, ..default_metadata() }),
    {
        PdfMetadata { status: ObjectStatus::Free, ..Self::default() }
    }

    /// The cross-reference entry of the object (see [`xref_entry_text`]), such as
    /// `0000000010 00000 n `.
    pub fn format_xref_entry(&self) -> (s: String)
        ensures
            s@ == xref_entry_text(*self),
    {
        let mut s = String::new();
        crate::encoding::string_push_zero_padded(&mut s, self.offset as u64, 10);
        crate::encoding::string_push_str(&mut s, " ");
        crate::encoding::string_push_zero_padded(&mut s, self.generation as u64, 5);
        crate::encoding::string_push_str(&mut s, " ");
        crate::encoding::string_push_char(&mut s, self.status.as_char());
        crate::encoding::string_push_str(&mut s, " ");
        assert(s@ =~= xref_entry_text(*self));
        s
    }
}

/// The text `N G obj`, a line feed, the data, a line feed and `endobj`.
pub open spec fn indirect_text(m: PdfMetadata, data: Seq<u8>) -> Seq<u8> {
    let number: nat = match m.number {
        Some(n) => n as nat,
        None => 0,
    };
    dec_digits(number) + seq![' ' as u8] + dec_digits(m.generation as nat) + seq![
        ' ' as u8,
        'o' as u8,
        'b' as u8,
        'j' as u8,
        '\n' as u8,
    ] + data + seq!['\n' as u8, 'e' as u8, 'n' as u8, 'd' as u8, 'o' as u8, 'b' as u8, 'j' as u8]
}

/// The text `N G R` of a reference to an object, 0 for an unnumbered one.
pub open spec fn metadata_reference_text(m: PdfMetadata) -> Seq<u8> {
    let number: nat = match m.number {
        Some(n) => n as nat,
        None => 0,
    };
    dec_digits(number) + seq![' ' as u8] + dec_digits(m.generation as nat) + seq![' ' as u8, 'R' as u8]
}

/// Appends `N G R` for the object with metadata `m`.
pub(crate) fn push_reference(out: &mut Vec<u8>, m: &PdfMetadata)
    ensures
        final(out)@ == old(out)@ + metadata_reference_text(*m),
{
    let number: usize = match m.number {
        Some(n) => n,
        None => 0,
    };
    let ghost start = out@;
    crate::encoding::push_decimal(out, number as u64);
    out.push(' ' as u8);
    crate::encoding::push_decimal(out, m.generation as u64);
    out.push(' ' as u8);
    out.push('R' as u8);
    assert(out@ =~= start + metadata_reference_text(*m));
}

/// An object with cross-reference data and a body.
pub trait PdfObject {
    spec fn spec_metadata(&self) -> PdfMetadata;

    spec fn spec_data(&self) -> Seq<u8>;

    fn metadata(&self) -> (m: &PdfMetadata)
        ensures
            *m == self.spec_metadata(),
    ;

    fn data(&self) -> (v: Vec<u8>)
        ensures
            v@ == self.spec_data(),
    ;

    /// The object as written in the body of a file (see [`indirect_text`]).
    fn indirect(&self) -> (v: Vec<u8>)
        ensures
            v@ == indirect_text(self.spec_metadata(), self.spec_data()),
    {
        let meta = self.metadata();
        let number: usize = match meta.number {
            Some(n) => n,
            None => 0,
        };
        let mut result: Vec<u8> = Vec::new();
        crate::encoding::push_decimal(&mut result, number as u64);
        result.push(' ' as u8);
        crate::encoding::push_decimal(&mut result, meta.generation as u64);
        result.push(' ' as u8);
        result.push('o' as u8);
        result.push('b' as u8);
        result.push('j' as u8);
        result.push('\n' as u8);
        let d = self.data();
        crate::encoding::push_slice(&mut result, d.as_slice());
        result.push('\n' as u8);
        result.push('e' as u8);
        result.push('n' as u8);
        result.push('d' as u8);
        result.push('o' as u8);
        result.push('b' as u8);
        result.push('j' as u8);
        assert(result@ =~= indirect_text(self.spec_metadata(), self.spec_data()));
        result
    }

    /// A reference to the object (see [`metadata_reference_text`]).
    fn reference(&self) -> (v: Vec<u8>)
        ensures
            v@ == metadata_reference_text(self.spec_metadata()),
    {
        let mut result: Vec<u8> = Vec::new();
        push_reference(&mut result, self.metadata());
        result
    }

    /// Whether the object may be stored in an object stream: only generation 0 objects may.
    fn is_compressible(&self) -> (b: bool)
        ensures
            b == (self.spec_metadata().generation == 0),
    {
        self.metadata().generation == 0
    }
}

/// A placeholder object without body.
#[derive(Debug, Clone)]
pub struct BaseObject {
    pub metadata: PdfMetadata,
}

impl BaseObject {
    /// The free object 0 that heads the cross-reference table, with generation 65535.
    pub fn sentinel() -> (b: Self)
        ensures
            b.metadata == (PdfMetadata { generation: 65535, status: ObjectStatus::Free, ..default_metadata() }),
    {
        Self { metadata: PdfMetadata { generation: 65535, status: ObjectStatus::Free, ..PdfMetadata::default() } }
    }
}

impl PdfObject for BaseObject {
    open spec fn spec_metadata(&self) -> PdfMetadata {
        self.metadata
    }

    open spec fn spec_data(&self) -> Seq<u8> {
        Seq::empty()
    }

    fn metadata(&self) -> (m: &PdfMetadata) {
        &self.metadata
    }

    fn data(&self) -> (v: Vec<u8>) {
        Vec::new()
    }
}

} // verus!
