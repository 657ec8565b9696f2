//! Placeholder objects: the free object 0, and references that stand for an object.
use vstd::prelude::*;
use crate::encoding::dec_digits;
use crate::objects::metadata::{Generation, ObjectStatus, PdfMetadata};

verus! {

/// A reference `id 0 R` with the cross-reference data of the object holding it.
pub struct IndirectReference {
    pub metadata: PdfMetadata,
    pub id: usize,
}

impl IndirectReference {
    /// The reference as written: `id 0 R`.
    pub fn data(&self) -> (v: Vec<u8>)
        ensures
            v@ == dec_digits(self.id as nat) + seq![' ' as u8, '0' as u8, ' ' as u8, 'R' as u8],
    {
        let mut v: Vec<u8> = Vec::new();
        crate::encoding::push_decimal(&mut v, self.id as u64);
        v.push(' ' as u8);
        v.push('0' as u8);
        v.push(' ' as u8);
        v.push('R' as u8);
        v
    }
}

/// An object without body, used for free objects.
#[derive(Debug, Clone)]
pub struct BaseObject {
    pub metadata: PdfMetadata,
}

impl BaseObject {
    /// The free object 0 that heads the cross-reference table, with generation 65535.
    pub fn sentinel() -> (b: Self)
        ensures
            b.metadata == (PdfMetadata {
                generation_number: Generation::Root,
                status: ObjectStatus::Free,
                ..PdfMetadata::default_spec()
            }),
    {
        let mut m = PdfMetadata::new();
        m.generation_number = Generation::Root;
        m.status = ObjectStatus::Free;
        Self { metadata: m }
    }

    /// A free object has no body.
    pub fn data(&self) -> (v: Vec<u8>)
        ensures
            v@.len() == 0,
    {
        Vec::new()
    }

    /// Whether the object may be stored in an object stream: only generation 0 objects may.
    pub fn is_compressible(&self) -> (b: bool)
        ensures
            b == (self.metadata.generation_number == Generation::Normal),
    {
        match self.metadata.generation_number {
            Generation::Normal => true,
            Generation::Root => false,
        }
    }
}

} // verus!
