//! The identity of indirect objects and where they end up in a written file, kept apart
//! from the objects themselves.
use vstd::prelude::*;
use crate::objects::metadata::{Generation, ObjectStatus};
use crate::objects::pdf_object::PdfObject;

verus! {

/// The identity of an indirect object: its number and generation.
#[derive(Debug, Clone, PartialEq, Eq, Structural)]
pub struct ObjectId {
    pub number: usize,
    pub generation: Generation,
}

/// A name held by value.
pub struct NameObject {
    pub value: Option<String>,
}

/// Where an object ended up in a written file, and whether it is in use.
#[derive(Debug, Clone, PartialEq, Eq, Structural)]
pub struct SerialLocation {
    pub offset: usize,
    pub status: ObjectStatus,
}

impl Default for SerialLocation {
    fn default() -> (l: Self)
        ensures
            l == (SerialLocation { offset: 0, status: ObjectStatus::InUse }),
    {
        SerialLocation { offset: 0, status: ObjectStatus::InUse }
    }
}

/// An indirect object: its identity, where it was written, and the object itself.
pub struct IndirectObject {
    pub id: ObjectId,
    pub location: Option<SerialLocation>,
    pub inner: PdfObject,
}

/// An entry of the cross-reference table.
pub struct CrossRefEntry {
    pub id: ObjectId,
    pub location: SerialLocation,
}

/// A document as its indirect objects and its cross-reference entries.
pub struct PDF {
    pub objects: Vec<IndirectObject>,
    pub cross_ref: Vec<CrossRefEntry>,
}

} // verus!
