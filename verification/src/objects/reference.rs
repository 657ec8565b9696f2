//! Indirect references: `N G R`.
use vstd::prelude::*;
use crate::PdfError;
use crate::encoding::dec_digits;
use crate::object_ops::ObjectNumber;

verus! {

/// Where an indirect object is stored.
#[derive(Clone)]
pub enum HostType {
    /// Directly in the file body, with its generation number.
    Standard { generation_number: u16 },
    /// Inside an object stream (PDF 1.5+), with the object number of the containing stream.
    ObjectStream { stream_obj_num: usize },
}

#[derive(Clone)]
pub struct PdfReferenceObject {
    pub host_type: HostType,
    pub object_number: u64,
    pub generation_number: Option<u16>,
}

/// The generation number written in a reference: that of a standard object, zero inside an
/// object stream.
pub open spec fn host_generation(h: HostType) -> nat {
    match h {
        HostType::Standard { generation_number } => generation_number as nat,
        HostType::ObjectStream { .. } => 0,
    }
}

/// The text of a reference: the object number, the generation number and `R`, each followed
/// by a space.
pub open spec fn reference_text(num: nat, generation: nat) -> Seq<u8> {
    dec_digits(num) + seq![' ' as u8] + dec_digits(generation) + seq![' ' as u8, 'R' as u8, ' ' as u8]
}

impl PdfReferenceObject {
    pub fn new(obj_num: ObjectNumber) -> (r: Self)
        ensures
            r.object_number == obj_num.spec_value(),
            r.host_type == (HostType::Standard { generation_number: 0 }),
            r.generation_number is None,
    {
        Self {
            host_type: HostType::Standard { generation_number: 0 },
            object_number: obj_num.value(),
            generation_number: None,
        }
    }

    /// The reference as written in a file.
    pub fn encode(&self) -> (r: Result<Vec<u8>, PdfError>)
        ensures
            r is Ok,
            r->Ok_0@ == reference_text(self.object_number as nat, host_generation(self.host_type)),
    {
        let gen_num: u16 = match &self.host_type {
            HostType::Standard { generation_number } => *generation_number,
            HostType::ObjectStream { .. } => 0,
        };
        let mut v: Vec<u8> = Vec::new();
        crate::encoding::push_decimal(&mut v, self.object_number);
        v.push(' ' as u8);
        crate::encoding::push_decimal(&mut v, gen_num as u64);
        v.push(' ' as u8);
        v.push('R' as u8);
        v.push(' ' as u8);
        assert(v@ =~= reference_text(self.object_number as nat, host_generation(self.host_type)));
        Ok(v)
    }
}

} // verus!
