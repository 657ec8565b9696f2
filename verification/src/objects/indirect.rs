//! Indirect objects: an object labelled with an object number and a generation number,
//! stored in the file body or inside an object stream.
use vstd::prelude::*;
use crate::encoding::dec_digits;
pub use crate::objects::reference::{HostType, host_generation};

verus! {

/// An indirect object's number, where it is stored, and its byte offset (from the start of
/// the file for a standard object, from `First` in its object stream otherwise).
pub struct PdfIndirectObject {
    pub obj_num: usize,
    pub storage: HostType,
    pub byte_offset: usize,
}

/// The text `N G R` of a reference.
pub open spec fn indirect_reference_text(num: nat, generation: nat) -> Seq<u8> {
    dec_digits(num) + seq![' ' as u8] + dec_digits(generation) + seq![' ' as u8, 'R' as u8]
}

/// The frame of a standard indirect object: `N G obj`, a line feed, then a line feed,
/// `endobj` and a line feed.
pub open spec fn indirect_frame_text(num: nat, generation: nat) -> Seq<u8> {
    dec_digits(num) + seq![' ' as u8] + dec_digits(generation) + seq![
        ' ' as u8,
        'o' as u8,
        'b' as u8,
        'j' as u8,
        '\n' as u8,
        '\n' as u8,
        'e' as u8,
        'n' as u8,
        'd' as u8,
        'o' as u8,
        'b' as u8,
        'j' as u8,
        '\n' as u8,
    ]
}

impl PdfIndirectObject {
    /// An object of generation 0 stored in the file body.
    pub fn new_standard(obj_num: usize) -> (o: Self)
        ensures
            o.obj_num == obj_num,
            o.storage == (HostType::Standard { generation_number: 0 }),
            o.byte_offset == 0,
    {
        Self { obj_num, storage: HostType::Standard { generation_number: 0 }, byte_offset: 0 }
    }

    /// An object stored in the object stream numbered `stream_obj_num`.
    pub fn new_in_obj_stream(obj_num: usize, stream_obj_num: usize) -> (o: Self)
        ensures
            o.obj_num == obj_num,
            o.storage == (HostType::ObjectStream { stream_obj_num }),
            o.byte_offset == 0,
    {
        Self { obj_num, storage: HostType::ObjectStream { stream_obj_num }, byte_offset: 0 }
    }

    /// A reference to the object: its number, its generation (0 inside an object stream)
    /// and `R`.
    pub fn reference(&self) -> (v: Vec<u8>)
        ensures
            v@ == indirect_reference_text(self.obj_num as nat, host_generation(self.storage)),
    {
        let gen_num: u16 = match &self.storage {
            HostType::Standard { generation_number } => *generation_number,
            HostType::ObjectStream { .. } => 0,
        };
        let mut v: Vec<u8> = Vec::new();
        crate::encoding::push_decimal(&mut v, self.obj_num as u64);
        v.push(' ' as u8);
        crate::encoding::push_decimal(&mut v, gen_num as u64);
        v.push(' ' as u8);
        v.push('R' as u8);
        assert(v@ =~= indirect_reference_text(self.obj_num as nat, host_generation(self.storage)));
        v
    }

    /// The frame in which a standard object is written (see [`indirect_frame_text`]); an
    /// object in an object stream has no frame of its own.
    pub fn serialise(&self) -> (v: Vec<u8>)
        ensures
            match self.storage {
                HostType::Standard { generation_number } => v@ == indirect_frame_text(
                    self.obj_num as nat,
                    generation_number as nat,
                ),
                HostType::ObjectStream { .. } => v@.len() == 0,
            },
    {
        let mut out: Vec<u8> = Vec::new();
        match &self.storage {
            HostType::Standard { generation_number } => {
                crate::encoding::push_decimal(&mut out, self.obj_num as u64);
                out.push(' ' as u8);
                crate::encoding::push_decimal(&mut out, *generation_number as u64);
                out.push(' ' as u8);
                out.push('o' as u8);
                out.push('b' as u8);
                out.push('j' as u8);
                out.push('\n' as u8);
                out.push('\n' as u8);
                out.push('e' as u8);
                out.push('n' as u8);
                out.push('d' as u8);
                out.push('o' as u8);
                out.push('b' as u8);
                out.push('j' as u8);
                out.push('\n' as u8);
                assert(out@ =~= indirect_frame_text(self.obj_num as nat, *generation_number as nat));
            },
            HostType::ObjectStream { .. } => {},
        }
        out
    }
}

} // verus!
