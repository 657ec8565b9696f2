//! Name objects: an atomic symbol introduced by a SOLIDUS (/), which is not part of the name.
use vstd::prelude::*;
use crate::PdfError;

verus! {

#[derive(Clone)]
pub struct PdfNameObject {
    pub value: String,
}

/// The bytes of a name: a SOLIDUS followed by the UTF-8 bytes of its characters.
pub open spec fn name_text(key: Seq<char>) -> Seq<u8> {
    seq!['/' as u8] + vstd::utf8::encode_utf8(key)
}

impl PdfNameObject {
    pub fn new(value: &str) -> (n: Self)
        ensures
            n.value@ == value@,
    {
        Self { value: value.to_owned() }
    }

    /// The name as written in a file: `/` and its characters.
    pub fn encode(&self) -> (r: Result<Vec<u8>, PdfError>)
        ensures
            r is Ok,
            r->Ok_0@ == name_text(self.value@),
    {
        let mut v: Vec<u8> = Vec::new();
        v.push('/' as u8);
        crate::encoding::push_str(&mut v, self.value.as_str());
        Ok(v)
    }
}

} // verus!
