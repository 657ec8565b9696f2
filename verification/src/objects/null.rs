use vstd::prelude::*;

verus! {

#[derive(Clone)]
pub struct PdfNullObject {}

impl PdfNullObject {
    pub fn new() -> (n: Self) {
        Self {}
    }

    /// A null object writes no bytes of its own.
    pub fn encode(&self) -> (v: Vec<u8>)
        ensures
            v@ == Seq::<u8>::empty(),
    {
        Vec::new()
    }
}

} // verus!
