use vstd::prelude::*;

verus! {

#[derive(Clone)]
pub struct PdfBooleanObject {
    pub value: bool,
}

/// The keyword `true` or `false`.
pub open spec fn bool_text(b: bool) -> Seq<u8> {
    if b {
        seq!['t' as u8, 'r' as u8, 'u' as u8, 'e' as u8]
    } else {
        seq!['f' as u8, 'a' as u8, 'l' as u8, 's' as u8, 'e' as u8]
    }
}

impl PdfBooleanObject {
    pub fn new(value: bool) -> (b: Self)
        ensures
            b.value == value,
    {
        Self { value }
    }

    pub fn set(&mut self, value: bool)
        ensures
            final(self).value == value,
    {
        self.value = value;
    }

    /// The keyword for the value.
    pub fn encode(&self) -> (v: Vec<u8>)
        ensures
            v@ == bool_text(self.value),
    {
        let mut v: Vec<u8> = Vec::new();
        if self.value {
            v.push('t' as u8);
            v.push('r' as u8);
            v.push('u' as u8);
            v.push('e' as u8);
        } else {
            v.push('f' as u8);
            v.push('a' as u8);
            v.push('l' as u8);
            v.push('s' as u8);
            v.push('e' as u8);
        }
        assert(v@ =~= bool_text(self.value));
        v
    }
}

} // verus!
