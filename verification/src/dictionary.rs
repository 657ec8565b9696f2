//! Dictionaries held as ready-made byte values under their keys.
use vstd::prelude::*;
use crate::object::{PdfMetadata, PdfObject, default_metadata, metadata_reference_text};

verus! {

/// A dictionary whose values are already written out.
#[derive(Clone, Debug)]
pub struct Dictionary {
    pub metadata: PdfMetadata,
    /// The keys and the bytes of their values; no key appears twice.
    pub values: Vec<(String, Vec<u8>)>,
}

/// No key appears twice in `s`.
pub open spec fn byte_keys_unique(s: Seq<(String, Vec<u8>)>) -> bool {
    forall|i: int, j: int| 0 <= i < s.len() && 0 <= j < s.len() && i != j ==> #[trigger] s[i].0@ != #[trigger] s[j].0@
}

/// Each entry as `/`, the UTF-8 bytes of its key, a space and its value.
pub open spec fn byte_entries_text(s: Seq<(String, Vec<u8>)>) -> Seq<u8>
    decreases s.len(),
{
    if s.len() == 0 {
        Seq::empty()
    } else {
        byte_entries_text(s.drop_last()) + seq!['/' as u8] + vstd::utf8::encode_utf8(s.last().0@) + seq![' ' as u8]
            + s.last().1@
    }
}

/// The dictionary as written: `<<`, its entries, `>>`.
pub open spec fn byte_dict_text(s: Seq<(String, Vec<u8>)>) -> Seq<u8> {
    seq!['<' as u8, '<' as u8] + byte_entries_text(s) + seq!['>' as u8, '>' as u8]
}

impl Dictionary {
    /// A dictionary of in-use, unnumbered metadata with the given entries, none if `None`.
    pub fn new(values: Option<Vec<(String, Vec<u8>)>>) -> (d: Self)
        requires
            values matches Some(v) ==> byte_keys_unique(v@),
        ensures
            d.metadata == default_metadata(),
            match values {
                Some(v) => d.values@ == v@,
                None => d.values@.len() == 0,
            },
    {
        Dictionary {
            metadata: PdfMetadata::default(),
            values: match values {
                Some(v) => v,
                None => Vec::new(),
            },
        }
    }
}

impl Dictionary {
    /// A reference to the dictionary: its number (0 when unnumbered), its generation and `R`.
    pub fn reference(&self) -> (v: Vec<u8>)
        ensures
            v@ == metadata_reference_text(self.metadata),
    {
        let mut v: Vec<u8> = Vec::new();
        crate::object::push_reference(&mut v, &self.metadata);
        v
    }
}

impl PdfObject for Dictionary {
    open spec fn spec_metadata(&self) -> PdfMetadata {
        self.metadata
    }

    open spec fn spec_data(&self) -> Seq<u8> {
        byte_dict_text(self.values@)
    }

    fn metadata(&self) -> (m: &PdfMetadata) {
        &self.metadata
    }

    fn data(&self) -> (v: Vec<u8>) {
        let mut result: Vec<u8> = Vec::new();
        result.push('<' as u8);
        result.push('<' as u8);
        let ghost start = result@;
        let mut i: usize = 0;
        assert(self.values@.take(0) =~= Seq::<(String, Vec<u8>)>::empty());
        while i < self.values.len()
            invariant
                i <= self.values@.len(),
                result@ == start + byte_entries_text(self.values@.take(i as int)),
                start == seq!['<' as u8, '<' as u8],
            decreases self.values@.len() - i,
        {
            let ghost before = result@;
            result.push('/' as u8);
            crate::encoding::push_str(&mut result, self.values[i].0.as_str());
            result.push(' ' as u8);
            crate::encoding::push_slice(&mut result, self.values[i].1.as_slice());
            proof {
                let t = self.values@.take(i + 1);
                assert(t.drop_last() =~= self.values@.take(i as int));
                assert(t.last() == self.values@[i as int]);
            }
            assert(result@ =~= start + byte_entries_text(self.values@.take(i + 1)));
            i = i + 1;
        }
        assert(self.values@.take(self.values@.len() as int) =~= self.values@);
        result.push('>' as u8);
        result.push('>' as u8);
        assert(result@ =~= byte_dict_text(self.values@));
        result
    }
}

} // verus!
