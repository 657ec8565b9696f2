//! Pages and page tree nodes as dictionaries.
use vstd::prelude::*;
use crate::PdfError;
use crate::objects::dictionary::{PdfDictionaryObject, keys_of, lookup};
use crate::objects::pdf_array::PdfArrayObject;
use crate::objects::pdf_object::{PdfObject, is_int, is_name, reference_object};

verus! {

/// A page dictionary `<< /Type /Page >>` with the object number `object_number`.
pub fn make_page(object_number: u64) -> (d: PdfDictionaryObject)
    ensures
        d.wf(),
        keys_of(d.values@) =~= seq!["Type"@],
        is_name(d.values@[0].1, "Page"@),
        d.object_number == Some(object_number),
        d.generation_number is None,
        d.children@.len() == 0,
{
    let mut d = PdfDictionaryObject::new();
    d.put_new("Type", PdfObject::name_obj("Page"));
    d.with_object_number(object_number)
}

/// `d` is the page tree node `<< /Type /Pages /Kids [ ] /Count 0 >>` numbered `n`.
pub open spec fn empty_page_tree(d: PdfDictionaryObject, n: u64) -> bool {
    &&& d.wf()
    &&& keys_of(d.values@) =~= seq!["Type"@, "Kids"@, "Count"@]
    &&& is_name(d.values@[0].1, "Pages"@)
    &&& d.values@[1].1 matches PdfObject::Array(a) && a.values@.len() == 0 && a.object_number is None
    &&& is_int(d.values@[2].1, 0)
    &&& d.object_number == Some(n)
    &&& d.generation_number is None
    &&& d.children@.len() == 0
}

/// A page tree node `<< /Type /Pages /Kids [ ] /Count 0 >>` with the object number
/// `object_number`.
pub fn make_page_tree(object_number: u64) -> (d: PdfDictionaryObject)
    ensures
        empty_page_tree(d, object_number),
{
    proof {
        reveal_strlit("Type");
        reveal_strlit("Kids");
        reveal_strlit("Count");
        assert("Type"@.len() == 4 && "Kids"@.len() == 4 && "Count"@.len() == 5);
        assert("Type"@[0] != "Kids"@[0]);
    }
    let mut tree = PdfDictionaryObject::new();
    tree.put_new("Type", PdfObject::name_obj("Pages"));
    tree.put_new("Kids", PdfObject::Array(PdfArrayObject::new()));
    tree.put_new("Count", PdfObject::from(0i64));
    tree.with_object_number(object_number)
}

/// Appends a reference to the node `child_tree_dict` to the `Kids` array of
/// `parent_tree_dict`; fails when the parent has no `Kids` array.
pub fn add_tree_to_tree(
    child_tree_dict: &mut PdfDictionaryObject,
    parent_tree_dict: &mut PdfDictionaryObject,
) -> (r: Result<(), PdfError>)
    requires
        old(child_tree_dict).object_number is Some,
    ensures
        *final(child_tree_dict) == *old(child_tree_dict),
        match lookup(old(parent_tree_dict).values@, "Kids"@) {
            Some(PdfObject::Array(a)) => {
                &&& r is Ok
                &&& lookup(final(parent_tree_dict).values@, "Kids"@) matches Some(PdfObject::Array(b))
                &&& b.values@ == a.values@.push(reference_object(old(child_tree_dict).object_number->Some_0))
                &&& keys_of(final(parent_tree_dict).values@) == keys_of(old(parent_tree_dict).values@)
                &&& (old(parent_tree_dict).wf() ==> final(parent_tree_dict).wf())
            },
            _ => {
                &&& r matches Err(PdfError::StructureError(m)) && m@ == "Destination page tree must have a Kids array"@
                &&& *final(parent_tree_dict) == *old(parent_tree_dict)
            },
        },
{
    proof {
        reveal_strlit("Kids");
    }
    let is_array = match parent_tree_dict.get("Kids") {
        Some(PdfObject::Array(_)) => true,
        _ => false,
    };
    if !is_array {
        let mut m = String::new();
        crate::encoding::string_push_str(&mut m, "Destination page tree must have a Kids array");
        return Err(PdfError::StructureError(m));
    }
    let num = child_tree_dict.object_number.unwrap();
    let ghost before = parent_tree_dict.values@;
    let r = parent_tree_dict.push_to_array("Kids", crate::objects::pdf_object::PdfObj::make_reference_obj(num));
    proof {
        crate::objects::dictionary::lemma_key_index(before, "Kids"@);
        crate::objects::dictionary::lemma_key_index(parent_tree_dict.values@, "Kids"@);
        let k = crate::objects::dictionary::key_index(before, "Kids"@);
        assert(parent_tree_dict.values@[k].0 == before[k].0);
        assert forall|j: int| 0 <= j < k implies #[trigger] parent_tree_dict.values@[j].0.value@ != "Kids"@ by {
            assert(parent_tree_dict.values@[j] == before[j]);
        }
        crate::objects::dictionary::lemma_key_index_unique(parent_tree_dict.values@, "Kids"@, k);
        assert forall|j: int| 0 <= j < before.len() implies #[trigger] keys_of(parent_tree_dict.values@)[j]
            == keys_of(before)[j] by {
            if j != k {
                assert(parent_tree_dict.values@[j] == before[j]);
            }
        }
        assert(keys_of(parent_tree_dict.values@) =~= keys_of(before));
    }
    r
}

} // verus!
