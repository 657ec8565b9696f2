//! The page tree: nodes (`/Type /Pages`) that list their kids and count the pages under them,
//! and pages (`/Type /Page`) with their media box, resources and content stream.
//!
//! A page must have, or inherit from its node, a `Resources` and a `MediaBox` entry.
use vstd::prelude::*;
use crate::PdfError;
use crate::cross_ref::CrossRefTable;
use crate::object_ops::{ObjectNumber, ObjectOps};
pub use crate::page_size::PageSize;
use crate::objects::dictionary::{PdfDictionaryObject, has_key, keys_of, lookup, plain_dict};
use crate::objects::number::number_as_int;
use crate::objects::pdf_array::PdfArrayObject;
use crate::objects::pdf_object::{PdfObject, is_int, is_name, reference_object};
use crate::objects::serial::{
    Written, entries_point_at_objects, law_xref_offsets_point_at_objects, lemma_points_concat, nothing, then_written,
    wrote, write_dict,
};
use crate::objects::stream::PdfStreamObject;
use crate::util::is_rect_array;
use crate::page_size::page_dims;

verus! {

/// The root of the page tree.
pub struct PageOps {
    pub root_tree: PageTree,
}

/// A node of the page tree, with the pages and nodes added under it.
pub struct PageTree {
    dictionary: PdfDictionaryObject,
    pages: Vec<Page>,
    subtrees: Vec<PageTree>,
}

/// A page.
pub struct Page {
    dictionary: PdfDictionaryObject,
}

/// The page count of a node's entries: the integer under `Count`, 0 when there is none.
pub open spec fn count_of(s: Seq<(crate::objects::name::PdfNameObject, PdfObject)>) -> int {
    match lookup(s, "Count"@) {
        Some(PdfObject::Number(n)) => number_as_int(n.value),
        _ => 0,
    }
}

/// A fresh node numbered `n`: `/Type /Pages`, an empty `Kids` array and `Count 0`.
pub open spec fn is_fresh_tree_dict(d: PdfDictionaryObject, n: u64) -> bool {
    &&& d.wf()
    &&& keys_of(d.values@) =~= seq!["Type"@, "Kids"@, "Count"@]
    &&& is_name(d.values@[0].1, "Pages"@)
    &&& d.values@[1].1 matches PdfObject::Array(a) && a.values@.len() == 0 && a.object_number is None
    &&& is_int(d.values@[2].1, 0)
    &&& d.object_number == Some(n)
    &&& d.children@.len() == 0
}

/// The dictionary of a new page numbered `n`: `/Type /Page`, the media box `[0 0 w h]` of
/// `page_size`, empty `Resources` and `Contents`, the stream numbered `n + 1` that holds
/// `content`, in that order.
pub open spec fn is_new_page_dict(d: PdfDictionaryObject, page_size: PageSize, content: Seq<u8>, n: u64) -> bool {
    &&& d.wf()
    &&& d.object_number == Some(n)
    &&& keys_of(d.values@) =~= seq!["Type"@, "MediaBox"@, "Resources"@, "Contents"@]
    &&& is_name(d.values@[0].1, "Page"@)
    &&& d.values@[1].1 matches PdfObject::Array(a) && is_rect_array(
        a,
        0,
        0,
        page_dims(page_size).width,
        page_dims(page_size).height,
    )
    &&& d.values@[2].1 matches PdfObject::Dictionary(res) && plain_dict(res) && res.values@.len() == 0
    &&& d.values@[3].1 matches PdfObject::Stream(st) && {
        &&& st.content@ == content
        &&& st.object_number == Some((n + 1) as u64)
        &&& st.dict.values@.len() == 0
    }
    &&& d.children@.len() == 0
}

impl Page {
    /// The page dictionary.
    pub closed spec fn dict(&self) -> PdfDictionaryObject {
        self.dictionary
    }

    /// A page numbered from `object_ops`, with the media box of `page_size`, empty resources
    /// and a content stream holding `content`, numbered next.
    fn new(object_ops: &mut ObjectOps, page_size: PageSize, content: Vec<u8>) -> (r: Result<Self, PdfError>)
        requires
            old(object_ops).last() + 2 <= u64::MAX,
        ensures
            final(object_ops).last() == old(object_ops).last() + 2,
            final(object_ops).spec_version() == old(object_ops).spec_version(),
            r matches Ok(p) && is_new_page_dict(p.dict(), page_size, content@, (old(object_ops).last() + 1) as u64),
    {
        proof {
            reveal_strlit("Type");
            reveal_strlit("MediaBox");
            reveal_strlit("Resources");
            reveal_strlit("Contents");
            assert("Type"@.len() == 4 && "MediaBox"@.len() == 8 && "Resources"@.len() == 9 && "Contents"@.len() == 8);
            assert("MediaBox"@[0] != "Contents"@[0]);
        }
        let number = object_ops.next_object_number();
        let mut dict = PdfDictionaryObject::new();
        dict.put_new("Type", PdfObject::name_obj("Page"));
        let mut dict = dict.with_object_number(number.value());
        dict.put_new("MediaBox", PdfObject::Array(page_size.to_rect()));
        dict.put_new("Resources", PdfObject::Dictionary(PdfDictionaryObject::new()));
        let stream_number = object_ops.next_object_number();
        let stream = PdfStreamObject::new().with_object_number(stream_number.value()).with_data(content, PdfDictionaryObject::new());
        dict.put_new("Contents", PdfObject::Stream(stream));
        Ok(Page { dictionary: dict })
    }

    /// Writes the page with what it holds (see [`write_dict`]).
    pub fn serialiase(&self, xref: &mut CrossRefTable, out: &mut Vec<u8>) -> (r: Result<(), PdfError>)
        ensures
            wrote(write_dict(self.dict(), old(out)@.len()), r, old(out)@, final(out)@, old(xref)@, final(xref)@),
            old(xref).wf() ==> final(xref).wf(),
    {
        self.dictionary.serialise(xref, out)
    }
}

/// The message of the error for a page that has, and inherits, no `key` entry.
pub open spec fn missing_entry_message(key: Seq<char>) -> Seq<char> {
    "Page must have, or inherit, a "@ + key + " dictionary"@
}

impl PageTree {
    /// The node dictionary.
    pub closed spec fn dict(&self) -> PdfDictionaryObject {
        self.dictionary
    }

    /// The pages added under this node.
    pub closed spec fn pages(&self) -> Seq<Page> {
        self.pages@
    }

    /// The nodes added under this node.
    pub closed spec fn subtrees(&self) -> Seq<PageTree> {
        self.subtrees@
    }

    /// A node numbered `object_number` without kids.
    fn new(object_number: ObjectNumber) -> (r: Result<Self, PdfError>)
        ensures
            r matches Ok(t) && is_fresh_tree_dict(t.dict(), object_number.spec_value()) && t.pages().len() == 0
                && t.subtrees().len() == 0,
    {
        let dict = crate::page::make_page_tree(object_number.value());
        Ok(PageTree { dictionary: dict, pages: Vec::new(), subtrees: Vec::new() })
    }

    /// A page numbered from `object_ops` (see [`is_new_page_dict`]): the media box of
    /// `page_size`, empty resources and a content stream holding `content`, numbered next.
    pub fn make_page(&self, object_ops: &mut ObjectOps, page_size: PageSize, content: Vec<u8>) -> (r: Result<
        Page,
        PdfError,
    >)
        requires
            old(object_ops).last() + 2 <= u64::MAX,
        ensures
            final(object_ops).last() == old(object_ops).last() + 2,
            final(object_ops).spec_version() == old(object_ops).spec_version(),
            r matches Ok(p) && is_new_page_dict(p.dict(), page_size, content@, (old(object_ops).last() + 1) as u64)
                && has_key(p.dict().values@, "Resources"@) && has_key(p.dict().values@, "MediaBox"@)
                && !has_key(p.dict().values@, "Parent"@),
    {
        let r = Page::new(object_ops, page_size, content);
        proof {
            if r is Ok {
                let p = r->Ok_0;
                reveal_strlit("Type");
                reveal_strlit("MediaBox");
                reveal_strlit("Resources");
                reveal_strlit("Contents");
                reveal_strlit("Parent");
                let s = p.dict().values@;
                assert(keys_of(s)[1] == "MediaBox"@ && keys_of(s)[2] == "Resources"@);
                crate::objects::dictionary::lemma_key_index(s, "MediaBox"@);
                crate::objects::dictionary::lemma_key_index(s, "Resources"@);
                assert(s[1].0.value@ == "MediaBox"@ && s[2].0.value@ == "Resources"@);
                assert("Parent"@.len() == 6 && "Type"@.len() == 4 && "MediaBox"@.len() == 8);
                assert("Resources"@.len() == 9 && "Contents"@.len() == 8);
                assert(!keys_of(s).contains("Parent"@));
                crate::objects::dictionary::lemma_absent_key(s, "Parent"@);
            }
        }
        r
    }

    /// A node numbered from `object_ops`, without kids.
    pub fn make_tree(&self, object_ops: &mut ObjectOps) -> (r: Result<PageTree, PdfError>)
        requires
            old(object_ops).last() < u64::MAX,
        ensures
            final(object_ops).last() == old(object_ops).last() + 1,
            final(object_ops).spec_version() == old(object_ops).spec_version(),
            r matches Ok(t) && is_fresh_tree_dict(t.dict(), (old(object_ops).last() + 1) as u64)
                && t.pages().len() == 0 && t.subtrees().len() == 0,
    {
        let n = object_ops.next_object_number();
        PageTree::new(n)
    }

    /// Lists the node `tree` among the kids of this node.
    pub fn add_tree(&mut self, tree: PageTree) -> (r: Result<(), PdfError>)
        requires
            tree.dict().object_number is Some,
        ensures
            final(self).dict().object_number == old(self).dict().object_number,
            old(self).dict().wf() ==> final(self).dict().wf(),
            match lookup(old(self).dict().values@, "Kids"@) {
                Some(PdfObject::Array(a)) => {
                    &&& r is Ok
                    &&& lookup(final(self).dict().values@, "Kids"@) matches Some(PdfObject::Array(b))
                    &&& b.values@ == a.values@.push(reference_object(tree.dict().object_number->Some_0))
                    &&& final(self).subtrees() == old(self).subtrees().push(tree)
                    &&& final(self).pages() == old(self).pages()
                },
                _ => r is Err && final(self).dict() == old(self).dict() && final(self).subtrees() == old(self).subtrees(),
            },
    {
        match self.has_kids() {
            Ok(()) => {},
            Err(e) => {
                return Err(e);
            },
        }
        let num = tree.object_number();
        match self.dictionary.push_to_array("Kids", crate::objects::pdf_object::PdfObj::make_reference_obj(num.value())) {
            Ok(()) => {},
            Err(e) => {
                return Err(e);
            },
        }
        proof {
            let before = old(self).dict().values@;
            crate::objects::dictionary::lemma_key_index(before, "Kids"@);
            crate::objects::dictionary::lemma_key_index(self.dictionary.values@, "Kids"@);
            let k = crate::objects::dictionary::key_index(before, "Kids"@);
            assert forall|j: int| 0 <= j < k implies #[trigger] self.dictionary.values@[j].0.value@ != "Kids"@ by {
                assert(self.dictionary.values@[j] == before[j]);
            }
            crate::objects::dictionary::lemma_key_index_unique(self.dictionary.values@, "Kids"@, k);
        }
        self.subtrees.push(tree);
        Ok(())
    }

    /// Adds `page` under this node: the page gets a `Parent` reference to the node, the
    /// node's `Count` grows by one and its `Kids` array gains a reference to the page. Fails
    /// when neither the page nor the node has a `Resources` entry, or a `MediaBox` entry,
    /// when the page already has a parent, or when the node has no `Kids` array.
    pub fn add_page(&mut self, page: Page) -> (r: Result<(), PdfError>)
        requires
            old(self).dict().object_number is Some,
            page.dict().object_number is Some,
            count_of(old(self).dict().values@) < i64::MAX,
        ensures
            final(self).dict().object_number == old(self).dict().object_number,
            !has_key(page.dict().values@, "Resources"@) && !has_key(old(self).dict().values@, "Resources"@)
                ==> (r matches Err(PdfError::StructureError(m)) && m@ == missing_entry_message("Resources"@)),
            (has_key(page.dict().values@, "Resources"@) || has_key(old(self).dict().values@, "Resources"@)) && (
            !has_key(page.dict().values@, "MediaBox"@) && !has_key(old(self).dict().values@, "MediaBox"@))
                ==> (r matches Err(PdfError::StructureError(m)) && m@ == missing_entry_message("MediaBox"@)),
            r is Ok ==> {
                let old_pages = old(self).pages();
                let new_pages = final(self).pages();
                let stored = new_pages.last().dict();
                let n = page.dict().values@.len();
                &&& new_pages.len() == old_pages.len() + 1
                &&& new_pages.subrange(0, old_pages.len() as int) == old_pages
                &&& stored.values@.len() == n + 1
                &&& stored.values@.subrange(0, n as int) == page.dict().values@
                &&& stored.values@[n as int].0.value@ == "Parent"@
                &&& stored.values@[n as int].1 == reference_object(old(self).dict().object_number->Some_0)
                &&& stored.object_number == page.dict().object_number
                &&& stored.generation_number == page.dict().generation_number
                &&& stored.children == page.dict().children
                &&& lookup(stored.values@, "Parent"@) == Some(reference_object(old(self).dict().object_number->Some_0))
                &&& forall|k: Seq<char>|
                    k != "Count"@ && k != "Kids"@ ==> lookup(final(self).dict().values@, k) == lookup(
                        old(self).dict().values@,
                        k,
                    )
                &&& final(self).dict().generation_number == old(self).dict().generation_number
                &&& final(self).dict().children == old(self).dict().children
                &&& count_of(final(self).dict().values@) == count_of(old(self).dict().values@) + 1
                &&& lookup(old(self).dict().values@, "Kids"@) matches Some(PdfObject::Array(a))
                &&& lookup(final(self).dict().values@, "Kids"@) matches Some(PdfObject::Array(b))
                &&& b.values@ == a.values@.push(reference_object(page.dict().object_number->Some_0))
                &&& final(self).subtrees() == old(self).subtrees()
            },
            (has_key(page.dict().values@, "Resources"@) || has_key(old(self).dict().values@, "Resources"@))
                && (has_key(page.dict().values@, "MediaBox"@) || has_key(old(self).dict().values@, "MediaBox"@))
                && !has_key(page.dict().values@, "Parent"@) && (lookup(old(self).dict().values@, "Kids"@) matches Some(
                PdfObject::Array(_),
            )) ==> r is Ok,
    {
        proof {
            reveal_strlit("Resources");
            reveal_strlit("MediaBox");
            reveal_strlit("Count");
            reveal_strlit("Kids");
            reveal_strlit("Parent");
            assert("Count"@.len() == 5 && "Kids"@.len() == 4);
        }
        let mut page = page;
        if !page.dictionary.contains_key("Resources") && !self.dictionary.contains_key("Resources") {
            return Err(PdfError::StructureError(missing_message("Resources")));
        }
        if !page.dictionary.contains_key("MediaBox") && !self.dictionary.contains_key("MediaBox") {
            return Err(PdfError::StructureError(missing_message("MediaBox")));
        }
        let tree_dict_num = self.dictionary.object_number.unwrap();
        let parent = crate::objects::pdf_object::PdfObj::make_reference_obj(tree_dict_num);
        let ghost parent_value = parent;
        let ghost page_before = page.dictionary.values@;
        match page.dictionary.add("Parent", parent) {
            Ok(()) => {},
            Err(e) => {
                return Err(e);
            },
        }
        proof {
            crate::objects::dictionary::lemma_lookup_set(page_before, page.dictionary.values@, "Parent"@, parent_value);
        }
        let count: i64 = match self.dictionary.get_integer("Count") {
            Some(c) => c,
            None => 0,
        };
        let ghost before = self.dictionary.values@;
        let new_count: i64 = count + 1;
        let count_obj = PdfObject::from(new_count);
        let ghost count_value = count_obj;
        self.dictionary.update_or_add("Count", count_obj);
        proof {
            crate::objects::dictionary::lemma_lookup_set(before, self.dictionary.values@, "Count"@, count_value);
        }
        let ghost mid = self.dictionary.values@;
        let page_num = page.dictionary.object_number.unwrap();
        match self.dictionary.push_to_array("Kids", crate::objects::pdf_object::PdfObj::make_reference_obj(page_num)) {
            Ok(()) => {},
            Err(e) => {
                return Err(e);
            },
        }
        proof {
            crate::objects::dictionary::lemma_key_index(mid, "Kids"@);
            crate::objects::dictionary::lemma_key_index(self.dictionary.values@, "Kids"@);
            let k = crate::objects::dictionary::key_index(mid, "Kids"@);
            assert forall|j: int| 0 <= j < k implies #[trigger] self.dictionary.values@[j].0.value@ != "Kids"@ by {
                assert(self.dictionary.values@[j] == mid[j]);
            }
            crate::objects::dictionary::lemma_key_index_unique(self.dictionary.values@, "Kids"@, k);
            crate::objects::dictionary::lemma_key_index(mid, "Count"@);
            crate::objects::dictionary::lemma_key_index(self.dictionary.values@, "Count"@);
            let c = crate::objects::dictionary::key_index(mid, "Count"@);
            assert(c != k);
            assert forall|j: int| 0 <= j < c implies #[trigger] self.dictionary.values@[j].0.value@ != "Count"@ by {
                if j != k {
                    assert(self.dictionary.values@[j] == mid[j]);
                }
            }
            assert(self.dictionary.values@[c] == mid[c]);
            crate::objects::dictionary::lemma_key_index_unique(self.dictionary.values@, "Count"@, c);
            let t = self.dictionary.values@;
            assert(t =~= mid.update(k, (mid[k].0, t[k].1)));
            crate::objects::dictionary::lemma_lookup_set(mid, t, "Kids"@, t[k].1);
        }
        self.pages.push(page);
        Ok(())
    }

    /// Resources are added to pages, not to nodes.
    pub fn add_resources() {
    }

    /// Fails when the node has no `Kids` entry.
    pub fn has_kids(&self) -> (r: Result<(), PdfError>)
        ensures
            r is Ok <==> has_key(self.dict().values@, "Kids"@),
            r is Err ==> (r matches Err(PdfError::StructureError(m)) && m@ == "Parent page tree must have a Kids array"@),
    {
        if !self.dictionary.contains_key("Kids") {
            let mut m = String::new();
            crate::encoding::string_push_str(&mut m, "Parent page tree must have a Kids array");
            return Err(PdfError::StructureError(m));
        }
        Ok(())
    }

    /// The number of the node.
    pub fn object_number(&self) -> (n: ObjectNumber)
        requires
            self.dict().object_number is Some,
        ensures
            n.spec_value() == self.dict().object_number->Some_0,
    {
        ObjectNumber::new(self.dictionary.object_number.unwrap())
    }

    /// Writes the node dictionary with what it holds (see [`write_dict`]).
    pub fn serialise(&self, xref: &mut CrossRefTable, out: &mut Vec<u8>) -> (r: Result<(), PdfError>)
        ensures
            wrote(write_dict(self.dict(), old(out)@.len()), r, old(out)@, final(out)@, old(xref)@, final(xref)@),
            old(xref).wf() ==> final(xref).wf(),
    {
        self.dictionary.serialise(xref, out)
    }
}

/// The message of the error for a page without `key` entry.
fn missing_message(key: &str) -> (s: String)
    ensures
        s@ == missing_entry_message(key@),
{
    let mut s = String::new();
    crate::encoding::string_push_str(&mut s, "Page must have, or inherit, a ");
    crate::encoding::string_push_str(&mut s, key);
    crate::encoding::string_push_str(&mut s, " dictionary");
    s
}

/// Writing a node from byte `base`: its dictionary with what it holds (see [`write_dict`]),
/// then its pages one after the other, each with what it holds, then the nodes under it, each
/// in the same way.
pub closed spec fn write_tree(t: PageTree, base: nat) -> Option<Written>
    decreases t, 2int,
{
    match write_dict(t.dictionary, base) {
        None => None,
        Some(w0) => match write_pages(t.pages@, base + w0.0.len()) {
            None => None,
            Some(w1) => then_written(
                Some((w0.0 + w1.0, w0.1 + w1.1)),
                write_trees(t.subtrees@, base + w0.0.len() + w1.0.len()),
            ),
        },
    }
}

/// Writing pages one after the other from byte `base`, each with what it holds.
pub closed spec fn write_pages(s: Seq<Page>, base: nat) -> Option<Written>
    decreases s.len(),
{
    if s.len() == 0 {
        Some(nothing())
    } else {
        match write_pages(s.drop_last(), base) {
            None => None,
            Some(w) => then_written(Some(w), write_dict(s.last().dictionary, base + w.0.len())),
        }
    }
}

/// Writing nodes one after the other from byte `base` (see [`write_tree`]).
pub closed spec fn write_trees(s: Seq<PageTree>, base: nat) -> Option<Written>
    decreases s, 0int,
{
    if s.len() == 0 {
        Some(nothing())
    } else {
        match write_trees(s.subrange(0, s.len() - 1), base) {
            None => None,
            Some(w) => then_written(Some(w), write_tree(s[s.len() - 1], base + w.0.len())),
        }
    }
}

proof fn lemma_pages_step(s: Seq<Page>, base: nat, i: int)
    requires
        0 <= i < s.len(),
    ensures
        write_pages(s.take(i + 1), base) == match write_pages(s.take(i), base) {
            None => None,
            Some(w) => then_written(Some(w), write_dict(s[i].dictionary, base + w.0.len())),
        },
{
    let t = s.take(i + 1);
    assert(t.drop_last() =~= s.take(i));
}

proof fn lemma_pages_prefix_none(s: Seq<Page>, base: nat, k: int)
    requires
        0 <= k <= s.len(),
        write_pages(s.take(k), base) is None,
    ensures
        write_pages(s, base) is None,
    decreases s.len() - k,
{
    if k < s.len() {
        lemma_pages_step(s, base, k);
        lemma_pages_prefix_none(s, base, k + 1);
    } else {
        assert(s.take(k) =~= s);
    }
}

proof fn lemma_trees_step(s: Seq<PageTree>, base: nat, i: int)
    requires
        0 <= i < s.len(),
    ensures
        write_trees(s.take(i + 1), base) == match write_trees(s.take(i), base) {
            None => None,
            Some(w) => then_written(Some(w), write_tree(s[i], base + w.0.len())),
        },
{
    let t = s.take(i + 1);
    assert(t.subrange(0, t.len() - 1) =~= s.take(i));
    assert(t[t.len() - 1] == s[i]);
}

proof fn lemma_trees_prefix_none(s: Seq<PageTree>, base: nat, k: int)
    requires
        0 <= k <= s.len(),
        write_trees(s.take(k), base) is None,
    ensures
        write_trees(s, base) is None,
    decreases s.len() - k,
{
    if k < s.len() {
        lemma_trees_step(s, base, k);
        lemma_trees_prefix_none(s, base, k + 1);
    } else {
        assert(s.take(k) =~= s);
    }
}

/// Every cross-reference entry recorded while a node is written, with its pages and the nodes
/// under it, gives the position at which its object's text `N 0 obj` starts.
pub proof fn lemma_tree_points(t: PageTree, base: nat)
    requires
        write_tree(t, base) is Some,
        base + write_tree(t, base)->Some_0.0.len() <= u64::MAX,
    ensures
        entries_point_at_objects(write_tree(t, base)->Some_0.0, base, write_tree(t, base)->Some_0.1),
    decreases t, 2int,
{
    let w0 = write_dict(t.dictionary, base)->Some_0;
    let w1 = write_pages(t.pages@, base + w0.0.len())->Some_0;
    let w2 = write_trees(t.subtrees@, base + w0.0.len() + w1.0.len())->Some_0;
    law_xref_offsets_point_at_objects(t.dictionary, base);
    lemma_pages_points(t.pages@, base + w0.0.len());
    lemma_trees_points(t.subtrees@, base + w0.0.len() + w1.0.len());
    lemma_points_concat(w0.0, w0.1, w1.0, w1.1, base);
    lemma_points_concat(w0.0 + w1.0, w0.1 + w1.1, w2.0, w2.1, base);
}

proof fn lemma_pages_points(s: Seq<Page>, base: nat)
    requires
        write_pages(s, base) is Some,
        base + write_pages(s, base)->Some_0.0.len() <= u64::MAX,
    ensures
        entries_point_at_objects(write_pages(s, base)->Some_0.0, base, write_pages(s, base)->Some_0.1),
    decreases s.len(),
{
    if s.len() > 0 {
        let w = write_pages(s.drop_last(), base)->Some_0;
        lemma_pages_points(s.drop_last(), base);
        law_xref_offsets_point_at_objects(s.last().dictionary, base + w.0.len());
        let x = write_dict(s.last().dictionary, base + w.0.len())->Some_0;
        lemma_points_concat(w.0, w.1, x.0, x.1, base);
    } else {
        assert(entries_point_at_objects(Seq::<u8>::empty(), base, Seq::<crate::cross_ref::Entry>::empty()));
    }
}

proof fn lemma_trees_points(s: Seq<PageTree>, base: nat)
    requires
        write_trees(s, base) is Some,
        base + write_trees(s, base)->Some_0.0.len() <= u64::MAX,
    ensures
        entries_point_at_objects(write_trees(s, base)->Some_0.0, base, write_trees(s, base)->Some_0.1),
    decreases s, 0int,
{
    if s.len() > 0 {
        let p = s.subrange(0, s.len() - 1);
        let w = write_trees(p, base)->Some_0;
        lemma_trees_points(p, base);
        lemma_tree_points(s[s.len() - 1], base + w.0.len());
        let x = write_tree(s[s.len() - 1], base + w.0.len())->Some_0;
        lemma_points_concat(w.0, w.1, x.0, x.1, base);
    } else {
        assert(entries_point_at_objects(Seq::<u8>::empty(), base, Seq::<crate::cross_ref::Entry>::empty()));
    }
}

impl PageTree {
    /// Writes the node dictionary with what it holds, then its pages, then the nodes under it
    /// in the same way (see [`write_tree`]).
    pub fn serialise_all(&self, xref: &mut CrossRefTable, out: &mut Vec<u8>) -> (r: Result<(), PdfError>)
        ensures
            wrote(write_tree(*self, old(out)@.len()), r, old(out)@, final(out)@, old(xref)@, final(xref)@),
            old(xref).wf() ==> final(xref).wf(),
        decreases self, 2int,
    {
        let ghost base = out@.len();
        let ghost out0 = out@;
        let ghost x0 = xref@;
        match self.dictionary.serialise(xref, out) {
            Ok(()) => {},
            Err(e) => {
                return Err(e);
            },
        }
        let ghost w0 = write_dict(self.dictionary, base)->Some_0;
        match self.write_pages_of(xref, out) {
            Ok(()) => {},
            Err(e) => {
                return Err(e);
            },
        }
        let ghost w1 = write_pages(self.pages@, base + w0.0.len())->Some_0;
        match self.write_subtrees_of(xref, out) {
            Ok(()) => {},
            Err(e) => {
                return Err(e);
            },
        }
        proof {
            let w2 = write_trees(self.subtrees@, base + w0.0.len() + w1.0.len())->Some_0;
            assert(out@ =~= out0 + ((w0.0 + w1.0) + w2.0));
            assert(xref@ =~= x0 + ((w0.1 + w1.1) + w2.1));
        }
        Ok(())
    }

    /// Writes the pages one after the other (see [`write_pages`]).
    fn write_pages_of(&self, xref: &mut CrossRefTable, out: &mut Vec<u8>) -> (r: Result<(), PdfError>)
        ensures
            wrote(write_pages(self.pages@, old(out)@.len()), r, old(out)@, final(out)@, old(xref)@, final(xref)@),
            old(xref).wf() ==> final(xref).wf(),
    {
        let ghost base = out@.len();
        let ghost out0 = out@;
        let ghost x0 = xref@;
        let mut i: usize = 0;
        assert(self.pages@.take(0) =~= Seq::<Page>::empty());
        assert(out0 + nothing().0 =~= out0);
        assert(x0 + nothing().1 =~= x0);
        while i < self.pages.len()
            invariant
                i <= self.pages@.len(),
                base == out0.len(),
                out0 == old(out)@,
                x0 == old(xref)@,
                old(xref).wf() ==> xref.wf(),
                write_pages(self.pages@.take(i as int), base) matches Some(w) && out@ == out0 + w.0 && xref@ == x0
                    + w.1,
            decreases self.pages@.len() - i,
        {
            proof {
                lemma_pages_step(self.pages@, base, i as int);
            }
            let ghost prev = write_pages(self.pages@.take(i as int), base)->Some_0;
            match self.pages[i].dictionary.serialise(xref, out) {
                Ok(()) => {},
                Err(e) => {
                    proof {
                        lemma_pages_prefix_none(self.pages@, base, i + 1);
                    }
                    return Err(e);
                },
            }
            let ghost step = write_dict(self.pages@[i as int].dictionary, base + prev.0.len())->Some_0;
            assert(out@ =~= out0 + (prev.0 + step.0));
            assert(xref@ =~= x0 + (prev.1 + step.1));
            i = i + 1;
        }
        assert(self.pages@.take(self.pages@.len() as int) =~= self.pages@);
        Ok(())
    }

    /// Writes the nodes under this one, one after the other (see [`write_trees`]).
    fn write_subtrees_of(&self, xref: &mut CrossRefTable, out: &mut Vec<u8>) -> (r: Result<(), PdfError>)
        ensures
            wrote(write_trees(self.subtrees@, old(out)@.len()), r, old(out)@, final(out)@, old(xref)@, final(xref)@),
            old(xref).wf() ==> final(xref).wf(),
        decreases self, 1int,
    {
        let ghost base = out@.len();
        let ghost out0 = out@;
        let ghost x0 = xref@;
        let mut j: usize = 0;
        assert(self.subtrees@.take(0) =~= Seq::<PageTree>::empty());
        assert(out0 + nothing().0 =~= out0);
        assert(x0 + nothing().1 =~= x0);
        while j < self.subtrees.len()
            invariant
                j <= self.subtrees@.len(),
                base == out0.len(),
                out0 == old(out)@,
                x0 == old(xref)@,
                old(xref).wf() ==> xref.wf(),
                write_trees(self.subtrees@.take(j as int), base) matches Some(w) && out@ == out0 + w.0 && xref@
                    == x0 + w.1,
            decreases self.subtrees@.len() - j,
        {
            proof {
                lemma_trees_step(self.subtrees@, base, j as int);
                assert(decreases_to!(self => self.subtrees));
                assert(decreases_to!(self.subtrees => self.subtrees@[j as int]));
            }
            let ghost prev = write_trees(self.subtrees@.take(j as int), base)->Some_0;
            match self.subtrees[j].serialise_all(xref, out) {
                Ok(()) => {},
                Err(e) => {
                    proof {
                        lemma_trees_prefix_none(self.subtrees@, base, j + 1);
                    }
                    return Err(e);
                },
            }
            let ghost step = write_tree(self.subtrees@[j as int], base + prev.0.len())->Some_0;
            assert(out@ =~= out0 + (prev.0 + step.0));
            assert(xref@ =~= x0 + (prev.1 + step.1));
            j = j + 1;
        }
        assert(self.subtrees@.take(self.subtrees@.len() as int) =~= self.subtrees@);
        Ok(())
    }
}

impl PageOps {
    /// A page tree whose root node takes the next number from `object_ops`.
    pub fn new(object_ops: &mut ObjectOps) -> (r: Result<Self, PdfError>)
        requires
            old(object_ops).last() < u64::MAX,
        ensures
            final(object_ops).last() == old(object_ops).last() + 1,
            final(object_ops).spec_version() == old(object_ops).spec_version(),
            r matches Ok(p) && is_fresh_tree_dict(p.root_tree.dict(), (old(object_ops).last() + 1) as u64)
                && p.root_tree.pages().len() == 0 && p.root_tree.subtrees().len() == 0,
    {
        let n = object_ops.next_object_number();
        match PageTree::new(n) {
            Ok(root_tree) => Ok(PageOps { root_tree }),
            Err(e) => Err(e),
        }
    }

    /// The root node.
    pub fn root_tree(&mut self) -> (t: &mut PageTree)
        ensures
            *t == old(self).root_tree,
            final(self).root_tree == *final(t),
    {
        &mut self.root_tree
    }

    /// Writes the root node with what it holds (see [`write_dict`]).
    pub fn serialise(&self, xref: &mut CrossRefTable, out: &mut Vec<u8>) -> (r: Result<(), PdfError>)
        ensures
            wrote(
                write_dict(self.root_tree.dict(), old(out)@.len()),
                r,
                old(out)@,
                final(out)@,
                old(xref)@,
                final(xref)@,
            ),
            old(xref).wf() ==> final(xref).wf(),
    {
        self.root_tree.serialise(xref, out)
    }
}

} // verus!
