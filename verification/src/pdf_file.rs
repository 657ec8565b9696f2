//! The parts of a document that the file structure is assembled from: the header, the
//! catalog, the root of the page tree, the trailer dictionary and the cross-reference table.
//!
//! A file is the header (one line naming the version, then a comment line of binary bytes),
//! the body (the objects of the document), the cross-reference table, and the trailer: the
//! trailer dictionary, `startxref`, the byte offset of the table and `%%EOF`.
use vstd::prelude::*;
use crate::cross_ref::{CrossRefTable, Entry, Generation, ObjectStatus};
use crate::file_specification::is_id_pair;
use crate::cross_ref::table_text;
use crate::header::{Header, header_bytes};
use crate::objects::serial::{entries_point_at_objects, law_xref_offsets_point_at_objects, lemma_points_concat, write_dict};
use crate::page_ops::{PageOps, PageTree, lemma_tree_points, write_tree};
use crate::objects::dictionary::{PdfDictionaryObject, entry_appended, has_key, keys_of};
use crate::objects::pdf_array::PdfArrayObject;
use crate::objects::pdf_object::{PdfObject, is_name};
use crate::page::{empty_page_tree, make_page_tree};
use crate::PdfError;
use crate::drawing_commands::utf8;
use crate::encoding::dec_digits;
use crate::objects::pdf_object::inline_text;
use crate::version::Version;

verus! {

/// A document under construction.
pub struct Pdf {
    header: Header,
    catalog_dict: PdfDictionaryObject,
    page_tree_dict: PdfDictionaryObject,
    trailer_dict: PdfDictionaryObject,
    xref_table: CrossRefTable,
    last_object_number: u64,
}

/// `after` is `before` when `before` already has the key `key`, and otherwise `before` with the
/// entry `key` appended, its value meeting `holds`.
pub open spec fn kept_or_added(
    before: PdfDictionaryObject,
    after: PdfDictionaryObject,
    key: Seq<char>,
    holds: spec_fn(PdfObject) -> bool,
) -> bool {
    if has_key(before.values@, key) {
        after == before
    } else {
        entry_appended(before, after, key, holds)
    }
}

/// The standard security handler's dictionary `<< /Filter /Standard >>`.
pub open spec fn is_encrypt_dict(o: PdfObject) -> bool {
    o matches PdfObject::Dictionary(d) && keys_of(d.values@) == seq!["Filter"@] && is_name(
        d.values@[0].1,
        "Standard"@,
    ) && d.object_number is None
}

/// `after` is `before` with `/Encrypt << /Filter /Standard >>` added unless the key was there.
pub open spec fn encrypt_added(before: PdfDictionaryObject, after: PdfDictionaryObject) -> bool {
    kept_or_added(before, after, "Encrypt"@, |o: PdfObject| is_encrypt_dict(o))
}

/// `after` is `before` with `/ID [(1234567890) (0987654321)]` added unless the key was there.
pub open spec fn id_added(before: PdfDictionaryObject, after: PdfDictionaryObject) -> bool {
    kept_or_added(before, after, "ID"@, |o: PdfObject| is_id_pair(o, "1234567890"@, "0987654321"@))
}

/// The trailer dictionary `after` is `before` with `/Encrypt` and then `/ID` added, each only
/// where the key was absent.
pub open spec fn trailer_encrypted(before: PdfDictionaryObject, after: PdfDictionaryObject) -> bool {
    exists|mid: PdfDictionaryObject| encrypt_added(before, mid) && #[trigger] id_added(mid, after)
}

/// The end of a file after the cross-reference table: `trailer` and a line feed, the trailer
/// dictionary `dict_text`, `startxref` and a line feed, the byte offset of the table, a line
/// feed and `%%EOF`.
pub open spec fn trailer_text(dict_text: Seq<u8>, startxref: u64) -> Seq<u8> {
    utf8("trailer\n"@) + dict_text + utf8("startxref\n"@) + dec_digits(startxref as nat) + utf8("\n%%EOF"@)
}

/// The end of a file (see [`trailer_text`]) for the trailer dictionary `trailer` and a table
/// at the byte offset `startxref`; an error when the dictionary cannot be written.
pub fn write_trailer(trailer: &PdfDictionaryObject, startxref: u64) -> (r: Result<Vec<u8>, PdfError>)
    ensures
        match inline_text(PdfObject::Dictionary(*trailer)) {
            Some(t) => r matches Ok(v) && v@ == trailer_text(t, startxref),
            None => r is Err,
        },
{
    let dict = match trailer.encode() {
        Ok(d) => d,
        Err(e) => {
            return Err(e);
        },
    };
    let mut out: Vec<u8> = Vec::new();
    crate::encoding::push_str(&mut out, "trailer\n");
    crate::encoding::push_slice(&mut out, dict.as_slice());
    crate::encoding::push_str(&mut out, "startxref\n");
    crate::encoding::push_decimal(&mut out, startxref);
    crate::encoding::push_str(&mut out, "\n%%EOF");
    assert(out@ =~= trailer_text(dict@, startxref));
    Ok(out)
}

/// The bytes of a whole document (see the module documentation): the header for `version`;
/// the body, that is the page tree from its root `root` with all its pages and nodes (see
/// [`write_tree`]) and then the catalog with what it holds (see [`write_dict`]), from the byte
/// after the header; the cross-reference
/// table of the objects written, in the order they were written, after the root entry; and the
/// end of the file for the trailer dictionary `trailer` with the table's offset. Nothing when
/// an object cannot be written.
pub open spec fn document_text(
    version: Version,
    root: PageTree,
    catalog: PdfDictionaryObject,
    trailer: PdfDictionaryObject,
) -> Option<Seq<u8>> {
    let h = header_bytes(version);
    match write_tree(root, h.len()) {
        None => None,
        Some(w1) => match write_dict(catalog, h.len() + w1.0.len()) {
            None => None,
            Some(w2) => match inline_text(PdfObject::Dictionary(trailer)) {
                None => None,
                Some(t) => Some(
                    h + (w1.0 + w2.0) + utf8(table_text(seq![root_entry()] + (w1.1 + w2.1))) + trailer_text(
                        t,
                        (h.len() + w1.0.len() + w2.0.len()) as u64,
                    ),
                ),
            },
        },
    }
}

/// The free root entry that every cross-reference table starts with.
pub open spec fn root_entry() -> Entry {
    Entry { object_number: 0, object_status: ObjectStatus::Free, offset_or_next_free: 0, generation: Generation::Root }
}

/// Writes a whole document (see [`document_text`]): the page tree of `page_ops` and the
/// catalog `catalog` make the body; `trailer` is the trailer dictionary.
pub fn write_document(
    version: Version,
    page_ops: &PageOps,
    catalog: &PdfDictionaryObject,
    trailer: &PdfDictionaryObject,
) -> (r: Result<Vec<u8>, PdfError>)
    ensures
        match document_text(version, page_ops.root_tree, *catalog, *trailer) {
            Some(t) => r matches Ok(v) && v@ == t,
            None => r is Err,
        },
{
    let header = Header::new().with_version(version);
    let mut out = header.to_bytes();
    let ghost h = out@;
    let mut xref = CrossRefTable::new();
    match page_ops.root_tree.serialise_all(&mut xref, &mut out) {
        Ok(()) => {},
        Err(e) => {
            return Err(e);
        },
    }
    match catalog.serialise(&mut xref, &mut out) {
        Ok(()) => {},
        Err(e) => {
            return Err(e);
        },
    }
    let offset = out.len() as u64;
    let table = match xref.as_pdf() {
        Ok(t) => t,
        Err(_) => {
            return Err(PdfError::StructureError(String::new()));
        },
    };
    let tail = match write_trailer(trailer, offset) {
        Ok(t) => t,
        Err(e) => {
            return Err(e);
        },
    };
    let ghost body_end = out@;
    crate::encoding::push_str(&mut out, table.as_str());
    crate::encoding::push_slice(&mut out, tail.as_slice());
    proof {
        let w1 = write_tree(page_ops.root_tree, h.len())->Some_0;
        let w2 = write_dict(*catalog, h.len() + w1.0.len())->Some_0;
        assert(body_end =~= h + (w1.0 + w2.0));
        assert(xref@ =~= seq![root_entry()] + (w1.1 + w2.1));
    }
    Ok(out)
}

/// The UTF-8 bytes of two character sequences one after the other are the bytes of the first
/// followed by those of the second.
proof fn lemma_utf8_concat(a: Seq<char>, b: Seq<char>)
    ensures
        utf8(a + b) == utf8(a) + utf8(b),
    decreases a.len(),
{
    if a.len() > 0 {
        assert((a + b).drop_first() =~= a.drop_first() + b);
        assert((a + b)[0] == a[0]);
        lemma_utf8_concat(a.drop_first(), b);
        assert(utf8(a + b) =~= utf8(a) + utf8(b));
    } else {
        assert(a + b =~= b);
        assert(utf8(a) =~= Seq::<u8>::empty());
        assert(utf8(a) + utf8(b) =~= utf8(b));
    }
}

/// In a written document the last line gives, after `startxref`, a byte position `p` at
/// which the cross-reference table begins: the bytes from `p` on start with `xref` and the end
/// of a line.
pub proof fn law_startxref_points_at_table(
    version: Version,
    root: PageTree,
    catalog: PdfDictionaryObject,
    trailer: PdfDictionaryObject,
)
    requires
        document_text(version, root, catalog, trailer) is Some,
        document_text(version, root, catalog, trailer)->Some_0.len() <= u64::MAX,
    ensures
        ({
            let t = document_text(version, root, catalog, trailer)->Some_0;
            exists|pre: Seq<u8>, p: nat|
                #![trigger pre + utf8("startxref\n"@) + dec_digits(p) + utf8("\n%%EOF"@)]
                {
                    &&& t == pre + utf8("startxref\n"@) + dec_digits(p) + utf8("\n%%EOF"@)
                    &&& p + utf8("xref\r\n"@).len() <= t.len()
                    &&& t.subrange(p as int, (p + utf8("xref\r\n"@).len()) as int) == utf8("xref\r\n"@)
                }
        }),
{
    let t = document_text(version, root, catalog, trailer)->Some_0;
    let h = header_bytes(version);
    let w1 = write_tree(root, h.len())->Some_0;
    let w2 = write_dict(catalog, h.len() + w1.0.len())->Some_0;
    let d = inline_text(PdfObject::Dictionary(trailer))->Some_0;
    let entries = seq![root_entry()] + (w1.1 + w2.1);
    let body = h + (w1.0 + w2.0);
    let off: nat = (h.len() + w1.0.len() + w2.0.len()) as nat;
    let x = utf8("xref\r\n"@);
    let tbl = table_text(entries);
    let rest = tbl.subrange("xref\r\n"@.len() as int, tbl.len() as int);
    assert(tbl =~= "xref\r\n"@ + rest);
    lemma_utf8_concat("xref\r\n"@, rest);
    let pre = body + utf8(tbl) + utf8("trailer\n"@) + d;
    assert(off == body.len());
    assert((off as u64) as nat == off);
    assert(t =~= pre + utf8("startxref\n"@) + dec_digits(off) + utf8("\n%%EOF"@));
    assert(t.subrange(off as int, (off + x.len()) as int) =~= x);
}

/// In a written document, every entry of the cross-reference table after the root entry
/// gives the byte position in the file at which its object's text `N 0 obj` starts.
pub proof fn law_document_offsets_point_at_objects(
    version: Version,
    root: PageTree,
    catalog: PdfDictionaryObject,
    trailer: PdfDictionaryObject,
)
    requires
        document_text(version, root, catalog, trailer) is Some,
        document_text(version, root, catalog, trailer)->Some_0.len() <= u64::MAX,
    ensures
        ({
            let h = header_bytes(version);
            let w1 = write_tree(root, h.len())->Some_0;
            let w2 = write_dict(catalog, h.len() + w1.0.len())->Some_0;
            entries_point_at_objects(document_text(version, root, catalog, trailer)->Some_0, 0, w1.1 + w2.1)
        }),
{
    let h = header_bytes(version);
    let w1 = write_tree(root, h.len())->Some_0;
    let w2 = write_dict(catalog, h.len() + w1.0.len())->Some_0;
    let doc = document_text(version, root, catalog, trailer)->Some_0;
    let t = inline_text(PdfObject::Dictionary(trailer))->Some_0;
    let rest = utf8(table_text(seq![root_entry()] + (w1.1 + w2.1))) + trailer_text(
        t,
        (h.len() + w1.0.len() + w2.0.len()) as u64,
    );
    assert(doc =~= h + ((w1.0 + w2.0) + rest));
    lemma_tree_points(root, h.len());
    law_xref_offsets_point_at_objects(catalog, h.len() + w1.0.len());
    lemma_points_concat(w1.0, w1.1, w2.0, w2.1, h.len());
    lemma_points_concat(w1.0 + w2.0, w1.1 + w2.1, rest, Seq::empty(), h.len());
    assert((w1.0 + w2.0) + rest =~= (w1.0 + w2.0) + rest);
    assert((w1.1 + w2.1) + Seq::<Entry>::empty() =~= w1.1 + w2.1);
    lemma_points_concat(h, Seq::empty(), (w1.0 + w2.0) + rest, w1.1 + w2.1, 0);
    assert(Seq::<Entry>::empty() + (w1.1 + w2.1) =~= w1.1 + w2.1);
}

impl Pdf {
    pub closed spec fn spec_header(&self) -> Header {
        self.header
    }

    pub closed spec fn catalog(&self) -> PdfDictionaryObject {
        self.catalog_dict
    }

    pub closed spec fn page_tree(&self) -> PdfDictionaryObject {
        self.page_tree_dict
    }

    pub closed spec fn trailer(&self) -> PdfDictionaryObject {
        self.trailer_dict
    }

    pub closed spec fn xref(&self) -> CrossRefTable {
        self.xref_table
    }

    /// The last object number handed out.
    pub closed spec fn last(&self) -> u64 {
        self.last_object_number
    }

    /// A document of the default version: an empty catalog `<< /Type /Catalog >>`, the page
    /// tree root numbered 1, an empty trailer dictionary and a cross-reference table with its
    /// root entry only.
    pub fn new() -> (p: Self)
        ensures
            p.spec_header().spec_version() == Version::V1_7,
            keys_of(p.catalog().values@) == seq!["Type"@],
            is_name(p.catalog().values@[0].1, "Catalog"@),
            p.catalog().wf(),
            p.catalog().object_number is None,
            empty_page_tree(p.page_tree(), 1),
            p.trailer().values@.len() == 0,
            p.trailer().wf(),
            p.xref()@ == seq![
                Entry {
                    object_number: 0,
                    object_status: ObjectStatus::Free,
                    offset_or_next_free: 0,
                    generation: Generation::Root,
                },
            ],
            p.xref().wf(),
            p.last() == 1,
    {
        let mut catalog_dict = PdfDictionaryObject::new();
        catalog_dict.put_new("Type", PdfObject::name_obj("Catalog"));
        assert(keys_of(catalog_dict.values@) =~= seq!["Type"@]);
        let mut pdf = Pdf {
            header: Header::new(),
            catalog_dict,
            page_tree_dict: PdfDictionaryObject::new(),
            trailer_dict: PdfDictionaryObject::new(),
            xref_table: CrossRefTable::new(),
            last_object_number: 0,
        };
        let n = pdf.next_object_number();
        pdf.page_tree_dict = make_page_tree(n);
        pdf
    }

    /// The document with the version `version`.
    pub fn version(self, version: Version) -> (p: Self)
        ensures
            p.spec_header().spec_version() == version,
            p.catalog() == self.catalog(),
            p.page_tree() == self.page_tree(),
            p.trailer() == self.trailer(),
            p.xref() == self.xref(),
            p.last() == self.last(),
    {
        let mut s = self;
        s.header = s.header.with_version(version);
        s
    }

    /// Marks the document as encrypted by the standard security handler: adds `/Encrypt
    /// << /Filter /Standard >>` and the file identifier `/ID [(1234567890) (0987654321)]` to
    /// the trailer dictionary, each unless the key is already there.
    pub fn encrypted(&mut self) -> (r: &mut Self)
        ensures
            (*r).spec_header() == old(self).spec_header(),
            (*r).catalog() == old(self).catalog(),
            (*r).page_tree() == old(self).page_tree(),
            (*r).xref() == old(self).xref(),
            (*r).last() == old(self).last(),
            trailer_encrypted(old(self).trailer(), (*r).trailer()),
            *final(self) == *final(r),
    {
        let mut encryption_dict = PdfDictionaryObject::new();
        encryption_dict.put_new("Filter", PdfObject::name_obj("Standard"));
        assert(keys_of(encryption_dict.values@) =~= seq!["Filter"@]);
        let ghost before = self.trailer_dict;
        let _ = self.trailer_dict.add("Encrypt", PdfObject::Dictionary(encryption_dict));
        let ghost mid = self.trailer_dict;
        let mut id_array = PdfArrayObject::new();
        id_array.push(PdfObject::string_obj("1234567890"));
        id_array.push(PdfObject::string_obj("0987654321"));
        let _ = self.trailer_dict.add("ID", PdfObject::Array(id_array));
        assert(encrypt_added(before, mid));
        assert(id_added(mid, self.trailer_dict));
        self
    }

    /// The catalog, to be changed in place.
    pub fn get_catalog_dict(&mut self) -> (d: &mut PdfDictionaryObject)
        ensures
            *d == old(self).catalog(),
            final(self).catalog() == *final(d),
            final(self).spec_header() == old(self).spec_header(),
            final(self).page_tree() == old(self).page_tree(),
            final(self).trailer() == old(self).trailer(),
            final(self).xref() == old(self).xref(),
            final(self).last() == old(self).last(),
    {
        &mut self.catalog_dict
    }

    /// The trailer dictionary, to be changed in place.
    pub fn get_trailer_dict(&mut self) -> (d: &mut PdfDictionaryObject)
        ensures
            *d == old(self).trailer(),
            final(self).trailer() == *final(d),
            final(self).spec_header() == old(self).spec_header(),
            final(self).catalog() == old(self).catalog(),
            final(self).page_tree() == old(self).page_tree(),
            final(self).xref() == old(self).xref(),
            final(self).last() == old(self).last(),
    {
        &mut self.trailer_dict
    }

    /// The cross-reference table, to be changed in place.
    pub fn get_xref_table_dict(&mut self) -> (t: &mut CrossRefTable)
        ensures
            *t == old(self).xref(),
            final(self).xref() == *final(t),
            final(self).spec_header() == old(self).spec_header(),
            final(self).catalog() == old(self).catalog(),
            final(self).page_tree() == old(self).page_tree(),
            final(self).trailer() == old(self).trailer(),
            final(self).last() == old(self).last(),
    {
        &mut self.xref_table
    }

    /// The next object number: one more than the last one handed out.
    pub fn next_object_number(&mut self) -> (n: u64)
        requires
            old(self).last() < u64::MAX,
        ensures
            n == old(self).last() + 1,
            final(self).last() == n,
            final(self).spec_header() == old(self).spec_header(),
            final(self).catalog() == old(self).catalog(),
            final(self).page_tree() == old(self).page_tree(),
            final(self).trailer() == old(self).trailer(),
            final(self).xref() == old(self).xref(),
    {
        self.last_object_number = self.last_object_number + 1;
        self.last_object_number
    }

    /// Puts the document together; there is nothing to do yet.
    pub fn serialise() {
    }

    /// Builds the resource dictionary of the standard fonts, which the document does not keep,
    /// and returns the object number 0 for it.
    pub fn add_font_resources(&mut self) -> (n: usize)
        ensures
            n == 0,
            *final(self) == *old(self),
    {
        let mut resources_dict = PdfDictionaryObject::new();
        if let Ok(fonts) = crate::fonts::standard_fonts_dict() {
            resources_dict.put_new("Font", PdfObject::Dictionary(fonts));
        }
        0
    }
}

} // verus!
