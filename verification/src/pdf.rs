//! A document under construction, with its page tree and graphics states, and how it is
//! written.
use vstd::prelude::*;
use crate::PdfError;
use crate::graphics_ops::GraphicsOps;
use crate::object_ops::ObjectOps;
use crate::objects::dictionary::{PdfDictionaryObject, keys_of};
use crate::objects::pdf_object::{PdfObject, is_int, is_name, reference_object};
use crate::page_ops::{PageOps, is_fresh_tree_dict};
use crate::pdf_file::{document_text, write_document};
use crate::version::Version;

verus! {

/// The layout of the written file: a classic cross-reference table, or compressed object
/// and cross-reference streams.
pub enum Strategy {
    Legacy,
    Compressed,
}

/// A document: its version, the numbering of its objects, its page tree and the graphics
/// states of its pages.
pub struct Pdf {
    pub version: Version,
    pub object_ops: ObjectOps,
    pub page_ops: PageOps,
    pub graphics_ops: GraphicsOps,
}

/// The catalog `<< /Type /Catalog /Pages root 0 R >>` numbered `n`.
pub open spec fn is_catalog(d: PdfDictionaryObject, n: u64, root: u64) -> bool {
    &&& d.object_number == Some(n)
    &&& keys_of(d.values@) == seq!["Type"@, "Pages"@]
    &&& is_name(d.values@[0].1, "Catalog"@)
    &&& d.values@[1].1 == reference_object(root)
    &&& d.children@.len() == 0
}

/// The trailer dictionary `<< /Size size /Root catalog 0 R >>`, a direct object.
pub open spec fn is_trailer(d: PdfDictionaryObject, size: int, catalog: u64) -> bool {
    &&& d.object_number is None
    &&& keys_of(d.values@) == seq!["Size"@, "Root"@]
    &&& is_int(d.values@[0].1, size)
    &&& d.values@[1].1 == reference_object(catalog)
    &&& d.children@.len() == 0
}

impl Pdf {
    /// A document of the default version with an empty page tree, whose root is object 1.
    pub fn new() -> (r: Result<Self, PdfError>)
        ensures
            r matches Ok(p) && {
                &&& p.version == Version::V1_7
                &&& p.object_ops.last() == 1
                &&& p.object_ops.spec_version() == Version::V1_7
                &&& is_fresh_tree_dict(p.page_ops.root_tree.dict(), 1)
                &&& p.page_ops.root_tree.pages().len() == 0
                &&& p.page_ops.root_tree.subtrees().len() == 0
                &&& p.graphics_ops.states().len() == 0
                &&& p.graphics_ops.counter() == 0
                &&& p.graphics_ops.masks().len() == 0
            },
    {
        let mut object_ops = ObjectOps::new(Version::default_version());
        let page_ops = match PageOps::new(&mut object_ops) {
            Ok(p) => p,
            Err(e) => {
                return Err(e);
            },
        };
        let pdf = Pdf { version: Version::default_version(), object_ops, page_ops, graphics_ops: GraphicsOps::new() };
        Ok(pdf)
    }

    /// The document with the version `version`.
    pub fn having_version(self, version: Version) -> (p: Self)
        ensures
            p.version == version,
            p.object_ops == self.object_ops,
            p.page_ops == self.page_ops,
            p.graphics_ops == self.graphics_ops,
    {
        let mut s = self;
        s.version = version;
        s
    }

    /// The bytes of the whole document (see [`document_text`]): the catalog takes the next
    /// object number and points at the root of the page tree, and the trailer dictionary
    /// gives the number of objects, one more than the last object number, and the catalog.
    /// The catalog is written after the page tree and numbered after its objects, so that the
    /// cross-reference table, which lists the objects in the order they are written, gives
    /// each entry the number of its object.
    pub fn finalize(&mut self) -> (r: Result<Vec<u8>, PdfError>)
        requires
            old(self).object_ops.last() < i64::MAX - 1,
            old(self).page_ops.root_tree.dict().object_number is Some,
        ensures
            final(self).version == old(self).version,
            final(self).page_ops == old(self).page_ops,
            final(self).graphics_ops == old(self).graphics_ops,
            final(self).object_ops.last() == old(self).object_ops.last() + 1,
            final(self).object_ops.spec_version() == old(self).object_ops.spec_version(),
            exists|catalog: PdfDictionaryObject, trailer: PdfDictionaryObject|
                #![trigger document_text(old(self).version, old(self).page_ops.root_tree, catalog, trailer)]
                is_catalog(
                    catalog,
                    (old(self).object_ops.last() + 1) as u64,
                    old(self).page_ops.root_tree.dict().object_number->Some_0,
                ) && is_trailer(trailer, old(self).object_ops.last() + 2, (old(self).object_ops.last() + 1) as u64)
                    && match document_text(old(self).version, old(self).page_ops.root_tree, catalog, trailer) {
                    Some(t) => r matches Ok(v) && v@ == t,
                    None => r is Err,
                },
    {
        let catalog_number = self.object_ops.next_object_number().value();
        let root_number = self.page_ops.root_tree.object_number().value();
        let mut catalog_values: Vec<(crate::objects::name::PdfNameObject, PdfObject)> = Vec::new();
        catalog_values.push((crate::objects::name::PdfNameObject::new("Type"), PdfObject::name_obj("Catalog")));
        catalog_values.push(
            (
                crate::objects::name::PdfNameObject::new("Pages"),
                crate::objects::pdf_object::PdfObj::make_reference_obj(root_number),
            ),
        );
        let catalog = PdfDictionaryObject {
            values: catalog_values,
            object_number: Some(catalog_number),
            generation_number: None,
            children: Vec::new(),
        };
        assert(keys_of(catalog.values@) =~= seq!["Type"@, "Pages"@]);
        let size = self.object_ops.last_object_number().value() as i64 + 1;
        let mut trailer_values: Vec<(crate::objects::name::PdfNameObject, PdfObject)> = Vec::new();
        trailer_values.push((crate::objects::name::PdfNameObject::new("Size"), PdfObject::from(size)));
        trailer_values.push(
            (
                crate::objects::name::PdfNameObject::new("Root"),
                crate::objects::pdf_object::PdfObj::make_reference_obj(catalog_number),
            ),
        );
        let trailer = PdfDictionaryObject {
            values: trailer_values,
            object_number: None,
            generation_number: None,
            children: Vec::new(),
        };
        assert(keys_of(trailer.values@) =~= seq!["Size"@, "Root"@]);
        let r = write_document(self.version, &self.page_ops, &catalog, &trailer);
        assert(is_catalog(catalog, catalog_number, root_number));
        assert(is_trailer(trailer, size as int, catalog_number));
        r
    }
}

} // verus!
