//! File specification dictionaries: how a document names or embeds another file.
use vstd::prelude::*;
use crate::PdfError;
use crate::objects::dictionary::{PdfDictionaryObject, entry_appended, has_key};
use crate::objects::pdf_array::PdfArrayObject;
use crate::objects::pdf_object::{PdfObject, is_bool, is_name, is_string};

verus! {

/// A file specification dictionary, of type `FileSpec`.
pub struct FileSpecification {
    dict: PdfDictionaryObject,
}

/// `r` is `f` with the entry `key` appended, its value meeting `holds`, or an error when `f`
/// already has that key.
pub open spec fn spec_entry_added(
    f: FileSpecification,
    r: Result<FileSpecification, PdfError>,
    key: Seq<char>,
    holds: spec_fn(PdfObject) -> bool,
) -> bool {
    &&& has_key(f.dictionary().values@, key) <==> r is Err
    &&& r matches Ok(g) ==> entry_appended(f.dictionary(), g.dictionary(), key, holds)
}

/// The array `[(id1) (id2)]`.
pub open spec fn is_id_pair(o: PdfObject, id1: Seq<char>, id2: Seq<char>) -> bool {
    o matches PdfObject::Array(a) && a.values@.len() == 2 && is_string(a.values@[0], id1) && is_string(
        a.values@[1],
        id2,
    )
}

impl FileSpecification {
    /// The dictionary.
    pub closed spec fn dictionary(self) -> PdfDictionaryObject {
        self.dict
    }

    /// A specification whose only entry is `/Type /FileSpec`.
    pub fn new() -> (r: Result<Self, PdfError>)
        ensures
            r matches Ok(f) && f.dictionary().values@.len() == 1 && f.dictionary().values@[0].0.value@
                == "Type"@ && is_name(f.dictionary().values@[0].1, "FileSpec"@) && f.dictionary().wf(),
    {
        let d = PdfDictionaryObject::new();
        assert(!has_key(d.values@, "Type"@));
        match d.typed("FileSpec") {
            Ok(dict) => Ok(Self { dict }),
            Err(e) => Err(e),
        }
    }

    fn with_entry(self, key: &str, value: PdfObject) -> (r: Result<Self, PdfError>)
        ensures
            spec_entry_added(self, r, key@, |o: PdfObject| o == value),
    {
        let mut s = self;
        match s.dict.add(key, value) {
            Ok(()) => Ok(s),
            Err(e) => Err(e),
        }
    }

    /// Adds the file system name `/FS /name`.
    pub fn with_name(self, name: &str) -> (r: Result<Self, PdfError>)
        ensures
            spec_entry_added(self, r, "FS"@, |o: PdfObject| is_name(o, name@)),
    {
        self.with_entry("FS", PdfObject::name_obj(name))
    }

    /// Adds the file specification string `/F`.
    pub fn with_spec_string(self, spec: &str) -> (r: Result<Self, PdfError>)
        ensures
            spec_entry_added(self, r, "F"@, |o: PdfObject| is_string(o, spec@)),
    {
        self.with_entry("F", PdfObject::string_obj(spec))
    }

    /// Adds the text string `/UF`.
    pub fn with_doc_encoding(self, encoding: &str) -> (r: Result<Self, PdfError>)
        ensures
            spec_entry_added(self, r, "UF"@, |o: PdfObject| is_string(o, encoding@)),
    {
        self.with_entry("UF", PdfObject::string_obj(encoding))
    }

    /// Adds the DOS file name, under the key `EF`.
    pub fn with_dos_name(self, dos_name: &str) -> (r: Result<Self, PdfError>)
        ensures
            spec_entry_added(self, r, "EF"@, |o: PdfObject| is_string(o, dos_name@)),
    {
        self.with_entry("EF", PdfObject::string_obj(dos_name))
    }

    /// Adds the Mac OS file name `/Mac`.
    pub fn with_mac_name(self, mac_name: &str) -> (r: Result<Self, PdfError>)
        ensures
            spec_entry_added(self, r, "Mac"@, |o: PdfObject| is_string(o, mac_name@)),
    {
        self.with_entry("Mac", PdfObject::string_obj(mac_name))
    }

    /// Adds the UNIX file name `/Unix`.
    pub fn with_unix_name(self, unix_name: &str) -> (r: Result<Self, PdfError>)
        ensures
            spec_entry_added(self, r, "Unix"@, |o: PdfObject| is_string(o, unix_name@)),
    {
        self.with_entry("Unix", PdfObject::string_obj(unix_name))
    }

    /// Adds the file identifier `/ID [(id1) (id2)]`.
    pub fn with_id(self, id1: &str, id2: &str) -> (r: Result<Self, PdfError>)
        ensures
            spec_entry_added(self, r, "ID"@, |o: PdfObject| is_id_pair(o, id1@, id2@)),
    {
        let mut arr = PdfArrayObject::new();
        arr.push(PdfObject::string_obj(id1));
        arr.push(PdfObject::string_obj(id2));
        self.with_entry("ID", PdfObject::Array(arr))
    }

    /// Adds the volatility flag `/V`.
    pub fn with_volatile(self, volatile: bool) -> (r: Result<Self, PdfError>)
        ensures
            spec_entry_added(self, r, "V"@, |o: PdfObject| is_bool(o, volatile)),
    {
        self.with_entry("V", PdfObject::Boolean(crate::objects::boolean::PdfBooleanObject::new(volatile)))
    }

    /// Adds the embedded file streams `/EF`.
    pub fn with_embedded_file_streams(self, embedded_file_streams: EmbeddedFileStreams) -> (r: Result<Self, PdfError>)
        ensures
            spec_entry_added(
                self,
                r,
                "EF"@,
                |o: PdfObject| o == PdfObject::Dictionary(embedded_file_streams.dict),
            ),
    {
        self.with_entry("EF", PdfObject::Dictionary(embedded_file_streams.dict))
    }

    /// Adds the related file streams `/RF`.
    pub fn with_related_file_streams(self, related_file_streams: RelatedFileStreams) -> (r: Result<Self, PdfError>)
        ensures
            spec_entry_added(
                self,
                r,
                "RF"@,
                |o: PdfObject| o == PdfObject::Dictionary(related_file_streams.dict),
            ),
    {
        self.with_entry("RF", PdfObject::Dictionary(related_file_streams.dict))
    }

    /// Adds the description `/Desc`.
    pub fn with_description(self, description: &str) -> (r: Result<Self, PdfError>)
        ensures
            spec_entry_added(self, r, "Desc"@, |o: PdfObject| is_string(o, description@)),
    {
        self.with_entry("Desc", PdfObject::string_obj(description))
    }

    /// Adds the collection item dictionary `/Collection`.
    pub fn with_collection_items(self, collection_items: CollectionItems) -> (r: Result<Self, PdfError>)
        ensures
            spec_entry_added(
                self,
                r,
                "Collection"@,
                |o: PdfObject| o == PdfObject::Dictionary(collection_items.dict),
            ),
    {
        self.with_entry("Collection", PdfObject::Dictionary(collection_items.dict))
    }
}

/// The embedded file streams of a file specification.
pub struct EmbeddedFileStreams {
    pub dict: PdfDictionaryObject,
}

/// The related file streams of a file specification.
pub struct RelatedFileStreams {
    pub dict: PdfDictionaryObject,
}

/// The collection item dictionary of a file specification.
pub struct CollectionItems {
    pub dict: PdfDictionaryObject,
}

} // verus!
