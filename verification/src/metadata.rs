//! The document information dictionary: title, author, dates and the like.
use vstd::prelude::*;
use crate::PdfError;
use crate::objects::dictionary::{PdfDictionaryObject, has_key};
use crate::objects::pdf_object::{PdfObject, Val, appended_entry};

verus! {

/// Whether the document has been trapped.
#[derive(Debug, Clone, Copy, PartialEq, Eq, Structural)]
pub enum TrappedState {
    True,
    False,
    Unknown,
}

pub open spec fn trapped_name(t: TrappedState) -> Seq<char> {
    match t {
        TrappedState::True => "True"@,
        TrappedState::False => "False"@,
        TrappedState::Unknown => "Unknown"@,
    }
}

impl TrappedState {
    pub fn as_name(&self) -> (s: &'static str)
        ensures
            s@ == trapped_name(*self),
    {
        match self {
            TrappedState::True => "True",
            TrappedState::False => "False",
            TrappedState::Unknown => "Unknown",
        }
    }
}

/// The document information dictionary.
pub struct Metadata {
    pub dictionary: PdfDictionaryObject,
}

/// `r` is `m` with the string entry `key`, `value` added, or an error when `m` already has
/// the key.
pub open spec fn metadata_added(m: Metadata, r: Result<Metadata, PdfError>, key: Seq<char>, value: Seq<char>) -> bool {
    if has_key(m.dictionary.values@, key) {
        r is Err
    } else {
        r matches Ok(n) && {
            &&& appended_entry(m.dictionary.values@, n.dictionary.values@, key, Val::Str(value))
            &&& n.dictionary.object_number == m.dictionary.object_number
            &&& (m.dictionary.wf() ==> n.dictionary.wf())
        }
    }
}

impl Metadata {
    /// An empty dictionary.
    pub fn new() -> (r: Result<Self, PdfError>)
        ensures
            r matches Ok(m) && m.dictionary.values@.len() == 0 && m.dictionary.wf()
                && m.dictionary.object_number is None,
    {
        Ok(Self { dictionary: PdfDictionaryObject::new() })
    }

    fn add(self, key: &str, value: &str) -> (r: Result<Self, PdfError>)
        ensures
            metadata_added(self, r, key@, value@),
    {
        let mut s = self;
        match s.dictionary.add(key, PdfObject::string_obj(value)) {
            Ok(()) => Ok(s),
            Err(e) => Err(e),
        }
    }

    pub fn with_title(self, title: &str) -> (r: Result<Self, PdfError>)
        ensures
            metadata_added(self, r, "Title"@, title@),
    {
        self.add("Title", title)
    }

    pub fn with_author(self, author: &str) -> (r: Result<Self, PdfError>)
        ensures
            metadata_added(self, r, "Author"@, author@),
    {
        self.add("Author", author)
    }

    pub fn with_subject(self, subject: &str) -> (r: Result<Self, PdfError>)
        ensures
            metadata_added(self, r, "Subject"@, subject@),
    {
        self.add("Subject", subject)
    }

    pub fn with_keywords(self, keywords: &str) -> (r: Result<Self, PdfError>)
        ensures
            metadata_added(self, r, "Keywords"@, keywords@),
    {
        self.add("Keywords", keywords)
    }

    pub fn with_creator(self, creator: &str) -> (r: Result<Self, PdfError>)
        ensures
            metadata_added(self, r, "Creator"@, creator@),
    {
        self.add("Creator", creator)
    }

    pub fn with_producer(self, producer: &str) -> (r: Result<Self, PdfError>)
        ensures
            metadata_added(self, r, "Producer"@, producer@),
    {
        self.add("Producer", producer)
    }

    pub fn with_creation_date(self, date: &str) -> (r: Result<Self, PdfError>)
        ensures
            metadata_added(self, r, "CreationDate"@, date@),
    {
        self.add("CreationDate", date)
    }

    pub fn with_mod_date(self, date: &str) -> (r: Result<Self, PdfError>)
        ensures
            metadata_added(self, r, "ModDate"@, date@),
    {
        self.add("ModDate", date)
    }

    /// Adds `/Trapped` with the name of the state, written as a string.
    pub fn with_trapped(self, trapped: TrappedState) -> (r: Result<Self, PdfError>)
        ensures
            metadata_added(self, r, "Trapped"@, trapped_name(trapped)),
    {
        self.add("Trapped", trapped.as_name())
    }

    pub fn is_empty(&self) -> (b: bool)
        ensures
            b == (self.dictionary.values@.len() == 0),
    {
        self.dictionary.len() == 0
    }
}

} // verus!
