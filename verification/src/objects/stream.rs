//! Stream objects: a dictionary followed by a sequence of bytes between `stream` and
//! `endstream`.
use vstd::prelude::*;
use crate::PdfError;
use crate::objects::dictionary::{PdfDictionaryObject, has_key};
use crate::objects::name::PdfNameObject;
use crate::objects::pdf_object::PdfObject;
use flate2::Compression;
use flate2::write::ZlibEncoder;
use std::io::Write;

verus! {

/// How the bytes of a stream are stored.
#[derive(Debug, Clone, Copy, PartialEq, Eq, Structural)]
pub enum CompressionMethod {
    Uncompressed,
    Flate,
}

pub struct PdfStreamObject {
    pub dict: PdfDictionaryObject,
    pub content: Vec<u8>,
    pub object_number: Option<u64>,
    pub generation_number: Option<u16>,
    pub compression_method: CompressionMethod,
}

/// The result of zlib-compressing `data` at the default compression level with flate2:
/// the compressed bytes, or nothing when the compressor reports an error.
pub uninterp spec fn zlib_compressed(data: Seq<u8>) -> Option<Seq<u8>>;

/// Compresses `data` in the zlib format with flate2's `ZlibEncoder` at `Compression::default()`,
/// writing all of `data` and then finishing the encoder. Nothing is stated of the compressed
/// bytes beyond their being a function of `data` alone, and of when an error occurs beyond its
/// being a function of `data` alone.
#[verifier::external_body]
pub(crate) fn zlib_compress(data: &[u8]) -> (r: Option<Vec<u8>>)
    ensures
        match r {
            Some(v) => zlib_compressed(data@) == Some(v@),
            None => zlib_compressed(data@) is None,
        },
{
    let mut encoder = ZlibEncoder::new(Vec::new(), Compression::default());
    match encoder.write_all(data) {
        Ok(()) => encoder.finish().ok(),
        Err(_) => None,
    }
}

/// The bytes written between `stream` and `endstream`: the content itself, or its zlib
/// compression for a Flate stream.
pub open spec fn stream_payload(s: PdfStreamObject) -> Option<Seq<u8>> {
    match s.compression_method {
        CompressionMethod::Uncompressed => Some(s.content@),
        CompressionMethod::Flate => zlib_compressed(s.content@),
    }
}

impl PdfStreamObject {
    pub fn new() -> (s: Self)
        ensures
            s.dict.values@.len() == 0,
            s.dict.object_number is None,
            s.dict.generation_number is None,
            s.dict.children@.len() == 0,
            s.content@ == Seq::<u8>::empty(),
            s.object_number is None,
            s.generation_number is None,
            s.compression_method == CompressionMethod::Uncompressed,
    {
        Self {
            dict: PdfDictionaryObject::new(),
            content: Vec::new(),
            object_number: None,
            generation_number: None,
            compression_method: CompressionMethod::Uncompressed,
        }
    }

    pub fn with_dict_and_content(self, dict: PdfDictionaryObject, content: Vec<u8>) -> (s: Self)
        ensures
            s.dict == dict,
            s.content == content,
            s.object_number == self.object_number,
            s.generation_number == self.generation_number,
            s.compression_method == self.compression_method,
    {
        let mut s = self;
        s.dict = dict;
        s.content = content;
        s
    }

    pub fn with_object_number(self, value: u64) -> (s: Self)
        ensures
            s.dict == self.dict,
            s.content == self.content,
            s.object_number == Some(value),
            s.generation_number == self.generation_number,
            s.compression_method == self.compression_method,
    {
        let mut s = self;
        s.object_number = Some(value);
        s
    }

    pub fn with_generation_number(self, value: u16) -> (s: Self)
        ensures
            s.dict == self.dict,
            s.content == self.content,
            s.object_number == self.object_number,
            s.generation_number == Some(value),
            s.compression_method == self.compression_method,
    {
        let mut s = self;
        s.generation_number = Some(value);
        s
    }

    /// The stream set to be written with Flate compression, its dictionary given the entry
    /// `/Filter /FlateDecode`; fails when the dictionary already has a `Filter` entry.
    pub fn compressed(self) -> (r: Result<Self, PdfError>)
        ensures
            has_key(self.dict.values@, "Filter"@) ==> r is Err,
            !has_key(self.dict.values@, "Filter"@) ==> r is Ok && ({
                let s = r->Ok_0;
                &&& s.compression_method == CompressionMethod::Flate
                &&& s.content == self.content
                &&& s.object_number == self.object_number
                &&& s.generation_number == self.generation_number
                &&& s.dict.values@.len() == self.dict.values@.len() + 1
                &&& s.dict.values@.subrange(0, self.dict.values@.len() as int) == self.dict.values@
                &&& s.dict.values@.last().0.value@ == "Filter"@
                &&& s.dict.values@.last().1 matches PdfObject::Name(n) && n.value@ == "FlateDecode"@
                &&& (self.dict.wf() ==> s.dict.wf())
            }),
    {
        let mut s = self;
        s.compression_method = CompressionMethod::Flate;
        match s.dict.add("Filter", PdfObject::Name(PdfNameObject::new("FlateDecode"))) {
            Ok(()) => Ok(s),
            Err(e) => Err(e),
        }
    }

    pub fn with_data(self, data: Vec<u8>, dict: PdfDictionaryObject) -> (s: Self)
        ensures
            s.dict == dict,
            s.content == data,
            s.object_number == self.object_number,
            s.generation_number == self.generation_number,
            s.compression_method == self.compression_method,
    {
        let mut s = self;
        s.content = data;
        s.dict = dict;
        s
    }

    pub fn compression_method(&self) -> (m: CompressionMethod)
        ensures
            m == self.compression_method,
    {
        self.compression_method
    }

    /// Makes `bytes` the content of the stream.
    pub fn add(&mut self, bytes: Vec<u8>)
        ensures
            final(self).content@ == bytes@,
            final(self).dict == old(self).dict,
            final(self).object_number == old(self).object_number,
            final(self).generation_number == old(self).generation_number,
            final(self).compression_method == old(self).compression_method,
    {
        self.content = bytes;
    }

    /// Appends bytes to the content.
    pub(crate) fn append(&mut self, bytes: &[u8])
        ensures
            final(self).content@ == old(self).content@ + bytes@,
            final(self).dict == old(self).dict,
            final(self).object_number == old(self).object_number,
            final(self).generation_number == old(self).generation_number,
            final(self).compression_method == old(self).compression_method,
    {
        crate::encoding::push_slice(&mut self.content, bytes);
    }
}

} // verus!
