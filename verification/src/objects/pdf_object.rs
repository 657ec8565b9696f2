//! The objects of a PDF document and how they are written.
//!
//! A direct object is written in place. An indirect object (one with an object number) is
//! written once in the body of the file, and in place of its value a reference `N 0 R` is
//! written.
use vstd::prelude::*;
use crate::PdfError;
use crate::encoding::dec_digits;
use crate::object_ops::ObjectNumber;
use crate::objects::boolean::{PdfBooleanObject, bool_text};
use crate::objects::dictionary::{PdfDictionaryObject, has_key};
use crate::objects::name::{PdfNameObject, name_text};
use crate::objects::null::PdfNullObject;
use crate::objects::number::{NumberType, PdfNumberObject, number_text};
use crate::objects::pdf_array::PdfArrayObject;
use crate::objects::pdf_string::{PdfStringObject, text_string_bytes};
use crate::objects::reference::{HostType, PdfReferenceObject, host_generation, reference_text};
use crate::objects::stream::{PdfStreamObject, stream_payload};
use crate::version::Version;
pub use crate::objects::object_type::{ObjectId, SerialLocation};

verus! {

pub enum PdfObject {
    Array(PdfArrayObject),
    Boolean(PdfBooleanObject),
    Dictionary(PdfDictionaryObject),
    Name(PdfNameObject),
    Null(PdfNullObject),
    Number(PdfNumberObject),
    Reference(PdfReferenceObject),
    Stream(PdfStreamObject),
    String(PdfStringObject),
}

/// The object number of an object, if it has one: arrays, dictionaries and streams may be
/// indirect objects, and a reference names the object it refers to.
pub open spec fn object_number_of(o: PdfObject) -> Option<u64> {
    match o {
        PdfObject::Array(a) => a.object_number,
        PdfObject::Dictionary(d) => d.object_number,
        PdfObject::Stream(s) => s.object_number,
        PdfObject::Reference(r) => Some(r.object_number),
        _ => None,
    }
}

/// `o` is the name `s`.
pub open spec fn is_name(o: PdfObject, s: Seq<char>) -> bool {
    o matches PdfObject::Name(n) && n.value@ == s
}

/// `o` is the string `s`.
pub open spec fn is_string(o: PdfObject, s: Seq<char>) -> bool {
    o matches PdfObject::String(t) && t.value@ == s
}

/// `o` is the number `v`.
pub open spec fn is_number(o: PdfObject, v: NumberType) -> bool {
    o == PdfObject::Number(PdfNumberObject { value: v })
}

/// `o` is the integer `i`.
pub open spec fn is_int(o: PdfObject, i: int) -> bool {
    o matches PdfObject::Number(n) && n.value matches NumberType::Integer(v) && v == i
}

/// `o` is the boolean `b`.
pub open spec fn is_bool(o: PdfObject, b: bool) -> bool {
    o matches PdfObject::Boolean(x) && x.value == b
}

/// What the value of a dictionary entry is said to be.
pub enum Val {
    Name(Seq<char>),
    Str(Seq<char>),
    Num(NumberType),
    Bool(bool),
}

/// `o` is the value `v`.
pub open spec fn val_is(o: PdfObject, v: Val) -> bool {
    match v {
        Val::Name(s) => is_name(o, s),
        Val::Str(s) => is_string(o, s),
        Val::Num(n) => is_number(o, n),
        Val::Bool(b) => is_bool(o, b),
    }
}

/// The entries `s` are, in order, the keys and values `e`.
pub open spec fn entries_are(s: Seq<(PdfNameObject, PdfObject)>, e: Seq<(Seq<char>, Val)>) -> bool {
    &&& s.len() == e.len()
    &&& forall|i: int| 0 <= i < s.len() ==> (#[trigger] s[i]).0.value@ == e[i].0 && val_is(s[i].1, e[i].1)
}

/// `after` is `before` with the entry `key`, `v` appended.
pub open spec fn appended_entry(
    before: Seq<(PdfNameObject, PdfObject)>,
    after: Seq<(PdfNameObject, PdfObject)>,
    key: Seq<char>,
    v: Val,
) -> bool {
    &&& after.len() == before.len() + 1
    &&& after.subrange(0, before.len() as int) == before
    &&& after.last().0.value@ == key
    &&& val_is(after.last().1, v)
}

/// A reference to the object numbered `n`, generation 0.
pub open spec fn reference_object(n: u64) -> PdfObject {
    PdfObject::Reference(
        PdfReferenceObject {
            host_type: HostType::Standard { generation_number: 0 },
            object_number: n,
            generation_number: None,
        },
    )
}

pub open spec fn dict_open() -> Seq<u8> {
    seq!['<' as u8, '<' as u8, '\n' as u8]
}

pub open spec fn dict_close() -> Seq<u8> {
    seq!['>' as u8, '>' as u8, '\n' as u8]
}

pub open spec fn stream_keyword() -> Seq<u8> {
    seq!['s' as u8, 't' as u8, 'r' as u8, 'e' as u8, 'a' as u8, 'm' as u8, '\n' as u8]
}

pub open spec fn endstream_keyword() -> Seq<u8> {
    seq![
        '\n' as u8,
        'e' as u8,
        'n' as u8,
        'd' as u8,
        's' as u8,
        't' as u8,
        'r' as u8,
        'e' as u8,
        'a' as u8,
        'm' as u8,
        '\n' as u8,
    ]
}

/// The key of the entry that a stream adds to its dictionary.
pub open spec fn length_key() -> Seq<char> {
    seq!['L', 'e', 'n', 'g', 't', 'h']
}

/// How an object is written where it is used as a value: a reference for an indirect object,
/// the object itself otherwise. Nothing when it cannot be written.
pub open spec fn value_text(o: PdfObject) -> Option<Seq<u8>>
    decreases o, 2int,
{
    match o {
        PdfObject::Reference(_) => inline_text(o),
        _ => match object_number_of(o) {
            Some(n) => Some(reference_text(n as nat, 0)),
            None => inline_text(o),
        },
    }
}

/// The elements of an array, each as a value followed by a space.
pub open spec fn items_text(s: Seq<PdfObject>) -> Option<Seq<u8>>
    decreases s, 0int,
{
    if s.len() == 0 {
        Some(Seq::empty())
    } else {
        match items_text(s.subrange(0, s.len() - 1)) {
            Some(a) => match value_text(s[s.len() - 1]) {
                Some(b) => Some(a + b + seq![' ' as u8]),
                None => None,
            },
            None => None,
        }
    }
}

/// The entries of a dictionary, each as its name, a space, its value and a line feed.
pub open spec fn entries_text(s: Seq<(PdfNameObject, PdfObject)>) -> Option<Seq<u8>>
    decreases s, 0int,
{
    if s.len() == 0 {
        Some(Seq::empty())
    } else {
        match entries_text(s.subrange(0, s.len() - 1)) {
            Some(a) => match value_text(s[s.len() - 1].1) {
                Some(b) => Some(a + name_text(s[s.len() - 1].0.value@) + seq![' ' as u8] + b + seq!['\n' as u8]),
                None => None,
            },
            None => None,
        }
    }
}

/// How an object itself is written. Strings are written as for the default version. A stream
/// is written with a `Length` entry added to its dictionary, and cannot be written when its
/// dictionary already has one or when its compression fails.
pub open spec fn inline_text(o: PdfObject) -> Option<Seq<u8>>
    decreases o, 1int,
{
    match o {
        PdfObject::Array(a) => match items_text(a.values@) {
            Some(t) => Some(seq!['[' as u8, ' ' as u8] + t + seq![']' as u8]),
            None => None,
        },
        PdfObject::Dictionary(d) => match entries_text(d.values@) {
            Some(t) => Some(dict_open() + t + dict_close()),
            None => None,
        },
        PdfObject::Stream(st) => {
            if has_key(st.dict.values@, length_key()) {
                None
            } else {
                match entries_text(st.dict.values@) {
                    Some(t) => match stream_payload(st) {
                        Some(p) => Some(
                            dict_open() + t + name_text(length_key()) + seq![' ' as u8] + dec_digits(p.len())
                                + seq!['\n' as u8] + dict_close() + stream_keyword() + p + endstream_keyword(),
                        ),
                        None => None,
                    },
                    None => None,
                }
            }
        },
        PdfObject::Name(n) => Some(name_text(n.value@)),
        PdfObject::Boolean(b) => Some(bool_text(b.value)),
        PdfObject::Null(_) => Some(Seq::empty()),
        PdfObject::Number(n) => Some(number_text(n.value)),
        PdfObject::Reference(r) => Some(reference_text(r.object_number as nat, host_generation(r.host_type))),
        PdfObject::String(s) => Some(text_string_bytes(s.value@, Version::V1_7)),
    }
}

/// `r` holds the bytes `t` when there are some, and is an error when there are none.
pub open spec fn encoded_as(r: Result<Vec<u8>, PdfError>, t: Option<Seq<u8>>) -> bool {
    match r {
        Ok(v) => t == Some(v@),
        Err(_) => t is None,
    }
}

proof fn lemma_items_prefix_none(s: Seq<PdfObject>, k: int)
    requires
        0 <= k <= s.len(),
        items_text(s.take(k)) is None,
    ensures
        items_text(s) is None,
    decreases s.len(),
{
    if k == s.len() {
        assert(s.take(k) =~= s);
    } else {
        let p = s.subrange(0, s.len() - 1);
        assert(p.take(k) =~= s.take(k));
        lemma_items_prefix_none(p, k);
    }
}

proof fn lemma_entries_prefix_none(s: Seq<(PdfNameObject, PdfObject)>, k: int)
    requires
        0 <= k <= s.len(),
        entries_text(s.take(k)) is None,
    ensures
        entries_text(s) is None,
    decreases s.len(),
{
    if k == s.len() {
        assert(s.take(k) =~= s);
    } else {
        let p = s.subrange(0, s.len() - 1);
        assert(p.take(k) =~= s.take(k));
        lemma_entries_prefix_none(p, k);
    }
}

/// Appends the elements of an array, each written as a value and followed by a space.
fn encode_items(items: &Vec<PdfObject>, out: &mut Vec<u8>) -> (r: Result<(), PdfError>)
    ensures
        (r is Ok) == (items_text(items@) is Some),
        r is Ok ==> final(out)@ == old(out)@ + items_text(items@)->Some_0,
    decreases items, 0int,
{
    let ghost start = out@;
    let mut i: usize = 0;
    assert(items@.take(0) =~= Seq::<PdfObject>::empty());
    while i < items.len()
        invariant
            i <= items@.len(),
            items_text(items@.take(i as int)) is Some,
            out@ == start + items_text(items@.take(i as int))->Some_0,
        decreases items@.len() - i,
    {
        let ghost pre = items@.take(i as int);
        let ghost next = items@.take(i + 1);
        assert(next.subrange(0, next.len() - 1) =~= pre);
        assert(next[next.len() - 1] == items@[i as int]);
        proof {
            assert(decreases_to!(items => items@[i as int]));
        }
        match items[i].encode_as_value() {
            Ok(b) => {
                crate::encoding::push_slice(out, b.as_slice());
                out.push(' ' as u8);
                assert(out@ =~= start + items_text(next)->Some_0);
            },
            Err(e) => {
                proof {
                    lemma_items_prefix_none(items@, i + 1);
                }
                return Err(e);
            },
        }
        i = i + 1;
    }
    assert(items@.take(items@.len() as int) =~= items@);
    Ok(())
}

/// Appends the entries of a dictionary, each as its name, a space, its value and a line feed.
fn encode_entries(entries: &Vec<(PdfNameObject, PdfObject)>, out: &mut Vec<u8>) -> (r: Result<(), PdfError>)
    ensures
        (r is Ok) == (entries_text(entries@) is Some),
        r is Ok ==> final(out)@ == old(out)@ + entries_text(entries@)->Some_0,
    decreases entries, 0int,
{
    let ghost start = out@;
    let mut i: usize = 0;
    assert(entries@.take(0) =~= Seq::<(PdfNameObject, PdfObject)>::empty());
    while i < entries.len()
        invariant
            i <= entries@.len(),
            entries_text(entries@.take(i as int)) is Some,
            out@ == start + entries_text(entries@.take(i as int))->Some_0,
        decreases entries@.len() - i,
    {
        let ghost pre = entries@.take(i as int);
        let ghost next = entries@.take(i + 1);
        assert(next.subrange(0, next.len() - 1) =~= pre);
        assert(next[next.len() - 1] == entries@[i as int]);
        proof {
            assert(decreases_to!(entries => entries@[i as int].1));
        }
        match entries[i].1.encode_as_value() {
            Ok(b) => {
                let name = entries[i].0.encode();
                match name {
                    Ok(nb) => {
                        crate::encoding::push_slice(out, nb.as_slice());
                    },
                    Err(_) => {},
                }
                out.push(' ' as u8);
                crate::encoding::push_slice(out, b.as_slice());
                out.push('\n' as u8);
                assert(out@ =~= start + entries_text(next)->Some_0);
            },
            Err(e) => {
                proof {
                    lemma_entries_prefix_none(entries@, i + 1);
                }
                return Err(e);
            },
        }
        i = i + 1;
    }
    assert(entries@.take(entries@.len() as int) =~= entries@);
    Ok(())
}


fn push_dict_open(out: &mut Vec<u8>)
    ensures
        final(out)@ == old(out)@ + dict_open(),
{
    out.push('<' as u8);
    out.push('<' as u8);
    out.push('\n' as u8);
    assert(out@ =~= old(out)@ + dict_open());
}

fn push_dict_close(out: &mut Vec<u8>)
    ensures
        final(out)@ == old(out)@ + dict_close(),
{
    out.push('>' as u8);
    out.push('>' as u8);
    out.push('\n' as u8);
    assert(out@ =~= old(out)@ + dict_close());
}

fn push_stream_keyword(out: &mut Vec<u8>)
    ensures
        final(out)@ == old(out)@ + stream_keyword(),
{
    out.push('s' as u8);
    out.push('t' as u8);
    out.push('r' as u8);
    out.push('e' as u8);
    out.push('a' as u8);
    out.push('m' as u8);
    out.push('\n' as u8);
    assert(out@ =~= old(out)@ + stream_keyword());
}

fn push_endstream_keyword(out: &mut Vec<u8>)
    ensures
        final(out)@ == old(out)@ + endstream_keyword(),
{
    out.push('\n' as u8);
    out.push('e' as u8);
    out.push('n' as u8);
    out.push('d' as u8);
    push_stream_keyword(out);
    assert(out@ =~= old(out)@ + endstream_keyword());
}

/// Appends `/Length n` and a line feed.
fn push_length_entry(out: &mut Vec<u8>, n: u64)
    ensures
        final(out)@ == old(out)@ + name_text(length_key()) + seq![' ' as u8] + dec_digits(n as nat)
            + seq!['\n' as u8],
{
    proof {
        reveal_strlit("Length");
        assert("Length"@ =~= length_key());
    }
    let ghost start = out@;
    out.push('/' as u8);
    crate::encoding::push_str(out, "Length");
    out.push(' ' as u8);
    crate::encoding::push_decimal(out, n);
    out.push('\n' as u8);
    assert(out@ =~= start + name_text(length_key()) + seq![' ' as u8] + dec_digits(n as nat)
        + seq!['\n' as u8]);
}

impl PdfArrayObject {
    /// The array as written in a file: `[ `, each element as a value followed by a space, `]`.
    pub fn encode(&self) -> (r: Result<Vec<u8>, PdfError>)
        ensures
            encoded_as(r, inline_text(PdfObject::Array(*self))),
        decreases self, 0int,
    {
        let mut arr: Vec<u8> = Vec::new();
        arr.push('[' as u8);
        arr.push(' ' as u8);
        match encode_items(&self.values, &mut arr) {
            Ok(()) => {},
            Err(e) => {
                return Err(e);
            },
        }
        arr.push(']' as u8);
        assert(arr@ =~= seq!['[' as u8, ' ' as u8] + items_text(self.values@)->Some_0 + seq![']' as u8]);
        Ok(arr)
    }
}

impl PdfDictionaryObject {
    /// The dictionary as written in a file: `<<`, a line feed, each entry as its name, a space,
    /// its value and a line feed, then `>>` and a line feed.
    pub fn encode(&self) -> (r: Result<Vec<u8>, PdfError>)
        ensures
            encoded_as(r, inline_text(PdfObject::Dictionary(*self))),
        decreases self, 0int,
    {
        let mut arr: Vec<u8> = Vec::new();
        arr.push('<' as u8);
        arr.push('<' as u8);
        arr.push('\n' as u8);
        match encode_entries(&self.values, &mut arr) {
            Ok(()) => {},
            Err(e) => {
                return Err(e);
            },
        }
        arr.push('>' as u8);
        arr.push('>' as u8);
        arr.push('\n' as u8);
        assert(arr@ =~= dict_open() + entries_text(self.values@)->Some_0 + dict_close());
        Ok(arr)
    }
}

impl PdfStreamObject {
    /// The stream as written in a file: its dictionary with a `Length` entry added, then
    /// `stream`, the bytes (compressed for a Flate stream) and `endstream`. A dictionary that
    /// already has `Length` gives the error of adding that key a second time.
    pub fn encode(&self) -> (r: Result<Vec<u8>, PdfError>)
        ensures
            encoded_as(r, inline_text(PdfObject::Stream(*self))),
            has_key(self.dict.values@, "Length"@) && stream_payload(*self) is Some ==> (r matches Err(
                PdfError::StructureError(m),
            ) && m@ == crate::objects::dictionary::duplicate_key_text("Length"@)),
        decreases self, 0int,
    {
        proof {
            reveal_strlit("Length");
            assert("Length"@ =~= length_key());
        }
        let payload: Vec<u8> = match self.compression_method {
            crate::objects::stream::CompressionMethod::Uncompressed => {
                let mut p: Vec<u8> = Vec::new();
                crate::encoding::push_slice(&mut p, self.content.as_slice());
                p
            },
            crate::objects::stream::CompressionMethod::Flate => {
                match crate::objects::stream::zlib_compress(self.content.as_slice()) {
                    Some(p) => p,
                    None => {
                        return Err(PdfError::CompressionError(String::new()));
                    },
                }
            },
        };
        if self.dict.contains_key("Length") {
            return Err(PdfError::StructureError(crate::objects::dictionary::duplicate_key_message("Length")));
        }
        let mut arr: Vec<u8> = Vec::new();
        push_dict_open(&mut arr);
        proof {
            assert(decreases_to!(self => self.dict));
        }
        match encode_entries(&self.dict.values, &mut arr) {
            Ok(()) => {},
            Err(e) => {
                return Err(e);
            },
        }
        let ghost head = arr@;
        push_length_entry(&mut arr, payload.len() as u64);
        push_dict_close(&mut arr);
        push_stream_keyword(&mut arr);
        crate::encoding::push_slice(&mut arr, payload.as_slice());
        push_endstream_keyword(&mut arr);
        assert(arr@ =~= head + name_text(length_key()) + seq![' ' as u8] + dec_digits(payload@.len())
            + seq!['\n' as u8] + dict_close() + stream_keyword() + payload@ + endstream_keyword());
        Ok(arr)
    }
}

impl PdfObject {
    /// The object itself as written in a file (see [`inline_text`]).
    pub fn encode(&self) -> (r: Result<Vec<u8>, PdfError>)
        ensures
            encoded_as(r, inline_text(*self)),
        decreases self, 1int,
    {
        match self {
            PdfObject::Array(a) => a.encode(),
            PdfObject::Dictionary(d) => d.encode(),
            PdfObject::Stream(s) => s.encode(),
            PdfObject::Name(n) => n.encode(),
            PdfObject::Boolean(b) => Ok(b.encode()),
            PdfObject::Null(n) => Ok(n.encode()),
            PdfObject::Number(n) => Ok(n.encode()),
            PdfObject::Reference(r) => r.encode(),
            PdfObject::String(s) => s.encode(Version::V1_7),
        }
    }

    /// The object as written where it is used as a value (see [`value_text`]): a reference
    /// `N 0 R` for an indirect object, the object itself otherwise.
    pub fn encode_as_value(&self) -> (r: Result<Vec<u8>, PdfError>)
        ensures
            encoded_as(r, value_text(*self)),
        decreases self, 2int,
    {
        if let PdfObject::Reference(_) = self {
            return self.encode();
        }
        match self.get_object_number() {
            Some(n) => PdfReferenceObject::new(ObjectNumber::new(n)).encode(),
            None => self.encode(),
        }
    }

    /// The object number, for an indirect object or a reference.
    pub fn get_object_number(&self) -> (n: Option<u64>)
        ensures
            n == object_number_of(*self),
    {
        match self {
            PdfObject::Array(a) => a.object_number,
            PdfObject::Dictionary(d) => d.object_number,
            PdfObject::Stream(s) => s.object_number,
            PdfObject::Reference(r) => Some(r.object_number),
            _ => None,
        }
    }
}

/// The name of an object's type.
pub open spec fn type_name_of(o: PdfObject) -> Seq<char> {
    match o {
        PdfObject::Array(_) => "Array"@,
        PdfObject::Boolean(_) => "Boolean"@,
        PdfObject::Dictionary(_) => "Dictionary"@,
        PdfObject::Name(_) => "Name"@,
        PdfObject::Null(_) => "Null"@,
        PdfObject::Number(_) => "Number"@,
        PdfObject::Reference(_) => "Reference"@,
        PdfObject::Stream(_) => "Stream"@,
        PdfObject::String(_) => "String"@,
    }
}

/// The message of the error for an object of an unexpected type.
pub open spec fn unexpected_type_message(o: PdfObject) -> Seq<char> {
    "Unexpected type: "@ + type_name_of(o)
}

impl PdfObject {
    /// The name of the object's type.
    pub fn kind_name(&self) -> (s: &'static str)
        ensures
            s@ == type_name_of(*self),
    {
        match self {
            PdfObject::Array(_) => "Array",
            PdfObject::Boolean(_) => "Boolean",
            PdfObject::Dictionary(_) => "Dictionary",
            PdfObject::Name(_) => "Name",
            PdfObject::Null(_) => "Null",
            PdfObject::Number(_) => "Number",
            PdfObject::Reference(_) => "Reference",
            PdfObject::Stream(_) => "Stream",
            PdfObject::String(_) => "String",
        }
    }

    fn unexpected_type(&self) -> (e: PdfError)
        ensures
            e matches PdfError::StructureError(m) && m@ == unexpected_type_message(*self),
    {
        let mut m = String::new();
        crate::encoding::string_push_str(&mut m, "Unexpected type: ");
        crate::encoding::string_push_str(&mut m, self.kind_name());
        PdfError::StructureError(m)
    }

    /// The value of a number object as an integer, a real number rounded toward zero.
    pub fn as_integer(&self) -> (r: Result<i64, PdfError>)
        ensures
            match *self {
                PdfObject::Number(n) => r == Ok::<i64, PdfError>(
                    crate::objects::number::number_as_int(n.value) as i64,
                ),
                _ => r matches Err(PdfError::StructureError(m)) && m@ == unexpected_type_message(*self),
            },
    {
        match self {
            PdfObject::Number(n) => Ok(n.as_int()),
            other => Err(other.unexpected_type()),
        }
    }

    /// The value of a number object in ten-thousandths.
    pub fn as_f64(&self) -> (r: Result<i128, PdfError>)
        ensures
            match *self {
                PdfObject::Number(n) => r == Ok::<i128, PdfError>(
                    crate::objects::number::number_as_real(n.value) as i128,
                ),
                _ => r matches Err(PdfError::StructureError(m)) && m@ == unexpected_type_message(*self),
            },
    {
        match self {
            PdfObject::Number(n) => Ok(n.as_real()),
            other => Err(other.unexpected_type()),
        }
    }

    /// The values, in ten-thousandths, of the elements of an array object, which must all be
    /// numbers.
    pub fn as_vec_f64(&self) -> (r: Result<Vec<i128>, PdfError>)
        ensures
            match *self {
                PdfObject::Array(a) => crate::objects::pdf_array::reals_of(a.values@, r),
                _ => r matches Err(PdfError::StructureError(m)) && m@ == unexpected_type_message(*self),
            },
    {
        match self {
            PdfObject::Array(a) => a.to_vec_f64(),
            other => Err(other.unexpected_type()),
        }
    }

    /// The characters of a string object.
    pub fn as_string(&self) -> (r: Result<&str, PdfError>)
        ensures
            match *self {
                PdfObject::String(s) => r matches Ok(t) && t@ == s.value@,
                _ => r matches Err(PdfError::StructureError(m)) && m@ == unexpected_type_message(*self),
            },
    {
        match self {
            PdfObject::String(s) => Ok(s.value.as_str()),
            other => Err(other.unexpected_type()),
        }
    }

    /// The UTF-8 bytes of a name object's characters.
    pub fn as_name(&self) -> (r: Result<Vec<u8>, PdfError>)
        ensures
            match *self {
                PdfObject::Name(n) => r matches Ok(v) && v@ == vstd::utf8::encode_utf8(n.value@),
                _ => r matches Err(PdfError::StructureError(m)) && m@ == unexpected_type_message(*self),
            },
    {
        match self {
            PdfObject::Name(n) => Ok(crate::encoding::to_bytes_str(n.value.as_str())),
            other => Err(other.unexpected_type()),
        }
    }

    /// The dictionary of a dictionary object.
    pub fn as_dict(&self) -> (r: Result<&PdfDictionaryObject, PdfError>)
        ensures
            match *self {
                PdfObject::Dictionary(d) => r matches Ok(e) && *e == d,
                _ => r matches Err(PdfError::StructureError(m)) && m@ == unexpected_type_message(*self),
            },
    {
        match self {
            PdfObject::Dictionary(d) => Ok(d),
            other => Err(other.unexpected_type()),
        }
    }

    /// The object given the object number `value`; objects that cannot be indirect are
    /// returned unchanged, and a reference is made to refer to object `value`.
    pub fn with_object_number(self, value: u64) -> (o: Self)
        ensures
            o == self.with_number_spec(value),
    {
        let mut s = self;
        s.set_object_number(value);
        s
    }

    pub open spec fn with_number_spec(self, value: u64) -> PdfObject {
        match self {
            PdfObject::Array(a) => PdfObject::Array(PdfArrayObject { object_number: Some(value), ..a }),
            PdfObject::Dictionary(d) => PdfObject::Dictionary(PdfDictionaryObject { object_number: Some(value), ..d }),
            PdfObject::Stream(s) => PdfObject::Stream(PdfStreamObject { object_number: Some(value), ..s }),
            PdfObject::Reference(r) => PdfObject::Reference(PdfReferenceObject { object_number: value, ..r }),
            other => other,
        }
    }

    /// Gives the object the object number `object_number` (see [`PdfObject::with_object_number`]).
    pub fn set_object_number(&mut self, object_number: u64)
        ensures
            *final(self) == old(self).with_number_spec(object_number),
    {
        match self {
            PdfObject::Array(a) => { a.object_number = Some(object_number); },
            PdfObject::Dictionary(d) => { d.object_number = Some(object_number); },
            PdfObject::Stream(s) => { s.object_number = Some(object_number); },
            PdfObject::Reference(r) => { r.object_number = object_number; },
            _ => {},
        }
    }

    /// The generation number of an indirect object or a reference, if it has been set.
    pub fn get_generation_number(&self) -> (g: Option<u16>)
        ensures
            g == match *self {
                PdfObject::Array(a) => a.generation_number,
                PdfObject::Dictionary(d) => d.generation_number,
                PdfObject::Stream(s) => s.generation_number,
                PdfObject::Reference(r) => r.generation_number,
                _ => None,
            },
    {
        match self {
            PdfObject::Array(a) => a.generation_number,
            PdfObject::Dictionary(d) => d.generation_number,
            PdfObject::Stream(s) => s.generation_number,
            PdfObject::Reference(r) => r.generation_number,
            _ => None,
        }
    }

    /// Sets the generation number of an array, dictionary, stream or reference; other objects
    /// are left unchanged.
    pub fn set_generation_number(&mut self, generation_number: u16)
        ensures
            *final(self) == match *old(self) {
                PdfObject::Array(a) => PdfObject::Array(PdfArrayObject { generation_number: Some(generation_number), ..a }),
                PdfObject::Dictionary(d) => PdfObject::Dictionary(PdfDictionaryObject { generation_number: Some(generation_number), ..d }),
                PdfObject::Stream(s) => PdfObject::Stream(PdfStreamObject { generation_number: Some(generation_number), ..s }),
                PdfObject::Reference(r) => PdfObject::Reference(PdfReferenceObject { generation_number: Some(generation_number), ..r }),
                other => other,
            },
    {
        match self {
            PdfObject::Array(a) => { a.generation_number = Some(generation_number); },
            PdfObject::Dictionary(d) => { d.generation_number = Some(generation_number); },
            PdfObject::Stream(s) => { s.generation_number = Some(generation_number); },
            PdfObject::Reference(r) => { r.generation_number = Some(generation_number); },
            _ => {},
        }
    }

    /// The object with its generation number set (see [`PdfObject::set_generation_number`]).
    pub fn with_generation_number(self, value: u16) -> (o: Self)
        ensures
            o == match self {
                PdfObject::Array(a) => PdfObject::Array(PdfArrayObject { generation_number: Some(value), ..a }),
                PdfObject::Dictionary(d) => PdfObject::Dictionary(PdfDictionaryObject { generation_number: Some(value), ..d }),
                PdfObject::Stream(s) => PdfObject::Stream(PdfStreamObject { generation_number: Some(value), ..s }),
                PdfObject::Reference(r) => PdfObject::Reference(PdfReferenceObject { generation_number: Some(value), ..r }),
                other => other,
            },
    {
        let mut s = self;
        s.set_generation_number(value);
        s
    }

    /// Whether the object has an object number (an indirect object or a reference).
    pub fn is_indirect(&self) -> (b: bool)
        ensures
            b == (object_number_of(*self) is Some),
    {
        self.get_object_number().is_some()
    }

    pub fn is_reference(&self) -> (b: bool)
        ensures
            b == (*self is Reference),
    {
        match self {
            PdfObject::Reference(_) => true,
            _ => false,
        }
    }

    pub fn is_direct(&self) -> (b: bool)
        ensures
            b == (object_number_of(*self) is None),
    {
        !self.is_indirect()
    }

    pub fn reference_obj(value: ObjectNumber) -> (o: PdfObject)
        ensures
            o == reference_object(value.spec_value()),
    {
        PdfObject::Reference(PdfReferenceObject::new(value))
    }

    pub fn null_obj() -> (o: PdfObject)
        ensures
            o is Null,
    {
        PdfObject::Null(PdfNullObject::new())
    }

    pub fn num_obj(value: NumberType) -> (o: PdfObject)
        ensures
            o == PdfObject::Number(PdfNumberObject { value }),
    {
        PdfObject::Number(PdfNumberObject::new(value))
    }

    /// A number object for `Some` value, a null object for `None`.
    pub fn num_or_null_obj(value: Option<NumberType>) -> (o: PdfObject)
        ensures
            match value {
                Some(v) => o == PdfObject::Number(PdfNumberObject { value: v }),
                None => o is Null,
            },
    {
        match value {
            Some(v) => Self::num_obj(v),
            None => Self::null_obj(),
        }
    }

    pub fn name_obj(value: &str) -> (o: PdfObject)
        ensures
            o matches PdfObject::Name(n) && n.value@ == value@,
    {
        PdfObject::Name(PdfNameObject::new(value))
    }

    pub fn string_obj(value: &str) -> (o: PdfObject)
        ensures
            o matches PdfObject::String(s) && s.value@ == value@,
    {
        PdfObject::String(PdfStringObject::new(value))
    }

    pub fn string_text_obj(value: &str) -> (o: PdfObject)
        ensures
            o matches PdfObject::String(s) && s.value@ == value@,
    {
        PdfObject::String(PdfStringObject::new(value))
    }
}

/// Shorthands for making objects.
pub struct PdfObj {}

impl PdfObj {
    pub fn make_reference_obj(value: u64) -> (o: PdfObject)
        ensures
            o == reference_object(value),
    {
        PdfObject::reference_obj(ObjectNumber::new(value))
    }

    pub fn make_null_obj() -> (o: PdfObject)
        ensures
            o is Null,
    {
        PdfObject::null_obj()
    }

    pub fn make_num_obj(value: NumberType) -> (o: PdfObject)
        ensures
            o == PdfObject::Number(PdfNumberObject { value }),
    {
        PdfObject::num_obj(value)
    }

    pub fn make_num_or_null_obj(value: Option<NumberType>) -> (o: PdfObject)
        ensures
            match value {
                Some(v) => o == PdfObject::Number(PdfNumberObject { value: v }),
                None => o is Null,
            },
    {
        PdfObject::num_or_null_obj(value)
    }

    pub fn make_name_obj(value: &str) -> (o: PdfObject)
        ensures
            o matches PdfObject::Name(n) && n.value@ == value@,
    {
        PdfObject::name_obj(value)
    }

    pub fn make_string_obj(value: &str) -> (o: PdfObject)
        ensures
            o matches PdfObject::String(s) && s.value@ == value@,
    {
        PdfObject::string_obj(value)
    }
}

impl From<PdfArrayObject> for PdfObject {
    fn from(v: PdfArrayObject) -> (o: Self) {
        PdfObject::Array(v)
    }
}

impl vstd::std_specs::convert::FromSpecImpl<PdfArrayObject> for PdfObject {
    open spec fn obeys_from_spec() -> bool {
        true
    }

    open spec fn from_spec(v: PdfArrayObject) -> PdfObject {
        PdfObject::Array(v)
    }
}

impl From<PdfBooleanObject> for PdfObject {
    fn from(v: PdfBooleanObject) -> (o: Self) {
        PdfObject::Boolean(v)
    }
}

impl vstd::std_specs::convert::FromSpecImpl<PdfBooleanObject> for PdfObject {
    open spec fn obeys_from_spec() -> bool {
        true
    }

    open spec fn from_spec(v: PdfBooleanObject) -> PdfObject {
        PdfObject::Boolean(v)
    }
}

impl From<PdfDictionaryObject> for PdfObject {
    fn from(v: PdfDictionaryObject) -> (o: Self) {
        PdfObject::Dictionary(v)
    }
}

impl vstd::std_specs::convert::FromSpecImpl<PdfDictionaryObject> for PdfObject {
    open spec fn obeys_from_spec() -> bool {
        true
    }

    open spec fn from_spec(v: PdfDictionaryObject) -> PdfObject {
        PdfObject::Dictionary(v)
    }
}

impl From<PdfNameObject> for PdfObject {
    fn from(v: PdfNameObject) -> (o: Self) {
        PdfObject::Name(v)
    }
}

impl vstd::std_specs::convert::FromSpecImpl<PdfNameObject> for PdfObject {
    open spec fn obeys_from_spec() -> bool {
        true
    }

    open spec fn from_spec(v: PdfNameObject) -> PdfObject {
        PdfObject::Name(v)
    }
}

impl From<PdfNullObject> for PdfObject {
    fn from(v: PdfNullObject) -> (o: Self) {
        PdfObject::Null(v)
    }
}

impl vstd::std_specs::convert::FromSpecImpl<PdfNullObject> for PdfObject {
    open spec fn obeys_from_spec() -> bool {
        true
    }

    open spec fn from_spec(v: PdfNullObject) -> PdfObject {
        PdfObject::Null(v)
    }
}

impl From<PdfNumberObject> for PdfObject {
    fn from(v: PdfNumberObject) -> (o: Self) {
        PdfObject::Number(v)
    }
}

impl vstd::std_specs::convert::FromSpecImpl<PdfNumberObject> for PdfObject {
    open spec fn obeys_from_spec() -> bool {
        true
    }

    open spec fn from_spec(v: PdfNumberObject) -> PdfObject {
        PdfObject::Number(v)
    }
}

impl From<PdfReferenceObject> for PdfObject {
    fn from(v: PdfReferenceObject) -> (o: Self) {
        PdfObject::Reference(v)
    }
}

impl vstd::std_specs::convert::FromSpecImpl<PdfReferenceObject> for PdfObject {
    open spec fn obeys_from_spec() -> bool {
        true
    }

    open spec fn from_spec(v: PdfReferenceObject) -> PdfObject {
        PdfObject::Reference(v)
    }
}

impl From<PdfStreamObject> for PdfObject {
    fn from(v: PdfStreamObject) -> (o: Self) {
        PdfObject::Stream(v)
    }
}

impl vstd::std_specs::convert::FromSpecImpl<PdfStreamObject> for PdfObject {
    open spec fn obeys_from_spec() -> bool {
        true
    }

    open spec fn from_spec(v: PdfStreamObject) -> PdfObject {
        PdfObject::Stream(v)
    }
}

impl From<PdfStringObject> for PdfObject {
    fn from(v: PdfStringObject) -> (o: Self) {
        PdfObject::String(v)
    }
}

impl vstd::std_specs::convert::FromSpecImpl<PdfStringObject> for PdfObject {
    open spec fn obeys_from_spec() -> bool {
        true
    }

    open spec fn from_spec(v: PdfStringObject) -> PdfObject {
        PdfObject::String(v)
    }
}

impl From<bool> for PdfObject {
    fn from(v: bool) -> (o: Self) {
        PdfObject::Boolean(PdfBooleanObject { value: v })
    }
}

impl vstd::std_specs::convert::FromSpecImpl<bool> for PdfObject {
    open spec fn obeys_from_spec() -> bool {
        true
    }

    open spec fn from_spec(v: bool) -> PdfObject {
        PdfObject::Boolean(PdfBooleanObject { value: v })
    }
}

impl From<NumberType> for PdfObject {
    fn from(v: NumberType) -> (o: Self) {
        PdfObject::Number(PdfNumberObject { value: v })
    }
}

impl vstd::std_specs::convert::FromSpecImpl<NumberType> for PdfObject {
    open spec fn obeys_from_spec() -> bool {
        true
    }

    open spec fn from_spec(v: NumberType) -> PdfObject {
        PdfObject::Number(PdfNumberObject { value: v })
    }
}

impl From<u8> for PdfObject {
    /// The integer `v`.
    fn from(v: u8) -> (o: Self) {
        PdfObject::Number(PdfNumberObject { value: NumberType::Integer(v as i64) })
    }
}

impl vstd::std_specs::convert::FromSpecImpl<u8> for PdfObject {
    open spec fn obeys_from_spec() -> bool {
        true
    }

    open spec fn from_spec(v: u8) -> PdfObject {
        PdfObject::Number(PdfNumberObject { value: NumberType::Integer(v as i64) })
    }
}

impl From<u32> for PdfObject {
    /// The integer `v`.
    fn from(v: u32) -> (o: Self) {
        PdfObject::Number(PdfNumberObject { value: NumberType::Integer(v as i64) })
    }
}

impl vstd::std_specs::convert::FromSpecImpl<u32> for PdfObject {
    open spec fn obeys_from_spec() -> bool {
        true
    }

    open spec fn from_spec(v: u32) -> PdfObject {
        PdfObject::Number(PdfNumberObject { value: NumberType::Integer(v as i64) })
    }
}

impl From<usize> for PdfObject {
    /// The integer `v`.
    fn from(v: usize) -> (o: Self) {
        PdfObject::Number(PdfNumberObject { value: NumberType::Integer(v as i64) })
    }
}

impl vstd::std_specs::convert::FromSpecImpl<usize> for PdfObject {
    open spec fn obeys_from_spec() -> bool {
        true
    }

    open spec fn from_spec(v: usize) -> PdfObject {
        PdfObject::Number(PdfNumberObject { value: NumberType::Integer(v as i64) })
    }
}

impl From<u64> for PdfObject {
    /// The integer `v`.
    fn from(v: u64) -> (o: Self) {
        PdfObject::Number(PdfNumberObject { value: NumberType::Integer(v as i64) })
    }
}

impl vstd::std_specs::convert::FromSpecImpl<u64> for PdfObject {
    open spec fn obeys_from_spec() -> bool {
        true
    }

    open spec fn from_spec(v: u64) -> PdfObject {
        PdfObject::Number(PdfNumberObject { value: NumberType::Integer(v as i64) })
    }
}

impl From<i32> for PdfObject {
    /// The integer `v`.
    fn from(v: i32) -> (o: Self) {
        PdfObject::Number(PdfNumberObject { value: NumberType::Integer(v as i64) })
    }
}

impl vstd::std_specs::convert::FromSpecImpl<i32> for PdfObject {
    open spec fn obeys_from_spec() -> bool {
        true
    }

    open spec fn from_spec(v: i32) -> PdfObject {
        PdfObject::Number(PdfNumberObject { value: NumberType::Integer(v as i64) })
    }
}

impl From<i64> for PdfObject {
    /// The integer `v`.
    fn from(v: i64) -> (o: Self) {
        PdfObject::Number(PdfNumberObject { value: NumberType::Integer(v as i64) })
    }
}

impl vstd::std_specs::convert::FromSpecImpl<i64> for PdfObject {
    open spec fn obeys_from_spec() -> bool {
        true
    }

    open spec fn from_spec(v: i64) -> PdfObject {
        PdfObject::Number(PdfNumberObject { value: NumberType::Integer(v as i64) })
    }
}

} // verus!
