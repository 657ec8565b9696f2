//! Patterns: tiles repeated to fill an area, or shadings.
use vstd::prelude::*;
use crate::PdfError;
use crate::encoding::{ascii_chars, dec_digits, real_text, string_push_decimal, string_push_real, string_push_str};
use crate::objects::dictionary::has_key;
use crate::objects::number::NumberType;
use crate::objects::pdf_object::{PdfObject, Val, entries_are};
use crate::objects::stream::PdfStreamObject;
use crate::util::{Matrix, Rectangle, is_rect_array};
use std::collections::hash_map::DefaultHasher;
use std::hash::{BuildHasher, BuildHasherDefault};

verus! {

#[derive(Debug, Clone, Copy, PartialEq, Eq, Structural)]
pub enum PatternType {
    Tiling,
    Shading,
}

/// The number of a pattern type: 1 for tiling, 2 for shading.
pub open spec fn pattern_type_value(p: PatternType) -> i64 {
    match p {
        PatternType::Tiling => 1,
        PatternType::Shading => 2,
    }
}

impl PatternType {
    pub fn value(&self) -> (v: i64)
        ensures
            v == pattern_type_value(*self),
    {
        match self {
            PatternType::Tiling => 1,
            PatternType::Shading => 2,
        }
    }
}

#[derive(Debug, Clone, Copy, PartialEq, Eq, Structural)]
pub enum TilingType {
    ConstantSpacing,
    NoDistortion,
    FasterTiling,
}

/// The number of a tiling type: 1, 2 or 3.
pub open spec fn tiling_type_value(t: TilingType) -> i64 {
    match t {
        TilingType::ConstantSpacing => 1,
        TilingType::NoDistortion => 2,
        TilingType::FasterTiling => 3,
    }
}

impl TilingType {
    pub fn value(&self) -> (v: i64)
        ensures
            v == tiling_type_value(*self),
    {
        match self {
            TilingType::ConstantSpacing => 1,
            TilingType::NoDistortion => 2,
            TilingType::FasterTiling => 3,
        }
    }
}

#[derive(Debug, Clone, Copy, PartialEq, Eq, Structural)]
pub enum PaintType {
    Colored,
    Uncolored,
}

/// The number of a paint type: 1 for coloured, 2 for uncoloured.
pub open spec fn paint_type_value(p: PaintType) -> i64 {
    match p {
        PaintType::Colored => 1,
        PaintType::Uncolored => 2,
    }
}

impl PaintType {
    pub fn value(&self) -> (v: i64)
        ensures
            v == paint_type_value(*self),
    {
        match self {
            PaintType::Colored => 1,
            PaintType::Uncolored => 2,
        }
    }
}

/// A tiling pattern: a content stream painted repeatedly at the given steps (real numbers
/// held as ten-thousandths).
pub struct TilingPattern {
    stream: PdfStreamObject,
    x_step: i64,
    y_step: i64,
    paint_type: PaintType,
}

impl TilingPattern {
    pub closed spec fn spec_stream(&self) -> PdfStreamObject {
        self.stream
    }

    pub closed spec fn spec_steps(&self) -> (i64, i64) {
        (self.x_step, self.y_step)
    }

    pub closed spec fn spec_paint_type(&self) -> PaintType {
        self.paint_type
    }

    /// A pattern whose stream holds `content` and whose dictionary holds `/Type /Pattern`,
    /// `/BBox`, `/XStep`, `/YStep`, `/PaintType` and `/TilingType`.
    pub fn new(
        bbox: Rectangle,
        x_step: i64,
        y_step: i64,
        paint_type: PaintType,
        tiling_type: TilingType,
        content: Vec<u8>,
    ) -> (r: Result<Self, PdfError>)
        ensures
            r matches Ok(p) && {
                let d = p.spec_stream().dict;
                &&& d.wf()
                &&& d.values@.len() == 6
                &&& entries_are(d.values@.subrange(0, 1), seq![("Type"@, Val::Name("Pattern"@))])
                &&& d.values@[1].0.value@ == "BBox"@
                &&& d.values@[1].1 matches PdfObject::Array(a) && is_rect_array(a, bbox.x1, bbox.y1, bbox.x2, bbox.y2)
                &&& entries_are(
                    d.values@.subrange(2, 6),
                    seq![
                        ("XStep"@, Val::Num(NumberType::Real(x_step))),
                        ("YStep"@, Val::Num(NumberType::Real(y_step))),
                        ("PaintType"@, Val::Num(NumberType::Integer(paint_type_value(paint_type)))),
                        ("TilingType"@, Val::Num(NumberType::Integer(tiling_type_value(tiling_type)))),
                    ],
                )
                &&& p.spec_stream().content@ == content@
                &&& p.spec_stream().object_number is None
                &&& p.spec_steps() == (x_step, y_step)
                &&& p.spec_paint_type() == paint_type
            },
    {
        proof {
            reveal_strlit("Type");
            reveal_strlit("BBox");
            reveal_strlit("XStep");
            reveal_strlit("YStep");
            reveal_strlit("PaintType");
            reveal_strlit("TilingType");
            assert("Type"@.len() == 4 && "BBox"@.len() == 4 && "XStep"@.len() == 5 && "YStep"@.len() == 5);
            assert("PaintType"@.len() == 9 && "TilingType"@.len() == 10);
            assert("Type"@[0] != "BBox"@[0] && "XStep"@[0] != "YStep"@[0]);
        }
        let mut stream = PdfStreamObject::new();
        stream.dict.put_new("Type", PdfObject::name_obj("Pattern"));
        stream.dict.put_new("BBox", PdfObject::Array(bbox.as_pdf_array()));
        stream.dict.put_new("XStep", PdfObject::num_obj(NumberType::Real(x_step)));
        stream.dict.put_new("YStep", PdfObject::num_obj(NumberType::Real(y_step)));
        stream.dict.put_new("PaintType", PdfObject::num_obj(NumberType::Integer(paint_type.value())));
        stream.dict.put_new("TilingType", PdfObject::num_obj(NumberType::Integer(tiling_type.value())));
        stream.content = content;
        let pat = TilingPattern { stream, x_step, y_step, paint_type };
        Ok(pat)
    }

    /// Adds the pattern matrix `/Matrix`; fails when there is one already.
    pub fn with_matrix(self, matrix: Matrix) -> (r: Result<Self, PdfError>)
        ensures
            has_key(self.spec_stream().dict.values@, "Matrix"@) ==> r is Err,
            !has_key(self.spec_stream().dict.values@, "Matrix"@) ==> (r matches Ok(p) && {
                let before = self.spec_stream().dict.values@;
                let after = p.spec_stream().dict.values@;
                &&& after.len() == before.len() + 1
                &&& after.subrange(0, before.len() as int) == before
                &&& after.last().0.value@ == "Matrix"@
                &&& after.last().1 matches PdfObject::Array(a) && a.values@.len() == 6
                &&& p.spec_stream().content == self.spec_stream().content
                &&& p.spec_steps() == self.spec_steps()
                &&& p.spec_paint_type() == self.spec_paint_type()
            }),
    {
        let mut s = self;
        match s.stream.dict.add("Matrix", PdfObject::Array(matrix.as_pdf_array())) {
            Ok(()) => Ok(s),
            Err(e) => Err(e),
        }
    }

    /// The key of the pattern (see [`tiling_key_text`]) with `content_hash` as the hash of its
    /// content bytes; [`TilingPattern::key`] computes that hash itself.
    pub fn hash(&self, content_hash: u64) -> (s: String)
        ensures
            s@ == tiling_key_text(*self, content_hash),
    {
        let mut s = String::new();
        string_push_str(&mut s, "tiling:");
        string_push_real(&mut s, self.x_step);
        string_push_str(&mut s, ":");
        string_push_real(&mut s, self.y_step);
        string_push_str(&mut s, ":");
        let p = self.paint_type.value();
        proof {
            assert(p == 1 || p == 2);
        }
        string_push_decimal(&mut s, p as u64);
        string_push_str(&mut s, ":");
        string_push_decimal(&mut s, content_hash);
        s
    }

    /// The key of the pattern (see [`tiling_key_text`]), with the hash that std's default
    /// hasher gives of the content bytes. Which number that hash is depends on the Rust release
    /// and the machine, so only the form of the key is stated.
    pub fn key(&self) -> (s: String)
        ensures
            exists|h: u64| s@ == #[trigger] tiling_key_text(*self, h),
    {
        let h = content_hash(&self.stream.content);
        let s = self.hash(h);
        assert(s@ == tiling_key_text(*self, h));
        s
    }
}

/// The key that tells tiling patterns apart: `tiling:`, the two steps, the number of the
/// paint type and `content_hash`, separated by colons.
pub open spec fn tiling_key_text(p: TilingPattern, content_hash: u64) -> Seq<char> {
    "tiling:"@ + ascii_chars(real_text(p.spec_steps().0 as int)) + ":"@ + ascii_chars(real_text(p.spec_steps().1 as int))
        + ":"@ + ascii_chars(dec_digits(paint_type_value(p.spec_paint_type()) as nat)) + ":"@ + ascii_chars(
        dec_digits(content_hash as nat),
    )
}

/// The hash of `content` by std's `DefaultHasher`, through `BuildHasher::hash_one` on the
/// default builder: a fresh hasher that is fed the bytes and then finished. std does not
/// specify the hashing algorithm, which may change between releases, so nothing is stated of
/// the number.
#[verifier::external_body]
fn content_hash(content: &Vec<u8>) -> (h: u64) {
    BuildHasherDefault::<DefaultHasher>::default().hash_one(content)
}

} // verus!
