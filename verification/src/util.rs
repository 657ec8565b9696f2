//! Positions, sizes and rectangles on a page.
//!
//! Lengths are held as counts of ten-thousandths of a point, as real numbers are
//! (see [`NumberType`]).
use vstd::prelude::*;
use crate::objects::number::NumberType;
use crate::objects::pdf_array::PdfArrayObject;
use crate::objects::pdf_object::{PdfObject, is_number};

verus! {

/// Which rule decides what lies inside a path.
#[derive(Debug, Clone, Copy, PartialEq, Eq, Structural)]
pub enum WindingRule {
    EvenOdd,
    NonZero,
}

/// Whether an operator applies to stroking or to filling.
#[derive(Debug, Clone, Copy, PartialEq, Eq, Structural)]
pub enum StrokeOrFill {
    Stroke,
    Fill,
}

/// A point on the page.
#[derive(Debug, Clone, Copy, PartialEq, Eq, Structural)]
pub struct Posn {
    pub x: i64,
    pub y: i64,
}

/// A width and a height.
#[derive(Debug, Clone, Copy, PartialEq, Eq, Structural)]
pub struct Dims {
    pub width: i64,
    pub height: i64,
}

/// A rectangle given by two opposite corners.
#[derive(Debug, Clone, Copy, PartialEq, Eq, Structural)]
pub struct Rect {
    pub x1: i64,
    pub y1: i64,
    pub x2: i64,
    pub y2: i64,
}

/// A rectangle given by two opposite corners, as written in annotations.
#[derive(Debug, Clone, Copy, PartialEq, Eq, Structural)]
pub struct Rectangle {
    pub x1: i64,
    pub y1: i64,
    pub x2: i64,
    pub y2: i64,
}

/// `a` holds the four real numbers `x1 y1 x2 y2` and is a direct object.
pub open spec fn is_rect_array(a: PdfArrayObject, x1: i64, y1: i64, x2: i64, y2: i64) -> bool {
    &&& a.values@.len() == 4
    &&& is_number(a.values@[0], NumberType::Real(x1))
    &&& is_number(a.values@[1], NumberType::Real(y1))
    &&& is_number(a.values@[2], NumberType::Real(x2))
    &&& is_number(a.values@[3], NumberType::Real(y2))
    &&& a.object_number is None
    &&& a.generation_number is None
}

/// The array `[x1 y1 x2 y2]`.
pub fn rect_array(x1: i64, y1: i64, x2: i64, y2: i64) -> (a: PdfArrayObject)
    ensures
        is_rect_array(a, x1, y1, x2, y2),
{
    let mut a = PdfArrayObject::new();
    a.push(PdfObject::num_obj(NumberType::Real(x1)));
    a.push(PdfObject::num_obj(NumberType::Real(y1)));
    a.push(PdfObject::num_obj(NumberType::Real(x2)));
    a.push(PdfObject::num_obj(NumberType::Real(y2)));
    a
}

/// A transformation matrix `[a b c d e f]`.
#[derive(Debug, Clone, Copy, PartialEq, Eq, Structural)]
pub struct Matrix {
    pub a: i64,
    pub b: i64,
    pub c: i64,
    pub d: i64,
    pub e: i64,
    pub f: i64,
}

impl Matrix {
    /// The matrix as the array `[a b c d e f]` of real numbers.
    pub fn as_pdf_array(&self) -> (arr: PdfArrayObject)
        ensures
            arr.values@.len() == 6,
            is_number(arr.values@[0], NumberType::Real(self.a)),
            is_number(arr.values@[1], NumberType::Real(self.b)),
            is_number(arr.values@[2], NumberType::Real(self.c)),
            is_number(arr.values@[3], NumberType::Real(self.d)),
            is_number(arr.values@[4], NumberType::Real(self.e)),
            is_number(arr.values@[5], NumberType::Real(self.f)),
            arr.object_number is None,
            arr.generation_number is None,
    {
        let mut arr = PdfArrayObject::new();
        arr.push(PdfObject::num_obj(NumberType::Real(self.a)));
        arr.push(PdfObject::num_obj(NumberType::Real(self.b)));
        arr.push(PdfObject::num_obj(NumberType::Real(self.c)));
        arr.push(PdfObject::num_obj(NumberType::Real(self.d)));
        arr.push(PdfObject::num_obj(NumberType::Real(self.e)));
        arr.push(PdfObject::num_obj(NumberType::Real(self.f)));
        arr
    }
}

impl Rectangle {
    /// The rectangle as the array `[x1 y1 x2 y2]`.
    pub fn as_pdf_array(&self) -> (a: PdfArrayObject)
        ensures
            is_rect_array(a, self.x1, self.y1, self.x2, self.y2),
    {
        rect_array(self.x1, self.y1, self.x2, self.y2)
    }
}

} // verus!
