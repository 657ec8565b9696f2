//! Page sizes and their dimensions in points (1/72 inch), held as ten-thousandths of a
//! point.
use vstd::prelude::*;
use crate::objects::number::NumberType;
use crate::objects::pdf_array::PdfArrayObject;
use crate::objects::pdf_object::PdfObject;
use crate::util::{Dims, is_rect_array};

verus! {

#[derive(Debug, Clone, Copy, PartialEq, Eq, Structural)]
pub enum PageSize {
    A0,
    A1,
    A2,
    A3,
    A4,
    A5,
    Letter,
    Legal,
    Custom(Dims),
}

impl Default for PageSize {
    fn default() -> (p: Self)
        ensures
            p == PageSize::A4,
    {
        PageSize::A4
    }
}

/// A length of `mm` millimetres in ten-thousandths of a point, at 2.8346456693 points per
/// millimetre, rounded to the nearest.
pub open spec fn mm_to_points(mm: int) -> int {
    (mm * 28346456693 + 500000) / 1000000
}

/// `v`, or zero when it is negative.
pub open spec fn non_negative(v: i64) -> i64 {
    if v < 0 {
        0
    } else {
        v
    }
}

/// The dimensions of a page size: ISO sizes from their millimetres, US sizes in whole points,
/// and a custom size with negative lengths taken as zero.
pub open spec fn page_dims(p: PageSize) -> Dims {
    match p {
        PageSize::A0 => Dims { width: mm_to_points(842) as i64, height: mm_to_points(1189) as i64 },
        PageSize::A1 => Dims { width: mm_to_points(594) as i64, height: mm_to_points(841) as i64 },
        PageSize::A2 => Dims { width: mm_to_points(420) as i64, height: mm_to_points(594) as i64 },
        PageSize::A3 => Dims { width: mm_to_points(297) as i64, height: mm_to_points(420) as i64 },
        PageSize::A4 => Dims { width: mm_to_points(210) as i64, height: mm_to_points(297) as i64 },
        PageSize::A5 => Dims { width: mm_to_points(148) as i64, height: mm_to_points(210) as i64 },
        PageSize::Letter => Dims { width: 6120000, height: 7920000 },
        PageSize::Legal => Dims { width: 6120000, height: 10080000 },
        PageSize::Custom(d) => Dims { width: non_negative(d.width), height: non_negative(d.height) },
    }
}

impl PageSize {
    /// The width and height in ten-thousandths of a point (see [`page_dims`]).
    pub fn dims_points(&self) -> (d: Dims)
        ensures
            d == page_dims(*self),
    {
        match self {
            PageSize::A0 => Dims { width: 23867717, height: 33703937 },
            PageSize::A1 => Dims { width: 16837795, height: 23839370 },
            PageSize::A2 => Dims { width: 11905512, height: 16837795 },
            PageSize::A3 => Dims { width: 8418898, height: 11905512 },
            PageSize::A4 => Dims { width: 5952756, height: 8418898 },
            PageSize::A5 => Dims { width: 4195276, height: 5952756 },
            PageSize::Letter => Dims { width: 6120000, height: 7920000 },
            PageSize::Legal => Dims { width: 6120000, height: 10080000 },
            PageSize::Custom(dims) => Dims {
                width: if dims.width < 0 { 0 } else { dims.width },
                height: if dims.height < 0 { 0 } else { dims.height },
            },
        }
    }

    /// The media box `[0 0 width height]`.
    pub fn to_rect(&self) -> (a: PdfArrayObject)
        ensures
            is_rect_array(a, 0, 0, page_dims(*self).width, page_dims(*self).height),
    {
        let dims = self.dims_points();
        let mut arr = PdfArrayObject::new();
        arr.push(PdfObject::num_obj(NumberType::Real(0)));
        arr.push(PdfObject::num_obj(NumberType::Real(0)));
        arr.push(PdfObject::num_obj(NumberType::Real(dims.width)));
        arr.push(PdfObject::num_obj(NumberType::Real(dims.height)));
        arr
    }
}

} // verus!
