//! Number objects: integers and real numbers.
use vstd::prelude::*;
use crate::PdfError;
use crate::encoding::{int_text, real_text};

verus! {

/// A number of the document. A real number is held to four decimal places, as its count of
/// ten-thousandths: `Real(31400)` stands for 3.14.
#[derive(Debug, Clone, Copy, PartialEq, Eq, Structural)]
pub enum NumberType {
    Integer(i64),
    Real(i64),
}

/// The text of a number as written in a file.
pub open spec fn number_text(n: NumberType) -> Seq<u8> {
    match n {
        NumberType::Integer(i) => int_text(i as int),
        NumberType::Real(v) => real_text(v as int),
    }
}

/// `a / b` rounded toward zero.
pub open spec fn trunc_div(a: int, b: int) -> int {
    if a >= 0 {
        a / b
    } else {
        -((-a) / b)
    }
}

/// The integer part of a number, rounded toward zero.
pub open spec fn number_as_int(n: NumberType) -> int {
    match n {
        NumberType::Integer(i) => i as int,
        NumberType::Real(v) => trunc_div(v as int, 10000),
    }
}

/// A number in ten-thousandths.
pub open spec fn number_as_real(n: NumberType) -> int {
    match n {
        NumberType::Integer(i) => i * 10000,
        NumberType::Real(v) => v as int,
    }
}

#[derive(Debug, Clone, PartialEq, Eq, Structural)]
pub struct PdfNumberObject {
    pub value: NumberType,
}

impl PdfNumberObject {
    pub fn new(value: NumberType) -> (n: Self)
        ensures
            n.value == value,
    {
        Self { value }
    }

    pub fn set_value(&mut self, value: NumberType)
        ensures
            final(self).value == value,
    {
        self.value = value;
    }

    /// The number in ten-thousandths: an integer times 10000, a real number as it is held.
    pub fn as_real(&self) -> (r: i128)
        ensures
            r == number_as_real(self.value),
    {
        match self.value {
            NumberType::Integer(i) => (i as i128) * 10000,
            NumberType::Real(v) => v as i128,
        }
    }

    /// The number as an integer, a real number rounded toward zero.
    pub fn as_int(&self) -> (i: i64)
        ensures
            i as int == number_as_int(self.value),
    {
        match self.value {
            NumberType::Integer(i) => i,
            NumberType::Real(v) => {
                if v >= 0 {
                    v / 10000
                } else {
                    let a: u64 = if v == i64::MIN { 9223372036854775808u64 } else { (-v) as u64 };
                    let q: u64 = a / 10000;
                    -(q as i64)
                }
            },
        }
    }

    /// The number as written in a file.
    pub fn serialise(&self) -> (r: Result<Vec<u8>, PdfError>)
        ensures
            r is Ok,
            r->Ok_0@ == number_text(self.value),
    {
        Ok(self.encode())
    }

    /// The number as written in a file.
    pub fn encode(&self) -> (v: Vec<u8>)
        ensures
            v@ == number_text(self.value),
    {
        let mut v: Vec<u8> = Vec::new();
        match self.value {
            NumberType::Integer(i) => crate::encoding::push_int(&mut v, i),
            NumberType::Real(r) => crate::encoding::push_real(&mut v, r),
        }
        v
    }
}

impl From<u8> for NumberType {
    /// The integer `i`.
    fn from(i: u8) -> (n: Self) {
        NumberType::Integer(i as i64)
    }
}

impl vstd::std_specs::convert::FromSpecImpl<u8> for NumberType {
    open spec fn obeys_from_spec() -> bool {
        true
    }

    open spec fn from_spec(i: u8) -> NumberType {
        NumberType::Integer(i as i64)
    }
}

impl From<usize> for NumberType {
    /// The integer `i`.
    fn from(i: usize) -> (n: Self) {
        NumberType::Integer(i as i64)
    }
}

impl vstd::std_specs::convert::FromSpecImpl<usize> for NumberType {
    open spec fn obeys_from_spec() -> bool {
        true
    }

    open spec fn from_spec(i: usize) -> NumberType {
        NumberType::Integer(i as i64)
    }
}

impl From<i64> for NumberType {
    /// The integer `i`.
    fn from(i: i64) -> (n: Self) {
        NumberType::Integer(i as i64)
    }
}

impl vstd::std_specs::convert::FromSpecImpl<i64> for NumberType {
    open spec fn obeys_from_spec() -> bool {
        true
    }

    open spec fn from_spec(i: i64) -> NumberType {
        NumberType::Integer(i as i64)
    }
}

impl From<i32> for NumberType {
    /// The integer `i`.
    fn from(i: i32) -> (n: Self) {
        NumberType::Integer(i as i64)
    }
}

impl vstd::std_specs::convert::FromSpecImpl<i32> for NumberType {
    open spec fn obeys_from_spec() -> bool {
        true
    }

    open spec fn from_spec(i: i32) -> NumberType {
        NumberType::Integer(i as i64)
    }
}

impl crate::encoding::ToPdfNum for NumberType {
    open spec fn pdf_text(&self) -> Seq<char> {
        crate::encoding::ascii_chars(number_text(*self))
    }

    /// An integer in decimal, a real number with at most four decimals.
    fn to_pdf_string(&self) -> (s: String) {
        let mut s = String::new();
        match self {
            NumberType::Integer(i) => crate::encoding::string_push_int(&mut s, *i),
            NumberType::Real(v) => crate::encoding::string_push_real(&mut s, *v),
        }
        s
    }
}

} // verus!
