//! Array objects: a sequence of objects between square brackets.
use vstd::prelude::*;
use crate::PdfError;
use crate::objects::number::{NumberType, PdfNumberObject, number_as_real};
use crate::objects::pdf_object::{PdfObject, unexpected_type_message};

verus! {

pub struct PdfArrayObject {
    pub values: Vec<PdfObject>,
    pub object_number: Option<u64>,
    pub generation_number: Option<u16>,
}

/// The values of the number objects `s` in ten-thousandths when they are all numbers; the
/// error of the first element that is not a number otherwise.
pub open spec fn reals_of(s: Seq<PdfObject>, r: Result<Vec<i128>, PdfError>) -> bool {
    match r {
        Ok(v) => v@.len() == s.len() && forall|i: int|
            0 <= i < s.len() ==> ((#[trigger] s[i]) matches PdfObject::Number(n) && v@[i] == number_as_real(n.value)),
        Err(e) => exists|k: int|
            0 <= k < s.len() && (forall|i: int| 0 <= i < k ==> (#[trigger] s[i]) is Number) && !(s[k] is Number)
                && (e matches PdfError::StructureError(m) && m@ == unexpected_type_message(s[k])),
    }
}

/// The real number objects of the values `v`, held in ten-thousandths.
pub open spec fn real_objects(v: Seq<i64>) -> Seq<PdfObject> {
    v.map_values(|x: i64| PdfObject::Number(PdfNumberObject { value: NumberType::Real(x) }))
}

impl PdfArrayObject {
    pub fn new() -> (a: Self)
        ensures
            a.values@ == Seq::<PdfObject>::empty(),
            a.object_number is None,
            a.generation_number is None,
    {
        Self { values: Vec::new(), object_number: None, generation_number: None }
    }

    pub fn from_vec(values: Vec<PdfObject>) -> (a: Self)
        ensures
            a.values@ == values@,
            a.object_number is None,
            a.generation_number is None,
    {
        Self { values, object_number: None, generation_number: None }
    }

    /// An array of integer objects, one for each value.
    pub fn from_vec_u32(values: Vec<u32>) -> (a: Self)
        ensures
            a.values@.len() == values@.len(),
            forall|i: int|
                0 <= i < values@.len() ==> #[trigger] a.values@[i] == PdfObject::Number(
                    crate::objects::number::PdfNumberObject {
                        value: crate::objects::number::NumberType::Integer(values@[i] as i64),
                    },
                ),
            a.object_number is None,
            a.generation_number is None,
    {
        let mut out: Vec<PdfObject> = Vec::new();
        let mut i: usize = 0;
        while i < values.len()
            invariant
                i <= values@.len(),
                out@.len() == i,
                forall|j: int|
                    0 <= j < i ==> #[trigger] out@[j] == PdfObject::Number(
                        crate::objects::number::PdfNumberObject {
                            value: crate::objects::number::NumberType::Integer(values@[j] as i64),
                        },
                    ),
            decreases values@.len() - i,
        {
            out.push(
                PdfObject::Number(
                    crate::objects::number::PdfNumberObject {
                        value: crate::objects::number::NumberType::Integer(values[i] as i64),
                    },
                ),
            );
            i = i + 1;
        }
        Self { values: out, object_number: None, generation_number: None }
    }

    /// An array of real number objects, one for each value (in ten-thousandths).
    pub fn from_vec_f32(values: Vec<i64>) -> (a: Self)
        ensures
            a.values@ == real_objects(values@),
            a.object_number is None,
            a.generation_number is None,
    {
        Self::from_vec_f64(values)
    }

    /// An array of real number objects, one for each value (in ten-thousandths).
    pub fn from_vec_f64(values: Vec<i64>) -> (a: Self)
        ensures
            a.values@ == real_objects(values@),
            a.object_number is None,
            a.generation_number is None,
    {
        let mut out: Vec<PdfObject> = Vec::new();
        let mut i: usize = 0;
        while i < values.len()
            invariant
                i <= values@.len(),
                out@ == real_objects(values@.take(i as int)),
            decreases values@.len() - i,
        {
            out.push(PdfObject::Number(PdfNumberObject { value: NumberType::Real(values[i]) }));
            assert(real_objects(values@.take(i + 1)) =~= real_objects(values@.take(i as int)).push(
                PdfObject::Number(PdfNumberObject { value: NumberType::Real(values@[i as int]) }),
            ));
            i = i + 1;
        }
        assert(values@.take(values@.len() as int) =~= values@);
        Self { values: out, object_number: None, generation_number: None }
    }

    /// The values of the elements in ten-thousandths; an error for the first element that is
    /// not a number.
    pub fn to_vec_f64(&self) -> (r: Result<Vec<i128>, PdfError>)
        ensures
            reals_of(self.values@, r),
    {
        let mut out: Vec<i128> = Vec::new();
        let mut i: usize = 0;
        while i < self.values.len()
            invariant
                i <= self.values@.len(),
                out@.len() == i,
                forall|j: int|
                    0 <= j < i ==> ((#[trigger] self.values@[j]) matches PdfObject::Number(n) && out@[j]
                        == number_as_real(n.value)),
            decreases self.values@.len() - i,
        {
            match self.values[i].as_f64() {
                Ok(v) => out.push(v),
                Err(e) => {
                    assert(forall|j: int| 0 <= j < i ==> (#[trigger] self.values@[j]) is Number);
                    return Err(e);
                },
            }
            i = i + 1;
        }
        Ok(out)
    }

    /// Appends an object.
    pub fn push(&mut self, value: PdfObject)
        ensures
            final(self).values@ == old(self).values@.push(value),
            final(self).object_number == old(self).object_number,
            final(self).generation_number == old(self).generation_number,
    {
        self.values.push(value);
    }

    pub fn with_object_number(self, value: u64) -> (a: Self)
        ensures
            a.values@ == self.values@,
            a.object_number == Some(value),
            a.generation_number == self.generation_number,
    {
        let mut s = self;
        s.object_number = Some(value);
        s
    }

    pub fn with_generation_number(self, value: u16) -> (a: Self)
        ensures
            a.values@ == self.values@,
            a.object_number == self.object_number,
            a.generation_number == Some(value),
    {
        let mut s = self;
        s.generation_number = Some(value);
        s
    }
}

} // verus!
