//! Allocation of object numbers.
use vstd::prelude::*;
use std::cmp::Ordering;
use vstd::std_specs::cmp::{PartialOrdSpec, PartialOrdSpecImpl};
use crate::version::Version;

verus! {

/// The number of an indirect object.
#[derive(Clone, Copy, Debug, PartialEq, Eq, Structural, Ord)]
pub struct ObjectNumber {
    object_number: u64,
}

impl ObjectNumber {
    pub closed spec fn spec_value(self) -> u64 {
        self.object_number
    }

    pub fn new(value: u64) -> (n: Self)
        ensures
            n.spec_value() == value,
    {
        Self { object_number: value }
    }

    pub fn value(self) -> (v: u64)
        ensures
            v == self.spec_value(),
    {
        self.object_number
    }

    /// The decimal text of the number.
    pub fn to_string(&self) -> (s: String)
        ensures
            s@ == crate::encoding::ascii_chars(crate::encoding::dec_digits(self.spec_value() as nat)),
    {
        let mut v: Vec<u8> = Vec::new();
        crate::encoding::push_decimal(&mut v, self.object_number);
        proof {
            crate::encoding::lemma_dec_digits_ascii(self.object_number as nat);
        }
        crate::encoding::ascii_to_string(v)
    }
}


/// Object numbers are ordered as their values.
impl PartialOrd for ObjectNumber {
    fn partial_cmp(&self, other: &Self) -> (r: Option<Ordering>) {
        if self.object_number < other.object_number {
            Some(Ordering::Less)
        } else if self.object_number == other.object_number {
            Some(Ordering::Equal)
        } else {
            Some(Ordering::Greater)
        }
    }
}

impl PartialOrdSpecImpl for ObjectNumber {
    open spec fn obeys_partial_cmp_spec() -> bool {
        true
    }

    open spec fn partial_cmp_spec(&self, other: &Self) -> Option<Ordering> {
        if self.spec_value() < other.spec_value() {
            Some(Ordering::Less)
        } else if self.spec_value() == other.spec_value() {
            Some(Ordering::Equal)
        } else {
            Some(Ordering::Greater)
        }
    }
}

/// Two object numbers are equal exactly when their values are, and they compare as their
/// values do.
pub proof fn law_object_numbers_compare_as_values(a: ObjectNumber, b: ObjectNumber)
    ensures
        (a == b) == (a.spec_value() == b.spec_value()),
        (PartialOrdSpec::partial_cmp_spec(&a, &b) == Some(Ordering::Less)) == (a.spec_value() < b.spec_value()),
        (PartialOrdSpec::partial_cmp_spec(&a, &b) == Some(Ordering::Equal)) == (a.spec_value() == b.spec_value()),
        (PartialOrdSpec::partial_cmp_spec(&a, &b) == Some(Ordering::Greater)) == (a.spec_value() > b.spec_value()),
{
}

/// Hands out object numbers in increasing order, starting at 1. Object 0 is the free head of
/// the cross-reference table.
pub struct ObjectOps {
    version: Version,
    last_object_number: ObjectNumber,
}

impl ObjectOps {
    pub closed spec fn last(&self) -> u64 {
        self.last_object_number.spec_value()
    }

    pub closed spec fn spec_version(&self) -> Version {
        self.version
    }

    pub fn new(version: Version) -> (o: Self)
        ensures
            o.last() == 0,
            o.spec_version() == version,
    {
        Self { version, last_object_number: ObjectNumber::new(0) }
    }

    pub fn last_object_number(&self) -> (n: ObjectNumber)
        ensures
            n.spec_value() == self.last(),
    {
        self.last_object_number
    }

    /// The next object number: one more than the last one handed out.
    pub fn next_object_number(&mut self) -> (n: ObjectNumber)
        requires
            old(self).last() < u64::MAX,
        ensures
            n.spec_value() == old(self).last() + 1,
            final(self).last() == n.spec_value(),
            final(self).spec_version() == old(self).spec_version(),
    {
        self.last_object_number = ObjectNumber::new(self.last_object_number.value() + 1);
        self.last_object_number
    }
}

/// Object numbers are handed out in increasing order: each is greater than every one before
/// it. `a`, `b` and `c` are the allocator before, between and after two calls that returned
/// `n1` and `n2`.
pub proof fn law_numbers_increase(a: ObjectOps, b: ObjectOps, c: ObjectOps, n1: ObjectNumber, n2: ObjectNumber)
    requires
        n1.spec_value() == a.last() + 1,
        b.last() == n1.spec_value(),
        n2.spec_value() == b.last() + 1,
        c.last() == n2.spec_value(),
    ensures
        n1.spec_value() > a.last(),
        n2.spec_value() > n1.spec_value(),
        c.last() > a.last(),
        n1.spec_value() >= 1,
{
}

} // verus!
