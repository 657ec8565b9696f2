//! The categories of named resources, and the prefixes of the names given to them.
use vstd::prelude::*;
use crate::encoding::{ascii_chars, dec_digits};

verus! {

#[derive(Debug, Clone, Copy, PartialEq, Eq, Hash, Structural)]
pub enum ResourceCategory {
    ColorSpace,
    ExtGState,
    Font,
    Pattern,
    Properties,
    Shading,
    XObject,
    ProcSet,
}

/// The key of a category in a resource dictionary.
pub open spec fn category_name(c: ResourceCategory) -> Seq<char> {
    match c {
        ResourceCategory::ColorSpace => "ColorSpace"@,
        ResourceCategory::ExtGState => "ExtGState"@,
        ResourceCategory::Font => "Font"@,
        ResourceCategory::Pattern => "Pattern"@,
        ResourceCategory::Properties => "Properties"@,
        ResourceCategory::Shading => "Shading"@,
        ResourceCategory::XObject => "XObject"@,
        ResourceCategory::ProcSet => "ProcSet"@,
    }
}

/// The prefix of the names of the resources of a category.
pub open spec fn category_prefix(c: ResourceCategory) -> Seq<char> {
    match c {
        ResourceCategory::ColorSpace => "CS"@,
        ResourceCategory::ExtGState => "GS"@,
        ResourceCategory::Font => "F"@,
        ResourceCategory::Pattern => "P"@,
        ResourceCategory::Properties => "Pr"@,
        ResourceCategory::Shading => "Sh"@,
        ResourceCategory::XObject => "Im"@,
        ResourceCategory::ProcSet => "PS"@,
    }
}

impl ResourceCategory {
    pub fn as_str(&self) -> (s: &'static str)
        ensures
            s@ == category_name(*self),
    {
        match self {
            ResourceCategory::ColorSpace => "ColorSpace",
            ResourceCategory::ExtGState => "ExtGState",
            ResourceCategory::Font => "Font",
            ResourceCategory::Pattern => "Pattern",
            ResourceCategory::Properties => "Properties",
            ResourceCategory::Shading => "Shading",
            ResourceCategory::XObject => "XObject",
            ResourceCategory::ProcSet => "ProcSet",
        }
    }

    pub fn prefix(&self) -> (s: &'static str)
        ensures
            s@ == category_prefix(*self),
    {
        match self {
            ResourceCategory::ColorSpace => "CS",
            ResourceCategory::ExtGState => "GS",
            ResourceCategory::Font => "F",
            ResourceCategory::Pattern => "P",
            ResourceCategory::Properties => "Pr",
            ResourceCategory::Shading => "Sh",
            ResourceCategory::XObject => "Im",
            ResourceCategory::ProcSet => "PS",
        }
    }
}

/// `c` is an ASCII letter.
pub open spec fn is_ascii_letter(c: char) -> bool {
    ('A' <= c <= 'Z') || ('a' <= c <= 'z')
}

/// The prefixes are one or two ASCII letters, and different categories have different
/// prefixes.
pub proof fn law_prefixes_distinct(a: ResourceCategory, b: ResourceCategory)
    ensures
        1 <= category_prefix(a).len() <= 2,
        forall|i: int| 0 <= i < category_prefix(a).len() ==> is_ascii_letter(#[trigger] category_prefix(a)[i]),
        a != b ==> category_prefix(a) != category_prefix(b),
{
    reveal_strlit("CS");
    reveal_strlit("GS");
    reveal_strlit("F");
    reveal_strlit("P");
    reveal_strlit("Pr");
    reveal_strlit("Sh");
    reveal_strlit("Im");
    reveal_strlit("PS");
    if a != b {
        let pa = category_prefix(a);
        let pb = category_prefix(b);
        if pa.len() == pb.len() {
            if pa.len() == 1 {
                assert(pa[0] != pb[0]);
            } else {
                assert(pa[0] != pb[0] || pa[1] != pb[1]);
            }
        }
    }
}

/// Names made of a category's prefix followed by the decimal digits of a number, such as
/// `F0`, `GS1` or `P2`, never collide across categories: the prefix followed by a digit shows
/// which category gave the name.
pub proof fn law_prefixed_names_distinct(a: ResourceCategory, b: ResourceCategory, n: nat, m: nat)
    requires
        a != b,
    ensures
        category_prefix(a) + ascii_chars(dec_digits(n)) != category_prefix(b) + ascii_chars(dec_digits(m)),
{
    let x = category_prefix(a) + ascii_chars(dec_digits(n));
    let y = category_prefix(b) + ascii_chars(dec_digits(m));
    if x == y {
        let pa = category_prefix(a);
        let pb = category_prefix(b);
        law_prefixes_distinct(a, b);
        law_prefixes_distinct(b, a);
        crate::encoding::lemma_dec_digits_ascii(n);
        crate::encoding::lemma_dec_digits_ascii(m);
        let da = ascii_chars(dec_digits(n));
        let db = ascii_chars(dec_digits(m));
        assert(da.len() >= 1 && db.len() >= 1);
        assert(48 <= dec_digits(n)[0] <= 57);
        assert(48 <= dec_digits(m)[0] <= 57);
        assert(da[0] == dec_digits(n)[0] as char);
        assert(db[0] == dec_digits(m)[0] as char);
        if pa.len() == pb.len() {
            assert(x.subrange(0, pa.len() as int) =~= pa);
            assert(y.subrange(0, pb.len() as int) =~= pb);
        } else if pa.len() == 1 {
            assert(x[1] == da[0]);
            assert(y[1] == pb[1]);
            assert(is_ascii_letter(pb[1]));
        } else {
            assert(x[1] == pa[1]);
            assert(y[1] == db[0]);
            assert(is_ascii_letter(pa[1]));
        }
    }
}

/// The names of the standard categories, in the order in which they are listed.
pub open spec fn standard_categories() -> Seq<Seq<char>> {
    seq![
        "ColorSpace"@,
        "ExtGState"@,
        "Font"@,
        "Pattern"@,
        "Properties"@,
        "Shading"@,
        "XObject"@,
        "ProcSet"@,
    ]
}

/// Whether `s` names a standard category.
pub fn is_standard_category(s: &str) -> (b: bool)
    ensures
        b == standard_categories().contains(s@),
{
    let names: [&str; 8] = ["ColorSpace", "ExtGState", "Font", "Pattern", "Properties", "Shading", "XObject", "ProcSet"];
    let mut i: usize = 0;
    while i < 8
        invariant
            i <= 8,
            forall|j: int| 0 <= j < 8 ==> (#[trigger] names@[j])@ == standard_categories()[j],
            forall|j: int| 0 <= j < i ==> standard_categories()[j] != s@,
        decreases 8 - i,
    {
        if crate::encoding::str_eq(names[i], s) {
            assert(standard_categories()[i as int] == s@);
            return true;
        }
        i = i + 1;
    }
    false
}

} // verus!
