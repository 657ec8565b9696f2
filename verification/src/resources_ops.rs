//! The named resources of a content stream held as a resource dictionary: each category
//! maps generated names (`F0`, `GS1`, ...) to object numbers.
use vstd::prelude::*;
use crate::PdfError;
use crate::encoding::{ascii_chars, dec_digits};
use crate::objects::dictionary::{
    PdfDictionaryObject, has_key, keys_after_set, keys_of, lookup, plain_dict, sub_entries,
};
use crate::objects::number::{NumberType, PdfNumberObject};
use crate::objects::pdf_object::PdfObject;
use crate::resource_category::{ResourceCategory, category_name, category_prefix};

verus! {

/// A resource dictionary that names the resources it is given.
pub struct NamedResources {
    dictionary: PdfDictionaryObject,
}

/// The name given to the resource numbered `n` within category `cat`: its prefix and `n`.
/// Names of different categories never collide (see
/// [`crate::resource_category::law_prefixed_names_distinct`]).
pub open spec fn resource_name(cat: ResourceCategory, n: nat) -> Seq<char> {
    category_prefix(cat) + ascii_chars(dec_digits(n))
}

/// The number of names that category `cat` holds in the entries `s`.
pub open spec fn category_len(s: Seq<(crate::objects::name::PdfNameObject, PdfObject)>, cat: ResourceCategory) -> nat {
    sub_entries(s, category_name(cat)).len()
}

/// The names that a category gives are all different: the name given to the resource counted
/// `n` is never that given to the one counted `m`, for `n` and `m` apart.
pub proof fn law_resource_names_distinct(cat: ResourceCategory, n: nat, m: nat)
    requires
        n != m,
    ensures
        resource_name(cat, n) != resource_name(cat, m),
{
    if resource_name(cat, n) == resource_name(cat, m) {
        let p = category_prefix(cat);
        let a = resource_name(cat, n);
        let b = resource_name(cat, m);
        assert(a.subrange(p.len() as int, a.len() as int) =~= ascii_chars(dec_digits(n)));
        assert(b.subrange(p.len() as int, b.len() as int) =~= ascii_chars(dec_digits(m)));
        crate::encoding::lemma_dec_text_injective(n, m);
    }
}

impl NamedResources {
    /// The resource dictionary.
    pub closed spec fn dict(&self) -> PdfDictionaryObject {
        self.dictionary
    }

    pub fn new() -> (r: Self)
        ensures
            plain_dict(r.dict()),
            r.dict().values@.len() == 0,
    {
        Self { dictionary: PdfDictionaryObject::new() }
    }

    /// A resource dictionary holding the twelve standard fonts under `/Font`.
    pub fn with_standard_fonts() -> (r: Result<Self, PdfError>)
        ensures
            r matches Ok(res) && {
                &&& plain_dict(res.dict())
                &&& keys_of(res.dict().values@) =~= seq!["Font"@]
                &&& res.dict().values@[0].1 matches PdfObject::Dictionary(f) && f.values@.len() == 12
            },
    {
        let mut res = Self::new();
        let fonts = match crate::fonts::standard_fonts_dict() {
            Ok(f) => f,
            Err(e) => {
                return Err(e);
            },
        };
        res.dictionary.put_new("Font", PdfObject::Dictionary(fonts));
        Ok(res)
    }

    /// Registers the object `object_id` under category `cat` and returns the name it is given:
    /// the category's prefix followed by the number of names the category held before.
    pub fn add(&mut self, cat: ResourceCategory, object_id: u64) -> (name: String)
        ensures
            name@ == resource_name(cat, category_len(old(self).dict().values@, cat)),
            old(self).dict().wf() ==> final(self).dict().wf(),
            final(self).dict().object_number == old(self).dict().object_number,
            keys_of(final(self).dict().values@) == keys_after_set(old(self).dict().values@, category_name(cat)),
            forall|k2: Seq<char>|
                k2 != category_name(cat) ==> lookup(final(self).dict().values@, k2) == lookup(
                    old(self).dict().values@,
                    k2,
                ),
            lookup(final(self).dict().values@, category_name(cat)) matches Some(PdfObject::Dictionary(d)) && {
                let sub = sub_entries(old(self).dict().values@, category_name(cat));
                &&& keys_of(d.values@) == keys_after_set(sub, name@)
                &&& lookup(d.values@, name@) == Some(
                    PdfObject::Number(PdfNumberObject { value: NumberType::Integer(object_id as i64) }),
                )
                &&& forall|k2: Seq<char>| k2 != name@ ==> lookup(d.values@, k2) == lookup(sub, k2)
            },
    {
        let cat_str = cat.as_str();
        let count = self.category_count(cat);
        let mut name = String::new();
        crate::encoding::string_push_str(&mut name, cat.prefix());
        crate::encoding::string_push_decimal(&mut name, count as u64);
        self.dictionary.set_in_sub_dict(
            cat_str,
            name.as_str(),
            PdfObject::Number(PdfNumberObject { value: NumberType::Integer(object_id as i64) }),
        );
        name
    }

    /// The dictionary of category `cat`, if it is present and is a dictionary.
    pub fn get(&self, cat: ResourceCategory) -> (r: Option<&PdfDictionaryObject>)
        ensures
            match r {
                Some(d) => lookup(self.dict().values@, category_name(cat)) == Some(PdfObject::Dictionary(*d)),
                None => !(lookup(self.dict().values@, category_name(cat)) matches Some(PdfObject::Dictionary(_))),
            },
    {
        self.dictionary.get_dict(cat.as_str())
    }

    /// Whether category `cat` is present.
    pub fn contains(&self, cat: ResourceCategory) -> (b: bool)
        ensures
            b == has_key(self.dict().values@, category_name(cat)),
    {
        self.dictionary.contains_key(cat.as_str())
    }

    /// The number of names of category `cat`.
    pub fn category_count(&self, cat: ResourceCategory) -> (n: usize)
        ensures
            n == category_len(self.dict().values@, cat),
    {
        match self.dictionary.get_dict(cat.as_str()) {
            Some(d) => d.len(),
            None => 0,
        }
    }

    pub fn is_empty(&self) -> (b: bool)
        ensures
            b == (self.dict().values@.len() == 0),
    {
        self.len() == 0
    }

    /// The number of categories.
    pub fn len(&self) -> (n: usize)
        ensures
            n == self.dict().values@.len(),
    {
        self.dictionary.len()
    }
}

} // verus!
