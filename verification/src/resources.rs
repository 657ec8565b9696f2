//! The named resources of a content stream, grouped by category (fonts, graphics states,
//! patterns, ...), each name standing for an object number.
//!
//! A category appears at most once, and within a category a name appears at most once:
//! adding a name that is already there replaces its object number.
use vstd::prelude::*;
use crate::{PdfError, PdfResult};
use crate::objects::dictionary::{PdfDictionaryObject, keys_of, plain_dict};
use crate::objects::number::NumberType;
use crate::objects::pdf_object::{PdfObject, is_number};
use crate::resource_category::{is_standard_category, standard_categories};

verus! {

/// The index of the first pair of `s` whose key is `k`, or -1 if there is none.
pub open spec fn assoc_index<V>(s: Seq<(Seq<char>, V)>, k: Seq<char>) -> int
    decreases s.len(),
{
    if s.len() == 0 {
        -1
    } else if s[0].0 == k {
        0
    } else {
        let r = assoc_index(s.drop_first(), k);
        if r < 0 {
            -1
        } else {
            r + 1
        }
    }
}

/// The value of the key `k` in `s`.
pub open spec fn assoc_get<V>(s: Seq<(Seq<char>, V)>, k: Seq<char>) -> Option<V> {
    if assoc_index(s, k) >= 0 {
        Some(s[assoc_index(s, k)].1)
    } else {
        None
    }
}

/// `s` with the value of `k` replaced by `v`, or with the pair `(k, v)` appended when `k` is
/// absent.
pub open spec fn assoc_set<V>(s: Seq<(Seq<char>, V)>, k: Seq<char>, v: V) -> Seq<(Seq<char>, V)> {
    if assoc_index(s, k) >= 0 {
        s.update(assoc_index(s, k), (k, v))
    } else {
        s.push((k, v))
    }
}

/// No two pairs of `s` have the same key.
pub open spec fn assoc_unique<V>(s: Seq<(Seq<char>, V)>) -> bool {
    forall|i: int, j: int| 0 <= i < s.len() && 0 <= j < s.len() && i != j ==> #[trigger] s[i].0 != #[trigger] s[j].0
}

pub proof fn lemma_assoc_index<V>(s: Seq<(Seq<char>, V)>, k: Seq<char>)
    ensures
        -1 <= assoc_index(s, k) < s.len(),
        assoc_index(s, k) >= 0 ==> s[assoc_index(s, k)].0 == k,
        forall|j: int| 0 <= j < assoc_index(s, k) ==> #[trigger] s[j].0 != k,
        assoc_index(s, k) == -1 ==> forall|j: int| 0 <= j < s.len() ==> #[trigger] s[j].0 != k,
    decreases s.len(),
{
    if s.len() > 0 && s[0].0 != k {
        lemma_assoc_index(s.drop_first(), k);
        assert forall|j: int| 0 <= j < assoc_index(s, k) implies #[trigger] s[j].0 != k by {
            if j > 0 {
                assert(s[j] == s.drop_first()[j - 1]);
            }
        }
        assert forall|j: int| assoc_index(s, k) == -1 && 0 <= j < s.len() implies #[trigger] s[j].0 != k by {
            if j > 0 {
                assert(s[j] == s.drop_first()[j - 1]);
            }
        }
    }
}

pub proof fn lemma_assoc_index_at<V>(s: Seq<(Seq<char>, V)>, k: Seq<char>, i: int)
    requires
        0 <= i < s.len(),
        s[i].0 == k,
        forall|j: int| 0 <= j < i ==> #[trigger] s[j].0 != k,
    ensures
        assoc_index(s, k) == i,
{
    lemma_assoc_index(s, k);
}

/// Setting a key keeps the keys unique, gives the key its new value and leaves every other
/// key's value as it was.
pub proof fn lemma_assoc_set<V>(s: Seq<(Seq<char>, V)>, k: Seq<char>, v: V)
    requires
        assoc_unique(s),
    ensures
        assoc_unique(assoc_set(s, k, v)),
        assoc_get(assoc_set(s, k, v), k) == Some(v),
        forall|k2: Seq<char>| k2 != k ==> assoc_get(#[trigger] assoc_set(s, k, v), k2) == assoc_get(s, k2),
{
    lemma_assoc_index(s, k);
    let t = assoc_set(s, k, v);
    let i = assoc_index(s, k);
    assert forall|a: int, b: int| 0 <= a < t.len() && 0 <= b < t.len() && a != b implies #[trigger] t[a].0
        != #[trigger] t[b].0 by {
        if i >= 0 {
            assert(t[a].0 == s[a].0 && t[b].0 == s[b].0);
        } else {
            if a < s.len() && b < s.len() {
                assert(t[a] == s[a] && t[b] == s[b]);
            } else if a < s.len() {
                assert(t[a] == s[a]);
            } else {
                assert(t[b] == s[b]);
            }
        }
    }
    lemma_assoc_index(t, k);
    if i >= 0 {
        assert forall|j: int| 0 <= j < i implies #[trigger] t[j].0 != k by {
            assert(t[j] == s[j]);
        }
        lemma_assoc_index_at(t, k, i);
    } else {
        assert forall|j: int| 0 <= j < s.len() implies #[trigger] t[j].0 != k by {
            assert(t[j] == s[j]);
        }
        lemma_assoc_index_at(t, k, s.len() as int);
    }
    assert forall|k2: Seq<char>| k2 != k implies assoc_get(#[trigger] assoc_set(s, k, v), k2) == assoc_get(s, k2) by {
        lemma_assoc_index(s, k2);
        lemma_assoc_index(t, k2);
        let i2 = assoc_index(s, k2);
        if i2 >= 0 {
            assert forall|j: int| 0 <= j < i2 implies #[trigger] t[j].0 != k2 by {
                if j != i || i < 0 {
                    if j < s.len() {
                        assert(t[j].0 == s[j].0);
                    }
                }
            }
            assert(t[i2].0 == s[i2].0);
            lemma_assoc_index_at(t, k2, i2);
            assert(t[i2] == s[i2]);
        } else {
            assert forall|j: int| 0 <= j < t.len() implies #[trigger] t[j].0 != k2 by {
                if j < s.len() {
                    if i >= 0 {
                        assert(t[j].0 == s[j].0);
                    } else {
                        assert(t[j] == s[j]);
                    }
                }
            }
        }
    }
}

/// The names and object numbers of a category, as its characters and numbers.
pub open spec fn names_view(s: Seq<(String, usize)>) -> Seq<(Seq<char>, usize)> {
    Seq::new(s.len(), |j: int| (s[j].0@, s[j].1))
}

/// The names of category `cat` in `v`, none when the category is absent.
pub open spec fn entries_of(v: Seq<(Seq<char>, Seq<(Seq<char>, usize)>)>, cat: Seq<char>) -> Seq<(Seq<char>, usize)> {
    match assoc_get(v, cat) {
        Some(e) => e,
        None => Seq::empty(),
    }
}

/// The named resources, by category.
pub struct ResourceMap {
    categories: Vec<(String, Vec<(String, usize)>)>,
}

impl View for ResourceMap {
    type V = Seq<(Seq<char>, Seq<(Seq<char>, usize)>)>;

    closed spec fn view(&self) -> Self::V {
        Seq::new(self.categories@.len(), |i: int| (self.categories@[i].0@, names_view(self.categories@[i].1@)))
    }
}

/// `o` is the dictionary of the names `e`, each with its object number as an integer.
pub open spec fn is_names_dict(o: PdfObject, e: Seq<(Seq<char>, usize)>) -> bool {
    o matches PdfObject::Dictionary(sd) && {
        &&& plain_dict(sd)
        &&& sd.values@.len() == e.len()
        &&& forall|j: int|
            0 <= j < e.len() ==> (#[trigger] sd.values@[j]).0.value@ == e[j].0 && is_number(
                sd.values@[j].1,
                NumberType::Integer(e[j].1 as i64),
            )
    }
}

/// The resource dictionary: one entry per category, in order, with the dictionary of its
/// names.
pub open spec fn is_resource_dict(v: Seq<(Seq<char>, Seq<(Seq<char>, usize)>)>, d: PdfDictionaryObject) -> bool {
    &&& plain_dict(d)
    &&& d.values@.len() == v.len()
    &&& forall|i: int|
        0 <= i < v.len() ==> (#[trigger] d.values@[i]).0.value@ == v[i].0 && is_names_dict(d.values@[i].1, v[i].1)
}

/// The message of the error for a category that is not a standard one.
pub open spec fn invalid_category_message(category: Seq<char>) -> Seq<char> {
    "Invalid resource category: '"@ + category
        + "'. Expected one of [\"ColorSpace\", \"ExtGState\", \"Font\", \"Pattern\", \"Properties\", \"Shading\", \"XObject\", \"ProcSet\"]"@
}

impl ResourceMap {
    /// Each category appears once, and each name once within its category.
    pub closed spec fn wf(&self) -> bool {
        &&& assoc_unique(self@)
        &&& forall|i: int| 0 <= i < self@.len() ==> assoc_unique(#[trigger] self@[i].1)
    }

    pub fn new() -> (r: Self)
        ensures
            r@ == Seq::<(Seq<char>, Seq<(Seq<char>, usize)>)>::empty(),
            r.wf(),
    {
        let r = Self { categories: Vec::new() };
        assert(r@ =~= Seq::<(Seq<char>, Seq<(Seq<char>, usize)>)>::empty());
        r
    }

    /// The index of the category `cat`.
    fn find_category(&self, cat: &str) -> (r: Option<usize>)
        ensures
            match r {
                Some(i) => i == assoc_index(self@, cat@),
                None => assoc_index(self@, cat@) == -1,
            },
    {
        proof {
            lemma_assoc_index(self@, cat@);
        }
        let mut i: usize = 0;
        while i < self.categories.len()
            invariant
                i <= self@.len(),
                self@.len() == self.categories@.len(),
                forall|j: int| 0 <= j < i ==> #[trigger] self@[j].0 != cat@,
            decreases self@.len() - i,
        {
            assert(self@[i as int].0 == self.categories@[i as int].0@);
            if crate::encoding::str_eq(self.categories[i].0.as_str(), cat) {
                proof {
                    lemma_assoc_index_at(self@, cat@, i as int);
                }
                return Some(i);
            }
            i = i + 1;
        }
        None
    }

    /// Fails unless `category` is a standard category.
    fn validate_resource_category(category: &str) -> (r: PdfResult<()>)
        ensures
            r is Ok <==> standard_categories().contains(category@),
            r is Err ==> (r matches Err(PdfError::StructureError(m)) && m@ == invalid_category_message(category@)),
    {
        if is_standard_category(category) {
            Ok(())
        } else {
            let mut m = String::new();
            crate::encoding::string_push_str(&mut m, "Invalid resource category: '");
            crate::encoding::string_push_str(&mut m, category);
            crate::encoding::string_push_str(
                &mut m,
                "'. Expected one of [\"ColorSpace\", \"ExtGState\", \"Font\", \"Pattern\", \"Properties\", \"Shading\", \"XObject\", \"ProcSet\"]",
            );
            Err(PdfError::StructureError(m))
        }
    }

    /// Makes sure that the category `category` is present, and returns a handle through which
    /// names are added to it. Fails, changing nothing, unless it is a standard category.
    pub fn implement(&mut self, category: &str) -> (r: PdfResult<CategoryHandle<'_>>)
        requires
            old(self).wf(),
        ensures
            !standard_categories().contains(category@) ==> {
                &&& r matches Err(PdfError::StructureError(m)) && m@ == invalid_category_message(category@)
                &&& final(self)@ == old(self)@
                &&& final(self).wf()
            },
            standard_categories().contains(category@) ==> (r matches Ok(h) && {
                &&& h.category@ == category@
                &&& (*h.dictionary)@ == assoc_set(old(self)@, category@, entries_of(old(self)@, category@))
                &&& (*h.dictionary).wf()
                &&& *final(self) == *final(h.dictionary)
            }),
    {
        match Self::validate_resource_category(category) {
            Ok(()) => {},
            Err(e) => {
                return Err(e);
            },
        }
        self.ensure_category(category);
        let mut c = String::new();
        crate::encoding::string_push_str(&mut c, category);
        Ok(CategoryHandle { dictionary: self, category: c })
    }

    /// Adds the category `cat` without names when it is absent.
    fn ensure_category(&mut self, cat: &str)
        requires
            old(self).wf(),
        ensures
            final(self)@ == assoc_set(old(self)@, cat@, entries_of(old(self)@, cat@)),
            final(self).wf(),
    {
        proof {
            lemma_assoc_index(self@, cat@);
            lemma_assoc_set(self@, cat@, entries_of(self@, cat@));
        }
        match self.find_category(cat) {
            Some(i) => {
                assert(assoc_set(self@, cat@, entries_of(self@, cat@)) =~= self@);
            },
            None => {
                let ghost before = self@;
                let mut c = String::new();
                crate::encoding::string_push_str(&mut c, cat);
                let empty: Vec<(String, usize)> = Vec::new();
                assert(names_view(empty@) =~= Seq::<(Seq<char>, usize)>::empty());
                self.categories.push((c, empty));
                assert(self@ =~= before.push((cat@, Seq::<(Seq<char>, usize)>::empty())));
                proof {
                    let t = self@;
                    assert forall|i: int| 0 <= i < t.len() implies assoc_unique(#[trigger] t[i].1) by {
                        if i < before.len() {
                            assert(t[i] == before[i]);
                        } else {
                            assert(t[i].1 =~= Seq::<(Seq<char>, usize)>::empty());
                        }
                    }
                }
            },
        }
    }

    /// Gives the name `name` of category `category` the object number `id`, adding the
    /// category and the name when they are absent.
    pub fn add(&mut self, category: &str, name: &str, id: usize)
        requires
            old(self).wf(),
        ensures
            final(self).wf(),
            final(self)@ == assoc_set(
                old(self)@,
                category@,
                assoc_set(entries_of(old(self)@, category@), name@, id),
            ),
    {
        proof {
            lemma_assoc_index(self@, category@);
        }
        let ghost before = self@;
        let ghost inner = entries_of(before, category@);
        proof {
            if assoc_index(before, category@) >= 0 {
                assert(assoc_unique(before[assoc_index(before, category@)].1));
            }
            assert(assoc_unique(inner));
            lemma_assoc_set(inner, name@, id);
            lemma_assoc_set(before, category@, assoc_set(inner, name@, id));
        }
        match self.find_category(category) {
            Some(i) => {
                let (c, names) = self.categories.remove(i);
                let mut names = names;
                assert(names_view(names@) == inner);
                Self::set_name(&mut names, name, id);
                self.categories.insert(i, (c, names));
                assert(self@ =~= before.update(i as int, (category@, assoc_set(inner, name@, id))));
            },
            None => {
                let mut c = String::new();
                crate::encoding::string_push_str(&mut c, category);
                let mut names: Vec<(String, usize)> = Vec::new();
                assert(names_view(names@) =~= inner);
                Self::set_name(&mut names, name, id);
                self.categories.push((c, names));
                assert(self@ =~= before.push((category@, assoc_set(inner, name@, id))));
            },
        }
        proof {
            let t = self@;
            assert forall|i: int| 0 <= i < t.len() implies assoc_unique(#[trigger] t[i].1) by {
                if i < before.len() && i != assoc_index(before, category@) {
                    assert(t[i] == before[i]);
                }
            }
        }
    }

    /// Gives `name` the number `id` in `names`, appending it when it is absent.
    fn set_name(names: &mut Vec<(String, usize)>, name: &str, id: usize)
        ensures
            names_view(final(names)@) == assoc_set(names_view(old(names)@), name@, id),
    {
        let ghost v = names_view(names@);
        proof {
            lemma_assoc_index(v, name@);
        }
        let mut i: usize = 0;
        while i < names.len()
            invariant
                i <= names@.len(),
                v == names_view(names@),
                names@ == old(names)@,
                forall|j: int| 0 <= j < i ==> #[trigger] v[j].0 != name@,
            decreases names@.len() - i,
        {
            assert(v[i as int].0 == names@[i as int].0@);
            if crate::encoding::str_eq(names[i].0.as_str(), name) {
                proof {
                    lemma_assoc_index_at(v, name@, i as int);
                }
                let (n, _old_id) = names.remove(i);
                names.insert(i, (n, id));
                assert(names_view(names@) =~= v.update(i as int, (name@, id)));
                return;
            }
            i = i + 1;
        }
        let mut n = String::new();
        crate::encoding::string_push_str(&mut n, name);
        names.push((n, id));
        assert(names_view(names@) =~= v.push((name@, id)));
    }

    /// The resource dictionary (see [`is_resource_dict`]).
    pub fn to_dict(&self) -> (d: PdfDictionaryObject)
        requires
            self.wf(),
        ensures
            is_resource_dict(self@, d),
    {
        let ghost v = self@;
        let mut root_dict = PdfDictionaryObject::new();
        let mut i: usize = 0;
        while i < self.categories.len()
            invariant
                v == self@,
                self.wf(),
                i <= v.len(),
                v.len() == self.categories@.len(),
                plain_dict(root_dict),
                root_dict.values@.len() == i,
                forall|t: int|
                    0 <= t < i ==> (#[trigger] root_dict.values@[t]).0.value@ == v[t].0 && is_names_dict(
                        root_dict.values@[t].1,
                        v[t].1,
                    ),
            decreases v.len() - i,
        {
            let ghost e = v[i as int].1;
            assert(e == names_view(self.categories@[i as int].1@));
            assert(assoc_unique(e));
            let names = &self.categories[i].1;
            let mut sub_dict = PdfDictionaryObject::new();
            let mut j: usize = 0;
            while j < names.len()
                invariant
                    e == names_view(names@),
                    assoc_unique(e),
                    j <= e.len(),
                    plain_dict(sub_dict),
                    sub_dict.values@.len() == j,
                    forall|t: int|
                        0 <= t < j ==> (#[trigger] sub_dict.values@[t]).0.value@ == e[t].0 && is_number(
                            sub_dict.values@[t].1,
                            NumberType::Integer(e[t].1 as i64),
                        ),
                decreases e.len() - j,
            {
                assert(e[j as int] == (names@[j as int].0@, names@[j as int].1));
                proof {
                    if keys_of(sub_dict.values@).contains(e[j as int].0) {
                        let t = choose|t: int|
                            0 <= t < keys_of(sub_dict.values@).len() && keys_of(sub_dict.values@)[t] == e[j as int].0;
                        assert(sub_dict.values@[t].0.value@ == e[t].0);
                        assert(e[t].0 != e[j as int].0);
                    }
                }
                sub_dict.put_new(
                    names[j].0.as_str(),
                    PdfObject::num_obj(NumberType::Integer(names[j].1 as i64)),
                );
                j = j + 1;
            }
            assert(self@[i as int].0 == self.categories@[i as int].0@);
            proof {
                if keys_of(root_dict.values@).contains(v[i as int].0) {
                    let t = choose|t: int|
                        0 <= t < keys_of(root_dict.values@).len() && keys_of(root_dict.values@)[t] == v[i as int].0;
                    assert(root_dict.values@[t].0.value@ == v[t].0);
                    assert(v[t].0 != v[i as int].0);
                }
            }
            root_dict.put_new(self.categories[i].0.as_str(), PdfObject::Dictionary(sub_dict));
            i = i + 1;
        }
        root_dict
    }

    pub fn is_empty(&self) -> (b: bool)
        ensures
            b == (self@.len() == 0),
    {
        self.categories.len() == 0
    }

    /// Removes every category.
    pub fn clear(&mut self)
        ensures
            final(self)@ == Seq::<(Seq<char>, Seq<(Seq<char>, usize)>)>::empty(),
            final(self).wf(),
    {
        self.categories.clear();
        assert(self@ =~= Seq::<(Seq<char>, Seq<(Seq<char>, usize)>)>::empty());
    }

    /// The number of names of category `cat`, zero when it is absent.
    pub fn category_count(&self, cat: &str) -> (n: usize)
        ensures
            n == entries_of(self@, cat@).len(),
    {
        proof {
            lemma_assoc_index(self@, cat@);
        }
        match self.find_category(cat) {
            Some(i) => {
                assert(self@[i as int].1 == names_view(self.categories@[i as int].1@));
                self.categories[i].1.len()
            },
            None => 0,
        }
    }
}

/// A category of a [`ResourceMap`] to which names are added.
pub struct CategoryHandle<'a> {
    pub dictionary: &'a mut ResourceMap,
    pub category: String,
}

impl<'a> CategoryHandle<'a> {
    /// The resources that the handle adds to.
    pub open spec fn target(&self) -> ResourceMap {
        *self.dictionary
    }

    /// Gives the name `name` of the handle's category the object number `id`.
    pub fn add(&mut self, name: &str, id: usize)
        requires
            (*old(self).dictionary).wf(),
        ensures
            (*final(self).dictionary).wf(),
            final(self).category == old(self).category,
            (*final(self).dictionary)@ == assoc_set(
                (*old(self).dictionary)@,
                old(self).category@,
                assoc_set(entries_of((*old(self).dictionary)@, old(self).category@), name@, id),
            ),
            *final(final(self).dictionary) == *final(old(self).dictionary),
    {
        self.dictionary.add(self.category.as_str(), name, id)
    }

    /// The number of names of the handle's category.
    pub fn count(&self) -> (n: usize)
        ensures
            n == entries_of(self.target()@, self.category@).len(),
    {
        self.dictionary.category_count(self.category.as_str())
    }
}

/// After a name of a category is given an object number, the category holds that name with
/// that number, and every other name of every category keeps its number. `m` is the map
/// before `add(cat, name, id)`.
pub proof fn law_resource_add_then_get(
    m: ResourceMap,
    cat: Seq<char>,
    name: Seq<char>,
    id: usize,
    cat2: Seq<char>,
    name2: Seq<char>,
)
    requires
        m.wf(),
    ensures
        ({
            let w = assoc_set(m@, cat, assoc_set(entries_of(m@, cat), name, id));
            &&& assoc_get(entries_of(w, cat), name) == Some(id)
            &&& (cat2 != cat || name2 != name) ==> assoc_get(entries_of(w, cat2), name2) == assoc_get(
                entries_of(m@, cat2),
                name2,
            )
        }),
{
    let v = m@;
    lemma_assoc_index(v, cat);
    let inner = entries_of(v, cat);
    if assoc_index(v, cat) >= 0 {
        assert(assoc_unique(v[assoc_index(v, cat)].1));
    }
    lemma_assoc_set(inner, name, id);
    lemma_assoc_set(v, cat, assoc_set(inner, name, id));
    let w = assoc_set(v, cat, assoc_set(inner, name, id));
    assert(entries_of(w, cat) == assoc_set(inner, name, id));
    if cat2 != cat {
        assert(assoc_get(w, cat2) == assoc_get(v, cat2));
    }
}

} // verus!
