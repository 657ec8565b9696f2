//! Dictionary objects: an associative table of names and objects between `<<` and `>>`.
//!
//! Multiple entries in the same dictionary shall not have the same key: `add` refuses a key
//! that is already present, and `update_or_add` replaces the value of a present key.
use vstd::prelude::*;
use crate::PdfError;
use crate::objects::name::PdfNameObject;
use crate::objects::pdf_object::PdfObject;
use crate::objects::pdf_array::PdfArrayObject;

verus! {

pub struct PdfDictionaryObject {
    pub values: Vec<(PdfNameObject, PdfObject)>,
    pub object_number: Option<u64>,
    pub generation_number: Option<u16>,
    /// Dictionaries written after this one, such as the pages of a page tree.
    pub children: Vec<PdfObject>,
}

/// The index of the first entry of `s` whose key is `key`, or -1 if there is none.
pub open spec fn key_index(s: Seq<(PdfNameObject, PdfObject)>, key: Seq<char>) -> int
    decreases s.len(),
{
    if s.len() == 0 {
        -1
    } else if s[0].0.value@ == key {
        0
    } else {
        let r = key_index(s.drop_first(), key);
        if r < 0 {
            -1
        } else {
            r + 1
        }
    }
}

/// Whether some entry of `s` has the key `key`.
pub open spec fn has_key(s: Seq<(PdfNameObject, PdfObject)>, key: Seq<char>) -> bool {
    key_index(s, key) >= 0
}

/// The value of the first entry of `s` with the key `key`.
pub open spec fn lookup(s: Seq<(PdfNameObject, PdfObject)>, key: Seq<char>) -> Option<PdfObject> {
    if has_key(s, key) {
        Some(s[key_index(s, key)].1)
    } else {
        None
    }
}

/// No two entries of `s` have the same key.
pub open spec fn keys_unique(s: Seq<(PdfNameObject, PdfObject)>) -> bool {
    forall|i: int, j: int|
        0 <= i < s.len() && 0 <= j < s.len() && i != j ==> #[trigger] s[i].0.value@ != #[trigger] s[j].0.value@
}

/// `key_index` is the first index whose key matches, or -1 when no key matches.
pub proof fn lemma_key_index(s: Seq<(PdfNameObject, PdfObject)>, key: Seq<char>)
    ensures
        -1 <= key_index(s, key) < s.len(),
        key_index(s, key) >= 0 ==> s[key_index(s, key)].0.value@ == key,
        forall|j: int| 0 <= j < key_index(s, key) ==> #[trigger] s[j].0.value@ != key,
        key_index(s, key) == -1 ==> forall|j: int| 0 <= j < s.len() ==> #[trigger] s[j].0.value@ != key,
    decreases s.len(),
{
    if s.len() > 0 && s[0].0.value@ != key {
        lemma_key_index(s.drop_first(), key);
        assert forall|j: int| 0 <= j < key_index(s, key) implies #[trigger] s[j].0.value@ != key by {
            if j > 0 {
                assert(s[j] == s.drop_first()[j - 1]);
            }
        }
        assert forall|j: int|
            key_index(s, key) == -1 && 0 <= j < s.len() implies #[trigger] s[j].0.value@ != key by {
            if j > 0 {
                assert(s[j] == s.drop_first()[j - 1]);
            }
        }
    }
}

/// The index of the first matching key is the only index that matches when keys are unique.
pub proof fn lemma_key_index_unique(s: Seq<(PdfNameObject, PdfObject)>, key: Seq<char>, i: int)
    requires
        0 <= i < s.len(),
        s[i].0.value@ == key,
        forall|j: int| 0 <= j < i ==> #[trigger] s[j].0.value@ != key,
    ensures
        key_index(s, key) == i,
{
    lemma_key_index(s, key);
}

/// Keys are still unique after appending an entry whose key was absent.
pub proof fn lemma_push_unique(s: Seq<(PdfNameObject, PdfObject)>, e: (PdfNameObject, PdfObject))
    requires
        keys_unique(s),
        !has_key(s, e.0.value@),
    ensures
        keys_unique(s.push(e)),
{
    lemma_key_index(s, e.0.value@);
    let t = s.push(e);
    assert forall|i: int, j: int|
        0 <= i < t.len() && 0 <= j < t.len() && i != j implies #[trigger] t[i].0.value@
        != #[trigger] t[j].0.value@ by {
        if i < s.len() && j < s.len() {
            assert(t[i] == s[i] && t[j] == s[j]);
        } else if i < s.len() {
            assert(t[i] == s[i]);
        } else {
            assert(t[j] == s[j]);
        }
    }
}

/// The keys of the entries of `s`, in order.
pub open spec fn keys_of(s: Seq<(PdfNameObject, PdfObject)>) -> Seq<Seq<char>> {
    Seq::new(s.len(), |i: int| s[i].0.value@)
}

/// `d` is a direct dictionary with unique keys that has no children.
pub open spec fn plain_dict(d: PdfDictionaryObject) -> bool {
    &&& d.wf()
    &&& d.object_number is None
    &&& d.generation_number is None
    &&& d.children@.len() == 0
}

/// The key `k` when `c` holds, no key otherwise.
pub open spec fn key_if(c: bool, k: Seq<char>) -> Seq<Seq<char>> {
    if c {
        seq![k]
    } else {
        Seq::empty()
    }
}

/// A key that is not among the keys of `s` has no entry in `s`.
pub proof fn lemma_absent_key(s: Seq<(PdfNameObject, PdfObject)>, key: Seq<char>)
    requires
        !keys_of(s).contains(key),
    ensures
        !has_key(s, key),
{
    lemma_key_index(s, key);
    if key_index(s, key) >= 0 {
        assert(keys_of(s)[key_index(s, key)] == key);
    }
}

/// A key outside the set `seen`, which holds every key of `s`, is not a key of `s`.
pub proof fn lemma_not_seen(s: Seq<(PdfNameObject, PdfObject)>, seen: Set<Seq<char>>, key: Seq<char>)
    requires
        forall|i: int| 0 <= i < s.len() ==> seen.contains(#[trigger] s[i].0.value@),
        !seen.contains(key),
    ensures
        !keys_of(s).contains(key),
{
    if keys_of(s).contains(key) {
        let i = choose|i: int| 0 <= i < keys_of(s).len() && keys_of(s)[i] == key;
        assert(seen.contains(s[i].0.value@));
    }
}

/// The entries of the dictionary under `key` in `s`, none when `key` is absent or holds
/// another kind of object.
pub open spec fn sub_entries(s: Seq<(PdfNameObject, PdfObject)>, key: Seq<char>) -> Seq<(PdfNameObject, PdfObject)> {
    match lookup(s, key) {
        Some(PdfObject::Dictionary(d)) => d.values@,
        _ => Seq::empty(),
    }
}

/// The keys of `s` after `key` is given a value: unchanged when it is present, with `key`
/// appended otherwise.
pub open spec fn keys_after_set(s: Seq<(PdfNameObject, PdfObject)>, key: Seq<char>) -> Seq<Seq<char>> {
    if has_key(s, key) {
        keys_of(s)
    } else {
        keys_of(s).push(key)
    }
}

/// Replacing the value of the first entry with key `key`, or appending an entry for it,
/// gives `key` the new value and leaves the value of every other key as it was.
pub proof fn lemma_lookup_set(
    s: Seq<(PdfNameObject, PdfObject)>,
    t: Seq<(PdfNameObject, PdfObject)>,
    key: Seq<char>,
    object: PdfObject,
)
    requires
        has_key(s, key) ==> t == s.update(key_index(s, key), (s[key_index(s, key)].0, object)),
        !has_key(s, key) ==> t.len() == s.len() + 1 && t.subrange(0, s.len() as int) == s
            && t.last().0.value@ == key && t.last().1 == object,
    ensures
        lookup(t, key) == Some(object),
        forall|k2: Seq<char>| k2 != key ==> lookup(t, k2) == lookup(s, k2),
        keys_of(t) == keys_after_set(s, key),
{
    lemma_key_index(s, key);
    lemma_key_index(t, key);
    if has_key(s, key) {
        let i = key_index(s, key);
        assert forall|j: int| 0 <= j < i implies #[trigger] t[j].0.value@ != key by {
            assert(t[j] == s[j]);
        }
        lemma_key_index_unique(t, key, i);
        assert(keys_of(t) =~= keys_of(s));
    } else {
        assert forall|j: int| 0 <= j < s.len() implies #[trigger] t[j].0.value@ != key by {
            assert(t[j] == t.subrange(0, s.len() as int)[j]);
        }
        lemma_key_index_unique(t, key, s.len() as int);
        assert forall|j: int| 0 <= j < s.len() implies #[trigger] keys_of(t)[j] == keys_of(s)[j] by {
            assert(t[j] == t.subrange(0, s.len() as int)[j]);
        }
        assert(keys_of(t) =~= keys_of(s).push(key));
    }
    assert forall|k2: Seq<char>| k2 != key implies lookup(t, k2) == lookup(s, k2) by {
        lemma_key_index(s, k2);
        lemma_key_index(t, k2);
        let i2 = key_index(s, k2);
        if i2 >= 0 {
            assert forall|j: int| 0 <= j < i2 implies #[trigger] t[j].0.value@ != k2 by {
                if has_key(s, key) {
                    assert(t[j].0 == s[j].0);
                } else {
                    assert(t[j] == t.subrange(0, s.len() as int)[j]);
                }
            }
            if has_key(s, key) {
                assert(t[i2].0 == s[i2].0);
            } else {
                assert(t[i2] == t.subrange(0, s.len() as int)[i2]);
            }
            lemma_key_index_unique(t, k2, i2);
            if has_key(s, key) {
                assert(i2 != key_index(s, key));
                assert(t[i2] == s[i2]);
            }
        } else {
            assert forall|j: int| 0 <= j < t.len() implies #[trigger] t[j].0.value@ != k2 by {
                if j < s.len() {
                    if has_key(s, key) {
                        assert(t[j].0 == s[j].0);
                    } else {
                        assert(t[j] == t.subrange(0, s.len() as int)[j]);
                    }
                }
            }
        }
    }
}

/// `after` is `before` with one entry appended, under the key `key`, whose value meets
/// `holds`; the object and generation numbers stay, and so does well-formedness.
pub open spec fn entry_appended(
    before: PdfDictionaryObject,
    after: PdfDictionaryObject,
    key: Seq<char>,
    holds: spec_fn(PdfObject) -> bool,
) -> bool {
    &&& after.values@.len() == before.values@.len() + 1
    &&& after.values@.subrange(0, before.values@.len() as int) == before.values@
    &&& after.values@.last().0.value@ == key
    &&& holds(after.values@.last().1)
    &&& after.object_number == before.object_number
    &&& after.generation_number == before.generation_number
    &&& (before.wf() ==> after.wf())
}

/// A value added under a new key is what a lookup of that key then gives, and every other
/// key keeps its value. The dictionary of `before` becomes `after` by a successful `add`.
pub proof fn law_get_after_add(
    before: PdfDictionaryObject,
    after: PdfDictionaryObject,
    key: Seq<char>,
    object: PdfObject,
)
    requires
        !has_key(before.values@, key),
        after.values@.len() == before.values@.len() + 1,
        after.values@.subrange(0, before.values@.len() as int) == before.values@,
        after.values@.last().0.value@ == key,
        after.values@.last().1 == object,
    ensures
        lookup(after.values@, key) == Some(object),
        forall|k2: Seq<char>| k2 != key ==> lookup(after.values@, k2) == lookup(before.values@, k2),
{
    lemma_lookup_set(before.values@, after.values@, key, object);
}

/// After `update_or_add`, a lookup of the key gives the new value whether or not the key was
/// present, and every other key keeps its value.
pub proof fn law_get_after_update_or_add(
    before: PdfDictionaryObject,
    after: PdfDictionaryObject,
    key: Seq<char>,
    object: PdfObject,
)
    requires
        has_key(before.values@, key) ==> after.values@ == before.values@.update(
            key_index(before.values@, key),
            (before.values@[key_index(before.values@, key)].0, object),
        ),
        !has_key(before.values@, key) ==> {
            &&& after.values@.len() == before.values@.len() + 1
            &&& after.values@.subrange(0, before.values@.len() as int) == before.values@
            &&& after.values@.last().0.value@ == key
            &&& after.values@.last().1 == object
        },
    ensures
        lookup(after.values@, key) == Some(object),
        forall|k2: Seq<char>| k2 != key ==> lookup(after.values@, k2) == lookup(before.values@, k2),
        keys_of(after.values@) == keys_after_set(before.values@, key),
{
    lemma_lookup_set(before.values@, after.values@, key, object);
}

impl PdfDictionaryObject {
    /// The dictionary holds no two entries with the same key.
    pub open spec fn wf(&self) -> bool {
        keys_unique(self.values@)
    }

    pub fn new() -> (d: Self)
        ensures
            d.values@ == Seq::<(PdfNameObject, PdfObject)>::empty(),
            d.object_number is None,
            d.generation_number is None,
            d.children@ == Seq::<PdfObject>::empty(),
            d.wf(),
    {
        Self { values: Vec::new(), object_number: None, generation_number: None, children: Vec::new() }
    }

    /// The index of the first entry with the key `key`.
    pub(crate) fn find(&self, key: &str) -> (r: Option<usize>)
        ensures
            match r {
                Some(i) => i == key_index(self.values@, key@),
                None => key_index(self.values@, key@) == -1,
            },
    {
        proof {
            lemma_key_index(self.values@, key@);
        }
        let mut i: usize = 0;
        while i < self.values.len()
            invariant
                i <= self.values@.len(),
                forall|j: int| 0 <= j < i ==> #[trigger] self.values@[j].0.value@ != key@,
            decreases self.values@.len() - i,
        {
            if crate::encoding::str_eq(self.values[i].0.value.as_str(), key) {
                proof {
                    lemma_key_index_unique(self.values@, key@, i as int);
                }
                return Some(i);
            }
            i = i + 1;
        }
        None
    }

    /// The dictionary with the entry `/Type /name` added.
    pub fn typed(self, name: &str) -> (r: Result<Self, PdfError>)
        ensures
            has_key(self.values@, "Type"@) ==> r is Err,
            !has_key(self.values@, "Type"@) ==> r is Ok && ({
                let d = r->Ok_0;
                &&& d.values@.len() == self.values@.len() + 1
                &&& d.values@.subrange(0, self.values@.len() as int) == self.values@
                &&& d.values@.last().0.value@ == "Type"@
                &&& d.values@.last().1 matches PdfObject::Name(n) && n.value@ == name@
                &&& d.object_number == self.object_number
                &&& d.generation_number == self.generation_number
                &&& d.children == self.children
                &&& (self.wf() ==> d.wf())
            }),
    {
        let mut d = self;
        match d.add("Type", PdfObject::Name(PdfNameObject::new(name))) {
            Ok(()) => Ok(d),
            Err(e) => Err(e),
        }
    }

    pub fn with_object_number(self, value: u64) -> (d: Self)
        ensures
            d.values == self.values,
            d.object_number == Some(value),
            d.generation_number == self.generation_number,
            d.children == self.children,
    {
        let mut s = self;
        s.object_number = Some(value);
        s
    }

    pub fn with_generation_number(self, value: u16) -> (d: Self)
        ensures
            d.values == self.values,
            d.object_number == self.object_number,
            d.generation_number == Some(value),
            d.children == self.children,
    {
        let mut s = self;
        s.generation_number = Some(value);
        s
    }

    /// The number of entries.
    pub fn len(&self) -> (n: usize)
        ensures
            n == self.values@.len(),
    {
        self.values.len()
    }

    pub fn is_empty(&self) -> (b: bool)
        ensures
            b == (self.values@.len() == 0),
    {
        self.values.len() == 0
    }

    pub fn contains_key(&self, key: &str) -> (b: bool)
        ensures
            b == has_key(self.values@, key@),
    {
        self.find(key).is_some()
    }

    /// The value of the entry with the key `key`.
    pub fn get(&self, key: &str) -> (r: Option<&PdfObject>)
        ensures
            match r {
                Some(v) => lookup(self.values@, key@) == Some(*v),
                None => lookup(self.values@, key@) is None,
            },
    {
        proof {
            lemma_key_index(self.values@, key@);
        }
        match self.find(key) {
            Some(i) => Some(&self.values[i].1),
            None => None,
        }
    }

    /// The value of the entry with the key `key`, when it is a dictionary.
    pub fn get_dict(&self, key: &str) -> (r: Option<&PdfDictionaryObject>)
        ensures
            match r {
                Some(d) => lookup(self.values@, key@) == Some(PdfObject::Dictionary(*d)),
                None => !(lookup(self.values@, key@) matches Some(PdfObject::Dictionary(_))),
            },
    {
        match self.get(key) {
            Some(PdfObject::Dictionary(d)) => Some(d),
            _ => None,
        }
    }

    /// The value of the entry with the key `key`, when it is a number, as an integer.
    pub fn get_integer(&self, key: &str) -> (r: Option<i64>)
        ensures
            match lookup(self.values@, key@) {
                Some(PdfObject::Number(n)) => r == Some(
                    crate::objects::number::number_as_int(n.value) as i64,
                ),
                _ => r is None,
            },
    {
        match self.get(key) {
            Some(PdfObject::Number(n)) => Some(n.as_int()),
            _ => None,
        }
    }

    /// Appends the entry `key`, `object`, for a key that the dictionary does not have yet.
    pub(crate) fn put_new(&mut self, key: &str, object: PdfObject)
        requires
            !keys_of(old(self).values@).contains(key@),
        ensures
            final(self).values@ == old(self).values@.push(final(self).values@.last()),
            final(self).values@.last().0.value@ == key@,
            final(self).values@.last().1 == object,
            keys_of(final(self).values@) == keys_of(old(self).values@).push(key@),
            final(self).object_number == old(self).object_number,
            final(self).generation_number == old(self).generation_number,
            final(self).children == old(self).children,
            old(self).wf() ==> final(self).wf(),
    {
        proof {
            lemma_absent_key(self.values@, key@);
        }
        let ghost before = self.values@;
        let entry = (PdfNameObject::new(key), object);
        proof {
            if keys_unique(before) {
                lemma_push_unique(before, entry);
            }
        }
        self.values.push(entry);
        assert(keys_of(self.values@) =~= keys_of(before).push(key@));
    }

    /// Adds the entry `key`, `object`; refuses a key that is already present.
    pub fn add(&mut self, key: &str, object: PdfObject) -> (r: Result<(), PdfError>)
        ensures
            final(self).object_number == old(self).object_number,
            final(self).generation_number == old(self).generation_number,
            final(self).children == old(self).children,
            has_key(old(self).values@, key@) ==> r is Err && final(self).values == old(self).values,
            !has_key(old(self).values@, key@) ==> {
                &&& r is Ok
                &&& final(self).values@.len() == old(self).values@.len() + 1
                &&& final(self).values@.subrange(0, old(self).values@.len() as int) == old(self).values@
                &&& final(self).values@.last().0.value@ == key@
                &&& final(self).values@.last().1 == object
            },
            old(self).wf() ==> final(self).wf(),
    {
        if self.contains_key(key) {
            return Err(PdfError::StructureError(duplicate_key_message(key)));
        }
        let ghost before = self.values@;
        let entry = (PdfNameObject::new(key), object);
        proof {
            if keys_unique(before) {
                lemma_push_unique(before, entry);
            }
        }
        self.values.push(entry);
        assert(self.values@.subrange(0, before.len() as int) =~= before);
        Ok(())
    }

    /// Replaces the value of the entry with the key `key`, or adds the entry when the key is
    /// absent.
    pub fn update_or_add(&mut self, key: &str, object: PdfObject)
        ensures
            final(self).object_number == old(self).object_number,
            final(self).generation_number == old(self).generation_number,
            final(self).children == old(self).children,
            has_key(old(self).values@, key@) ==> final(self).values@ == old(self).values@.update(
                key_index(old(self).values@, key@),
                (old(self).values@[key_index(old(self).values@, key@)].0, object),
            ),
            !has_key(old(self).values@, key@) ==> {
                &&& final(self).values@.len() == old(self).values@.len() + 1
                &&& final(self).values@.subrange(0, old(self).values@.len() as int) == old(self).values@
                &&& final(self).values@.last().0.value@ == key@
                &&& final(self).values@.last().1 == object
            },
            old(self).wf() ==> final(self).wf(),
    {
        proof {
            lemma_key_index(self.values@, key@);
        }
        match self.find(key) {
            Some(i) => {
                let ghost before = self.values@;
                let (k, _old_value) = self.values.remove(i);
                self.values.insert(i, (k, object));
                assert(self.values@ =~= before.update(i as int, (before[i as int].0, object)));
                proof {
                    if keys_unique(before) {
                        assert forall|a: int, b: int|
                            0 <= a < self.values@.len() && 0 <= b < self.values@.len() && a != b
                            implies #[trigger] self.values@[a].0.value@
                            != #[trigger] self.values@[b].0.value@ by {
                            assert(self.values@[a].0 == before[a].0);
                            assert(self.values@[b].0 == before[b].0);
                        }
                    }
                }
            },
            None => {
                let ghost before = self.values@;
                let entry = (PdfNameObject::new(key), object);
                proof {
                    if keys_unique(before) {
                        lemma_push_unique(before, entry);
                    }
                }
                self.values.push(entry);
                assert(self.values@.subrange(0, before.len() as int) =~= before);
            },
        }
    }

    /// Appends `object` to the array that is the value of the entry `key`; fails when there is
    /// no such entry or its value is not an array.
    pub fn push_to_array(&mut self, key: &str, object: PdfObject) -> (r: Result<(), PdfError>)
        ensures
            final(self).object_number == old(self).object_number,
            final(self).generation_number == old(self).generation_number,
            final(self).children == old(self).children,
            match lookup(old(self).values@, key@) {
                Some(PdfObject::Array(a)) => {
                    &&& r is Ok
                    &&& final(self).values@.len() == old(self).values@.len()
                    &&& forall|j: int|
                        0 <= j < old(self).values@.len() && j != key_index(old(self).values@, key@)
                            ==> #[trigger] final(self).values@[j] == old(self).values@[j]
                    &&& ({
                        let e = final(self).values@[key_index(old(self).values@, key@)];
                        &&& e.0 == old(self).values@[key_index(old(self).values@, key@)].0
                        &&& e.1 matches PdfObject::Array(b)
                        &&& b.values@ == a.values@.push(object)
                        &&& b.object_number == a.object_number
                        &&& b.generation_number == a.generation_number
                    })
                },
                _ => r is Err && final(self).values == old(self).values,
            },
            old(self).wf() ==> final(self).wf(),
    {
        proof {
            lemma_key_index(self.values@, key@);
        }
        let idx = self.find(key);
        match idx {
            Some(i) => {
                let is_array = match &self.values[i].1 {
                    PdfObject::Array(_) => true,
                    _ => false,
                };
                if !is_array {
                    return Err(PdfError::StructureError(not_array_message(key)));
                }
                let ghost before = self.values@;
                let (k, v) = self.values.remove(i);
                let new_value = match v {
                    PdfObject::Array(a) => {
                        let mut b = a;
                        b.push(object);
                        PdfObject::Array(b)
                    },
                    other => other,
                };
                self.values.insert(i, (k, new_value));
                proof {
                    assert forall|j: int| 0 <= j < before.len() && j != i implies #[trigger] self.values@[j]
                        == before[j] by {}
                    if keys_unique(before) {
                        assert forall|a: int, b: int|
                            0 <= a < self.values@.len() && 0 <= b < self.values@.len() && a != b
                            implies #[trigger] self.values@[a].0.value@
                            != #[trigger] self.values@[b].0.value@ by {
                            assert(self.values@[a].0 == before[a].0);
                            assert(self.values@[b].0 == before[b].0);
                        }
                    }
                }
                Ok(())
            },
            None => Err(PdfError::StructureError(not_array_message(key))),
        }
    }

    /// Gives the entry `name` of the dictionary under `key` the value `object`. A value under
    /// `key` that is not a dictionary is replaced by a new dictionary.
    pub(crate) fn set_in_sub_dict(&mut self, key: &str, name: &str, object: PdfObject)
        ensures
            final(self).object_number == old(self).object_number,
            final(self).generation_number == old(self).generation_number,
            final(self).children == old(self).children,
            old(self).wf() ==> final(self).wf(),
            keys_of(final(self).values@) == keys_after_set(old(self).values@, key@),
            forall|k2: Seq<char>| k2 != key@ ==> lookup(final(self).values@, k2) == lookup(old(self).values@, k2),
            lookup(final(self).values@, key@) matches Some(PdfObject::Dictionary(d)) && {
                let sub = sub_entries(old(self).values@, key@);
                &&& keys_of(d.values@) == keys_after_set(sub, name@)
                &&& lookup(d.values@, name@) == Some(object)
                &&& forall|k2: Seq<char>| k2 != name@ ==> lookup(d.values@, k2) == lookup(sub, k2)
                &&& (keys_unique(sub) ==> d.wf())
            },
    {
        proof {
            lemma_key_index(self.values@, key@);
        }
        let ghost before = self.values@;
        let ghost sub = sub_entries(before, key@);
        match self.find(key) {
            Some(i) => {
                let (k, v) = self.values.remove(i);
                let mut d = match v {
                    PdfObject::Dictionary(d) => d,
                    _ => PdfDictionaryObject::new(),
                };
                assert(d.values@ == sub);
                let ghost sub_before = d.values@;
                d.update_or_add(name, object);
                proof {
                    lemma_lookup_set(sub_before, d.values@, name@, object);
                }
                let ghost new_value = PdfObject::Dictionary(d);
                self.values.insert(i, (k, PdfObject::Dictionary(d)));
                assert(self.values@ =~= before.update(i as int, (before[i as int].0, new_value)));
                proof {
                    lemma_lookup_set(before, self.values@, key@, new_value);
                    if keys_unique(before) {
                        assert forall|a: int, b: int|
                            0 <= a < self.values@.len() && 0 <= b < self.values@.len() && a != b
                            implies #[trigger] self.values@[a].0.value@
                            != #[trigger] self.values@[b].0.value@ by {
                            assert(self.values@[a].0 == before[a].0);
                            assert(self.values@[b].0 == before[b].0);
                        }
                    }
                }
            },
            None => {
                let mut d = PdfDictionaryObject::new();
                assert(d.values@ =~= sub);
                let ghost sub_before = d.values@;
                d.update_or_add(name, object);
                proof {
                    lemma_lookup_set(sub_before, d.values@, name@, object);
                }
                let ghost new_value = PdfObject::Dictionary(d);
                let entry = (PdfNameObject::new(key), PdfObject::Dictionary(d));
                proof {
                    if keys_unique(before) {
                        lemma_push_unique(before, entry);
                    }
                }
                self.values.push(entry);
                assert(self.values@.subrange(0, before.len() as int) =~= before);
                proof {
                    lemma_lookup_set(before, self.values@, key@, new_value);
                }
            },
        }
    }

    /// Records `kid` as a child of this page tree node and appends a reference to it to the
    /// `Kids` array. The child is recorded even when there is no `Kids` array, and the call
    /// then fails.
    pub fn add_kid_to_page_tree(&mut self, kid_obj: Box<PdfDictionaryObject>) -> (r: Result<(), PdfError>)
        requires
            old(self).wf(),
            kid_obj.object_number is Some,
        ensures
            final(self).children@ == old(self).children@.push(PdfObject::Dictionary(*kid_obj)),
            final(self).object_number == old(self).object_number,
            final(self).wf(),
            match lookup(old(self).values@, "Kids"@) {
                Some(PdfObject::Array(a)) => {
                    &&& r is Ok
                    &&& lookup(final(self).values@, "Kids"@) matches Some(PdfObject::Array(b))
                    &&& b.values@ == a.values@.push(
                        crate::objects::pdf_object::reference_object(kid_obj.object_number->Some_0),
                    )
                },
                _ => {
                    &&& r matches Err(PdfError::StructureError(m)) && m@ == "Missing `Kids` array"@
                    &&& final(self).values == old(self).values
                },
            },
    {
        let num = kid_obj.object_number.unwrap();
        let reference = crate::objects::pdf_object::PdfObj::make_reference_obj(num);
        self.children.push(PdfObject::Dictionary(*kid_obj));
        let ghost before = self.values@;
        let r = self.push_to_array("Kids", reference);
        proof {
            lemma_key_index(before, "Kids"@);
            lemma_key_index(self.values@, "Kids"@);
            if r is Ok {
                let k = key_index(before, "Kids"@);
                assert(self.values@[k].0 == before[k].0);
                assert forall|j: int| 0 <= j < k implies #[trigger] self.values@[j].0.value@ != "Kids"@ by {
                    assert(self.values@[j] == before[j]);
                }
                lemma_key_index_unique(self.values@, "Kids"@, k);
            }
        }
        match r {
            Ok(()) => Ok(()),
            Err(_) => {
                let mut m = String::new();
                crate::encoding::string_push_str(&mut m, "Missing `Kids` array");
                Err(PdfError::StructureError(m))
            },
        }
    }
}

/// The message of the error for adding the key `key` a second time.
pub open spec fn duplicate_key_text(key: Seq<char>) -> Seq<char> {
    "add: Attempt to make duplicate key "@ + key + " in dictionary"@
}

/// The message of the error for a key that is already present.
pub(crate) fn duplicate_key_message(key: &str) -> (s: String)
    ensures
        s@ == duplicate_key_text(key@),
{
    let mut s = String::new();
    crate::encoding::string_push_str(&mut s, "add: Attempt to make duplicate key ");
    crate::encoding::string_push_str(&mut s, key);
    crate::encoding::string_push_str(&mut s, " in dictionary");
    assert(s@ =~= duplicate_key_text(key@));
    s
}

/// The message of the error for a key whose value is not an array.
fn not_array_message(key: &str) -> (s: String)
    ensures
        s@ == "Key '"@ + key@ + "' is not an array"@,
{
    let mut s = String::new();
    crate::encoding::string_push_str(&mut s, "Key '");
    crate::encoding::string_push_str(&mut s, key);
    crate::encoding::string_push_str(&mut s, "' is not an array");
    assert(s@ =~= "Key '"@ + key@ + "' is not an array"@);
    s
}

} // verus!
