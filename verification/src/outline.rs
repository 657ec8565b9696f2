//! The document outline (bookmarks): a tree of titled entries that lead to destinations.
use vstd::prelude::*;
use crate::PdfResult;
use crate::action::FitDestination;
use crate::color::RGB;
use crate::object_ops::ObjectOps;
use crate::objects::dictionary::{PdfDictionaryObject, key_if, keys_of, lemma_absent_key, lemma_lookup_set, lookup, plain_dict};
use crate::objects::number::PdfNumberObject;
use crate::objects::pdf_array::PdfArrayObject;
use crate::objects::number::NumberType;
use crate::objects::pdf_object::{PdfObject, is_name, is_number};

verus! {

/// The style of an outline entry's title: one of the named styles, or any set of bits.
#[allow(non_camel_case_types)]
#[derive(Debug, Clone, Copy)]
pub enum OutlineItemFlags {
    NORMAL,
    ITALIC,
    BOLD,
    Bits(u32),
}

/// The bits of a style.
pub open spec fn outline_flag_bits(f: OutlineItemFlags) -> u32 {
    match f {
        OutlineItemFlags::NORMAL => 0,
        OutlineItemFlags::ITALIC => 1,
        OutlineItemFlags::BOLD => 2,
        OutlineItemFlags::Bits(b) => b,
    }
}

impl PartialEq for OutlineItemFlags {
    /// Two styles are equal when they have the same bits.
    fn eq(&self, other: &Self) -> (r: bool) {
        self.bits() == other.bits()
    }
}

impl vstd::std_specs::cmp::PartialEqSpecImpl for OutlineItemFlags {
    open spec fn obeys_eq_spec() -> bool {
        true
    }

    open spec fn eq_spec(&self, other: &Self) -> bool {
        outline_flag_bits(*self) == outline_flag_bits(*other)
    }
}

impl Eq for OutlineItemFlags {}

impl OutlineItemFlags {
    pub fn from_bits(bits: u32) -> (f: Self)
        ensures
            outline_flag_bits(f) == bits,
    {
        OutlineItemFlags::Bits(bits)
    }

    pub fn bits(&self) -> (b: u32)
        ensures
            b == outline_flag_bits(*self),
    {
        match self {
            OutlineItemFlags::NORMAL => 0,
            OutlineItemFlags::ITALIC => 1,
            OutlineItemFlags::BOLD => 2,
            OutlineItemFlags::Bits(b) => *b,
        }
    }

    /// The styles of either.
    pub fn or(self, other: Self) -> (f: Self)
        ensures
            outline_flag_bits(f) == outline_flag_bits(self) | outline_flag_bits(other),
    {
        OutlineItemFlags::Bits(self.bits() | other.bits())
    }
}

/// An entry of the outline and the entries under it.
pub struct OutlineItem {
    pub title: String,
    pub destination: Option<FitDestination>,
    pub children: Vec<OutlineItem>,
    pub is_open: bool,
    pub color: Option<RGB>,
    pub flags: OutlineItemFlags,
}

/// The number of entries under an entry, at every depth.
pub open spec fn descendants(o: OutlineItem) -> nat
    decreases o, 1int,
{
    o.children@.len() + sum_descendants(o.children@)
}

/// The number of entries under the entries of `s`, at every depth.
pub open spec fn sum_descendants(s: Seq<OutlineItem>) -> nat
    decreases s, 0int,
{
    if s.len() == 0 {
        0
    } else {
        sum_descendants(s.subrange(0, s.len() - 1)) + descendants(s[s.len() - 1])
    }
}

/// The number of entries of the trees `s`: the entries themselves and all those under them.
pub open spec fn tree_size(s: Seq<OutlineItem>) -> nat {
    s.len() + sum_descendants(s)
}

/// The sum over a prefix is at most the sum over the whole sequence.
proof fn lemma_sum_prefix(s: Seq<OutlineItem>, k: int)
    requires
        0 <= k <= s.len(),
    ensures
        sum_descendants(s.take(k)) <= sum_descendants(s),
    decreases s.len(),
{
    if k < s.len() {
        let p = s.subrange(0, s.len() - 1);
        assert(p.take(k) =~= s.take(k));
        lemma_sum_prefix(p, k);
    } else {
        assert(s.take(k) =~= s);
    }
}

/// Extending a prefix by one entry adds that entry's descendants.
proof fn lemma_sum_step(s: Seq<OutlineItem>, i: int)
    requires
        0 <= i < s.len(),
    ensures
        sum_descendants(s.take(i + 1)) == sum_descendants(s.take(i)) + descendants(s[i]),
{
    let t = s.take(i + 1);
    assert(t.subrange(0, t.len() - 1) =~= s.take(i));
}

/// Appending a tree adds its size.
proof fn lemma_sum_push(s: Seq<OutlineItem>, x: OutlineItem)
    ensures
        sum_descendants(s.push(x)) == sum_descendants(s) + descendants(x),
{
    let t = s.push(x);
    assert(t.subrange(0, t.len() - 1) =~= s);
}

impl OutlineItem {
    /// An open entry without children, colour or style.
    pub fn new(title: String, destination: Option<FitDestination>) -> (o: Self)
        ensures
            o.title@ == title@,
            o.destination == destination,
            o.children@.len() == 0,
            o.is_open,
            o.color is None,
            o.flags == OutlineItemFlags::NORMAL,
    {
        Self {
            title,
            destination,
            children: Vec::new(),
            is_open: true,
            color: None,
            flags: OutlineItemFlags::NORMAL,
        }
    }

    /// Appends an entry under this one. The entry gains the child and everything under it.
    pub fn add_child(&mut self, child: OutlineItem)
        ensures
            final(self).children@ == old(self).children@.push(child),
            final(self).title == old(self).title,
            final(self).destination == old(self).destination,
            final(self).is_open == old(self).is_open,
            final(self).color == old(self).color,
            final(self).flags == old(self).flags,
            descendants(*final(self)) == descendants(*old(self)) + 1 + descendants(child),
    {
        proof {
            lemma_sum_push(self.children@, child);
        }
        self.children.push(child);
    }

    pub fn with_open(self, is_open: bool) -> (o: Self)
        ensures
            o.title@ == self.title@,
            o.destination == self.destination,
            o.children@ == self.children@,
            o.is_open == is_open,
            o.color == self.color,
            o.flags == self.flags,
    {
        let mut s = self;
        s.is_open = is_open;
        s
    }

    pub fn with_color(self, rgb: RGB) -> (o: Self)
        ensures
            o.title@ == self.title@,
            o.destination == self.destination,
            o.children@ == self.children@,
            o.is_open == self.is_open,
            o.color == Some(rgb),
            o.flags == self.flags,
    {
        let mut s = self;
        s.color = Some(rgb);
        s
    }

    pub fn with_flags(self, flags: OutlineItemFlags) -> (o: Self)
        ensures
            o.title@ == self.title@,
            o.destination == self.destination,
            o.children@ == self.children@,
            o.is_open == self.is_open,
            o.color == self.color,
            o.flags == flags,
    {
        let mut s = self;
        s.flags = flags;
        s
    }

    /// The number of entries under this one, at every depth.
    pub fn count_descendants(&self) -> (n: i32)
        requires
            descendants(*self) <= i32::MAX,
        ensures
            n == descendants(*self),
        decreases self,
    {
        let ghost s = self.children@;
        let mut count: i32 = self.children.len() as i32;
        let mut i: usize = 0;
        assert(s.take(0) =~= Seq::<OutlineItem>::empty());
        while i < self.children.len()
            invariant
                s == self.children@,
                i <= s.len(),
                descendants(*self) <= i32::MAX,
                descendants(*self) == s.len() + sum_descendants(s),
                count == s.len() + sum_descendants(s.take(i as int)),
            decreases s.len() - i,
        {
            proof {
                lemma_sum_step(s, i as int);
                lemma_sum_prefix(s, i + 1);
                assert(decreases_to!(self => self.children));
                assert(decreases_to!(self.children => self.children@[i as int]));
            }
            let c = self.children[i].count_descendants();
            count = count + c;
            i = i + 1;
        }
        assert(s.take(s.len() as int) =~= s);
        count
    }
}

/// Where an entry stands when its dictionary is made: the entry, the index of its object
/// number in the list of numbers, and the numbers given for its previous and next sibling.
pub type ItemPlace = (OutlineItem, int, Option<u64>, Option<u64>);

/// The places of the entries of the trees `cs`, the first `cs.len()` of a list of `n`
/// siblings whose first entry's number is at index `first`: each entry after its children
/// (see [`item_places`]). The entry at position `i` has its number at index `first` plus the
/// size of the trees before it; its previous and next numbers are those at indices
/// `first + i - 1` and `first + i + 1`, when `i` is not the first or the last of the `n`.
pub open spec fn list_places(cs: Seq<OutlineItem>, first: int, n: int, ids: Seq<u64>) -> Seq<ItemPlace>
    decreases cs, 0int,
{
    if cs.len() == 0 {
        Seq::empty()
    } else {
        let i = cs.len() - 1;
        let before = cs.subrange(0, i);
        let prev = if i > 0 {
            Some(ids[first + i - 1])
        } else {
            None
        };
        let next = if i < n - 1 {
            Some(ids[first + i + 1])
        } else {
            None
        };
        list_places(before, first, n, ids) + item_places(cs[i], first + tree_size(before), prev, next, ids)
    }
}

/// The places of an entry and the entries under it: those of its children, whose numbers
/// follow its own, then its own.
pub open spec fn item_places(item: OutlineItem, idx: int, prev: Option<u64>, next: Option<u64>, ids: Seq<u64>) -> Seq<
    ItemPlace,
>
    decreases item, 1int,
{
    list_places(item.children@, idx + 1, item.children@.len() as int, ids) + seq![(item, idx, prev, next)]
}

/// The integer object of the number `v`.
pub open spec fn u64_object(v: u64) -> PdfObject {
    PdfObject::Number(PdfNumberObject { value: NumberType::Integer(v as i64) })
}

/// The keys of an entry's dictionary, in order: `Type`, then `Prev`, `Next` and `Dest` when
/// there is one, `First`, `Last` and `Count` when it has children, `C` when it has a colour
/// and `F` when its style has bits.
pub open spec fn item_keys(item: OutlineItem, prev: Option<u64>, next: Option<u64>) -> Seq<Seq<char>> {
    seq!["Type"@] + key_if(prev is Some, "Prev"@) + key_if(next is Some, "Next"@) + key_if(
        item.destination is Some,
        "Dest"@,
    ) + (if item.children@.len() > 0 {
        seq!["First"@, "Last"@, "Count"@]
    } else {
        Seq::empty()
    }) + key_if(item.color is Some, "C"@) + key_if(outline_flag_bits(item.flags) != 0, "F"@)
}

/// The count of an entry with children: the number of entries under it, negated when it is
/// closed.
pub open spec fn item_count(item: OutlineItem) -> i64 {
    if item.is_open {
        descendants(item) as i64
    } else {
        -(descendants(item) as int) as i64
    }
}

/// The dictionary of the entry at place `p`: `/Type` with the title as a name, `/Prev` and
/// `/Next` with the sibling numbers, `/Dest` with the destination array, `/First` and `/Last`
/// with the numbers at the index after the entry's own and at that index plus the number of
/// children less one, `/Count` (see [`item_count`]), `/C` with the colour and `/F` with the
/// style's bits, each where [`item_keys`] has it.
pub open spec fn item_dict_is(d: PdfDictionaryObject, p: ItemPlace, ids: Seq<u64>) -> bool {
    let (item, idx, prev, next) = p;
    let m = item.children@.len();
    &&& plain_dict(d)
    &&& keys_of(d.values@) == item_keys(item, prev, next)
    &&& lookup(d.values@, "Type"@) matches Some(t) && is_name(t, item.title@)
    &&& prev matches Some(v) ==> lookup(d.values@, "Prev"@) == Some(u64_object(v))
    &&& next matches Some(v) ==> lookup(d.values@, "Next"@) == Some(u64_object(v))
    &&& item.destination matches Some(dest) ==> (lookup(d.values@, "Dest"@) matches Some(PdfObject::Array(a))
        && crate::action::is_destination_array(dest, a))
    &&& m > 0 ==> {
        &&& lookup(d.values@, "First"@) == Some(u64_object(ids[idx + 1]))
        &&& lookup(d.values@, "Last"@) == Some(u64_object(ids[idx + m]))
        &&& lookup(d.values@, "Count"@) == Some(PdfObject::Number(PdfNumberObject { value: NumberType::Integer(item_count(item)) }))
    }
    &&& item.color matches Some(c) ==> (lookup(d.values@, "C"@) matches Some(PdfObject::Array(a))
        && crate::color::is_channel_array(a, c.channels()))
    &&& outline_flag_bits(item.flags) != 0 ==> lookup(d.values@, "F"@) == Some(
        PdfObject::Number(PdfNumberObject { value: NumberType::Integer(outline_flag_bits(item.flags) as i64) }),
    )
}

/// The pairs `ds` are, one for one, the number at each place's index and the dictionary of
/// the entry there.
pub open spec fn dicts_match(ds: Seq<(u64, PdfDictionaryObject)>, ps: Seq<ItemPlace>, ids: Seq<u64>) -> bool {
    &&& ds.len() == ps.len()
    &&& forall|j: int| 0 <= j < ds.len() ==> (#[trigger] ds[j]).0 == ids[ps[j].1] && item_dict_is(ds[j].1, ps[j], ids)
}

proof fn lemma_dicts_match_concat(
    a: Seq<(u64, PdfDictionaryObject)>,
    pa: Seq<ItemPlace>,
    b: Seq<(u64, PdfDictionaryObject)>,
    pb: Seq<ItemPlace>,
    ids: Seq<u64>,
)
    requires
        dicts_match(a, pa, ids),
        dicts_match(b, pb, ids),
    ensures
        dicts_match(a + b, pa + pb, ids),
{
    assert forall|j: int| 0 <= j < (a + b).len() implies #[trigger] (a + b)[j].0 == ids[(pa + pb)[j].1]
        && item_dict_is((a + b)[j].1, (pa + pb)[j], ids) by {
        if j < a.len() {
            assert((a + b)[j] == a[j]);
            assert((pa + pb)[j] == pa[j]);
        } else {
            assert((a + b)[j] == b[j - a.len()]);
            assert((pa + pb)[j] == pb[j - a.len()]);
        }
    }
}

proof fn lemma_places_len(item: OutlineItem, idx: int, prev: Option<u64>, next: Option<u64>, ids: Seq<u64>)
    ensures
        item_places(item, idx, prev, next, ids).len() == 1 + descendants(item),
    decreases item, 1int,
{
    lemma_list_places_len(item.children@, idx + 1, item.children@.len() as int, ids);
}

proof fn lemma_list_places_len(cs: Seq<OutlineItem>, first: int, n: int, ids: Seq<u64>)
    ensures
        list_places(cs, first, n, ids).len() == tree_size(cs),
    decreases cs, 0int,
{
    if cs.len() > 0 {
        let i = cs.len() - 1;
        let before = cs.subrange(0, i);
        lemma_list_places_len(before, first, n, ids);
        let prev = if i > 0 {
            Some(ids[first + i - 1])
        } else {
            None
        };
        let next = if i < n - 1 {
            Some(ids[first + i + 1])
        } else {
            None
        };
        lemma_places_len(cs[i], first + tree_size(before), prev, next, ids);
    }
}

/// A tree under one of a list's entries is no larger than all the trees under the list.
proof fn lemma_child_descendants(s: Seq<OutlineItem>, i: int)
    requires
        0 <= i < s.len(),
    ensures
        descendants(s[i]) <= sum_descendants(s),
        tree_size(s.take(i + 1)) == tree_size(s.take(i)) + 1 + descendants(s[i]),
        tree_size(s.take(i + 1)) <= tree_size(s),
{
    lemma_sum_step(s, i);
    lemma_sum_prefix(s, i + 1);
}

/// Adds the entry `key`, `value` to a dictionary that lacks `key`.
fn put(d: &mut PdfDictionaryObject, key: &str, value: PdfObject)
    requires
        !keys_of(old(d).values@).contains(key@),
    ensures
        keys_of(final(d).values@) == keys_of(old(d).values@).push(key@),
        lookup(final(d).values@, key@) == Some(value),
        forall|k2: Seq<char>| k2 != key@ ==> lookup(final(d).values@, k2) == lookup(old(d).values@, k2),
        old(d).wf() ==> final(d).wf(),
        final(d).object_number == old(d).object_number,
        final(d).generation_number == old(d).generation_number,
        final(d).children == old(d).children,
{
    let ghost before = d.values@;
    proof {
        lemma_absent_key(before, key@);
    }
    d.put_new(key, value);
    proof {
        assert(d.values@.subrange(0, before.len() as int) =~= before);
        lemma_lookup_set(before, d.values@, key@, value);
    }
}

/// The key literals of an entry's dictionary differ from one another.
proof fn lemma_item_keys_distinct()
    ensures
        "Type"@ != "Prev"@,
        "Type"@ != "Next"@,
        "Type"@ != "Dest"@,
        "Type"@ != "First"@,
        "Type"@ != "Last"@,
        "Type"@ != "Count"@,
        "Type"@ != "C"@,
        "Type"@ != "F"@,
        "Prev"@ != "Next"@,
        "Prev"@ != "Dest"@,
        "Prev"@ != "First"@,
        "Prev"@ != "Last"@,
        "Prev"@ != "Count"@,
        "Prev"@ != "C"@,
        "Prev"@ != "F"@,
        "Next"@ != "Dest"@,
        "Next"@ != "First"@,
        "Next"@ != "Last"@,
        "Next"@ != "Count"@,
        "Next"@ != "C"@,
        "Next"@ != "F"@,
        "Dest"@ != "First"@,
        "Dest"@ != "Last"@,
        "Dest"@ != "Count"@,
        "Dest"@ != "C"@,
        "Dest"@ != "F"@,
        "First"@ != "Last"@,
        "First"@ != "Count"@,
        "First"@ != "C"@,
        "First"@ != "F"@,
        "Last"@ != "Count"@,
        "Last"@ != "C"@,
        "Last"@ != "F"@,
        "Count"@ != "C"@,
        "Count"@ != "F"@,
        "C"@ != "F"@,
{
    reveal_strlit("Type");
    reveal_strlit("Prev");
    reveal_strlit("Next");
    reveal_strlit("Dest");
    reveal_strlit("First");
    reveal_strlit("Last");
    reveal_strlit("Count");
    reveal_strlit("C");
    reveal_strlit("F");
    assert("Type"@[0] != "Prev"@[0] && "Type"@[0] != "Next"@[0] && "Type"@[0] != "Dest"@[0]);
    assert("Type"@[0] != "Last"@[0] && "Prev"@[0] != "Next"@[0] && "Prev"@[0] != "Dest"@[0]);
    assert("Prev"@[0] != "Last"@[0] && "Next"@[0] != "Dest"@[0] && "Next"@[0] != "Last"@[0]);
    assert("Dest"@[0] != "Last"@[0] && "First"@[0] != "Count"@[0] && "C"@[0] != "F"@[0]);
    assert("First"@.len() == 5 && "Count"@.len() == 5 && "C"@.len() == 1 && "F"@.len() == 1);
}

/// The dictionary of the entry `item` at place `(item, idx, prev_id, next_id)` (see
/// [`item_dict_is`]).
#[verifier::rlimit(60)]
fn item_dict(item: &OutlineItem, all_ids: &Vec<u64>, idx: usize, prev_id: Option<u64>, next_id: Option<u64>) -> (d:
    PdfDictionaryObject)
    requires
        idx + 1 + descendants(*item) <= all_ids@.len(),
        descendants(*item) <= i32::MAX,
    ensures
        item_dict_is(d, (*item, idx as int, prev_id, next_id), all_ids@),
{
    proof {
        lemma_item_keys_distinct();
    }
    let mut dict = PdfDictionaryObject::new();
    put(&mut dict, "Type", PdfObject::name_obj(item.title.as_str()));
    let ghost title_obj = lookup(dict.values@, "Type"@);
    if let Some(prev) = prev_id {
        put(&mut dict, "Prev", PdfObject::from(prev));
    }
    let ghost k1 = keys_of(dict.values@);
    assert(k1 =~= seq!["Type"@] + key_if(prev_id is Some, "Prev"@));
    if let Some(next) = next_id {
        put(&mut dict, "Next", PdfObject::from(next));
    }
    let ghost k2 = keys_of(dict.values@);
    assert(k2 =~= k1 + key_if(next_id is Some, "Next"@));
    if let Some(dest) = &item.destination {
        put(&mut dict, "Dest", PdfObject::Array(dest.to_pdf_array()));
    }
    let ghost k3 = keys_of(dict.values@);
    assert(k3 =~= k2 + key_if(item.destination is Some, "Dest"@));
    let m = item.children.len();
    let total = all_ids.len();
    if m > 0 {
        proof {
            assert(m <= descendants(*item));
        }
        assert(idx + m < total);
        put(&mut dict, "First", PdfObject::from(all_ids[idx + 1]));
        put(&mut dict, "Last", PdfObject::from(all_ids[idx + m]));
        let count = item.count_descendants();
        let count_val: i32 = if item.is_open {
            count
        } else {
            -count
        };
        put(&mut dict, "Count", PdfObject::from(count_val as i64));
    }
    let ghost k4 = keys_of(dict.values@);
    assert(k4 =~= k3 + (if item.children@.len() > 0 {
        seq!["First"@, "Last"@, "Count"@]
    } else {
        Seq::empty()
    }));
    if let Some(rgb) = &item.color {
        put(&mut dict, "C", PdfObject::Array(rgb.as_pdf_array()));
    }
    let ghost k5 = keys_of(dict.values@);
    assert(k5 =~= k4 + key_if(item.color is Some, "C"@));
    let bits = item.flags.bits();
    if bits != 0 {
        put(&mut dict, "F", PdfObject::from(bits as i64));
    }
    assert(keys_of(dict.values@) =~= item_keys(*item, prev_id, next_id));
    dict
}

/// Unfolding [`list_places`] by one entry.
proof fn lemma_list_places_step(cs: Seq<OutlineItem>, first: int, n: int, ids: Seq<u64>, i: int)
    requires
        0 <= i < cs.len(),
    ensures
        list_places(cs.take(i + 1), first, n, ids) == list_places(cs.take(i), first, n, ids) + item_places(
            cs[i],
            first + tree_size(cs.take(i)),
            if i > 0 {
                Some(ids[first + i - 1])
            } else {
                None
            },
            if i < n - 1 {
                Some(ids[first + i + 1])
            } else {
                None
            },
            ids,
        ),
{
    let t = cs.take(i + 1);
    assert(t.subrange(0, i) =~= cs.take(i));
    assert(t[i] == cs[i]);
}

/// The object numbers of `k` entries taken after the number `start + 1` of the outline.
pub open spec fn outline_ids(start: u64, k: nat) -> Seq<u64> {
    Seq::new(k, |j: int| (start + 2 + j) as u64)
}

/// Every tree of `cs` has at most `bound` entries under its root.
pub open spec fn all_fit(cs: Seq<OutlineItem>, bound: int) -> bool {
    forall|i: int| 0 <= i < cs.len() ==> descendants(#[trigger] cs[i]) <= bound
}

impl DocumentOutline {
    /// Makes the dictionary of `item` and, before it, those of the entries under it, and
    /// appends them to `dicts` (see [`item_places`]); `idx` moves past the entry and the
    /// entries under it.
    fn build_item_dict(
        &self,
        item: &OutlineItem,
        dicts: &mut Vec<(u64, PdfDictionaryObject)>,
        all_ids: &Vec<u64>,
        idx: &mut usize,
        prev_id: Option<u64>,
        next_id: Option<u64>,
    )
        requires
            *old(idx) + 1 + descendants(*item) <= all_ids@.len(),
            descendants(*item) <= i32::MAX,
        ensures
            *final(idx) == *old(idx) + 1 + descendants(*item),
            final(dicts)@.len() >= old(dicts)@.len(),
            final(dicts)@.subrange(0, old(dicts)@.len() as int) == old(dicts)@,
            dicts_match(
                final(dicts)@.subrange(old(dicts)@.len() as int, final(dicts)@.len() as int),
                item_places(*item, *old(idx) as int, prev_id, next_id, all_ids@),
                all_ids@,
            ),
        decreases item, 1int,
    {
        let ghost base = dicts@;
        let ghost idx0 = *idx as int;
        let total = all_ids.len();
        let current_id = all_ids[*idx];
        let dict = item_dict(item, all_ids, *idx, prev_id, next_id);
        assert(*idx < total);
        *idx = *idx + 1;
        proof {
            assert(decreases_to!(item => item.children));
            assert forall|i: int| 0 <= i < item.children@.len() implies descendants(
                #[trigger] item.children@[i],
            ) <= i32::MAX by {
                lemma_child_descendants(item.children@, i);
            }
        }
        self.build_list(&item.children, dicts, all_ids, idx);
        let ghost mid = dicts@;
        dicts.push((current_id, dict));
        proof {
            let kids = list_places(item.children@, idx0 + 1, item.children@.len() as int, all_ids@);
            let own = seq![(*item, idx0, prev_id, next_id)];
            let a = mid.subrange(base.len() as int, mid.len() as int);
            let b = seq![(current_id, dict)];
            lemma_dicts_match_concat(a, kids, b, own, all_ids@);
            assert(dicts@.subrange(base.len() as int, dicts@.len() as int) =~= a + b);
            assert(dicts@.subrange(0, base.len() as int) =~= mid.subrange(0, base.len() as int));
        }
    }

    /// Makes the dictionaries of the sibling entries `cs`, whose first number is at index
    /// `idx`, each after those of the entries under it (see [`list_places`]).
    fn build_list(
        &self,
        cs: &Vec<OutlineItem>,
        dicts: &mut Vec<(u64, PdfDictionaryObject)>,
        all_ids: &Vec<u64>,
        idx: &mut usize,
    )
        requires
            *old(idx) + tree_size(cs@) <= all_ids@.len(),
            all_fit(cs@, i32::MAX as int),
        ensures
            *final(idx) == *old(idx) + tree_size(cs@),
            final(dicts)@.len() >= old(dicts)@.len(),
            final(dicts)@.subrange(0, old(dicts)@.len() as int) == old(dicts)@,
            dicts_match(
                final(dicts)@.subrange(old(dicts)@.len() as int, final(dicts)@.len() as int),
                list_places(cs@, *old(idx) as int, cs@.len() as int, all_ids@),
                all_ids@,
            ),
        decreases cs, 0int,
    {
        let ghost base = dicts@;
        let ghost first = *idx as int;
        let n = cs.len();
        let total = all_ids.len();
        let first_idx = *idx;
        let mut i: usize = 0;
        assert(cs@.take(0) =~= Seq::<OutlineItem>::empty());
        assert(dicts@.subrange(base.len() as int, dicts@.len() as int) =~= Seq::<(u64, PdfDictionaryObject)>::empty());
        while i < n
            invariant
                n == cs@.len(),
                total == all_ids@.len(),
                first == first_idx,
                i <= n,
                first + tree_size(cs@) <= all_ids@.len(),
                all_fit(cs@, i32::MAX as int),
                *idx == first + tree_size(cs@.take(i as int)),
                dicts@.len() >= base.len(),
                dicts@.subrange(0, base.len() as int) == base,
                dicts_match(
                    dicts@.subrange(base.len() as int, dicts@.len() as int),
                    list_places(cs@.take(i as int), first, n as int, all_ids@),
                    all_ids@,
                ),
            decreases n - i,
        {
            proof {
                lemma_child_descendants(cs@, i as int);
                lemma_list_places_step(cs@, first, n as int, all_ids@, i as int);
                assert(decreases_to!(cs => cs@[i as int]));
                assert(tree_size(cs@.take(i as int)) >= i);
            }
            let prev = if i > 0 {
                Some(all_ids[first_idx + i - 1])
            } else {
                None
            };
            let next = if i + 1 < n {
                Some(all_ids[first_idx + i + 1])
            } else {
                None
            };
            let ghost before = dicts@;
            let ghost idx_before = *idx as int;
            self.build_item_dict(&cs[i], dicts, all_ids, idx, prev, next);
            proof {
                let a = before.subrange(base.len() as int, before.len() as int);
                let b = dicts@.subrange(before.len() as int, dicts@.len() as int);
                lemma_dicts_match_concat(
                    a,
                    list_places(cs@.take(i as int), first, n as int, all_ids@),
                    b,
                    item_places(cs@[i as int], idx_before, prev, next, all_ids@),
                    all_ids@,
                );
                assert(dicts@.subrange(base.len() as int, dicts@.len() as int) =~= a + b);
                assert(dicts@.subrange(0, base.len() as int) =~= before.subrange(0, base.len() as int));
            }
            i = i + 1;
        }
        assert(cs@.take(n as int) =~= cs@);
    }
}

/// The outline of a document: its top-level entries.
pub struct DocumentOutline {
    pub items: Vec<OutlineItem>,
}

impl Default for DocumentOutline {
    fn default() -> (d: Self)
        ensures
            d.items@.len() == 0,
    {
        Self::new()
    }
}

/// The dictionary of the outline and the dictionaries of its entries, each with its object
/// number.
pub struct OutlineDictionaries {
    pub outline_dict: Option<(u64, PdfDictionaryObject)>,
    pub item_dicts: Vec<(u64, PdfDictionaryObject)>,
}

/// Each top-level entry can count its descendants in an `i32`.
pub open spec fn counts_fit(items: Seq<OutlineItem>) -> bool {
    forall|i: int| 0 <= i < items.len() ==> descendants(#[trigger] items[i]) <= i32::MAX
}

impl DocumentOutline {
    pub fn new() -> (d: Self)
        ensures
            d.items@.len() == 0,
    {
        Self { items: Vec::new() }
    }

    /// Appends a top-level entry. The outline gains the entry and everything under it.
    pub fn add_item(&mut self, item: OutlineItem)
        ensures
            final(self).items@ == old(self).items@.push(item),
            tree_size(final(self).items@) == tree_size(old(self).items@) + 1 + descendants(item),
    {
        proof {
            lemma_sum_push(self.items@, item);
        }
        self.items.push(item);
    }

    pub fn is_empty(&self) -> (b: bool)
        ensures
            b == (self.items@.len() == 0),
    {
        self.items.len() == 0
    }

    /// The number of entries of the outline, at every depth.
    pub fn total_count(&self) -> (n: usize)
        requires
            counts_fit(self.items@),
            tree_size(self.items@) <= usize::MAX,
        ensures
            n == tree_size(self.items@),
    {
        let ghost s = self.items@;
        let mut count: usize = self.items.len();
        let mut i: usize = 0;
        assert(s.take(0) =~= Seq::<OutlineItem>::empty());
        while i < self.items.len()
            invariant
                s == self.items@,
                i <= s.len(),
                counts_fit(s),
                tree_size(s) <= usize::MAX,
                count == s.len() + sum_descendants(s.take(i as int)),
            decreases s.len() - i,
        {
            proof {
                lemma_sum_step(s, i as int);
                lemma_sum_prefix(s, i + 1);
            }
            let c = self.items[i].count_descendants();
            count = count + c as usize;
            i = i + 1;
        }
        assert(s.take(s.len() as int) =~= s);
        count
    }

    /// The outline dictionary and the dictionary of every entry, each with its object number.
    /// The outline takes the next number from `allocator`, then every entry takes one, in the
    /// order of the tree (an entry, then the entries under it): one number for the outline and
    /// one per entry. Nothing is taken for an empty outline. The outline dictionary holds
    /// `/Type /Outlines`, `/First` and `/Last` with the numbers of the first entry and of the
    /// entry as far into that order as there are top-level entries, and `/Count` with the
    /// number of entries. The entries' dictionaries are those of [`item_dict_is`], one per
    /// entry, each after those of the entries under it (see [`list_places`]).
    pub fn to_dicts(&self, allocator: &mut ObjectOps) -> (r: PdfResult<OutlineDictionaries>)
        requires
            counts_fit(self.items@),
            tree_size(self.items@) <= i64::MAX,
            tree_size(self.items@) <= usize::MAX,
            old(allocator).last() + 1 + tree_size(self.items@) <= u64::MAX,
        ensures
            final(allocator).spec_version() == old(allocator).spec_version(),
            r matches Ok(o) && if self.items@.len() == 0 {
                &&& o.outline_dict is None
                &&& o.item_dicts@.len() == 0
                &&& final(allocator).last() == old(allocator).last()
            } else {
                let start = old(allocator).last();
                &&& final(allocator).last() == start + 1 + tree_size(self.items@)
                &&& o.outline_dict matches Some((id, d)) && {
                    &&& id == start + 1
                    &&& plain_dict(d)
                    &&& keys_of(d.values@) =~= seq!["Type"@, "First"@, "Last"@, "Count"@]
                    &&& is_name(d.values@[0].1, "Outlines"@)
                    &&& is_number(d.values@[1].1, NumberType::Integer((start + 2) as i64))
                    &&& is_number(d.values@[2].1, NumberType::Integer((start + 1 + self.items@.len()) as i64))
                    &&& is_number(d.values@[3].1, NumberType::Integer(tree_size(self.items@) as i64))
                }
                &&& o.item_dicts@.len() == tree_size(self.items@)
                &&& dicts_match(
                    o.item_dicts@,
                    list_places(
                        self.items@,
                        0,
                        self.items@.len() as int,
                        outline_ids(start, tree_size(self.items@)),
                    ),
                    outline_ids(start, tree_size(self.items@)),
                )
            },
    {
        if self.items.len() == 0 {
            return Ok(OutlineDictionaries { outline_dict: None, item_dicts: Vec::new() });
        }
        let ghost start = allocator.last();
        let outline_id = allocator.next_object_number().value();
        let mut item_dicts: Vec<(u64, PdfDictionaryObject)> = Vec::new();
        let mut item_ids: Vec<u64> = Vec::new();
        self.allocate_item_ids(&self.items, allocator, &mut item_ids);
        assert(item_ids@ =~= outline_ids(start, tree_size(self.items@)));
        let mut idx: usize = 0;
        self.build_list(&self.items, &mut item_dicts, &item_ids, &mut idx);
        assert(item_dicts@.subrange(0, item_dicts@.len() as int) =~= item_dicts@);
        proof {
            lemma_list_places_len(self.items@, 0, self.items@.len() as int, item_ids@);
        }
        proof {
            reveal_strlit("Type");
            reveal_strlit("First");
            reveal_strlit("Last");
            reveal_strlit("Count");
            assert("Type"@.len() == 4 && "First"@.len() == 5 && "Last"@.len() == 4 && "Count"@.len() == 5);
            assert("Type"@[0] != "Last"@[0] && "First"@[0] != "Count"@[0]);
            assert(item_ids@.len() == tree_size(self.items@));
            assert(tree_size(self.items@) >= self.items@.len());
        }
        let mut outline_dict = PdfDictionaryObject::new();
        outline_dict.put_new("Type", PdfObject::name_obj("Outlines"));
        outline_dict.put_new("First", PdfObject::num_obj(NumberType::Integer(item_ids[0] as i64)));
        outline_dict.put_new(
            "Last",
            PdfObject::num_obj(NumberType::Integer(item_ids[self.items.len() - 1] as i64)),
        );
        let total = self.total_count();
        outline_dict.put_new("Count", PdfObject::num_obj(NumberType::Integer(total as i64)));
        Ok(OutlineDictionaries { outline_dict: Some((outline_id, outline_dict)), item_dicts })
    }

    /// Takes an object number for each entry of the trees `items`, an entry before the
    /// entries under it, and appends them to `ids`.
    fn allocate_item_ids(&self, items: &Vec<OutlineItem>, allocator: &mut ObjectOps, ids: &mut Vec<u64>)
        requires
            old(allocator).last() + tree_size(items@) <= u64::MAX,
        ensures
            final(allocator).spec_version() == old(allocator).spec_version(),
            final(allocator).last() == old(allocator).last() + tree_size(items@),
            final(ids)@.len() == old(ids)@.len() + tree_size(items@),
            final(ids)@.subrange(0, old(ids)@.len() as int) == old(ids)@,
            forall|j: int|
                old(ids)@.len() <= j < final(ids)@.len() ==> #[trigger] final(ids)@[j] == old(allocator).last() + 1
                    + (j - old(ids)@.len()),
        decreases items,
    {
        let ghost s = items@;
        let ghost start = allocator.last();
        let ghost base = ids@;
        let mut i: usize = 0;
        assert(s.take(0) =~= Seq::<OutlineItem>::empty());
        while i < items.len()
            invariant
                s == items@,
                i <= s.len(),
                start + tree_size(s) <= u64::MAX,
                allocator.spec_version() == old(allocator).spec_version(),
                allocator.last() == start + tree_size(s.take(i as int)),
                ids@.len() == base.len() + tree_size(s.take(i as int)),
                ids@.subrange(0, base.len() as int) == base,
                forall|j: int| base.len() <= j < ids@.len() ==> #[trigger] ids@[j] == start + 1 + (j - base.len()),
            decreases s.len() - i,
        {
            proof {
                lemma_sum_step(s, i as int);
                lemma_sum_prefix(s, i + 1);
                assert(decreases_to!(items => items@[i as int]));
                assert(decreases_to!(items@[i as int] => items@[i as int].children));
            }
            let ghost before = ids@;
            let n = allocator.next_object_number().value();
            ids.push(n);
            assert(ids@.subrange(0, base.len() as int) =~= before.subrange(0, base.len() as int));
            if items[i].children.len() > 0 {
                let ghost mid = ids@;
                self.allocate_item_ids(&items[i].children, allocator, ids);
                assert(ids@.subrange(0, base.len() as int) =~= mid.subrange(0, base.len() as int));
                assert forall|j: int| base.len() <= j < ids@.len() implies #[trigger] ids@[j] == start + 1 + (j
                    - base.len()) by {
                    if j < mid.len() {
                        assert(ids@[j] == ids@.subrange(0, mid.len() as int)[j]);
                    }
                }
            } else {
                assert(items@[i as int].children@ =~= Seq::<OutlineItem>::empty());
                assert(sum_descendants(items@[i as int].children@) == 0);
            }
            i = i + 1;
        }
        assert(s.take(s.len() as int) =~= s);
    }
}

} // verus!
