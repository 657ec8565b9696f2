//! Writing indirect objects into the body of a file and recording where each one starts in
//! the cross-reference table.
//!
//! The bytes go to the end of a buffer that holds the file written so far, so that an
//! object's offset is the buffer's length before it is written.
use vstd::prelude::*;
use crate::PdfError;
use crate::cross_ref::{CrossRefTable, Entry};
use crate::encoding::dec_digits;
use crate::objects::dictionary::PdfDictionaryObject;
use crate::objects::metadata::{Generation, ObjectStatus};
use crate::objects::name::PdfNameObject;
use crate::objects::pdf_object::{PdfObject, inline_text, object_number_of};

verus! {

/// An indirect object as written in the body: `N 0 obj`, a line feed, the object, `endobj`
/// and two line feeds.
pub open spec fn indirect_object_text(n: u64, t: Seq<u8>) -> Seq<u8> {
    dec_digits(n as nat) + seq![' ' as u8, '0' as u8, ' ' as u8, 'o' as u8, 'b' as u8, 'j' as u8, '\n' as u8] + t
        + seq!['e' as u8, 'n' as u8, 'd' as u8, 'o' as u8, 'b' as u8, 'j' as u8, '\n' as u8, '\n' as u8]
}

/// The cross-reference entry of the object numbered `n` written at byte `at`.
pub open spec fn in_use_entry(n: u64, at: nat) -> Entry {
    Entry {
        object_number: n as u32,
        object_status: ObjectStatus::InUse,
        offset_or_next_free: at as u64,
        generation: Generation::Normal,
    }
}

/// What is written: bytes, and the cross-reference entries of the objects among them.
pub type Written = (Seq<u8>, Seq<Entry>);

/// Nothing written.
pub open spec fn nothing() -> Written {
    (Seq::empty(), Seq::empty())
}

/// `a`, then what `b` writes after it; nothing when either cannot be written.
pub open spec fn then_written(a: Option<Written>, b: Option<Written>) -> Option<Written> {
    match (a, b) {
        (Some(x), Some(y)) => Some((x.0 + y.0, x.1 + y.1)),
        _ => None,
    }
}

/// What writing the object `o` at byte `base` of the file produces: for an indirect object
/// other than a reference, its text (see [`indirect_object_text`]) and its entry; nothing
/// for a reference or a direct object; `None` when the object cannot be written.
pub open spec fn write_object(o: PdfObject, base: nat) -> Option<Written> {
    if o is Reference {
        Some(nothing())
    } else {
        match object_number_of(o) {
            None => Some(nothing()),
            Some(n) => match inline_text(o) {
                Some(t) => Some((indirect_object_text(n, t), seq![in_use_entry(n, base)])),
                None => None,
            },
        }
    }
}

/// Writing, one after the other from byte `base`, the values of `s` that are indirect
/// objects.
pub open spec fn write_values(s: Seq<(PdfNameObject, PdfObject)>, base: nat) -> Option<Written>
    decreases s.len(),
{
    if s.len() == 0 {
        Some(nothing())
    } else {
        match write_values(s.drop_last(), base) {
            None => None,
            Some(w) => {
                let v = s.last().1;
                if object_number_of(v) is Some {
                    then_written(Some(w), write_object(v, base + w.0.len()))
                } else {
                    Some(w)
                }
            },
        }
    }
}

/// Writing, one after the other from byte `base`, the children `s` of a page tree node, each
/// with its own values and children.
pub open spec fn write_children(s: Seq<PdfObject>, base: nat) -> Option<Written>
    decreases s, 0int,
{
    if s.len() == 0 {
        Some(nothing())
    } else {
        match write_children(s.subrange(0, s.len() - 1), base) {
            None => None,
            Some(w) => then_written(Some(w), write_child(s[s.len() - 1], base + w.0.len())),
        }
    }
}

/// Writing one child: a dictionary with its values and children, another object alone.
pub open spec fn write_child(o: PdfObject, base: nat) -> Option<Written>
    decreases o, 2int,
{
    match o {
        PdfObject::Dictionary(d) => write_dict(d, base),
        _ => write_object(o, base),
    }
}

/// Writing a dictionary from byte `base`: the dictionary itself, then its values that are
/// indirect objects, then its children.
pub open spec fn write_dict(d: PdfDictionaryObject, base: nat) -> Option<Written>
    decreases d, 1int,
{
    match write_object(PdfObject::Dictionary(d), base) {
        None => None,
        Some(w0) => match write_values(d.values@, base + w0.0.len()) {
            None => None,
            Some(w1) => then_written(
                Some((w0.0 + w1.0, w0.1 + w1.1)),
                write_children(d.children@, base + w0.0.len() + w1.0.len()),
            ),
        },
    }
}

/// `out` and `xref` gained what `w` describes, when it is some.
pub open spec fn wrote(
    w: Option<Written>,
    r: Result<(), PdfError>,
    out_before: Seq<u8>,
    out_after: Seq<u8>,
    xref_before: Seq<Entry>,
    xref_after: Seq<Entry>,
) -> bool {
    match w {
        Some(x) => r is Ok && out_after == out_before + x.0 && xref_after == xref_before + x.1,
        None => r is Err,
    }
}

proof fn lemma_values_prefix_none(s: Seq<(PdfNameObject, PdfObject)>, base: nat, k: int)
    requires
        0 <= k <= s.len(),
        write_values(s.take(k), base) is None,
    ensures
        write_values(s, base) is None,
    decreases s.len(),
{
    if k < s.len() {
        let p = s.drop_last();
        assert(p.take(k) =~= s.take(k));
        lemma_values_prefix_none(p, base, k);
    } else {
        assert(s.take(k) =~= s);
    }
}

pub(crate) proof fn lemma_children_prefix_none(s: Seq<PdfObject>, base: nat, k: int)
    requires
        0 <= k <= s.len(),
        write_children(s.take(k), base) is None,
    ensures
        write_children(s, base) is None,
    decreases s.len(),
{
    if k < s.len() {
        let p = s.subrange(0, s.len() - 1);
        assert(p.take(k) =~= s.take(k));
        lemma_children_prefix_none(p, base, k);
    } else {
        assert(s.take(k) =~= s);
    }
}

proof fn lemma_values_step(s: Seq<(PdfNameObject, PdfObject)>, base: nat, i: int)
    requires
        0 <= i < s.len(),
    ensures
        write_values(s.take(i + 1), base) == match write_values(s.take(i), base) {
            None => None,
            Some(w) => if object_number_of(s[i].1) is Some {
                then_written(Some(w), write_object(s[i].1, base + w.0.len()))
            } else {
                Some(w)
            },
        },
{
    let t = s.take(i + 1);
    assert(t.drop_last() =~= s.take(i));
    assert(t.last() == s[i]);
}

pub(crate) proof fn lemma_children_step(s: Seq<PdfObject>, base: nat, i: int)
    requires
        0 <= i < s.len(),
    ensures
        write_children(s.take(i + 1), base) == match write_children(s.take(i), base) {
            None => None,
            Some(w) => then_written(Some(w), write_child(s[i], base + w.0.len())),
        },
{
    let t = s.take(i + 1);
    assert(t.subrange(0, t.len() - 1) =~= s.take(i));
    assert(t[t.len() - 1] == s[i]);
}

/// Appends `N 0 obj`, the object's bytes and `endobj` for the object numbered `n`, and
/// records its entry at the buffer's former length.
fn write_indirect(n: u64, body: &Vec<u8>, xref: &mut CrossRefTable, out: &mut Vec<u8>)
    ensures
        final(out)@ == old(out)@ + indirect_object_text(n, body@),
        final(xref)@ == old(xref)@ + seq![in_use_entry(n, old(out)@.len())],
        old(xref).wf() ==> final(xref).wf(),
{
    let offset = out.len() as u64;
    let mut vec: Vec<u8> = Vec::new();
    crate::encoding::push_decimal(&mut vec, n);
    vec.push(' ' as u8);
    vec.push('0' as u8);
    vec.push(' ' as u8);
    vec.push('o' as u8);
    vec.push('b' as u8);
    vec.push('j' as u8);
    vec.push('\n' as u8);
    crate::encoding::push_slice(&mut vec, body.as_slice());
    vec.push('e' as u8);
    vec.push('n' as u8);
    vec.push('d' as u8);
    vec.push('o' as u8);
    vec.push('b' as u8);
    vec.push('j' as u8);
    vec.push('\n' as u8);
    vec.push('\n' as u8);
    assert(vec@ =~= indirect_object_text(n, body@));
    crate::encoding::push_slice(out, vec.as_slice());
    xref.add_entry(Entry::new(n as u32, ObjectStatus::InUse, offset, Generation::Normal));
    assert(old(xref)@.push(in_use_entry(n, old(out)@.len())) =~= old(xref)@ + seq![in_use_entry(n, old(out)@.len())]);
}

/// Writes one child of a page tree node (see [`write_child`]).
pub(crate) fn write_child_of(o: &PdfObject, xref: &mut CrossRefTable, out: &mut Vec<u8>) -> (r: Result<(), PdfError>)
    ensures
        wrote(write_child(*o, old(out)@.len()), r, old(out)@, final(out)@, old(xref)@, final(xref)@),
        old(xref).wf() ==> final(xref).wf(),
    decreases o, 2int,
{
    match o {
        PdfObject::Dictionary(d) => d.serialise(xref, out),
        other => other.serialise(xref, out),
    }
}

impl PdfObject {
    /// Writes the object if it is indirect and not a reference, and records its entry (see
    /// [`write_object`]).
    pub fn serialise(&self, xref: &mut CrossRefTable, out: &mut Vec<u8>) -> (r: Result<(), PdfError>)
        ensures
            wrote(write_object(*self, old(out)@.len()), r, old(out)@, final(out)@, old(xref)@, final(xref)@),
            r is Err ==> final(out)@ == old(out)@ && final(xref)@ == old(xref)@,
            old(xref).wf() ==> final(xref).wf(),
    {
        if self.is_reference() {
            assert(old(out)@ + nothing().0 =~= old(out)@);
            assert(old(xref)@ + nothing().1 =~= old(xref)@);
            return Ok(());
        }
        let object_number = match self.get_object_number() {
            Some(n) => n,
            None => {
                assert(old(out)@ + nothing().0 =~= old(out)@);
                assert(old(xref)@ + nothing().1 =~= old(xref)@);
                return Ok(());
            },
        };
        let body = match self.encode() {
            Ok(b) => b,
            Err(e) => {
                return Err(e);
            },
        };
        write_indirect(object_number, &body, xref, out);
        Ok(())
    }
}

impl PdfDictionaryObject {
    /// Writes the dictionary itself when it is indirect.
    fn write_self(&self, xref: &mut CrossRefTable, out: &mut Vec<u8>) -> (r: Result<(), PdfError>)
        ensures
            wrote(
                write_object(PdfObject::Dictionary(*self), old(out)@.len()),
                r,
                old(out)@,
                final(out)@,
                old(xref)@,
                final(xref)@,
            ),
            old(xref).wf() ==> final(xref).wf(),
    {
        let n = match self.object_number {
            Some(n) => n,
            None => {
                assert(old(out)@ + nothing().0 =~= old(out)@);
                assert(old(xref)@ + nothing().1 =~= old(xref)@);
                return Ok(());
            },
        };
        let body = match self.encode() {
            Ok(b) => b,
            Err(e) => {
                return Err(e);
            },
        };
        write_indirect(n, &body, xref, out);
        Ok(())
    }

    /// Writes, one after the other, the values of the dictionary that are indirect objects
    /// (see [`write_values`]).
    fn write_values_of(&self, xref: &mut CrossRefTable, out: &mut Vec<u8>) -> (r: Result<(), PdfError>)
        ensures
            wrote(write_values(self.values@, old(out)@.len()), r, old(out)@, final(out)@, old(xref)@, final(xref)@),
            old(xref).wf() ==> final(xref).wf(),
    {
        let ghost base = out@.len();
        let ghost out0 = out@;
        let ghost x0 = xref@;
        let mut i: usize = 0;
        assert(self.values@.take(0) =~= Seq::<(PdfNameObject, PdfObject)>::empty());
        assert(out0 + nothing().0 =~= out0);
        assert(x0 + nothing().1 =~= x0);
        while i < self.values.len()
            invariant
                i <= self.values@.len(),
                base == out0.len(),
                out0 == old(out)@,
                x0 == old(xref)@,
                old(xref).wf() ==> xref.wf(),
                write_values(self.values@.take(i as int), base) matches Some(w) && out@ == out0 + w.0 && xref@
                    == x0 + w.1,
            decreases self.values@.len() - i,
        {
            proof {
                lemma_values_step(self.values@, base, i as int);
            }
            let ghost prev = write_values(self.values@.take(i as int), base)->Some_0;
            if self.values[i].1.get_object_number().is_some() {
                match self.values[i].1.serialise(xref, out) {
                    Ok(()) => {},
                    Err(e) => {
                        proof {
                            lemma_values_prefix_none(self.values@, base, i + 1);
                        }
                        return Err(e);
                    },
                }
                let ghost step = write_object(self.values@[i as int].1, base + prev.0.len())->Some_0;
                assert(out@ =~= out0 + (prev.0 + step.0));
                assert(xref@ =~= x0 + (prev.1 + step.1));
            }
            i = i + 1;
        }
        assert(self.values@.take(self.values@.len() as int) =~= self.values@);
        Ok(())
    }

    /// Writes, one after the other, the children of the node, each with its own values and
    /// children (see [`write_children`]).
    fn write_children_of(&self, xref: &mut CrossRefTable, out: &mut Vec<u8>) -> (r: Result<(), PdfError>)
        ensures
            wrote(write_children(self.children@, old(out)@.len()), r, old(out)@, final(out)@, old(xref)@, final(xref)@),
            old(xref).wf() ==> final(xref).wf(),
        decreases self, 0int,
    {
        let ghost base = out@.len();
        let ghost out0 = out@;
        let ghost x0 = xref@;
        let mut j: usize = 0;
        assert(self.children@.take(0) =~= Seq::<PdfObject>::empty());
        assert(out0 + nothing().0 =~= out0);
        assert(x0 + nothing().1 =~= x0);
        while j < self.children.len()
            invariant
                j <= self.children@.len(),
                base == out0.len(),
                out0 == old(out)@,
                x0 == old(xref)@,
                old(xref).wf() ==> xref.wf(),
                write_children(self.children@.take(j as int), base) matches Some(w) && out@ == out0 + w.0 && xref@
                    == x0 + w.1,
            decreases self.children@.len() - j,
        {
            proof {
                lemma_children_step(self.children@, base, j as int);
                assert(decreases_to!(self => self.children));
                assert(decreases_to!(self.children => self.children@[j as int]));
            }
            let ghost prev = write_children(self.children@.take(j as int), base)->Some_0;
            match write_child_of(&self.children[j], xref, out) {
                Ok(()) => {},
                Err(e) => {
                    proof {
                        lemma_children_prefix_none(self.children@, base, j + 1);
                    }
                    return Err(e);
                },
            }
            let ghost step = write_child(self.children@[j as int], base + prev.0.len())->Some_0;
            assert(out@ =~= out0 + (prev.0 + step.0));
            assert(xref@ =~= x0 + (prev.1 + step.1));
            j = j + 1;
        }
        assert(self.children@.take(self.children@.len() as int) =~= self.children@);
        Ok(())
    }

    /// Writes the dictionary when it is indirect, then its values that are indirect objects,
    /// then its children with their own values and children (see [`write_dict`]).
    pub fn serialise(&self, xref: &mut CrossRefTable, out: &mut Vec<u8>) -> (r: Result<(), PdfError>)
        ensures
            wrote(write_dict(*self, old(out)@.len()), r, old(out)@, final(out)@, old(xref)@, final(xref)@),
            old(xref).wf() ==> final(xref).wf(),
        decreases self, 1int,
    {
        let ghost base = out@.len();
        let ghost out0 = out@;
        let ghost x0 = xref@;
        match self.write_self(xref, out) {
            Ok(()) => {},
            Err(e) => {
                return Err(e);
            },
        }
        let ghost w0 = write_object(PdfObject::Dictionary(*self), base)->Some_0;
        let ghost out1 = out@;
        let ghost x1 = xref@;
        match self.write_values_of(xref, out) {
            Ok(()) => {},
            Err(e) => {
                return Err(e);
            },
        }
        let ghost w1 = write_values(self.values@, out1.len())->Some_0;
        let ghost out2 = out@;
        let ghost x2 = xref@;
        match self.write_children_of(xref, out) {
            Ok(()) => {},
            Err(e) => {
                return Err(e);
            },
        }
        let ghost w2 = write_children(self.children@, out2.len())->Some_0;
        assert(out@ =~= out0 + (w0.0 + w1.0 + w2.0));
        assert(xref@ =~= x0 + (w0.1 + w1.1 + w2.1));
        Ok(())
    }
}

/// The text that opens the object numbered `m` in the body: `m 0 obj` and a line feed.
pub open spec fn object_header(m: u64) -> Seq<u8> {
    dec_digits(m as nat) + seq![' ' as u8, '0' as u8, ' ' as u8, 'o' as u8, 'b' as u8, 'j' as u8, '\n' as u8]
}

/// The bytes `bytes` hold, at position `off`, the header of an object whose number the entry
/// `e` records.
pub open spec fn header_at(bytes: Seq<u8>, off: int, e: Entry) -> bool {
    exists|m: u64|
        #![trigger object_header(m)]
        m as u32 == e.object_number && 0 <= off && off + object_header(m).len() <= bytes.len() && bytes.subrange(
            off,
            off + object_header(m).len(),
        ) == object_header(m)
}

/// Each entry of `entries` points, relative to the file position `base` of `bytes`, at the
/// header of its object inside `bytes`.
pub open spec fn entries_point_at_objects(bytes: Seq<u8>, base: nat, entries: Seq<Entry>) -> bool {
    forall|i: int|
        0 <= i < entries.len() ==> header_at(bytes, (#[trigger] entries[i]).offset_or_next_free as int - base, entries[i])
}

/// Writing a part after another keeps every entry pointing at its object.
pub(crate) proof fn lemma_points_concat(b1: Seq<u8>, e1: Seq<Entry>, b2: Seq<u8>, e2: Seq<Entry>, base: nat)
    requires
        entries_point_at_objects(b1, base, e1),
        entries_point_at_objects(b2, base + b1.len(), e2),
    ensures
        entries_point_at_objects(b1 + b2, base, e1 + e2),
{
    let b = b1 + b2;
    let e = e1 + e2;
    assert forall|i: int| 0 <= i < e.len() implies header_at(b, (#[trigger] e[i]).offset_or_next_free as int - base, e[i]) by {
        if i < e1.len() {
            assert(e[i] == e1[i]);
            let off = e1[i].offset_or_next_free as int - base;
            let m = choose|m: u64|
                #![trigger object_header(m)]
                m as u32 == e1[i].object_number && 0 <= off && off + object_header(m).len() <= b1.len()
                    && b1.subrange(off, off + object_header(m).len()) == object_header(m);
            assert(b.subrange(off, off + object_header(m).len()) =~= b1.subrange(off, off + object_header(m).len()));
        } else {
            let k = i - e1.len();
            assert(e[i] == e2[k]);
            let off2 = e2[k].offset_or_next_free as int - (base + b1.len());
            let m = choose|m: u64|
                #![trigger object_header(m)]
                m as u32 == e2[k].object_number && 0 <= off2 && off2 + object_header(m).len() <= b2.len()
                    && b2.subrange(off2, off2 + object_header(m).len()) == object_header(m);
            let off = off2 + b1.len();
            assert(b.subrange(off, off + object_header(m).len()) =~= b2.subrange(off2, off2 + object_header(m).len()));
        }
    }
}

proof fn lemma_points_object(o: PdfObject, base: nat)
    requires
        write_object(o, base) is Some,
        base <= u64::MAX,
    ensures
        entries_point_at_objects(write_object(o, base)->Some_0.0, base, write_object(o, base)->Some_0.1),
{
    let w = write_object(o, base)->Some_0;
    if w.1.len() > 0 {
        let n = object_number_of(o)->Some_0;
        let t = inline_text(o)->Some_0;
        assert(w.1 == seq![in_use_entry(n, base)]);
        assert(w.1[0].offset_or_next_free as int - base == 0);
        assert(w.0.subrange(0, object_header(n).len() as int) =~= object_header(n));
        assert(header_at(w.0, 0, w.1[0]));
    }
}

proof fn lemma_points_values(s: Seq<(PdfNameObject, PdfObject)>, base: nat)
    requires
        write_values(s, base) is Some,
        base + write_values(s, base)->Some_0.0.len() <= u64::MAX,
    ensures
        entries_point_at_objects(write_values(s, base)->Some_0.0, base, write_values(s, base)->Some_0.1),
    decreases s.len(),
{
    if s.len() > 0 {
        let w = write_values(s.drop_last(), base)->Some_0;
        lemma_points_values(s.drop_last(), base);
        let v = s.last().1;
        if object_number_of(v) is Some {
            lemma_points_object(v, base + w.0.len());
            let x = write_object(v, base + w.0.len())->Some_0;
            lemma_points_concat(w.0, w.1, x.0, x.1, base);
        }
    } else {
        assert(entries_point_at_objects(Seq::<u8>::empty(), base, Seq::<Entry>::empty()));
    }
}

proof fn lemma_points_children(s: Seq<PdfObject>, base: nat)
    requires
        write_children(s, base) is Some,
        base + write_children(s, base)->Some_0.0.len() <= u64::MAX,
    ensures
        entries_point_at_objects(write_children(s, base)->Some_0.0, base, write_children(s, base)->Some_0.1),
    decreases s, 0int,
{
    if s.len() > 0 {
        let p = s.subrange(0, s.len() - 1);
        let w = write_children(p, base)->Some_0;
        lemma_points_children(p, base);
        lemma_points_child(s[s.len() - 1], base + w.0.len());
        let x = write_child(s[s.len() - 1], base + w.0.len())->Some_0;
        lemma_points_concat(w.0, w.1, x.0, x.1, base);
    } else {
        assert(entries_point_at_objects(Seq::<u8>::empty(), base, Seq::<Entry>::empty()));
    }
}

proof fn lemma_points_child(o: PdfObject, base: nat)
    requires
        write_child(o, base) is Some,
        base + write_child(o, base)->Some_0.0.len() <= u64::MAX,
    ensures
        entries_point_at_objects(write_child(o, base)->Some_0.0, base, write_child(o, base)->Some_0.1),
    decreases o, 2int,
{
    match o {
        PdfObject::Dictionary(d) => lemma_points_dict(d, base),
        _ => lemma_points_object(o, base),
    }
}

proof fn lemma_points_dict(d: PdfDictionaryObject, base: nat)
    requires
        write_dict(d, base) is Some,
        base + write_dict(d, base)->Some_0.0.len() <= u64::MAX,
    ensures
        entries_point_at_objects(write_dict(d, base)->Some_0.0, base, write_dict(d, base)->Some_0.1),
    decreases d, 1int,
{
    let w0 = write_object(PdfObject::Dictionary(d), base)->Some_0;
    let w1 = write_values(d.values@, base + w0.0.len())->Some_0;
    let w2 = write_children(d.children@, base + w0.0.len() + w1.0.len())->Some_0;
    lemma_points_object(PdfObject::Dictionary(d), base);
    lemma_points_values(d.values@, base + w0.0.len());
    lemma_points_children(d.children@, base + w0.0.len() + w1.0.len());
    lemma_points_concat(w0.0, w0.1, w1.0, w1.1, base);
    lemma_points_concat(w0.0 + w1.0, w0.1 + w1.1, w2.0, w2.1, base);
    assert(write_dict(d, base)->Some_0.0 =~= (w0.0 + w1.0) + w2.0);
    assert(write_dict(d, base)->Some_0.1 =~= (w0.1 + w1.1) + w2.1);
}

/// Every cross-reference entry recorded while a dictionary is written, with its values and
/// children, gives the position in the file at which its object's text `N 0 obj` starts.
pub proof fn law_xref_offsets_point_at_objects(d: PdfDictionaryObject, base: nat)
    requires
        write_dict(d, base) is Some,
        base + write_dict(d, base)->Some_0.0.len() <= u64::MAX,
    ensures
        entries_point_at_objects(write_dict(d, base)->Some_0.0, base, write_dict(d, base)->Some_0.1),
{
    lemma_points_dict(d, base);
}

} // verus!
