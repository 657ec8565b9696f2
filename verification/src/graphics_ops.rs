//! Graphics state bookkeeping for a page: one external graphics state per opacity, and the
//! soft masks of transparent gradients, each under a generated name `GS0`, `GS1`, ...
use vstd::prelude::*;
use crate::PdfError;
use crate::drawing_commands::{DrawingCommands, stream_grew, utf8};
use crate::encoding::{ascii_chars, dec_digits};
use crate::object_ops::ObjectOps;
use crate::objects::stream::PdfStreamObject;

verus! {

/// A soft mask, for transparency effects.
pub struct SoftMask {
    /// The name of its graphics state, such as `GS1`.
    pub name: String,
    pub shading_object_number: usize,
}

/// Another name for [`GraphicsOps`].
pub type GraphicsStateManager = GraphicsOps;

/// The graphics states of a page.
pub struct GraphicsOps {
    /// Opacities, as thousandths, with the object number of their graphics state, in the
    /// order they were first asked for.
    opacity_states: Vec<(u32, u64)>,
    resource_counter: u32,
    soft_masks: Vec<SoftMask>,
}

/// The name `GS` followed by the decimal digits of `n`.
pub open spec fn gs_name(n: nat) -> Seq<char> {
    "GS"@ + ascii_chars(dec_digits(n))
}

/// The index of the first pair of `s` whose opacity is `key`, or -1.
pub open spec fn first_key_index(s: Seq<(u32, u64)>, key: u32) -> int
    decreases s.len(),
{
    if s.len() == 0 {
        -1
    } else if s.last().0 == key && first_key_index(s.drop_last(), key) < 0 {
        s.len() - 1
    } else {
        first_key_index(s.drop_last(), key)
    }
}

/// The index of the first pair of `s` whose object number is `v`, or -1.
pub open spec fn first_value_index(s: Seq<(u32, u64)>, v: u64) -> int
    decreases s.len(),
{
    if s.len() == 0 {
        -1
    } else if s.last().1 == v && first_value_index(s.drop_last(), v) < 0 {
        s.len() - 1
    } else {
        first_value_index(s.drop_last(), v)
    }
}

proof fn lemma_first_key_index(s: Seq<(u32, u64)>, key: u32)
    ensures
        -1 <= first_key_index(s, key) < s.len(),
        first_key_index(s, key) >= 0 ==> s[first_key_index(s, key)].0 == key,
        forall|j: int| 0 <= j < s.len() && (first_key_index(s, key) < 0 || j < first_key_index(s, key)) ==> #[trigger] s[j].0 != key,
    decreases s.len(),
{
    if s.len() > 0 {
        lemma_first_key_index(s.drop_last(), key);
        assert forall|j: int| 0 <= j < s.len() - 1 implies #[trigger] s[j] == s.drop_last()[j] by {}
    }
}

proof fn lemma_first_value_index(s: Seq<(u32, u64)>, v: u64)
    ensures
        -1 <= first_value_index(s, v) < s.len(),
        first_value_index(s, v) >= 0 ==> s[first_value_index(s, v)].1 == v,
        forall|j: int| 0 <= j < s.len() && (first_value_index(s, v) < 0 || j < first_value_index(s, v)) ==> #[trigger] s[j].1 != v,
    decreases s.len(),
{
    if s.len() > 0 {
        lemma_first_value_index(s.drop_last(), v);
        assert forall|j: int| 0 <= j < s.len() - 1 implies #[trigger] s[j] == s.drop_last()[j] by {}
    }
}

/// The name that a request for the opacity `key` gives when `s` already holds it: `GS`
/// followed by the first index whose object number is that of `key`.
pub open spec fn reused_name(s: Seq<(u32, u64)>, key: u32) -> Seq<char> {
    gs_name(first_value_index(s, s[first_key_index(s, key)].1) as nat)
}

/// The text of an indirect reference to the object numbered `n`: `n 0 R`.
pub open spec fn reference_text(n: u64) -> Seq<u8> {
    dec_digits(n as nat) + seq![' ' as u8, '0' as u8, ' ' as u8, 'R' as u8]
}

/// The string `GS` followed by the digits of `n`.
pub(crate) fn make_gs_name(n: u64) -> (s: String)
    ensures
        s@ == gs_name(n as nat),
{
    let mut s = String::new();
    crate::encoding::string_push_str(&mut s, "GS");
    crate::encoding::string_push_decimal(&mut s, n);
    s
}

impl GraphicsOps {
    /// The opacity states, in the order they were made.
    pub closed spec fn states(&self) -> Seq<(u32, u64)> {
        self.opacity_states@
    }

    /// The counter that numbers new graphics state names.
    pub closed spec fn counter(&self) -> u32 {
        self.resource_counter
    }

    /// The soft masks, in the order they were added.
    pub closed spec fn masks(&self) -> Seq<SoftMask> {
        self.soft_masks@
    }

    pub fn new() -> (g: Self)
        ensures
            g.states() == Seq::<(u32, u64)>::empty(),
            g.counter() == 0,
            g.masks() == Seq::<SoftMask>::empty(),
    {
        GraphicsOps { opacity_states: Vec::new(), resource_counter: 0, soft_masks: Vec::new() }
    }

    /// The name of the graphics state for the opacity `opacity_key` (in thousandths). An
    /// opacity asked for before keeps its state and is named by the position of that state's
    /// object number; a new one takes the next object number and is named by the counter,
    /// which then grows by one.
    pub fn get_or_create_opacity_state(&mut self, object_ops: &mut ObjectOps, opacity_key: u32) -> (r: Result<
        String,
        PdfError,
    >)
        requires
            old(self).counter() < u32::MAX,
            old(object_ops).last() < u64::MAX,
        ensures
            r is Ok,
            first_key_index(old(self).states(), opacity_key) >= 0 ==> {
                &&& r->Ok_0@ == reused_name(old(self).states(), opacity_key)
                &&& *final(self) == *old(self)
                &&& *final(object_ops) == *old(object_ops)
            },
            first_key_index(old(self).states(), opacity_key) < 0 ==> {
                &&& r->Ok_0@ == gs_name(old(self).counter() as nat)
                &&& final(self).counter() == old(self).counter() + 1
                &&& final(self).states() == old(self).states().push((opacity_key, (old(object_ops).last() + 1) as u64))
                &&& final(self).masks() == old(self).masks()
                &&& final(object_ops).last() == old(object_ops).last() + 1
                &&& final(object_ops).spec_version() == old(object_ops).spec_version()
            },
    {
        proof {
            lemma_first_key_index(self.opacity_states@, opacity_key);
        }
        let mut i: usize = 0;
        while i < self.opacity_states.len()
            invariant
                i <= self.opacity_states@.len(),
                forall|j: int| 0 <= j < i ==> #[trigger] self.opacity_states@[j].0 != opacity_key,
                -1 <= first_key_index(self.opacity_states@, opacity_key) < self.opacity_states@.len(),
                first_key_index(self.opacity_states@, opacity_key) >= 0 ==> self.opacity_states@[first_key_index(
                    self.opacity_states@,
                    opacity_key,
                )].0 == opacity_key,
                forall|j: int|
                    0 <= j < self.opacity_states@.len() && (first_key_index(self.opacity_states@, opacity_key) < 0 || j
                        < first_key_index(self.opacity_states@, opacity_key)) ==> #[trigger] self.opacity_states@[j].0
                        != opacity_key,
            decreases self.opacity_states@.len() - i,
        {
            if self.opacity_states[i].0 == opacity_key {
                assert(i == first_key_index(self.opacity_states@, opacity_key));
                let obj_num = self.opacity_states[i].1;
                let index = self.position_of_value(obj_num);
                return Ok(make_gs_name(index as u64));
            }
            i = i + 1;
        }
        let resource_name = make_gs_name(self.resource_counter as u64);
        self.resource_counter = self.resource_counter + 1;
        let obj_num = object_ops.next_object_number().value();
        self.opacity_states.push((opacity_key, obj_num));
        Ok(resource_name)
    }

    /// The first index whose object number is `v`, which some pair holds.
    fn position_of_value(&self, v: u64) -> (k: usize)
        requires
            exists|j: int| 0 <= j < self.opacity_states@.len() && #[trigger] self.opacity_states@[j].1 == v,
        ensures
            k == first_value_index(self.opacity_states@, v),
    {
        proof {
            lemma_first_value_index(self.opacity_states@, v);
        }
        let mut k: usize = 0;
        while k < self.opacity_states.len()
            invariant
                k <= self.opacity_states@.len(),
                forall|j: int| 0 <= j < k ==> #[trigger] self.opacity_states@[j].1 != v,
                exists|j: int| 0 <= j < self.opacity_states@.len() && #[trigger] self.opacity_states@[j].1 == v,
                -1 <= first_value_index(self.opacity_states@, v) < self.opacity_states@.len(),
                first_value_index(self.opacity_states@, v) >= 0 ==> self.opacity_states@[first_value_index(
                    self.opacity_states@,
                    v,
                )].1 == v,
                forall|j: int|
                    0 <= j < self.opacity_states@.len() && (first_value_index(self.opacity_states@, v) < 0 || j
                        < first_value_index(self.opacity_states@, v)) ==> #[trigger] self.opacity_states@[j].1 != v,
            decreases self.opacity_states@.len() - k,
        {
            if self.opacity_states[k].1 == v {
                return k;
            }
            k = k + 1;
        }
        k
    }

    /// Selects the graphics state for the opacity `opacity_key` in the content of `stream`:
    /// `/name gs`, with the name that [`Self::get_or_create_opacity_state`] gives.
    pub fn apply_opacity(&mut self, object_ops: &mut ObjectOps, stream: &mut PdfStreamObject, opacity_key: u32) -> (r:
        Result<String, PdfError>)
        requires
            old(self).counter() < u32::MAX,
            old(object_ops).last() < u64::MAX,
        ensures
            r is Ok,
            first_key_index(old(self).states(), opacity_key) >= 0 ==> {
                &&& r->Ok_0@ == reused_name(old(self).states(), opacity_key)
                &&& *final(self) == *old(self)
                &&& *final(object_ops) == *old(object_ops)
            },
            first_key_index(old(self).states(), opacity_key) < 0 ==> {
                &&& r->Ok_0@ == gs_name(old(self).counter() as nat)
                &&& final(self).counter() == old(self).counter() + 1
                &&& final(self).states() == old(self).states().push((opacity_key, (old(object_ops).last() + 1) as u64))
                &&& final(self).masks() == old(self).masks()
                &&& final(object_ops).last() == old(object_ops).last() + 1
                &&& final(object_ops).spec_version() == old(object_ops).spec_version()
            },
            stream_grew(*old(stream), *final(stream), seq!['/' as u8] + utf8(r->Ok_0@) + utf8(" gs"@)),
    {
        let resource_name = match self.get_or_create_opacity_state(object_ops, opacity_key) {
            Ok(n) => n,
            Err(e) => {
                return Err(e);
            },
        };
        let mut cmd = DrawingCommands::new(stream);
        cmd.set_state(resource_name.as_str());
        Ok(resource_name)
    }

    /// The entries of the page's `/ExtGState` resources: for the opacity state at each index
    /// `i`, the name `GSi` with the reference `n 0 R` to its object.
    pub fn get_extgstate_dict(&self) -> (d: Vec<(String, Vec<u8>)>)
        ensures
            d@.len() == self.states().len(),
            forall|i: int|
                0 <= i < d@.len() ==> (#[trigger] d@[i]).0@ == gs_name(i as nat) && d@[i].1@ == reference_text(
                    self.states()[i].1,
                ),
    {
        let mut d: Vec<(String, Vec<u8>)> = Vec::new();
        let mut i: usize = 0;
        while i < self.opacity_states.len()
            invariant
                i <= self.opacity_states@.len(),
                d@.len() == i,
                forall|j: int|
                    0 <= j < i ==> (#[trigger] d@[j]).0@ == gs_name(j as nat) && d@[j].1@ == reference_text(
                        self.opacity_states@[j].1,
                    ),
            decreases self.opacity_states@.len() - i,
        {
            let name = make_gs_name(i as u64);
            let mut reference: Vec<u8> = Vec::new();
            crate::encoding::push_decimal(&mut reference, self.opacity_states[i].1);
            reference.push(' ' as u8);
            reference.push('0' as u8);
            reference.push(' ' as u8);
            reference.push('R' as u8);
            assert(reference@ =~= reference_text(self.opacity_states@[i as int].1));
            d.push((name, reference));
            i = i + 1;
        }
        d
    }

    /// Adds a soft mask for the shading numbered `shading_obj` and returns the name of its
    /// graphics state, `GS` followed by the counter, which then grows by one.
    pub fn add_soft_mask(&mut self, shading_obj: usize) -> (name: String)
        requires
            old(self).counter() < u32::MAX,
        ensures
            name@ == gs_name(old(self).counter() as nat),
            final(self).counter() == old(self).counter() + 1,
            final(self).states() == old(self).states(),
            final(self).masks().len() == old(self).masks().len() + 1,
            final(self).masks().drop_last() == old(self).masks(),
            final(self).masks().last().name@ == name@,
            final(self).masks().last().shading_object_number == shading_obj,
    {
        let name = make_gs_name(self.resource_counter as u64);
        self.resource_counter = self.resource_counter + 1;
        let mut mask_name = String::new();
        crate::encoding::string_push_str(&mut mask_name, name.as_str());
        self.soft_masks.push(SoftMask { name: mask_name, shading_object_number: shading_obj });
        assert(self.soft_masks@.drop_last() =~= old(self).soft_masks@);
        name
    }

    /// The soft masks, in the order they were added.
    pub fn get_soft_masks(&self) -> (m: &[SoftMask])
        ensures
            m@ == self.masks(),
    {
        self.soft_masks.as_slice()
    }

    /// Sets the counter back to zero, as when a new page begins.
    pub fn reset(&mut self)
        ensures
            final(self).counter() == 0,
            final(self).states() == old(self).states(),
            final(self).masks() == old(self).masks(),
    {
        self.resource_counter = 0;
    }
}

/// Asking again for an opacity that was just given a new state gives the same name: the
/// name the first request made from the counter is the one the second request finds by
/// position, when no soft mask or reset has moved the counter away from the number of states
/// and every state's object number is at most the last one handed out.
pub proof fn law_opacity_state_reused(g: GraphicsOps, ops: ObjectOps, key: u32)
    requires
        g.counter() == g.states().len(),
        forall|j: int| 0 <= j < g.states().len() ==> #[trigger] g.states()[j].1 <= ops.last(),
        ops.last() < u64::MAX,
        first_key_index(g.states(), key) < 0,
    ensures
        reused_name(g.states().push((key, (ops.last() + 1) as u64)), key) == gs_name(g.counter() as nat),
{
    let s = g.states();
    let v = (ops.last() + 1) as u64;
    let t = s.push((key, v));
    assert(t.drop_last() =~= s);
    lemma_first_key_index(s, key);
    lemma_first_value_index(s, v);
    assert(first_key_index(t, key) == s.len());
    assert(first_value_index(t, v) == s.len());
}

} // verus!
