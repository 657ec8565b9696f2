//! Optional content (layers): groups of content that a viewer may show or hide, and the
//! configuration that sets which groups are visible and in what order they are listed.
use vstd::prelude::*;
use crate::objects::dictionary::{PdfDictionaryObject, key_if, keys_of, plain_dict};
use crate::objects::pdf_array::PdfArrayObject;
use crate::objects::pdf_object::{PdfObject, is_name, is_string, reference_object};

verus! {

#[derive(Debug, Clone, Copy, PartialEq, Eq, Structural)]
pub enum VisibilityInitialState {
    On,
    Off,
}

/// The name of a state: `ON` or `OFF`.
pub open spec fn state_name(s: VisibilityInitialState) -> Seq<char> {
    match s {
        VisibilityInitialState::On => "ON"@,
        VisibilityInitialState::Off => "OFF"@,
    }
}

impl VisibilityInitialState {
    fn as_str(&self) -> (s: &'static str)
        ensures
            s@ == state_name(*self),
    {
        match self {
            VisibilityInitialState::On => "ON",
            VisibilityInitialState::Off => "OFF",
        }
    }

    /// The name of the state: `ON` or `OFF`.
    pub fn to_string(&self) -> (s: String)
        ensures
            s@ == state_name(*self),
    {
        let mut s = String::new();
        crate::encoding::string_push_str(&mut s, self.as_str());
        s
    }
}

/// The states of a group when printing, viewing and exporting.
#[derive(Debug, Clone, Copy, PartialEq, Eq, Structural)]
pub struct UsageDict {
    pub print: Option<UsageEntry>,
    pub view: Option<UsageEntry>,
    pub export: Option<UsageEntry>,
}

impl Default for UsageDict {
    fn default() -> (u: Self)
        ensures
            u.print is None,
            u.view is None,
            u.export is None,
    {
        Self { print: None, view: None, export: None }
    }
}

#[derive(Debug, Clone, Copy, PartialEq, Eq, Structural)]
pub struct UsageEntry {
    pub state: VisibilityInitialState,
}

/// A layer.
#[derive(Clone)]
pub struct OptionalContentGroup {
    pub name: String,
    pub intent: Option<Vec<String>>,
    pub initial_state: VisibilityInitialState,
    pub usage: Option<UsageDict>,
}

/// The usage of a group with the print state set to `state`.
pub open spec fn with_print(u: Option<UsageDict>, state: VisibilityInitialState) -> UsageDict {
    let d = match u {
        Some(v) => v,
        None => UsageDict { print: None, view: None, export: None },
    };
    UsageDict { print: Some(UsageEntry { state }), ..d }
}

/// The usage of a group with the view state set to `state`.
pub open spec fn with_view(u: Option<UsageDict>, state: VisibilityInitialState) -> UsageDict {
    let d = match u {
        Some(v) => v,
        None => UsageDict { print: None, view: None, export: None },
    };
    UsageDict { view: Some(UsageEntry { state }), ..d }
}

/// `o` is the dictionary `<< /key /state >>`.
pub open spec fn is_state_dict(o: PdfObject, key: Seq<char>, s: VisibilityInitialState) -> bool {
    o matches PdfObject::Dictionary(d) && {
        &&& plain_dict(d)
        &&& keys_of(d.values@) =~= seq![key]
        &&& is_name(d.values@[0].1, state_name(s))
    }
}

/// `o` is a direct array of the names `names`.
pub open spec fn is_names_array(o: PdfObject, names: Seq<String>) -> bool {
    o matches PdfObject::Array(a) && {
        &&& a.object_number is None
        &&& a.generation_number is None
        &&& a.values@.len() == names.len()
        &&& forall|i: int| 0 <= i < names.len() ==> is_name(#[trigger] a.values@[i], names[i]@)
    }
}

/// The intent of a group: one name alone, any other number of names as an array.
pub open spec fn is_intent_value(o: PdfObject, intent: Seq<String>) -> bool {
    if intent.len() == 1 {
        is_name(o, intent[0]@)
    } else {
        is_names_array(o, intent)
    }
}

/// The usage dictionary: `/Print`, `/View` and `/Export`, each for a state that is set.
pub open spec fn is_usage_dict(o: PdfObject, u: UsageDict) -> bool {
    let np: int = if u.print is Some { 1 } else { 0 };
    let nv: int = if u.view is Some { 1 } else { 0 };
    o matches PdfObject::Dictionary(d) && {
        &&& plain_dict(d)
        &&& keys_of(d.values@) =~= key_if(u.print is Some, "Print"@) + key_if(u.view is Some, "View"@) + key_if(
            u.export is Some,
            "Export"@,
        )
        &&& u.print matches Some(e) ==> is_state_dict(d.values@[0].1, "PrintState"@, e.state)
        &&& u.view matches Some(e) ==> is_state_dict(d.values@[np].1, "ViewState"@, e.state)
        &&& u.export matches Some(e) ==> is_state_dict(d.values@[np + nv].1, "ExportState"@, e.state)
    }
}

/// The dictionary of a group: `/Type /OCG`, `/Name`, `/Intent` when there is an intent and
/// `/Usage` when there is a usage.
pub open spec fn is_ocg_dict(g: OptionalContentGroup, d: PdfDictionaryObject) -> bool {
    let s = d.values@;
    let ni: int = if g.intent is Some { 1 } else { 0 };
    &&& plain_dict(d)
    &&& keys_of(s) =~= seq!["Type"@, "Name"@] + key_if(g.intent is Some, "Intent"@) + key_if(
        g.usage is Some,
        "Usage"@,
    )
    &&& is_name(s[0].1, "OCG"@)
    &&& is_string(s[1].1, g.name@)
    &&& g.intent matches Some(i) ==> is_intent_value(s[2].1, i@)
    &&& g.usage matches Some(u) ==> is_usage_dict(s[2 + ni].1, u)
}

/// The dictionary `<< /key /state >>`.
fn state_dict(key: &str, state: VisibilityInitialState) -> (o: PdfObject)
    ensures
        is_state_dict(o, key@, state),
{
    let mut d = PdfDictionaryObject::new();
    d.put_new(key, PdfObject::name_obj(state.as_str()));
    PdfObject::Dictionary(d)
}

impl OptionalContentGroup {
    /// A visible layer named `name`, without intent or usage.
    pub fn new(name: String) -> (g: Self)
        ensures
            g.name@ == name@,
            g.intent is None,
            g.initial_state == VisibilityInitialState::On,
            g.usage is None,
    {
        Self { name, intent: None, initial_state: VisibilityInitialState::On, usage: None }
    }

    pub fn with_state(self, state: VisibilityInitialState) -> (g: Self)
        ensures
            g.name@ == self.name@,
            g.intent == self.intent,
            g.initial_state == state,
            g.usage == self.usage,
    {
        let mut s = self;
        s.initial_state = state;
        s
    }

    pub fn with_intent(self, intent: Vec<String>) -> (g: Self)
        ensures
            g.name@ == self.name@,
            g.intent matches Some(i) && i@ == intent@,
            g.initial_state == self.initial_state,
            g.usage == self.usage,
    {
        let mut s = self;
        s.intent = Some(intent);
        s
    }

    /// Sets the state when printing, keeping the other usage states.
    pub fn with_print_state(self, state: VisibilityInitialState) -> (g: Self)
        ensures
            g.name@ == self.name@,
            g.intent == self.intent,
            g.initial_state == self.initial_state,
            g.usage == Some(with_print(self.usage, state)),
    {
        let mut s = self;
        let mut usage = match s.usage {
            Some(u) => u,
            None => UsageDict::default(),
        };
        usage.print = Some(UsageEntry { state });
        s.usage = Some(usage);
        s
    }

    /// Sets the state when viewing, keeping the other usage states.
    pub fn with_view_state(self, state: VisibilityInitialState) -> (g: Self)
        ensures
            g.name@ == self.name@,
            g.intent == self.intent,
            g.initial_state == self.initial_state,
            g.usage == Some(with_view(self.usage, state)),
    {
        let mut s = self;
        let mut usage = match s.usage {
            Some(u) => u,
            None => UsageDict::default(),
        };
        usage.view = Some(UsageEntry { state });
        s.usage = Some(usage);
        s
    }

    /// The array of the names of `intent`.
    fn names_array(intent: &Vec<String>) -> (o: PdfObject)
        ensures
            is_names_array(o, intent@),
    {
        let mut arr = PdfArrayObject::new();
        let mut i: usize = 0;
        while i < intent.len()
            invariant
                i <= intent@.len(),
                arr.object_number is None,
                arr.generation_number is None,
                arr.values@.len() == i,
                forall|j: int| 0 <= j < i ==> is_name(#[trigger] arr.values@[j], intent@[j]@),
            decreases intent@.len() - i,
        {
            arr.push(PdfObject::name_obj(intent[i].as_str()));
            i = i + 1;
        }
        PdfObject::Array(arr)
    }

    /// The usage dictionary of `usage`.
    fn usage_dict(usage: &UsageDict) -> (o: PdfObject)
        ensures
            is_usage_dict(o, *usage),
    {
        proof {
            reveal_strlit("Print");
            reveal_strlit("View");
            reveal_strlit("Export");
            assert("Print"@.len() == 5 && "View"@.len() == 4 && "Export"@.len() == 6);
        }
        let mut usage_dict = PdfDictionaryObject::new();
        if let Some(print) = usage.print {
            usage_dict.put_new("Print", state_dict("PrintState", print.state));
        }
        if let Some(view) = usage.view {
            usage_dict.put_new("View", state_dict("ViewState", view.state));
        }
        if let Some(export) = usage.export {
            usage_dict.put_new("Export", state_dict("ExportState", export.state));
        }
        PdfObject::Dictionary(usage_dict)
    }

    /// The dictionary of the group (see [`is_ocg_dict`]).
    pub fn to_dict(&self) -> (d: PdfDictionaryObject)
        ensures
            is_ocg_dict(*self, d),
    {
        proof {
            reveal_strlit("Type");
            reveal_strlit("Name");
            reveal_strlit("Intent");
            reveal_strlit("Usage");
            assert("Type"@.len() == 4 && "Name"@.len() == 4 && "Intent"@.len() == 6 && "Usage"@.len() == 5);
            assert("Type"@[0] != "Name"@[0]);
        }
        let mut dict = PdfDictionaryObject::new();
        dict.put_new("Type", PdfObject::name_obj("OCG"));
        dict.put_new("Name", PdfObject::string_obj(self.name.as_str()));
        if let Some(intent) = &self.intent {
            if intent.len() == 1 {
                dict.put_new("Intent", PdfObject::name_obj(intent[0].as_str()));
            } else {
                dict.put_new("Intent", Self::names_array(intent));
            }
        }
        if let Some(usage) = &self.usage {
            dict.put_new("Usage", Self::usage_dict(usage));
        }
        dict
    }
}

/// An entry of the order in which a viewer lists layers: a group, or a labelled list of
/// entries.
pub enum LayerOrder {
    Single(usize),
    Group { label: String, children: Vec<LayerOrder> },
}

/// The number of array elements that an entry of the order takes.
pub open spec fn order_width(o: LayerOrder) -> int {
    match o {
        LayerOrder::Single(_) => 1,
        LayerOrder::Group { .. } => 2,
    }
}

/// `items` are the elements of the order array of `orders`.
pub open spec fn order_items(orders: Seq<LayerOrder>, items: Seq<PdfObject>) -> bool
    decreases orders, 0int,
{
    if orders.len() == 0 {
        items.len() == 0
    } else {
        let k = order_width(orders[orders.len() - 1]);
        &&& items.len() >= k
        &&& order_items(orders.subrange(0, orders.len() - 1), items.subrange(0, items.len() - k))
        &&& order_entry(orders[orders.len() - 1], items.subrange(items.len() - k, items.len() as int))
    }
}

/// `items` are the elements for one entry of the order: a reference to the group, or the
/// label as a string followed by the array of the entries under it.
pub open spec fn order_entry(o: LayerOrder, items: Seq<PdfObject>) -> bool
    decreases o, 1int,
{
    match o {
        LayerOrder::Single(id) => items.len() == 1 && items[0] == reference_object(id as u64),
        LayerOrder::Group { label, children } => {
            &&& items.len() == 2
            &&& is_string(items[0], label@)
            &&& items[1] matches PdfObject::Array(a) && {
                &&& a.object_number is None
                &&& a.generation_number is None
                &&& order_items(children@, a.values@)
            }
        },
    }
}

/// `o` is a direct array of references to the groups `ids`.
pub open spec fn is_refs_array(o: PdfObject, ids: Seq<usize>) -> bool {
    o matches PdfObject::Array(a) && {
        &&& a.object_number is None
        &&& a.generation_number is None
        &&& a.values@.len() == ids.len()
        &&& forall|i: int| 0 <= i < ids.len() ==> #[trigger] a.values@[i] == reference_object(ids[i] as u64)
    }
}

/// The default visibility and order of layers.
pub struct OptionalContentConfig {
    pub name: String,
    pub creator: Option<String>,
    pub base_state: VisibilityInitialState,
    pub on_list: Vec<usize>,
    pub off_list: Vec<usize>,
    pub order: Vec<LayerOrder>,
}

/// The dictionary of a configuration: `/Name`, `/Creator` when set, `/BaseState`, `/ON` and
/// `/OFF` when their lists are not empty, and `/Order` when the order is not empty.
pub open spec fn is_config_dict(c: OptionalContentConfig, d: PdfDictionaryObject) -> bool {
    let s = d.values@;
    let nc: int = if c.creator is Some { 1 } else { 0 };
    let non: int = if c.on_list@.len() > 0 { 1 } else { 0 };
    let noff: int = if c.off_list@.len() > 0 { 1 } else { 0 };
    &&& plain_dict(d)
    &&& keys_of(s) =~= seq!["Name"@] + key_if(c.creator is Some, "Creator"@) + seq!["BaseState"@] + key_if(
        non == 1,
        "ON"@,
    ) + key_if(noff == 1, "OFF"@) + key_if(c.order@.len() > 0, "Order"@)
    &&& is_string(s[0].1, c.name@)
    &&& c.creator matches Some(cr) ==> is_string(s[1].1, cr@)
    &&& is_name(s[1 + nc].1, state_name(c.base_state))
    &&& non == 1 ==> is_refs_array(s[2 + nc].1, c.on_list@)
    &&& noff == 1 ==> is_refs_array(s[2 + nc + non].1, c.off_list@)
    &&& c.order@.len() > 0 ==> (s[2 + nc + non + noff].1 matches PdfObject::Array(a) && {
        &&& a.object_number is None
        &&& a.generation_number is None
        &&& order_items(c.order@, a.values@)
    })
}

/// The array of references to the groups `ids`.
fn refs_array(ids: &Vec<usize>) -> (o: PdfObject)
    ensures
        is_refs_array(o, ids@),
{
    let mut arr = PdfArrayObject::new();
    let mut i: usize = 0;
    while i < ids.len()
        invariant
            i <= ids@.len(),
            arr.object_number is None,
            arr.generation_number is None,
            arr.values@.len() == i,
            forall|j: int| 0 <= j < i ==> #[trigger] arr.values@[j] == reference_object(ids@[j] as u64),
        decreases ids@.len() - i,
    {
        arr.push(crate::objects::pdf_object::PdfObj::make_reference_obj(ids[i] as u64));
        i = i + 1;
    }
    PdfObject::Array(arr)
}

impl OptionalContentConfig {
    /// A configuration named `name`, with every layer on and nothing listed.
    pub fn new(name: String) -> (c: Self)
        ensures
            c.name@ == name@,
            c.creator is None,
            c.base_state == VisibilityInitialState::On,
            c.on_list@.len() == 0,
            c.off_list@.len() == 0,
            c.order@.len() == 0,
    {
        Self {
            name,
            creator: None,
            base_state: VisibilityInitialState::On,
            on_list: Vec::new(),
            off_list: Vec::new(),
            order: Vec::new(),
        }
    }

    pub fn with_base_state(self, state: VisibilityInitialState) -> (c: Self)
        ensures
            c.name@ == self.name@,
            c.creator == self.creator,
            c.base_state == state,
            c.on_list@ == self.on_list@,
            c.off_list@ == self.off_list@,
            c.order@ == self.order@,
    {
        let mut s = self;
        s.base_state = state;
        s
    }

    /// Lists the group `ocg_id` as on.
    pub fn add_on(self, ocg_id: usize) -> (c: Self)
        ensures
            c.name@ == self.name@,
            c.creator == self.creator,
            c.base_state == self.base_state,
            c.on_list@ == self.on_list@.push(ocg_id),
            c.off_list@ == self.off_list@,
            c.order@ == self.order@,
    {
        let mut s = self;
        s.on_list.push(ocg_id);
        s
    }

    /// Lists the group `ocg_id` as off.
    pub fn add_off(self, ocg_id: usize) -> (c: Self)
        ensures
            c.name@ == self.name@,
            c.creator == self.creator,
            c.base_state == self.base_state,
            c.on_list@ == self.on_list@,
            c.off_list@ == self.off_list@.push(ocg_id),
            c.order@ == self.order@,
    {
        let mut s = self;
        s.off_list.push(ocg_id);
        s
    }

    /// Appends an entry to the order.
    pub fn add_to_order(self, layer: LayerOrder) -> (c: Self)
        ensures
            c.name@ == self.name@,
            c.creator == self.creator,
            c.base_state == self.base_state,
            c.on_list@ == self.on_list@,
            c.off_list@ == self.off_list@,
            c.order@ == self.order@.push(layer),
    {
        let mut s = self;
        s.order.push(layer);
        s
    }

    /// The dictionary of the configuration (see [`is_config_dict`]).
    pub fn to_dict(&self) -> (d: PdfDictionaryObject)
        ensures
            is_config_dict(*self, d),
    {
        proof {
            reveal_strlit("Name");
            reveal_strlit("Creator");
            reveal_strlit("BaseState");
            reveal_strlit("ON");
            reveal_strlit("OFF");
            reveal_strlit("Order");
            assert("Name"@.len() == 4 && "Creator"@.len() == 7 && "BaseState"@.len() == 9);
            assert("ON"@.len() == 2 && "OFF"@.len() == 3 && "Order"@.len() == 5);
        }
        let mut dict = PdfDictionaryObject::new();
        dict.put_new("Name", PdfObject::string_obj(self.name.as_str()));
        if let Some(creator) = &self.creator {
            dict.put_new("Creator", PdfObject::string_obj(creator.as_str()));
        }
        dict.put_new("BaseState", PdfObject::name_obj(self.base_state.as_str()));
        if self.on_list.len() > 0 {
            dict.put_new("ON", refs_array(&self.on_list));
        }
        if self.off_list.len() > 0 {
            dict.put_new("OFF", refs_array(&self.off_list));
        }
        if self.order.len() > 0 {
            dict.put_new("Order", PdfObject::Array(self.build_order_array(&self.order)));
        }
        dict
    }

    /// The order array of `orders`.
    fn build_order_array(&self, orders: &Vec<LayerOrder>) -> (arr: PdfArrayObject)
        ensures
            arr.object_number is None,
            arr.generation_number is None,
            order_items(orders@, arr.values@),
        decreases orders, 0int,
    {
        let mut arr = PdfArrayObject::new();
        let mut i: usize = 0;
        assert(orders@.take(0) =~= Seq::<LayerOrder>::empty());
        while i < orders.len()
            invariant
                i <= orders@.len(),
                arr.object_number is None,
                arr.generation_number is None,
                order_items(orders@.take(i as int), arr.values@),
            decreases orders@.len() - i,
        {
            proof {
                assert(decreases_to!(orders => orders@[i as int]));
            }
            let ghost before = arr.values@;
            self.push_order_entry(&orders[i], &mut arr);
            proof {
                let next = orders@.take(i + 1);
                let k = order_width(orders@[i as int]);
                assert(next.subrange(0, next.len() - 1) =~= orders@.take(i as int));
                assert(next[next.len() - 1] == orders@[i as int]);
                assert(arr.values@.subrange(0, arr.values@.len() - k) =~= before);
            }
            i = i + 1;
        }
        assert(orders@.take(orders@.len() as int) =~= orders@);
        arr
    }

    /// Appends the elements for one entry of the order.
    fn push_order_entry(&self, order: &LayerOrder, arr: &mut PdfArrayObject)
        ensures
            final(arr).object_number == old(arr).object_number,
            final(arr).generation_number == old(arr).generation_number,
            final(arr).values@.len() == old(arr).values@.len() + order_width(*order),
            final(arr).values@.subrange(0, old(arr).values@.len() as int) == old(arr).values@,
            order_entry(
                *order,
                final(arr).values@.subrange(old(arr).values@.len() as int, final(arr).values@.len() as int),
            ),
        decreases order, 1int,
    {
        let ghost before = arr.values@;
        match order {
            LayerOrder::Single(id) => {
                arr.push(crate::objects::pdf_object::PdfObj::make_reference_obj(*id as u64));
            },
            LayerOrder::Group { label, children } => {
                arr.push(PdfObject::string_obj(label.as_str()));
                let sub = self.build_order_array(children);
                arr.push(PdfObject::Array(sub));
            },
        }
        assert(arr.values@.subrange(0, before.len() as int) =~= before);
    }
}

} // verus!
