//! Extended graphics states: transparency, blend mode, line style and rendering settings
//! that a content stream selects by name.
//!
//! Widths, alphas, flatness and smoothness are real numbers held as ten-thousandths.
use vstd::prelude::*;
use crate::encoding::{ascii_chars, dec_digits, real_text};
use crate::objects::boolean::PdfBooleanObject;
use crate::objects::dictionary::{PdfDictionaryObject, lemma_not_seen, plain_dict};
use crate::objects::number::NumberType;
use crate::objects::pdf_object::{PdfObject, Val, entries_are};
use crate::resource::Resource;
use crate::resource_category::ResourceCategory;

verus! {

#[derive(Debug, Clone, Copy, PartialEq, Eq, Hash, Structural)]
pub enum BlendMode {
    Normal,
    Multiply,
    Screen,
    Overlay,
    Darken,
    Lighten,
    ColorDodge,
    ColorBurn,
    HardLight,
    SoftLight,
    Difference,
    Exclusion,
    Hue,
    Saturation,
    Color,
    Luminosity,
}

pub open spec fn blend_mode_name(b: BlendMode) -> Seq<char> {
    match b {
        BlendMode::Normal => "Normal"@,
        BlendMode::Multiply => "Multiply"@,
        BlendMode::Screen => "Screen"@,
        BlendMode::Overlay => "Overlay"@,
        BlendMode::Darken => "Darken"@,
        BlendMode::Lighten => "Lighten"@,
        BlendMode::ColorDodge => "ColorDodge"@,
        BlendMode::ColorBurn => "ColorBurn"@,
        BlendMode::HardLight => "HardLight"@,
        BlendMode::SoftLight => "SoftLight"@,
        BlendMode::Difference => "Difference"@,
        BlendMode::Exclusion => "Exclusion"@,
        BlendMode::Hue => "Hue"@,
        BlendMode::Saturation => "Saturation"@,
        BlendMode::Color => "Color"@,
        BlendMode::Luminosity => "Luminosity"@,
    }
}

impl BlendMode {
    pub fn as_str(&self) -> (s: &'static str)
        ensures
            s@ == blend_mode_name(*self),
    {
        match self {
            BlendMode::Normal => "Normal",
            BlendMode::Multiply => "Multiply",
            BlendMode::Screen => "Screen",
            BlendMode::Overlay => "Overlay",
            BlendMode::Darken => "Darken",
            BlendMode::Lighten => "Lighten",
            BlendMode::ColorDodge => "ColorDodge",
            BlendMode::ColorBurn => "ColorBurn",
            BlendMode::HardLight => "HardLight",
            BlendMode::SoftLight => "SoftLight",
            BlendMode::Difference => "Difference",
            BlendMode::Exclusion => "Exclusion",
            BlendMode::Hue => "Hue",
            BlendMode::Saturation => "Saturation",
            BlendMode::Color => "Color",
            BlendMode::Luminosity => "Luminosity",
        }
    }
}

#[derive(Debug, Clone, Copy, PartialEq, Eq, Structural)]
pub enum RenderingIntent {
    AbsoluteColorimetric,
    RelativeColorimetric,
    Saturation,
    Perceptual,
}

pub open spec fn rendering_intent_name(r: RenderingIntent) -> Seq<char> {
    match r {
        RenderingIntent::AbsoluteColorimetric => "AbsoluteColorimetric"@,
        RenderingIntent::RelativeColorimetric => "RelativeColorimetric"@,
        RenderingIntent::Saturation => "Saturation"@,
        RenderingIntent::Perceptual => "Perceptual"@,
    }
}

impl RenderingIntent {
    pub fn as_str(&self) -> (s: &'static str)
        ensures
            s@ == rendering_intent_name(*self),
    {
        match self {
            RenderingIntent::AbsoluteColorimetric => "AbsoluteColorimetric",
            RenderingIntent::RelativeColorimetric => "RelativeColorimetric",
            RenderingIntent::Saturation => "Saturation",
            RenderingIntent::Perceptual => "Perceptual",
        }
    }
}

/// The parameters of an extended graphics state; each one that is `None` is left out.
#[derive(Debug, Clone, Copy, PartialEq, Eq, Structural)]
pub struct ExtGState {
    pub line_width: Option<i64>,
    pub line_cap: Option<u8>,
    pub line_join: Option<u8>,
    pub miter_limit: Option<i64>,
    pub stroke_alpha: Option<i64>,
    pub fill_alpha: Option<i64>,
    pub blend_mode: Option<BlendMode>,
    pub rendering_intent: Option<RenderingIntent>,
    pub overprint_stroke: Option<bool>,
    pub overprint_fill: Option<bool>,
    pub overprint_mode: Option<u8>,
    pub flatness: Option<i64>,
    pub smoothness: Option<i64>,
    pub stroke_adjust: Option<bool>,
    pub alpha_is_shape: Option<bool>,
    pub text_knockout: Option<bool>,
}

/// The state with no parameter set.
pub open spec fn empty_state() -> ExtGState {
    ExtGState {
        line_width: None,
        line_cap: None,
        line_join: None,
        miter_limit: None,
        stroke_alpha: None,
        fill_alpha: None,
        blend_mode: None,
        rendering_intent: None,
        overprint_stroke: None,
        overprint_fill: None,
        overprint_mode: None,
        flatness: None,
        smoothness: None,
        stroke_adjust: None,
        alpha_is_shape: None,
        text_knockout: None,
    }
}

/// `v` limited to the range from 0 to 1.
pub open spec fn clamp_unit(v: i64) -> i64 {
    if v < 0 {
        0
    } else if v > 10000 {
        10000
    } else {
        v
    }
}

/// The entry `k` with the value `v`, when there is one.
pub open spec fn opt_entry(k: Seq<char>, v: Option<Val>) -> Seq<(Seq<char>, Val)> {
    match v {
        Some(x) => seq![(k, x)],
        None => Seq::empty(),
    }
}

/// The entry `k` with a real number, when there is one.
pub open spec fn opt_real(k: Seq<char>, v: Option<i64>) -> Seq<(Seq<char>, Val)> {
    opt_entry(
        k,
        match v {
            Some(x) => Some(Val::Num(NumberType::Real(x))),
            None => None,
        },
    )
}

/// The entry `k` with an integer, when there is one.
pub open spec fn opt_int(k: Seq<char>, v: Option<u8>) -> Seq<(Seq<char>, Val)> {
    opt_entry(
        k,
        match v {
            Some(x) => Some(Val::Num(NumberType::Integer(x as i64))),
            None => None,
        },
    )
}

/// The entry `k` with a boolean, when there is one.
pub open spec fn opt_bool(k: Seq<char>, v: Option<bool>) -> Seq<(Seq<char>, Val)> {
    opt_entry(
        k,
        match v {
            Some(x) => Some(Val::Bool(x)),
            None => None,
        },
    )
}

/// The entry `k` with a name, when there is one.
pub open spec fn opt_name(k: Seq<char>, v: Option<Seq<char>>) -> Seq<(Seq<char>, Val)> {
    opt_entry(
        k,
        match v {
            Some(x) => Some(Val::Name(x)),
            None => None,
        },
    )
}

/// The keys of `s` all lie in `seen`.
pub open spec fn keys_within(s: Seq<(crate::objects::name::PdfNameObject, PdfObject)>, seen: Set<Seq<char>>) -> bool {
    forall|i: int| 0 <= i < s.len() ==> seen.contains(#[trigger] s[i].0.value@)
}

/// `object` is given exactly when `v` is, and is then the value `v`.
pub open spec fn object_is_opt(object: Option<PdfObject>, v: Option<Val>) -> bool {
    match (object, v) {
        (Some(o), Some(x)) => crate::objects::pdf_object::val_is(o, x),
        (None, None) => true,
        _ => false,
    }
}

/// Appends the entry `key`, `object` when there is an object.
fn put_opt(
    dict: &mut PdfDictionaryObject,
    key: &str,
    object: Option<PdfObject>,
    Ghost(seen): Ghost<Set<Seq<char>>>,
    Ghost(e): Ghost<Seq<(Seq<char>, Val)>>,
    Ghost(v): Ghost<Option<Val>>,
)
    requires
        plain_dict(*old(dict)),
        entries_are(old(dict).values@, e),
        keys_within(old(dict).values@, seen),
        !seen.contains(key@),
        object_is_opt(object, v),
    ensures
        plain_dict(*final(dict)),
        entries_are(final(dict).values@, e + opt_entry(key@, v)),
        keys_within(final(dict).values@, seen.insert(key@)),
{
    proof {
        lemma_not_seen(dict.values@, seen, key@);
    }
    let ghost before = dict.values@;
    match object {
        Some(o) => {
            dict.put_new(key, o);
            assert(dict.values@.len() == before.len() + 1);
        },
        None => {
            assert(e + opt_entry(key@, v) =~= e);
        },
    }
    assert forall|i: int| 0 <= i < dict.values@.len() implies seen.insert(key@).contains(
        #[trigger] dict.values@[i].0.value@,
    ) by {
        if i < before.len() {
            assert(dict.values@[i] == before[i]);
        }
    }
}

/// The entries LW LC LJ ML of a state, each when its parameter is set.
pub open spec fn extgstate_part1(g: ExtGState) -> Seq<(Seq<char>, Val)> {
    opt_real("LW"@, g.line_width) + opt_int("LC"@, g.line_cap) + opt_int("LJ"@, g.line_join) + opt_real("ML"@, g.miter_limit)
}

/// The entries CA ca BM RI of a state, each when its parameter is set.
pub open spec fn extgstate_part2(g: ExtGState) -> Seq<(Seq<char>, Val)> {
    opt_real("CA"@, g.stroke_alpha) + opt_real("ca"@, g.fill_alpha) + opt_name("BM"@, match g.blend_mode { Some(b) => Some(blend_mode_name(b)), None => None }) + opt_name("RI"@, match g.rendering_intent { Some(r) => Some(rendering_intent_name(r)), None => None })
}

/// The entries OP op OPM FL of a state, each when its parameter is set.
pub open spec fn extgstate_part3(g: ExtGState) -> Seq<(Seq<char>, Val)> {
    opt_bool("OP"@, g.overprint_stroke) + opt_bool("op"@, g.overprint_fill) + opt_int("OPM"@, g.overprint_mode) + opt_real("FL"@, g.flatness)
}

/// The entries SM SA AIS TK of a state, each when its parameter is set.
pub open spec fn extgstate_part4(g: ExtGState) -> Seq<(Seq<char>, Val)> {
    opt_real("SM"@, g.smoothness) + opt_bool("SA"@, g.stroke_adjust) + opt_bool("AIS"@, g.alpha_is_shape) + opt_bool("TK"@, g.text_knockout)
}

/// The entries of the dictionary of a state: `/Type /ExtGState`, then each parameter that
/// is set, in the order `LW LC LJ ML CA ca BM RI OP op OPM FL SM SA AIS TK`.
pub open spec fn extgstate_entries(g: ExtGState) -> Seq<(Seq<char>, Val)> {
    seq![("Type"@, Val::Name("ExtGState"@))] + extgstate_part1(g) + extgstate_part2(g) + extgstate_part3(g)
        + extgstate_part4(g)
}

/// The text of a real number as Rust's `Debug` writes it: a whole number with `.0`.
pub open spec fn debug_real(v: int) -> Seq<u8> {
    let a: int = if v < 0 { -v } else { v };
    if a % 10000 == 0 {
        real_text(v) + seq!['.' as u8, '0' as u8]
    } else {
        real_text(v)
    }
}

/// `None`, or `Some(` the text `)`.
pub open spec fn debug_option(t: Option<Seq<u8>>) -> Seq<u8> {
    match t {
        Some(x) => seq!['S' as u8, 'o' as u8, 'm' as u8, 'e' as u8, '(' as u8] + x + seq![')' as u8],
        None => seq!['N' as u8, 'o' as u8, 'n' as u8, 'e' as u8],
    }
}

pub open spec fn debug_opt_real(v: Option<i64>) -> Seq<u8> {
    debug_option(
        match v {
            Some(x) => Some(debug_real(x as int)),
            None => None,
        },
    )
}

pub open spec fn debug_opt_u8(v: Option<u8>) -> Seq<u8> {
    debug_option(
        match v {
            Some(x) => Some(dec_digits(x as nat)),
            None => None,
        },
    )
}

/// The identity of a state among the resources: its line, alpha and blend parameters.
pub open spec fn extgstate_id(g: ExtGState) -> Seq<char> {
    "extgs:lw="@ + ascii_chars(debug_opt_real(g.line_width)) + ":lc="@ + ascii_chars(
        debug_opt_u8(g.line_cap),
    ) + ":lj="@ + ascii_chars(debug_opt_u8(g.line_join)) + ":ml="@ + ascii_chars(
        debug_opt_real(g.miter_limit),
    ) + ":ca="@ + ascii_chars(debug_opt_real(g.fill_alpha)) + ":CA="@ + ascii_chars(
        debug_opt_real(g.stroke_alpha),
    ) + ":bm="@ + match g.blend_mode {
        Some(b) => "Some(\""@ + blend_mode_name(b) + "\")"@,
        None => "None"@,
    }
}

/// Appends the `Debug` text of an optional real number.
fn push_debug_opt_real(s: &mut String, v: Option<i64>)
    ensures
        final(s)@ == old(s)@ + ascii_chars(debug_opt_real(v)),
{
    match v {
        Some(x) => {
            let ghost start = old(s)@;
            crate::encoding::string_push_str(s, "Some(");
            crate::encoding::string_push_real(s, x);
            let a: u64 = if x == i64::MIN {
                9223372036854775808u64
            } else if x < 0 {
                (-x) as u64
            } else {
                x as u64
            };
            if a % 10000 == 0 {
                crate::encoding::string_push_str(s, ".0");
            }
            crate::encoding::string_push_str(s, ")");
            proof {
                reveal_strlit("Some(");
                reveal_strlit(".0");
                reveal_strlit(")");
                assert(ascii_chars(debug_opt_real(v)) =~= "Some("@ + ascii_chars(debug_real(x as int)) + ")"@);
                if a % 10000 == 0 {
                    assert(ascii_chars(debug_real(x as int)) =~= ascii_chars(real_text(x as int)) + ".0"@);
                }
            }
            assert(s@ =~= start + ascii_chars(debug_opt_real(v)));
        },
        None => {
            crate::encoding::string_push_str(s, "None");
            proof {
                reveal_strlit("None");
            }
            assert(ascii_chars(debug_opt_real(v)) =~= "None"@);
        },
    }
}

/// Appends the `Debug` text of an optional byte.
fn push_debug_opt_u8(s: &mut String, v: Option<u8>)
    ensures
        final(s)@ == old(s)@ + ascii_chars(debug_opt_u8(v)),
{
    match v {
        Some(x) => {
            let ghost start = old(s)@;
            crate::encoding::string_push_str(s, "Some(");
            crate::encoding::string_push_decimal(s, x as u64);
            crate::encoding::string_push_str(s, ")");
            proof {
                reveal_strlit("Some(");
                reveal_strlit(")");
                assert(ascii_chars(debug_opt_u8(v)) =~= "Some("@ + ascii_chars(dec_digits(x as nat)) + ")"@);
            }
            assert(s@ =~= start + ascii_chars(debug_opt_u8(v)));
        },
        None => {
            crate::encoding::string_push_str(s, "None");
            proof {
                reveal_strlit("None");
            }
            assert(ascii_chars(debug_opt_u8(v)) =~= "None"@);
        },
    }
}

impl ExtGState {
    pub fn new() -> (g: Self)
        ensures
            g == empty_state(),
    {
        Self {
            line_width: None,
            line_cap: None,
            line_join: None,
            miter_limit: None,
            stroke_alpha: None,
            fill_alpha: None,
            blend_mode: None,
            rendering_intent: None,
            overprint_stroke: None,
            overprint_fill: None,
            overprint_mode: None,
            flatness: None,
            smoothness: None,
            stroke_adjust: None,
            alpha_is_shape: None,
            text_knockout: None,
        }
    }

    /// A state with the given stroke and fill alphas and nothing else.
    pub fn with_alpha(stroke_alpha: i64, fill_alpha: i64) -> (g: Self)
        ensures
            g == (ExtGState { stroke_alpha: Some(stroke_alpha), fill_alpha: Some(fill_alpha), ..empty_state() }),
    {
        Self { stroke_alpha: Some(stroke_alpha), fill_alpha: Some(fill_alpha), ..Self::new() }
    }

    /// A state with the given blend mode and nothing else.
    pub fn with_blend_mode(blend_mode: BlendMode) -> (g: Self)
        ensures
            g == (ExtGState { blend_mode: Some(blend_mode), ..empty_state() }),
    {
        Self { blend_mode: Some(blend_mode), ..Self::new() }
    }

    /// Sets the stroke alpha, limited to the range from 0 to 1.
    pub fn set_stroke_alpha(self, alpha: i64) -> (g: Self)
        ensures
            g == (ExtGState { stroke_alpha: Some(clamp_unit(alpha)), ..self }),
    {
        let mut s = self;
        s.stroke_alpha = Some(clamp(alpha));
        s
    }

    /// Sets the fill alpha, limited to the range from 0 to 1.
    pub fn set_fill_alpha(self, alpha: i64) -> (g: Self)
        ensures
            g == (ExtGState { fill_alpha: Some(clamp_unit(alpha)), ..self }),
    {
        let mut s = self;
        s.fill_alpha = Some(clamp(alpha));
        s
    }

    pub fn set_blend_mode(self, mode: BlendMode) -> (g: Self)
        ensures
            g == (ExtGState { blend_mode: Some(mode), ..self }),
    {
        let mut s = self;
        s.blend_mode = Some(mode);
        s
    }

    pub fn set_line_width(self, width: i64) -> (g: Self)
        ensures
            g == (ExtGState { line_width: Some(width), ..self }),
    {
        let mut s = self;
        s.line_width = Some(width);
        s
    }

    /// The dictionary of the state (see [`extgstate_entries`]).
    pub fn to_dict(&self) -> (d: PdfDictionaryObject)
        ensures
            plain_dict(d),
            entries_are(d.values@, extgstate_entries(*self)),
    {
        proof {
            reveal_strlit("Type");
        }
        let mut dict = PdfDictionaryObject::new();
        dict.put_new("Type", PdfObject::name_obj("ExtGState"));
        let ghost e0: Seq<(Seq<char>, Val)> = seq![("Type"@, Val::Name("ExtGState"@))];
        assert(entries_are(dict.values@, e0));
        self.put_part1(&mut dict, Ghost(e0));
        let ghost e1 = e0 + extgstate_part1(*self);
        self.put_part2(&mut dict, Ghost(e1));
        let ghost e2 = e1 + extgstate_part2(*self);
        self.put_part3(&mut dict, Ghost(e2));
        let ghost e3 = e2 + extgstate_part3(*self);
        self.put_part4(&mut dict, Ghost(e3));
        let ghost e4 = e3 + extgstate_part4(*self);
        dict
    }

    /// Appends the entries LW LC LJ ML, each when its parameter is set.
    fn put_part1(&self, dict: &mut PdfDictionaryObject, Ghost(e): Ghost<Seq<(Seq<char>, Val)>>)
        requires
            plain_dict(*old(dict)),
            entries_are(old(dict).values@, e),
            keys_within(old(dict).values@, set!["Type"@]),
        ensures
            plain_dict(*final(dict)),
            entries_are(final(dict).values@, e + extgstate_part1(*self)),
            keys_within(final(dict).values@, set!["Type"@, "LW"@, "LC"@, "LJ"@, "ML"@]),
    {
        proof {
            reveal_strlit("LC");
            reveal_strlit("LJ");
            reveal_strlit("LW");
            reveal_strlit("ML");
            reveal_strlit("Type");
            assert("LC"@.len() == 2 && "LC"@[0] == 'L' && "LC"@[1] == 'C');
            assert("LJ"@.len() == 2 && "LJ"@[0] == 'L' && "LJ"@[1] == 'J');
            assert("LW"@.len() == 2 && "LW"@[0] == 'L' && "LW"@[1] == 'W');
            assert("ML"@.len() == 2 && "ML"@[0] == 'M' && "ML"@[1] == 'L');
            assert("Type"@.len() == 4 && "Type"@[0] == 'T' && "Type"@[1] == 'y');
        }
        let ghost mut seen: Set<Seq<char>> = set!["Type"@];
        let ghost mut acc: Seq<(Seq<char>, Val)> = e;
        let ghost v: Option<Val> = match self.line_width { Some(x) => Some(Val::Num(NumberType::Real(x))), None => None };
        put_opt(dict, "LW", match self.line_width { Some(x) => Some(PdfObject::num_obj(NumberType::Real(x))), None => None }, Ghost(seen), Ghost(acc), Ghost(v));
        proof {
            seen = seen.insert("LW"@);
            acc = acc + opt_entry("LW"@, v);
        }
        let ghost v: Option<Val> = match self.line_cap { Some(x) => Some(Val::Num(NumberType::Integer(x as i64))), None => None };
        put_opt(dict, "LC", match self.line_cap { Some(x) => Some(PdfObject::num_obj(NumberType::Integer(x as i64))), None => None }, Ghost(seen), Ghost(acc), Ghost(v));
        proof {
            seen = seen.insert("LC"@);
            acc = acc + opt_entry("LC"@, v);
        }
        let ghost v: Option<Val> = match self.line_join { Some(x) => Some(Val::Num(NumberType::Integer(x as i64))), None => None };
        put_opt(dict, "LJ", match self.line_join { Some(x) => Some(PdfObject::num_obj(NumberType::Integer(x as i64))), None => None }, Ghost(seen), Ghost(acc), Ghost(v));
        proof {
            seen = seen.insert("LJ"@);
            acc = acc + opt_entry("LJ"@, v);
        }
        let ghost v: Option<Val> = match self.miter_limit { Some(x) => Some(Val::Num(NumberType::Real(x))), None => None };
        put_opt(dict, "ML", match self.miter_limit { Some(x) => Some(PdfObject::num_obj(NumberType::Real(x))), None => None }, Ghost(seen), Ghost(acc), Ghost(v));
        proof {
            seen = seen.insert("ML"@);
            acc = acc + opt_entry("ML"@, v);
        }
        assert(acc =~= e + extgstate_part1(*self));
        assert(seen =~= set!["Type"@, "LW"@, "LC"@, "LJ"@, "ML"@]);
    }

    /// Appends the entries CA ca BM RI, each when its parameter is set.
    fn put_part2(&self, dict: &mut PdfDictionaryObject, Ghost(e): Ghost<Seq<(Seq<char>, Val)>>)
        requires
            plain_dict(*old(dict)),
            entries_are(old(dict).values@, e),
            keys_within(old(dict).values@, set!["Type"@, "LW"@, "LC"@, "LJ"@, "ML"@]),
        ensures
            plain_dict(*final(dict)),
            entries_are(final(dict).values@, e + extgstate_part2(*self)),
            keys_within(final(dict).values@, set!["Type"@, "LW"@, "LC"@, "LJ"@, "ML"@, "CA"@, "ca"@, "BM"@, "RI"@]),
    {
        proof {
            reveal_strlit("BM");
            reveal_strlit("CA");
            reveal_strlit("LC");
            reveal_strlit("LJ");
            reveal_strlit("LW");
            reveal_strlit("ML");
            reveal_strlit("RI");
            reveal_strlit("Type");
            reveal_strlit("ca");
            assert("BM"@.len() == 2 && "BM"@[0] == 'B' && "BM"@[1] == 'M');
            assert("CA"@.len() == 2 && "CA"@[0] == 'C' && "CA"@[1] == 'A');
            assert("LC"@.len() == 2 && "LC"@[0] == 'L' && "LC"@[1] == 'C');
            assert("LJ"@.len() == 2 && "LJ"@[0] == 'L' && "LJ"@[1] == 'J');
            assert("LW"@.len() == 2 && "LW"@[0] == 'L' && "LW"@[1] == 'W');
            assert("ML"@.len() == 2 && "ML"@[0] == 'M' && "ML"@[1] == 'L');
            assert("RI"@.len() == 2 && "RI"@[0] == 'R' && "RI"@[1] == 'I');
            assert("Type"@.len() == 4 && "Type"@[0] == 'T' && "Type"@[1] == 'y');
            assert("ca"@.len() == 2 && "ca"@[0] == 'c' && "ca"@[1] == 'a');
        }
        let ghost mut seen: Set<Seq<char>> = set!["Type"@, "LW"@, "LC"@, "LJ"@, "ML"@];
        let ghost mut acc: Seq<(Seq<char>, Val)> = e;
        let ghost v: Option<Val> = match self.stroke_alpha { Some(x) => Some(Val::Num(NumberType::Real(x))), None => None };
        put_opt(dict, "CA", match self.stroke_alpha { Some(x) => Some(PdfObject::num_obj(NumberType::Real(x))), None => None }, Ghost(seen), Ghost(acc), Ghost(v));
        proof {
            seen = seen.insert("CA"@);
            acc = acc + opt_entry("CA"@, v);
        }
        let ghost v: Option<Val> = match self.fill_alpha { Some(x) => Some(Val::Num(NumberType::Real(x))), None => None };
        put_opt(dict, "ca", match self.fill_alpha { Some(x) => Some(PdfObject::num_obj(NumberType::Real(x))), None => None }, Ghost(seen), Ghost(acc), Ghost(v));
        proof {
            seen = seen.insert("ca"@);
            acc = acc + opt_entry("ca"@, v);
        }
        let ghost v: Option<Val> = match self.blend_mode { Some(x) => Some(Val::Name(blend_mode_name(x))), None => None };
        put_opt(dict, "BM", match self.blend_mode { Some(x) => Some(PdfObject::name_obj(x.as_str())), None => None }, Ghost(seen), Ghost(acc), Ghost(v));
        proof {
            seen = seen.insert("BM"@);
            acc = acc + opt_entry("BM"@, v);
        }
        let ghost v: Option<Val> = match self.rendering_intent { Some(x) => Some(Val::Name(rendering_intent_name(x))), None => None };
        put_opt(dict, "RI", match self.rendering_intent { Some(x) => Some(PdfObject::name_obj(x.as_str())), None => None }, Ghost(seen), Ghost(acc), Ghost(v));
        proof {
            seen = seen.insert("RI"@);
            acc = acc + opt_entry("RI"@, v);
        }
        assert(acc =~= e + extgstate_part2(*self));
        assert(seen =~= set!["Type"@, "LW"@, "LC"@, "LJ"@, "ML"@, "CA"@, "ca"@, "BM"@, "RI"@]);
    }

    /// Appends the entries OP op OPM FL, each when its parameter is set.
    fn put_part3(&self, dict: &mut PdfDictionaryObject, Ghost(e): Ghost<Seq<(Seq<char>, Val)>>)
        requires
            plain_dict(*old(dict)),
            entries_are(old(dict).values@, e),
            keys_within(old(dict).values@, set!["Type"@, "LW"@, "LC"@, "LJ"@, "ML"@, "CA"@, "ca"@, "BM"@, "RI"@]),
        ensures
            plain_dict(*final(dict)),
            entries_are(final(dict).values@, e + extgstate_part3(*self)),
            keys_within(final(dict).values@, set!["Type"@, "LW"@, "LC"@, "LJ"@, "ML"@, "CA"@, "ca"@, "BM"@, "RI"@, "OP"@, "op"@, "OPM"@, "FL"@]),
    {
        proof {
            reveal_strlit("BM");
            reveal_strlit("CA");
            reveal_strlit("FL");
            reveal_strlit("LC");
            reveal_strlit("LJ");
            reveal_strlit("LW");
            reveal_strlit("ML");
            reveal_strlit("OP");
            reveal_strlit("OPM");
            reveal_strlit("RI");
            reveal_strlit("Type");
            reveal_strlit("ca");
            reveal_strlit("op");
            assert("BM"@.len() == 2 && "BM"@[0] == 'B' && "BM"@[1] == 'M');
            assert("CA"@.len() == 2 && "CA"@[0] == 'C' && "CA"@[1] == 'A');
            assert("FL"@.len() == 2 && "FL"@[0] == 'F' && "FL"@[1] == 'L');
            assert("LC"@.len() == 2 && "LC"@[0] == 'L' && "LC"@[1] == 'C');
            assert("LJ"@.len() == 2 && "LJ"@[0] == 'L' && "LJ"@[1] == 'J');
            assert("LW"@.len() == 2 && "LW"@[0] == 'L' && "LW"@[1] == 'W');
            assert("ML"@.len() == 2 && "ML"@[0] == 'M' && "ML"@[1] == 'L');
            assert("OP"@.len() == 2 && "OP"@[0] == 'O' && "OP"@[1] == 'P');
            assert("OPM"@.len() == 3 && "OPM"@[0] == 'O' && "OPM"@[1] == 'P');
            assert("RI"@.len() == 2 && "RI"@[0] == 'R' && "RI"@[1] == 'I');
            assert("Type"@.len() == 4 && "Type"@[0] == 'T' && "Type"@[1] == 'y');
            assert("ca"@.len() == 2 && "ca"@[0] == 'c' && "ca"@[1] == 'a');
            assert("op"@.len() == 2 && "op"@[0] == 'o' && "op"@[1] == 'p');
        }
        let ghost mut seen: Set<Seq<char>> = set!["Type"@, "LW"@, "LC"@, "LJ"@, "ML"@, "CA"@, "ca"@, "BM"@, "RI"@];
        let ghost mut acc: Seq<(Seq<char>, Val)> = e;
        let ghost v: Option<Val> = match self.overprint_stroke { Some(x) => Some(Val::Bool(x)), None => None };
        put_opt(dict, "OP", match self.overprint_stroke { Some(x) => Some(PdfObject::Boolean(PdfBooleanObject::new(x))), None => None }, Ghost(seen), Ghost(acc), Ghost(v));
        proof {
            seen = seen.insert("OP"@);
            acc = acc + opt_entry("OP"@, v);
        }
        let ghost v: Option<Val> = match self.overprint_fill { Some(x) => Some(Val::Bool(x)), None => None };
        put_opt(dict, "op", match self.overprint_fill { Some(x) => Some(PdfObject::Boolean(PdfBooleanObject::new(x))), None => None }, Ghost(seen), Ghost(acc), Ghost(v));
        proof {
            seen = seen.insert("op"@);
            acc = acc + opt_entry("op"@, v);
        }
        let ghost v: Option<Val> = match self.overprint_mode { Some(x) => Some(Val::Num(NumberType::Integer(x as i64))), None => None };
        put_opt(dict, "OPM", match self.overprint_mode { Some(x) => Some(PdfObject::num_obj(NumberType::Integer(x as i64))), None => None }, Ghost(seen), Ghost(acc), Ghost(v));
        proof {
            seen = seen.insert("OPM"@);
            acc = acc + opt_entry("OPM"@, v);
        }
        let ghost v: Option<Val> = match self.flatness { Some(x) => Some(Val::Num(NumberType::Real(x))), None => None };
        put_opt(dict, "FL", match self.flatness { Some(x) => Some(PdfObject::num_obj(NumberType::Real(x))), None => None }, Ghost(seen), Ghost(acc), Ghost(v));
        proof {
            seen = seen.insert("FL"@);
            acc = acc + opt_entry("FL"@, v);
        }
        assert(acc =~= e + extgstate_part3(*self));
        assert(seen =~= set!["Type"@, "LW"@, "LC"@, "LJ"@, "ML"@, "CA"@, "ca"@, "BM"@, "RI"@, "OP"@, "op"@, "OPM"@, "FL"@]);
    }

    /// Appends the entries SM SA AIS TK, each when its parameter is set.
    fn put_part4(&self, dict: &mut PdfDictionaryObject, Ghost(e): Ghost<Seq<(Seq<char>, Val)>>)
        requires
            plain_dict(*old(dict)),
            entries_are(old(dict).values@, e),
            keys_within(old(dict).values@, set!["Type"@, "LW"@, "LC"@, "LJ"@, "ML"@, "CA"@, "ca"@, "BM"@, "RI"@, "OP"@, "op"@, "OPM"@, "FL"@]),
        ensures
            plain_dict(*final(dict)),
            entries_are(final(dict).values@, e + extgstate_part4(*self)),
            keys_within(final(dict).values@, set!["Type"@, "LW"@, "LC"@, "LJ"@, "ML"@, "CA"@, "ca"@, "BM"@, "RI"@, "OP"@, "op"@, "OPM"@, "FL"@, "SM"@, "SA"@, "AIS"@, "TK"@]),
    {
        proof {
            reveal_strlit("AIS");
            reveal_strlit("BM");
            reveal_strlit("CA");
            reveal_strlit("FL");
            reveal_strlit("LC");
            reveal_strlit("LJ");
            reveal_strlit("LW");
            reveal_strlit("ML");
            reveal_strlit("OP");
            reveal_strlit("OPM");
            reveal_strlit("RI");
            reveal_strlit("SA");
            reveal_strlit("SM");
            reveal_strlit("TK");
            reveal_strlit("Type");
            reveal_strlit("ca");
            reveal_strlit("op");
            assert("AIS"@.len() == 3 && "AIS"@[0] == 'A' && "AIS"@[1] == 'I');
            assert("BM"@.len() == 2 && "BM"@[0] == 'B' && "BM"@[1] == 'M');
            assert("CA"@.len() == 2 && "CA"@[0] == 'C' && "CA"@[1] == 'A');
            assert("FL"@.len() == 2 && "FL"@[0] == 'F' && "FL"@[1] == 'L');
            assert("LC"@.len() == 2 && "LC"@[0] == 'L' && "LC"@[1] == 'C');
            assert("LJ"@.len() == 2 && "LJ"@[0] == 'L' && "LJ"@[1] == 'J');
            assert("LW"@.len() == 2 && "LW"@[0] == 'L' && "LW"@[1] == 'W');
            assert("ML"@.len() == 2 && "ML"@[0] == 'M' && "ML"@[1] == 'L');
            assert("OP"@.len() == 2 && "OP"@[0] == 'O' && "OP"@[1] == 'P');
            assert("OPM"@.len() == 3 && "OPM"@[0] == 'O' && "OPM"@[1] == 'P');
            assert("RI"@.len() == 2 && "RI"@[0] == 'R' && "RI"@[1] == 'I');
            assert("SA"@.len() == 2 && "SA"@[0] == 'S' && "SA"@[1] == 'A');
            assert("SM"@.len() == 2 && "SM"@[0] == 'S' && "SM"@[1] == 'M');
            assert("TK"@.len() == 2 && "TK"@[0] == 'T' && "TK"@[1] == 'K');
            assert("Type"@.len() == 4 && "Type"@[0] == 'T' && "Type"@[1] == 'y');
            assert("ca"@.len() == 2 && "ca"@[0] == 'c' && "ca"@[1] == 'a');
            assert("op"@.len() == 2 && "op"@[0] == 'o' && "op"@[1] == 'p');
        }
        let ghost mut seen: Set<Seq<char>> = set!["Type"@, "LW"@, "LC"@, "LJ"@, "ML"@, "CA"@, "ca"@, "BM"@, "RI"@, "OP"@, "op"@, "OPM"@, "FL"@];
        let ghost mut acc: Seq<(Seq<char>, Val)> = e;
        let ghost v: Option<Val> = match self.smoothness { Some(x) => Some(Val::Num(NumberType::Real(x))), None => None };
        put_opt(dict, "SM", match self.smoothness { Some(x) => Some(PdfObject::num_obj(NumberType::Real(x))), None => None }, Ghost(seen), Ghost(acc), Ghost(v));
        proof {
            seen = seen.insert("SM"@);
            acc = acc + opt_entry("SM"@, v);
        }
        let ghost v: Option<Val> = match self.stroke_adjust { Some(x) => Some(Val::Bool(x)), None => None };
        put_opt(dict, "SA", match self.stroke_adjust { Some(x) => Some(PdfObject::Boolean(PdfBooleanObject::new(x))), None => None }, Ghost(seen), Ghost(acc), Ghost(v));
        proof {
            seen = seen.insert("SA"@);
            acc = acc + opt_entry("SA"@, v);
        }
        let ghost v: Option<Val> = match self.alpha_is_shape { Some(x) => Some(Val::Bool(x)), None => None };
        put_opt(dict, "AIS", match self.alpha_is_shape { Some(x) => Some(PdfObject::Boolean(PdfBooleanObject::new(x))), None => None }, Ghost(seen), Ghost(acc), Ghost(v));
        proof {
            seen = seen.insert("AIS"@);
            acc = acc + opt_entry("AIS"@, v);
        }
        let ghost v: Option<Val> = match self.text_knockout { Some(x) => Some(Val::Bool(x)), None => None };
        put_opt(dict, "TK", match self.text_knockout { Some(x) => Some(PdfObject::Boolean(PdfBooleanObject::new(x))), None => None }, Ghost(seen), Ghost(acc), Ghost(v));
        proof {
            seen = seen.insert("TK"@);
            acc = acc + opt_entry("TK"@, v);
        }
        assert(acc =~= e + extgstate_part4(*self));
        assert(seen =~= set!["Type"@, "LW"@, "LC"@, "LJ"@, "ML"@, "CA"@, "ca"@, "BM"@, "RI"@, "OP"@, "op"@, "OPM"@, "FL"@, "SM"@, "SA"@, "AIS"@, "TK"@]);
    }

    /// The identity of the state among the resources (see [`extgstate_id`]).
    fn generate_unique_id(&self) -> (s: String)
        ensures
            s@ == extgstate_id(*self),
    {
        let mut s = String::new();
        crate::encoding::string_push_str(&mut s, "extgs:lw=");
        push_debug_opt_real(&mut s, self.line_width);
        crate::encoding::string_push_str(&mut s, ":lc=");
        push_debug_opt_u8(&mut s, self.line_cap);
        crate::encoding::string_push_str(&mut s, ":lj=");
        push_debug_opt_u8(&mut s, self.line_join);
        crate::encoding::string_push_str(&mut s, ":ml=");
        push_debug_opt_real(&mut s, self.miter_limit);
        crate::encoding::string_push_str(&mut s, ":ca=");
        push_debug_opt_real(&mut s, self.fill_alpha);
        crate::encoding::string_push_str(&mut s, ":CA=");
        push_debug_opt_real(&mut s, self.stroke_alpha);
        crate::encoding::string_push_str(&mut s, ":bm=");
        match self.blend_mode {
            Some(b) => {
                crate::encoding::string_push_str(&mut s, "Some(\"");
                crate::encoding::string_push_str(&mut s, b.as_str());
                crate::encoding::string_push_str(&mut s, "\")");
            },
            None => {
                crate::encoding::string_push_str(&mut s, "None");
            },
        }
        s
    }
}

/// `v` limited to the range from 0 to 1.
fn clamp(v: i64) -> (r: i64)
    ensures
        r == clamp_unit(v),
{
    if v < 0 {
        0
    } else if v > 10000 {
        10000
    } else {
        v
    }
}

impl Default for ExtGState {
    fn default() -> (g: Self)
        ensures
            g == empty_state(),
    {
        Self::new()
    }
}

impl Resource for ExtGState {
    fn category(&self) -> (c: ResourceCategory)
        ensures
            c == ResourceCategory::ExtGState,
    {
        ResourceCategory::ExtGState
    }

    fn resource_unique_id(&self) -> (s: String)
        ensures
            s@ == extgstate_id(*self),
    {
        self.generate_unique_id()
    }
}

} // verus!
