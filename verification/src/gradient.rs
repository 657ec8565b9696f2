//! Gradients: colour stops along a line or out from a centre, made into a shading pattern,
//! with a soft mask when the colours are not opaque.
//!
//! Numbers are held in ten-thousandths, as elsewhere in this library. The direction of a
//! linear gradient is given by the cosine and sine of its angle, which the caller computes.
use vstd::prelude::*;
use std::rc::Rc;
use crate::color::{CHANNEL_MAX, Color, RGBA};
use crate::drawing_commands::in_drawing_range;
use crate::encoding::{ascii_chars, dec_digits};
use crate::graphics_ops::gs_name;
use crate::object_ops::ObjectOps;
use crate::objects::boolean::PdfBooleanObject;
use crate::objects::dictionary::{PdfDictionaryObject, keys_of};
use crate::objects::name::PdfNameObject;
use crate::objects::number::{NumberType, PdfNumberObject, trunc_div};
use crate::objects::pdf_array::{PdfArrayObject, real_objects};
use crate::objects::pdf_object::{PdfObject, is_name, reference_object};
use crate::objects::stream::{CompressionMethod, PdfStreamObject};
use crate::shading::int_object;
use crate::util::{Dims, Posn};

verus! {

/// The kinds of function of a document.
///
/// Type 0, sampled: input mapped to output through a table of samples. Type 2, exponential:
/// interpolation between two points. Type 3, stitching: several functions in sequence.
/// Type 4, PostScript: a calculation in a subset of the PostScript language.
pub enum PdfFunctionType {
    Sampled {
        sample_data: Vec<u8>,
        samples_per_dimension: Vec<u32>,
        bits_per_sample: u8,
        interpolation_order: u8,
        input_encoding: Vec<i64>,
        output_decoding: Vec<i64>,
        output_range: Vec<i64>,
    },
    Exponential { values_at_start: Vec<i64>, values_at_end: Vec<i64>, interpolation_exponent: i64 },
    Stitching { sub_functions: Vec<Rc<PdfFunctionType>>, stitching_bounds: Vec<i64>, encoding_ranges: Vec<i64> },
    PostScript(String),
}

/// A colour at a point along the gradient: 0 at its start, 10000 at its end.
#[derive(Debug, Clone)]
pub struct ColorStop {
    pub offset: i64,
    pub rgba: RGBA,
}

impl ColorStop {
    pub fn new(offset: i64, rgba: RGBA) -> (c: Self)
        ensures
            c.offset == offset,
            c.rgba == rgba,
    {
        ColorStop { offset, rgba }
    }
}

/// A gradient along a line at an angle (in ten-thousandths of a degree, 0 pointing up and
/// turning clockwise), or out from a centre.
#[derive(Debug, Clone)]
pub enum GradientKind {
    Linear { angle: i64 },
    Radial,
}

pub struct Gradient {
    pub stops: Vec<ColorStop>,
    pub kind: GradientKind,
}

/// The half of `v`, rounded toward zero.
pub open spec fn half(v: int) -> int {
    trunc_div(v, 2)
}

/// `a * b` for two numbers in ten-thousandths, rounded toward zero.
pub open spec fn fixed_mul(a: int, b: int) -> int {
    trunc_div(a * b, 10000)
}

pub open spec fn abs(v: int) -> int {
    if v < 0 {
        -v
    } else {
        v
    }
}

/// The coordinates of an axial shading across the box at `posn` of size `size`: the line
/// through its centre in the direction (`cos`, `sin`), long enough to cross the box and
/// reach `stroke_width` beyond it on either side. `[x0 y0 x1 y1]`.
pub open spec fn linear_coords(posn: Posn, size: Dims, stroke_width: i64, cos: int, sin: int) -> Seq<int> {
    let cx = posn.x + half(size.width as int);
    let cy = posn.y + half(size.height as int);
    let half_len = half(fixed_mul(size.width as int, abs(cos)) + fixed_mul(size.height as int, abs(sin)))
        + stroke_width;
    seq![
        cx - fixed_mul(cos, half_len),
        cy + fixed_mul(sin, half_len),
        cx + fixed_mul(cos, half_len),
        cy - fixed_mul(sin, half_len),
    ]
}

/// Dividing by 10000 toward zero leaves a remainder of the sign of `a`, smaller than 10000,
/// and keeps `a`'s bound.
proof fn lemma_trunc_div_10000(a: int, bound: int)
    requires
        -bound * 10000 <= a <= bound * 10000,
    ensures
        -10000 < a - 10000 * trunc_div(a, 10000) < 10000,
        -bound <= trunc_div(a, 10000) <= bound,
{
}

/// The axis of a linear gradient runs through the centre `(cx, cy)` of the box in the
/// direction (`cos`, `sin`) given in ten-thousandths: its two ends lie symmetrically about the
/// centre, the end point `(x1, y1)` and the start point `(x0, y0)` sit `hl` along the vector
/// (`cos`, `-sin`) and (`-cos`, `sin`) from it, each coordinate rounded toward zero to a
/// ten-thousandth, where `hl` is half the extent of the box along the direction plus the
/// stroke width. So the start point lies on the side of the centre that `sin` points to.
pub proof fn law_linear_axis_follows_direction(
    angle: i64,
    posn: Posn,
    size: Dims,
    stroke_width: i64,
    cos: i64,
    sin: i64,
)
    requires
        in_drawing_range(posn.x),
        in_drawing_range(posn.y),
        in_drawing_range(size.width),
        in_drawing_range(size.height),
        in_drawing_range(stroke_width),
        -10000 <= cos <= 10000,
        -10000 <= sin <= 10000,
    ensures
        ({
            let p = shading_params(GradientKind::Linear { angle }, posn, size, stroke_width, cos, sin);
            let v = p.1;
            let cx = posn.x + trunc_div(size.width as int, 2);
            let cy = posn.y + trunc_div(size.height as int, 2);
            let hl = trunc_div(
                trunc_div(size.width * abs(cos as int), 10000) + trunc_div(size.height * abs(sin as int), 10000),
                2,
            ) + stroke_width;
            &&& p.0 == 2
            &&& v.len() == 4
            &&& v[0] + v[2] == 2 * cx
            &&& v[1] + v[3] == 2 * cy
            &&& -10000 < 10000 * (v[2] - cx) - cos * hl < 10000
            &&& -10000 < 10000 * (v[1] - cy) - sin * hl < 10000
        }),
{
    let cx = posn.x + trunc_div(size.width as int, 2);
    let cy = posn.y + trunc_div(size.height as int, 2);
    let w = size.width as int;
    let h = size.height as int;
    let ac = abs(cos as int);
    let as_ = abs(sin as int);
    assert(-1_000_000_000_000_000 * 10000 <= w * ac <= 1_000_000_000_000_000 * 10000) by (nonlinear_arith)
        requires
            -1_000_000_000_000_000 <= w <= 1_000_000_000_000_000,
            0 <= ac <= 10000,
    ;
    assert(-1_000_000_000_000_000 * 10000 <= h * as_ <= 1_000_000_000_000_000 * 10000) by (nonlinear_arith)
        requires
            -1_000_000_000_000_000 <= h <= 1_000_000_000_000_000,
            0 <= as_ <= 10000,
    ;
    lemma_trunc_div_10000(w * ac, 1_000_000_000_000_000);
    lemma_trunc_div_10000(h * as_, 1_000_000_000_000_000);
    let hl = trunc_div(trunc_div(w * ac, 10000) + trunc_div(h * as_, 10000), 2) + stroke_width;
    assert(-3_000_000_000_000_000 <= hl <= 3_000_000_000_000_000);
    let c = cos as int;
    let sn = sin as int;
    assert(-3_000_000_000_000_000 * 10000 <= c * hl <= 3_000_000_000_000_000 * 10000) by (nonlinear_arith)
        requires
            -3_000_000_000_000_000 <= hl <= 3_000_000_000_000_000,
            -10000 <= c <= 10000,
    ;
    assert(-3_000_000_000_000_000 * 10000 <= sn * hl <= 3_000_000_000_000_000 * 10000) by (nonlinear_arith)
        requires
            -3_000_000_000_000_000 <= hl <= 3_000_000_000_000_000,
            -10000 <= sn <= 10000,
    ;
    lemma_trunc_div_10000(c * hl, 3_000_000_000_000_000);
    lemma_trunc_div_10000(sn * hl, 3_000_000_000_000_000);
    let l = linear_coords(posn, size, stroke_width, c, sn);
    assert(l[0] == cx - fixed_mul(c, hl));
    assert(-5_000_000_000_000_000 <= l[0] <= 5_000_000_000_000_000);
    assert(-5_000_000_000_000_000 <= l[1] <= 5_000_000_000_000_000);
    assert(-5_000_000_000_000_000 <= l[2] <= 5_000_000_000_000_000);
    assert(-5_000_000_000_000_000 <= l[3] <= 5_000_000_000_000_000);
    let v = to_i64s(l);
    assert(v[0] == l[0] && v[1] == l[1] && v[2] == l[2] && v[3] == l[3]);
}

/// The coordinates of a radial shading for the box at `posn` of size `size`: from the point
/// at its centre to the circle there of radius one and a half times its smaller side.
/// `[x0 y0 r0 x1 y1 r1]`.
pub open spec fn radial_coords(posn: Posn, size: Dims) -> Seq<int> {
    let cx = posn.x + half(size.width as int);
    let cy = posn.y + half(size.height as int);
    let m = if size.width < size.height {
        size.width as int
    } else {
        size.height as int
    };
    seq![cx, cy, 0, cx, cy, trunc_div(m * 3, 2)]
}

/// The values `v` as 64-bit integers.
pub open spec fn to_i64s(v: Seq<int>) -> Seq<i64> {
    v.map_values(|x: int| x as i64)
}

/// The shading type and coordinates of a gradient of kind `kind` (see
/// [`Gradient::get_shading_params`]).
pub open spec fn shading_params(
    kind: GradientKind,
    posn: Posn,
    size: Dims,
    stroke_width: i64,
    cos: i64,
    sin: i64,
) -> (u8, Seq<i64>) {
    match kind {
        GradientKind::Linear { .. } => (2, to_i64s(linear_coords(posn, size, stroke_width, cos as int, sin as int))),
        GradientKind::Radial => (3, to_i64s(radial_coords(posn, size))),
    }
}

/// `a / b` rounded toward zero, for a positive `b`.
fn tdiv(a: i128, b: i128) -> (q: i128)
    requires
        b > 0,
        -0x1000_0000_0000_0000_0000_0000_0000 <= a <= 0x1000_0000_0000_0000_0000_0000_0000,
    ensures
        q == trunc_div(a as int, b as int),
{
    if a >= 0 {
        a / b
    } else {
        let p: i128 = -a;
        -(p / b)
    }
}

/// `o` is the direct array of the real numbers `v` (in ten-thousandths).
pub open spec fn is_real_array(o: PdfObject, v: Seq<i64>) -> bool {
    o matches PdfObject::Array(a) && a.values@ == real_objects(v) && a.object_number is None
        && a.generation_number is None
}

/// The real number `v` (in ten-thousandths).
pub open spec fn real_object(v: i64) -> PdfObject {
    PdfObject::Number(PdfNumberObject { value: NumberType::Real(v) })
}

/// `o` is the direct array `[true true]`.
pub open spec fn is_extend_both(o: PdfObject) -> bool {
    o matches PdfObject::Array(a) && a.values@ == seq![
        PdfObject::Boolean(PdfBooleanObject { value: true }),
        PdfObject::Boolean(PdfBooleanObject { value: true }),
    ] && a.object_number is None && a.generation_number is None
}

/// `o` is a dictionary numbered `n` whose keys are, in order, `keys`.
pub open spec fn dict_with_keys(o: PdfObject, n: Option<u64>, keys: Seq<Seq<char>>) -> bool {
    o matches PdfObject::Dictionary(d) && d.object_number == n && keys_of(d.values@) == keys
}

/// The value of the entry at index `i` of the dictionary `o`.
pub open spec fn entry_value(o: PdfObject, i: int) -> PdfObject {
    match o {
        PdfObject::Dictionary(d) => d.values@[i].1,
        PdfObject::Stream(s) => s.dict.values@[i].1,
        _ => o,
    }
}

/// An exponential interpolation function (type 2) numbered `n`, from `c0` to `c1` over the
/// domain `[0 1]`, with the exponent 0: `FunctionType`, `Domain`, `C0`, `C1` and `N`.
pub open spec fn is_interpolation_function(o: PdfObject, n: u64, c0: Seq<i64>, c1: Seq<i64>) -> bool {
    &&& dict_with_keys(o, Some(n), seq!["FunctionType"@, "Domain"@, "C0"@, "C1"@, "N"@])
    &&& entry_value(o, 0) == int_object(2)
    &&& is_real_array(entry_value(o, 1), seq![0, 10000])
    &&& is_real_array(entry_value(o, 2), c0)
    &&& is_real_array(entry_value(o, 3), c1)
    &&& entry_value(o, 4) == real_object(0)
}

/// A shading numbered `n` of type `t` in the colour space `color_space`, with the
/// coordinates `coords`, the function numbered `function` and `Extend [true true]`.
pub open spec fn is_gradient_shading(
    o: PdfObject,
    n: u64,
    t: u8,
    color_space: Seq<char>,
    coords: Seq<i64>,
    function: u64,
) -> bool {
    &&& dict_with_keys(o, Some(n), seq!["ShadingType"@, "ColorSpace"@, "Coords"@, "Function"@, "Extend"@])
    &&& entry_value(o, 0) == int_object(t as i64)
    &&& is_name(entry_value(o, 1), color_space)
    &&& is_real_array(entry_value(o, 2), coords)
    &&& entry_value(o, 3) == reference_object(function)
    &&& is_extend_both(entry_value(o, 4))
}

/// The transparency group `<< /Type /Group /S /Transparency /CS /DeviceGray >>`.
pub open spec fn is_gray_group(o: PdfObject) -> bool {
    &&& dict_with_keys(o, None, seq!["Type"@, "S"@, "CS"@])
    &&& is_name(entry_value(o, 0), "Group"@)
    &&& is_name(entry_value(o, 1), "Transparency"@)
    &&& is_name(entry_value(o, 2), "DeviceGray"@)
}

/// The resources `<< /Shading << /Sh0 shading 0 R >> >>`.
pub open spec fn is_shading_resources(o: PdfObject, shading: u64) -> bool {
    &&& dict_with_keys(o, None, seq!["Shading"@])
    &&& dict_with_keys(entry_value(o, 0), None, seq!["Sh0"@])
    &&& entry_value(entry_value(o, 0), 0) == reference_object(shading)
}

/// The form XObject numbered `n` that paints the shading numbered `shading` over a box of
/// `width` by `height` as a grey transparency group: a compressed stream whose content is
/// `/Sh0 sh`.
pub open spec fn is_mask_form(o: PdfObject, n: u64, shading: u64, width: i64, height: i64) -> bool {
    &&& o matches PdfObject::Stream(st) && {
        &&& st.object_number == Some(n)
        &&& st.compression_method == CompressionMethod::Flate
        &&& st.content@ == seq!['/' as u8, 'S' as u8, 'h' as u8, '0' as u8, ' ' as u8, 's' as u8, 'h' as u8]
        &&& st.dict.object_number is None
        &&& keys_of(st.dict.values@) == seq!["Type"@, "Subtype"@, "FormType"@, "BBox"@, "Group"@, "Resources"@]
    }
    &&& is_name(entry_value(o, 0), "XObject"@)
    &&& is_name(entry_value(o, 1), "Form"@)
    &&& entry_value(o, 2) == int_object(1)
    &&& is_real_array(entry_value(o, 3), seq![0, 0, width, height])
    &&& is_gray_group(entry_value(o, 4))
    &&& is_shading_resources(entry_value(o, 5), shading)
}

/// The soft mask numbered `n`: `<< /Type /Mask /S /Luminosity /G form 0 R >>`.
pub open spec fn is_luminosity_mask(o: PdfObject, n: u64, form: u64) -> bool {
    &&& dict_with_keys(o, Some(n), seq!["Type"@, "S"@, "G"@])
    &&& is_name(entry_value(o, 0), "Mask"@)
    &&& is_name(entry_value(o, 1), "Luminosity"@)
    &&& entry_value(o, 2) == reference_object(form)
}

/// The graphics state numbered `n`: `<< /Type /ExtGState /SMask mask 0 R >>`.
pub open spec fn is_mask_state(o: PdfObject, n: u64, mask: u64) -> bool {
    &&& dict_with_keys(o, Some(n), seq!["Type"@, "SMask"@])
    &&& is_name(entry_value(o, 0), "ExtGState"@)
    &&& entry_value(o, 1) == reference_object(mask)
}

/// The shading pattern numbered `n`: `<< /Type /Pattern /PatternType 2 /Shading s 0 R >>`.
pub open spec fn is_shading_pattern(o: PdfObject, n: u64, shading: u64) -> bool {
    &&& dict_with_keys(o, Some(n), seq!["Type"@, "PatternType"@, "Shading"@])
    &&& is_name(entry_value(o, 0), "Pattern"@)
    &&& entry_value(o, 1) == int_object(2)
    &&& entry_value(o, 2) == reference_object(shading)
}

/// The red, green and blue channels of `c`.
pub open spec fn rgb_values(c: RGBA) -> Seq<i64> {
    seq![c.channels()[0].value(), c.channels()[1].value(), c.channels()[2].value()]
}

/// The alpha channel of `c`.
pub open spec fn alpha_value(c: RGBA) -> i64 {
    c.channels()[3].value()
}

/// The objects that a gradient from `first` to `last` adds, numbered from `base + 1` on, for
/// a shading of type `t` with the coordinates `coords` over a box of `width` by `height`: the
/// colour function and shading; when either colour is not opaque, the alpha function and
/// shading, the mask form, the soft mask and its graphics state; then the pattern.
pub open spec fn gradient_objects(
    objs: Seq<PdfObject>,
    base: u64,
    first: RGBA,
    last: RGBA,
    t: u8,
    coords: Seq<i64>,
    width: i64,
    height: i64,
) -> bool {
    let transparent = alpha_value(first) < CHANNEL_MAX || alpha_value(last) < CHANNEL_MAX;
    &&& objs.len() == if transparent {
        8int
    } else {
        3int
    }
    &&& is_interpolation_function(objs[0], (base + 1) as u64, rgb_values(first), rgb_values(last))
    &&& is_gradient_shading(objs[1], (base + 2) as u64, t, "DeviceRGB"@, coords, (base + 1) as u64)
    &&& transparent ==> {
        &&& is_interpolation_function(
            objs[2],
            (base + 3) as u64,
            seq![alpha_value(first), alpha_value(last)],
            seq![alpha_value(last)],
        )
        &&& is_gradient_shading(objs[3], (base + 4) as u64, t, "DeviceGray"@, coords, (base + 3) as u64)
        &&& is_mask_form(objs[4], (base + 5) as u64, (base + 4) as u64, width, height)
        &&& is_luminosity_mask(objs[5], (base + 6) as u64, (base + 5) as u64)
        &&& is_mask_state(objs[6], (base + 7) as u64, (base + 6) as u64)
        &&& is_shading_pattern(objs[7], (base + 8) as u64, (base + 2) as u64)
    }
    &&& !transparent ==> is_shading_pattern(objs[2], (base + 3) as u64, (base + 2) as u64)
}

/// An entry of a dictionary.
fn entry(key: &str, value: PdfObject) -> (e: (PdfNameObject, PdfObject))
    ensures
        e.0.value@ == key@,
        e.1 == value,
{
    (PdfNameObject::new(key), value)
}

/// A direct dictionary of the entries `values`.
fn dict_of(values: Vec<(PdfNameObject, PdfObject)>) -> (d: PdfDictionaryObject)
    ensures
        d.values == values,
        d.object_number is None,
        d.generation_number is None,
{
    PdfDictionaryObject { values, object_number: None, generation_number: None, children: Vec::new() }
}

/// The direct array of the real numbers `v`.
fn to_array(v: Vec<i64>) -> (o: PdfObject)
    ensures
        is_real_array(o, v@),
{
    PdfObject::Array(PdfArrayObject::from_vec_f64(v))
}

/// The name object `value`.
fn name(value: &str) -> (o: PdfObject)
    ensures
        is_name(o, value@),
{
    PdfObject::name_obj(value)
}

/// A reference to the object numbered `n`.
fn reference(n: u64) -> (o: PdfObject)
    ensures
        o == reference_object(n),
{
    crate::objects::pdf_object::PdfObj::make_reference_obj(n)
}

/// Gives `object` the next object number, adds it to `objects` and returns the number.
fn add_object(object_ops: &mut ObjectOps, objects: &mut Vec<PdfObject>, object: PdfObject) -> (n: u64)
    requires
        old(object_ops).last() < u64::MAX,
    ensures
        n == old(object_ops).last() + 1,
        final(object_ops).last() == n,
        final(object_ops).spec_version() == old(object_ops).spec_version(),
        final(objects)@ == old(objects)@.push(object.with_number_spec(n)),
{
    let n = object_ops.next_object_number().value();
    objects.push(object.with_object_number(n));
    n
}

/// An exponential interpolation function (type 2) from `c0` to `c1`, with the exponent 0.
fn create_interpolation_function_type_2(c0: Vec<i64>, c1: Vec<i64>, exponent: i64) -> (d: PdfDictionaryObject)
    ensures
        d.object_number is None,
        keys_of(d.values@) == seq!["FunctionType"@, "Domain"@, "C0"@, "C1"@, "N"@],
        d.values@[0].1 == int_object(2),
        is_real_array(d.values@[1].1, seq![0, 10000]),
        is_real_array(d.values@[2].1, c0@),
        is_real_array(d.values@[3].1, c1@),
        d.values@[4].1 == real_object(exponent),
{
    let mut domain: Vec<i64> = Vec::new();
    domain.push(0);
    domain.push(10000);
    assert(domain@ =~= seq![0i64, 10000]);
    let mut values: Vec<(PdfNameObject, PdfObject)> = Vec::new();
    values.push(entry("FunctionType", PdfObject::from(2i64)));
    values.push(entry("Domain", to_array(domain)));
    values.push(entry("C0", to_array(c0)));
    values.push(entry("C1", to_array(c1)));
    values.push(entry("N", PdfObject::Number(PdfNumberObject { value: NumberType::Real(exponent) })));
    let d = dict_of(values);
    assert(keys_of(d.values@) =~= seq!["FunctionType"@, "Domain"@, "C0"@, "C1"@, "N"@]);
    d
}

/// A shading of type `shading_type` in `color_space` with `coords`, the function numbered
/// `function` and `Extend [true true]`.
fn gradient_shading(shading_type: u8, color_space: &str, coords: Vec<i64>, function: u64) -> (d: PdfDictionaryObject)
    ensures
        dict_with_keys(
            PdfObject::Dictionary(d),
            None,
            seq!["ShadingType"@, "ColorSpace"@, "Coords"@, "Function"@, "Extend"@],
        ),
        d.values@[0].1 == int_object(shading_type as i64),
        is_name(d.values@[1].1, color_space@),
        is_real_array(d.values@[2].1, coords@),
        d.values@[3].1 == reference_object(function),
        is_extend_both(d.values@[4].1),
{
    let mut extend = PdfArrayObject::new();
    extend.push(PdfObject::Boolean(PdfBooleanObject::new(true)));
    extend.push(PdfObject::Boolean(PdfBooleanObject::new(true)));
    let mut values: Vec<(PdfNameObject, PdfObject)> = Vec::new();
    values.push(entry("ShadingType", PdfObject::from(shading_type as i64)));
    values.push(entry("ColorSpace", name(color_space)));
    values.push(entry("Coords", to_array(coords)));
    values.push(entry("Function", reference(function)));
    values.push(entry("Extend", PdfObject::Array(extend)));
    let d = dict_of(values);
    assert(keys_of(d.values@) =~= seq!["ShadingType"@, "ColorSpace"@, "Coords"@, "Function"@, "Extend"@]);
    assert(extend.values@ =~= seq![
        PdfObject::Boolean(PdfBooleanObject { value: true }),
        PdfObject::Boolean(PdfBooleanObject { value: true }),
    ]);
    d
}

/// The soft mask of a transparent gradient: the form painting the alpha shading numbered
/// `alpha_shading_num` over a box of `width` by `height`, the mask made from it, and the
/// graphics state that selects the mask, numbered in that order.
fn create_soft_mask_for_shading(
    object_ops: &mut ObjectOps,
    objects: &mut Vec<PdfObject>,
    alpha_shading_num: u64,
    width: i64,
    height: i64,
)
    requires
        old(object_ops).last() <= u64::MAX - 3,
    ensures
        final(object_ops).last() == old(object_ops).last() + 3,
        final(object_ops).spec_version() == old(object_ops).spec_version(),
        final(objects)@.len() == old(objects)@.len() + 3,
        final(objects)@.subrange(0, old(objects)@.len() as int) == old(objects)@,
        is_mask_form(
            final(objects)@[old(objects)@.len() as int],
            (old(object_ops).last() + 1) as u64,
            alpha_shading_num,
            width,
            height,
        ),
        is_luminosity_mask(
            final(objects)@[old(objects)@.len() as int + 1],
            (old(object_ops).last() + 2) as u64,
            (old(object_ops).last() + 1) as u64,
        ),
        is_mask_state(
            final(objects)@[old(objects)@.len() as int + 2],
            (old(object_ops).last() + 3) as u64,
            (old(object_ops).last() + 2) as u64,
        ),
{
    let ghost objects0 = objects@;
    let mut bbox: Vec<i64> = Vec::new();
    bbox.push(0);
    bbox.push(0);
    bbox.push(width);
    bbox.push(height);
    assert(bbox@ =~= seq![0i64, 0, width, height]);
    let mut group: Vec<(PdfNameObject, PdfObject)> = Vec::new();
    group.push(entry("Type", name("Group")));
    group.push(entry("S", name("Transparency")));
    group.push(entry("CS", name("DeviceGray")));
    let group_dict = dict_of(group);
    assert(keys_of(group_dict.values@) =~= seq!["Type"@, "S"@, "CS"@]);
    let mut shading_res: Vec<(PdfNameObject, PdfObject)> = Vec::new();
    shading_res.push(entry("Sh0", reference(alpha_shading_num)));
    let shading_res = dict_of(shading_res);
    assert(keys_of(shading_res.values@) =~= seq!["Sh0"@]);
    let mut resources: Vec<(PdfNameObject, PdfObject)> = Vec::new();
    resources.push(entry("Shading", PdfObject::Dictionary(shading_res)));
    let resources = dict_of(resources);
    assert(keys_of(resources.values@) =~= seq!["Shading"@]);
    let mut xobj: Vec<(PdfNameObject, PdfObject)> = Vec::new();
    xobj.push(entry("Type", name("XObject")));
    xobj.push(entry("Subtype", name("Form")));
    xobj.push(entry("FormType", PdfObject::from(1i64)));
    xobj.push(entry("BBox", to_array(bbox)));
    xobj.push(entry("Group", PdfObject::Dictionary(group_dict)));
    xobj.push(entry("Resources", PdfObject::Dictionary(resources)));
    let xobj = dict_of(xobj);
    assert(keys_of(xobj.values@) =~= seq!["Type"@, "Subtype"@, "FormType"@, "BBox"@, "Group"@, "Resources"@]);
    let mut form_stream = PdfStreamObject {
        dict: xobj,
        content: Vec::new(),
        object_number: None,
        generation_number: None,
        compression_method: CompressionMethod::Flate,
    };
    {
        let mut cmd = crate::drawing_commands::DrawingCommands::new(&mut form_stream);
        cmd.paint_shading("Sh0");
    }
    proof {
        reveal_strlit("Sh0");
        reveal_strlit(" sh");
        vstd::utf8::is_ascii_chars_encode_utf8("Sh0"@);
        vstd::utf8::is_ascii_chars_encode_utf8(" sh"@);
        assert(form_stream.content@ =~= seq!['/' as u8, 'S' as u8, 'h' as u8, '0' as u8, ' ' as u8, 's' as u8, 'h' as u8]);
    }
    let form_number = add_object(object_ops, objects, PdfObject::Stream(form_stream));
    let mut smask: Vec<(PdfNameObject, PdfObject)> = Vec::new();
    smask.push(entry("Type", name("Mask")));
    smask.push(entry("S", name("Luminosity")));
    smask.push(entry("G", reference(form_number)));
    let smask = dict_of(smask);
    assert(keys_of(smask.values@) =~= seq!["Type"@, "S"@, "G"@]);
    let smask_number = add_object(object_ops, objects, PdfObject::Dictionary(smask));
    let mut gs: Vec<(PdfNameObject, PdfObject)> = Vec::new();
    gs.push(entry("Type", name("ExtGState")));
    gs.push(entry("SMask", reference(smask_number)));
    let gs = dict_of(gs);
    assert(keys_of(gs.values@) =~= seq!["Type"@, "SMask"@]);
    add_object(object_ops, objects, PdfObject::Dictionary(gs));
    assert(objects@.subrange(0, objects0.len() as int) =~= objects0);
}

/// The coordinates [`linear_coords`].
fn linear_params(posn: Posn, size: Dims, stroke_width: i64, cos: i64, sin: i64) -> (v: Vec<i64>)
    requires
        in_drawing_range(posn.x),
        in_drawing_range(posn.y),
        in_drawing_range(size.width),
        in_drawing_range(size.height),
        in_drawing_range(stroke_width),
        -10000 <= cos <= 10000,
        -10000 <= sin <= 10000,
    ensures
        v@ == to_i64s(linear_coords(posn, size, stroke_width, cos as int, sin as int)),
{
    let x = posn.x as i128;
    let y = posn.y as i128;
    let width = size.width as i128;
    let height = size.height as i128;
    let cx = x + tdiv(width, 2);
    let cy = y + tdiv(height, 2);
    let c = cos as i128;
    let s = sin as i128;
    let ac: i128 = if c < 0 { -c } else { c };
    let as_: i128 = if s < 0 { -s } else { s };
    assert(width * ac <= 1_000_000_000_000_000 * 10000 && width * ac >= -1_000_000_000_000_000 * 10000)
        by (nonlinear_arith)
        requires
            -1_000_000_000_000_000 <= width <= 1_000_000_000_000_000,
            0 <= ac <= 10000,
    ;
    assert(height * as_ <= 1_000_000_000_000_000 * 10000 && height * as_ >= -1_000_000_000_000_000 * 10000)
        by (nonlinear_arith)
        requires
            -1_000_000_000_000_000 <= height <= 1_000_000_000_000_000,
            0 <= as_ <= 10000,
    ;
    let wc = tdiv(width * ac, 10000);
    let hs = tdiv(height * as_, 10000);
    let half_len = tdiv(wc + hs, 2) + stroke_width as i128;
    assert(-3_000_000_000_000_000 <= half_len <= 3_000_000_000_000_000);
    assert(c * half_len <= 10000 * 3_000_000_000_000_000 && c * half_len >= -10000 * 3_000_000_000_000_000)
        by (nonlinear_arith)
        requires
            -3_000_000_000_000_000 <= half_len <= 3_000_000_000_000_000,
            -10000 <= c <= 10000,
    ;
    assert(s * half_len <= 10000 * 3_000_000_000_000_000 && s * half_len >= -10000 * 3_000_000_000_000_000)
        by (nonlinear_arith)
        requires
            -3_000_000_000_000_000 <= half_len <= 3_000_000_000_000_000,
            -10000 <= s <= 10000,
    ;
    let dx = tdiv(c * half_len, 10000);
    let dy = tdiv(s * half_len, 10000);
    let mut v: Vec<i64> = Vec::new();
    v.push((cx - dx) as i64);
    v.push((cy + dy) as i64);
    v.push((cx + dx) as i64);
    v.push((cy - dy) as i64);
    assert(v@ =~= to_i64s(linear_coords(posn, size, stroke_width, cos as int, sin as int)));
    v
}

/// The coordinates [`radial_coords`].
fn radial_params(posn: Posn, size: Dims) -> (v: Vec<i64>)
    requires
        in_drawing_range(posn.x),
        in_drawing_range(posn.y),
        in_drawing_range(size.width),
        in_drawing_range(size.height),
    ensures
        v@ == to_i64s(radial_coords(posn, size)),
{
    let x = posn.x as i128;
    let y = posn.y as i128;
    let width = size.width as i128;
    let height = size.height as i128;
    let cx = x + tdiv(width, 2);
    let cy = y + tdiv(height, 2);
    let m = if width < height {
        width
    } else {
        height
    };
    let r = tdiv(m * 3, 2);
    let mut v: Vec<i64> = Vec::new();
    v.push(cx as i64);
    v.push(cy as i64);
    v.push(0);
    v.push(cx as i64);
    v.push(cy as i64);
    v.push(r as i64);
    assert(v@ =~= to_i64s(radial_coords(posn, size)));
    v
}

impl Gradient {
    pub fn new(kind: GradientKind) -> (g: Self)
        ensures
            g.stops@.len() == 0,
            g.kind == kind,
    {
        Gradient { stops: Vec::new(), kind }
    }

    /// Appends a stop.
    pub fn add_stop(&mut self, offset: i64, rgba: RGBA)
        ensures
            final(self).stops@ == old(self).stops@.push(ColorStop { offset, rgba }),
            final(self).kind == old(self).kind,
    {
        self.stops.push(ColorStop::new(offset, rgba));
    }

    /// The shading type and coordinates for the box at `posn` of size `size`: type 2 with
    /// [`linear_coords`] for a linear gradient, whose direction is (`cos`, `sin`), the cosine
    /// and sine of 90 degrees less its angle; type 3 with [`radial_coords`] for a radial one.
    pub fn get_shading_params(&self, posn: Posn, size: Dims, stroke_width: i64, cos: i64, sin: i64) -> (r: (
        u8,
        Vec<i64>,
    ))
        requires
            in_drawing_range(posn.x),
            in_drawing_range(posn.y),
            in_drawing_range(size.width),
            in_drawing_range(size.height),
            in_drawing_range(stroke_width),
            -10000 <= cos <= 10000,
            -10000 <= sin <= 10000,
        ensures
            r.0 == shading_params(self.kind, posn, size, stroke_width, cos, sin).0,
            r.1@ == shading_params(self.kind, posn, size, stroke_width, cos, sin).1,
    {
        match self.kind {
            GradientKind::Linear { .. } => (2, linear_params(posn, size, stroke_width, cos, sin)),
            GradientKind::Radial => (3, radial_params(posn, size)),
        }
    }

    /// Makes the shading pattern of the gradient, with the objects it needs (see
    /// [`gradient_objects`]), numbered from the next object number on and added to `objects`.
    /// The pattern is named `P` followed by the counter, and, when the first or last stop is
    /// not opaque, the graphics state of its soft mask `GS` followed by the counter after it;
    /// the counter grows by one for each name. A gradient with fewer than two stops makes
    /// nothing.
    pub fn create_pattern(
        &self,
        object_ops: &mut ObjectOps,
        objects: &mut Vec<PdfObject>,
        resource_counter: &mut u32,
        posn: Posn,
        size: Dims,
        stroke_width: i64,
        cos: i64,
        sin: i64,
    ) -> (r: Option<(String, Option<String>)>)
        requires
            *old(resource_counter) <= u32::MAX - 2,
            old(object_ops).last() <= u64::MAX - 8,
            in_drawing_range(posn.x),
            in_drawing_range(posn.y),
            in_drawing_range(size.width),
            in_drawing_range(size.height),
            in_drawing_range(stroke_width),
            -10000 <= cos <= 10000,
            -10000 <= sin <= 10000,
        ensures
            self.stops@.len() < 2 ==> {
                &&& r is None
                &&& *final(object_ops) == *old(object_ops)
                &&& final(objects)@ == old(objects)@
                &&& *final(resource_counter) == *old(resource_counter)
            },
            self.stops@.len() >= 2 ==> {
                let first = self.stops@[0].rgba;
                let last = self.stops@.last().rgba;
                let transparent = alpha_value(first) < CHANNEL_MAX || alpha_value(last) < CHANNEL_MAX;
                let params = shading_params(self.kind, posn, size, stroke_width, cos, sin);
                let added = final(objects)@.subrange(old(objects)@.len() as int, final(objects)@.len() as int);
                &&& r matches Some((p, g)) && p@ == "P"@ + ascii_chars(dec_digits(*old(resource_counter) as nat))
                    && (transparent ==> (g matches Some(n) && n@ == gs_name(*old(resource_counter) as nat + 1)))
                    && (!transparent ==> g is None)
                &&& *final(resource_counter) == *old(resource_counter) + if transparent {
                    2int
                } else {
                    1int
                }
                &&& final(objects)@.subrange(0, old(objects)@.len() as int) == old(objects)@
                &&& final(object_ops).last() == old(object_ops).last() + added.len()
                &&& final(object_ops).spec_version() == old(object_ops).spec_version()
                &&& gradient_objects(
                    added,
                    old(object_ops).last(),
                    first,
                    last,
                    params.0,
                    params.1,
                    size.width,
                    size.height,
                )
            },
    {
        if self.stops.len() < 2 {
            return None;
        }
        let ghost objects0 = objects@;
        let ghost base = object_ops.last();
        let (shading_type, coords) = self.get_shading_params(posn, size, stroke_width, cos, sin);
        let mut pattern_name = String::new();
        crate::encoding::string_push_str(&mut pattern_name, "P");
        crate::encoding::string_push_decimal(&mut pattern_name, *resource_counter as u64);
        *resource_counter = *resource_counter + 1;
        let first = self.stops[0].rgba;
        let last = self.stops[self.stops.len() - 1].rgba;
        let fc = first.as_vec();
        let lc = last.as_vec();
        let mut c0: Vec<i64> = Vec::new();
        c0.push(fc[0].to_fixed());
        c0.push(fc[1].to_fixed());
        c0.push(fc[2].to_fixed());
        let mut c1: Vec<i64> = Vec::new();
        c1.push(lc[0].to_fixed());
        c1.push(lc[1].to_fixed());
        c1.push(lc[2].to_fixed());
        assert(c0@ =~= rgb_values(first));
        assert(c1@ =~= rgb_values(last));
        let color_func = create_interpolation_function_type_2(c0, c1, 0);
        let color_func_num = add_object(object_ops, objects, PdfObject::Dictionary(color_func));
        let shading_dict = gradient_shading(shading_type, "DeviceRGB", coords.clone(), color_func_num);
        let shading_num = add_object(object_ops, objects, PdfObject::Dictionary(shading_dict));
        let ghost objects2 = objects@;
        assert(objects2.len() == objects0.len() + 2);
        assert(objects2[objects0.len() as int] == PdfObject::Dictionary(color_func).with_number_spec(color_func_num));
        assert(objects2[objects0.len() as int + 1] == PdfObject::Dictionary(shading_dict).with_number_spec(shading_num));
        assert(objects2.subrange(0, objects0.len() as int) =~= objects0);
        let has_transparency = fc[3].to_fixed() < CHANNEL_MAX || lc[3].to_fixed() < CHANNEL_MAX;
        let gs_name = if has_transparency {
            let n = crate::graphics_ops::make_gs_name(*resource_counter as u64);
            *resource_counter = *resource_counter + 1;
            let mut a0: Vec<i64> = Vec::new();
            a0.push(fc[3].to_fixed());
            a0.push(lc[3].to_fixed());
            let mut a1: Vec<i64> = Vec::new();
            a1.push(lc[3].to_fixed());
            assert(a0@ =~= seq![alpha_value(first), alpha_value(last)]);
            assert(a1@ =~= seq![alpha_value(last)]);
            let alpha_func = create_interpolation_function_type_2(a0, a1, 0);
            let alpha_func_num = add_object(object_ops, objects, PdfObject::Dictionary(alpha_func));
            let alpha_shading = gradient_shading(shading_type, "DeviceGray", coords, alpha_func_num);
            let alpha_shading_num = add_object(object_ops, objects, PdfObject::Dictionary(alpha_shading));
            let ghost objects4 = objects@;
            create_soft_mask_for_shading(object_ops, objects, alpha_shading_num, size.width, size.height);
            proof {
                let o = objects@;
                assert(o.len() == objects0.len() + 7);
                assert forall|i: int| 0 <= i < objects4.len() implies o[i] == objects4[i] by {
                    assert(o.subrange(0, objects4.len() as int)[i] == o[i]);
                }
                assert(objects4[objects0.len() as int + 2] == PdfObject::Dictionary(alpha_func).with_number_spec(
                    alpha_func_num,
                ));
                assert(objects4[objects0.len() as int + 3] == PdfObject::Dictionary(alpha_shading).with_number_spec(
                    alpha_shading_num,
                ));
                assert forall|i: int| 0 <= i < objects2.len() implies objects4[i] == objects2[i] by {}
            }
            Some(n)
        } else {
            None
        };
        let ghost objects_before_pattern = objects@;
        let mut pattern: Vec<(PdfNameObject, PdfObject)> = Vec::new();
        pattern.push(entry("Type", name("Pattern")));
        pattern.push(entry("PatternType", PdfObject::from(2i64)));
        pattern.push(entry("Shading", reference(shading_num)));
        let pattern_dict = dict_of(pattern);
        assert(keys_of(pattern_dict.values@) =~= seq!["Type"@, "PatternType"@, "Shading"@]);
        add_object(object_ops, objects, PdfObject::Dictionary(pattern_dict));
        proof {
            let added = objects@.subrange(objects0.len() as int, objects@.len() as int);
            assert forall|i: int| 0 <= i < objects2.len() implies objects@[i] == objects2[i] by {
                assert(objects@[i] == objects_before_pattern[i]);
            }
            assert(objects@.subrange(0, objects0.len() as int) =~= objects0);
            assert(forall|i: int| 0 <= i < added.len() ==> #[trigger] added[i] == objects@[objects0.len() + i]);
            assert(added[0] == objects2[objects0.len() as int]);
            assert(added[1] == objects2[objects0.len() as int + 1]);
        }
        Some((pattern_name, gs_name))
    }

}

} // verus!
