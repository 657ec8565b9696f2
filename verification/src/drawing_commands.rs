//! Content stream operators: paths, colours, text, images and graphics state, appended to a
//! stream's content as text.
//!
//! Every operator is written as its operands, each followed by a space, then the operator
//! itself; operators are written one after another without separator. Coordinates and other
//! real numbers are held as ten-thousandths and written with at most four decimals.
use vstd::prelude::*;
use crate::color::{CMYK, Color, ColorSpace, RGB, color_space_name};
use crate::encoding::{ascii85, ascii_chars, dec_digits, int_text, real_text};
use crate::objects::stream::{CompressionMethod, PdfStreamObject, zlib_compressed};
use crate::util::{Dims, Matrix, Posn, StrokeOrFill, WindingRule};

verus! {

/// Appends drawing operators to the content of a stream.
pub struct DrawingCommands<'a> {
    pub stream: &'a mut PdfStreamObject,
}

/// `after` is `before` with `bytes` appended to its content, and nothing else changed.
pub open spec fn stream_grew(before: PdfStreamObject, after: PdfStreamObject, bytes: Seq<u8>) -> bool {
    &&& after.content@ == before.content@ + bytes
    &&& after.dict == before.dict
    &&& after.object_number == before.object_number
    &&& after.generation_number == before.generation_number
    &&& after.compression_method == before.compression_method
}

/// Operators are written one after another: what two operators append in turn is the first's
/// text followed by the second's, and nothing written before them changes.
pub proof fn law_operators_accumulate(
    a: PdfStreamObject,
    b: PdfStreamObject,
    c: PdfStreamObject,
    first: Seq<u8>,
    second: Seq<u8>,
)
    requires
        stream_grew(a, b, first),
        stream_grew(b, c, second),
    ensures
        stream_grew(a, c, first + second),
        c.content@.subrange(0, a.content@.len() as int) == a.content@,
{
    assert(c.content@ =~= a.content@ + (first + second));
    assert(c.content@.subrange(0, a.content@.len() as int) =~= a.content@);
}

/// The UTF-8 bytes of `s`.
pub open spec fn utf8(s: Seq<char>) -> Seq<u8> {
    vstd::utf8::encode_utf8(s)
}

pub open spec fn sp() -> Seq<u8> {
    seq![' ' as u8]
}

/// The two coordinates of a point.
pub open spec fn posn_text(p: Posn) -> Seq<u8> {
    real_text(p.x as int) + sp() + real_text(p.y as int)
}

/// The width and the height.
pub open spec fn dims_text(d: Dims) -> Seq<u8> {
    real_text(d.width as int) + sp() + real_text(d.height as int)
}

/// The six numbers of a matrix.
pub open spec fn matrix_text(m: Matrix) -> Seq<u8> {
    real_text(m.a as int) + sp() + real_text(m.b as int) + sp() + real_text(m.c as int) + sp() + real_text(
        m.d as int,
    ) + sp() + real_text(m.e as int) + sp() + real_text(m.f as int)
}

/// The channels of a colour, separated by spaces.
pub open spec fn channels_text(c: Seq<Color>) -> Seq<u8>
    decreases c.len(),
{
    if c.len() == 0 {
        Seq::empty()
    } else if c.len() == 1 {
        real_text(c[0].value() as int)
    } else {
        channels_text(c.drop_last()) + sp() + real_text(c.last().value() as int)
    }
}

/// Real numbers separated by spaces.
pub open spec fn reals_text(v: Seq<i64>) -> Seq<u8>
    decreases v.len(),
{
    if v.len() == 0 {
        Seq::empty()
    } else if v.len() == 1 {
        real_text(v[0] as int)
    } else {
        reals_text(v.drop_last()) + sp() + real_text(v.last() as int)
    }
}

/// The operator `op` after the operand text `operands` and a space.
pub open spec fn with_operator(operands: Seq<u8>, op: Seq<char>) -> Seq<u8> {
    operands + sp() + utf8(op)
}

/// The operator letter `c` followed by `*` for the even-odd rule or a space otherwise.
pub open spec fn windable_text(c: char, rule: WindingRule) -> Seq<u8> {
    seq![c as u8, if rule == WindingRule::EvenOdd { '*' as u8 } else { ' ' as u8 }]
}

/// The operator for stroking or for filling.
pub open spec fn stroke_op(s: StrokeOrFill, stroke: Seq<char>, fill: Seq<char>) -> Seq<char> {
    match s {
        StrokeOrFill::Stroke => stroke,
        StrokeOrFill::Fill => fill,
    }
}

/// The name of an inline image's compression.
pub open spec fn compression_name(m: CompressionMethod) -> Seq<char> {
    match m {
        CompressionMethod::Flate => "FlateDecode"@,
        CompressionMethod::Uncompressed => "None"@,
    }
}

/// The operators of an inline image: `BI` with its width, height, bits per component, colour
/// space, compression and the length of its data, `ID` and a line feed, the data in ASCII85
/// ended by `~>`, then a line feed, `EI` and a line feed.
pub open spec fn inline_image_text(
    w: u32,
    h: u32,
    cs: ColorSpace,
    bpc: u8,
    method: CompressionMethod,
    data: Seq<u8>,
) -> Seq<u8> {
    let encoded = ascii85(data) + seq!['~' as u8, '>' as u8];
    utf8("BI /W "@) + dec_digits(w as nat) + utf8(" /H "@) + dec_digits(h as nat) + utf8(" /BPC "@) + dec_digits(
        bpc as nat,
    ) + utf8(" /CS /Device"@) + utf8(color_space_name(cs)) + utf8(" /F "@) + utf8(compression_name(method))
        + utf8(" /L "@) + dec_digits(encoded.len()) + utf8(" ID\n"@) + encoded + utf8("\nEI\n"@)
}

/// The number of ten-thousandths in `radius * KAPPA`, to the nearest, where KAPPA is
/// 0.55228474983 (the factor that makes a cubic Bézier curve follow a quarter circle).
#[verifier::opaque]
pub open spec fn kappa_of(radius: int) -> int {
    (radius * 55228474983 + 50000000000) / 100000000000
}

/// A coordinate, length or radius small enough for the sums of a rounded rectangle: at most
/// 10^15 ten-thousandths either way.
pub open spec fn in_drawing_range(v: i64) -> bool {
    -1_000_000_000_000_000 <= v <= 1_000_000_000_000_000
}

/// The curve of a corner of radius `r` (see `draw_corner`): control points
/// `(x + w - r + k, y + h)` and `(x + w, y + h - r + k)`, end `(x + w, y + h - r)`, where `k` is
/// `kappa_of(r)`; nothing when `r` is under one ten-thousandth.
#[verifier::opaque]
pub open spec fn corner_text(r: int, size: Dims, rel: Posn) -> Seq<u8> {
    if r < 1 {
        Seq::empty()
    } else {
        let k = kappa_of(r);
        let (x, y, w, h) = (rel.x as int, rel.y as int, size.width as int, size.height as int);
        with_operator(
            point_text(x + w - r + k, y + h) + sp() + point_text(x + w, y + h - r + k) + sp() + point_text(
                x + w,
                y + h - r,
            ),
            "c"@,
        )
    }
}

/// The two coordinates `x` and `y`.
pub open spec fn point_text(x: int, y: int) -> Seq<u8> {
    real_text(x) + sp() + real_text(y)
}

/// The operators of `rounded_rectangle`.
pub open spec fn rounded_rectangle_text(p: Posn, d: Dims, tl: int, tr: int, br: int, bl: int) -> Seq<u8> {
    let (x, y, w, h) = (p.x as int, p.y as int, d.width as int, d.height as int);
    with_operator(point_text(x + tl, y + h), "m"@) + corner_text(tl, d, Posn { x: d.width, y: d.height })
        + with_operator(point_text(x + w - tr, y + h), "l"@) + corner_text(tr, d, Posn { x: d.width, y: 0 })
        + with_operator(point_text(x + w, y + br), "l"@) + corner_text(br, d, Posn { x: 0, y: 0 })
        + with_operator(point_text(x + w, y), "l"@) + corner_text(bl, d, Posn { x: 0, y: d.height })
        + with_operator(point_text(x + bl, y), "l"@) + seq!['h' as u8]
}

/// `kappa_of(radius)` for a positive radius.
fn kappa(radius: i64) -> (k: i64)
    requires
        1 <= radius <= 1_000_000_000_000_000,
    ensures
        k == kappa_of(radius as int),
        0 <= k <= radius,
{
    proof {
        reveal(kappa_of);
    }
    let wide: i128 = (radius as i128) * 55228474983i128 + 50000000000i128;
    let q: i128 = wide / 100000000000i128;
    assert(q <= radius) by (nonlinear_arith)
        requires
            q == wide / 100000000000i128,
            wide == (radius as i128) * 55228474983i128 + 50000000000i128,
            radius >= 1,
    ;
    q as i64
}

impl<'a> DrawingCommands<'a> {
    pub fn new(stream: &'a mut PdfStreamObject) -> (d: DrawingCommands<'a>)
        ensures
            *d.stream == *old(stream),
            *final(stream) == *final(d.stream),
    {
        Self { stream }
    }

    fn add(&mut self, cmd: &[u8])
        ensures
            stream_grew(*old(self).stream, *final(self).stream, cmd@),
            *final(final(self).stream) == *final(old(self).stream),
    {
        self.stream.append(cmd);
    }

    fn add_windable_cmd(&mut self, cmd: char, even_odd: WindingRule)
        requires
            (cmd as u32) < 128,
        ensures
            stream_grew(*old(self).stream, *final(self).stream, windable_text(cmd, even_odd)),
            *final(final(self).stream) == *final(old(self).stream),
    {
        let mut op_bytes: Vec<u8> = Vec::new();
        op_bytes.push(cmd as u8);
        match even_odd {
            WindingRule::EvenOdd => op_bytes.push('*' as u8),
            WindingRule::NonZero => op_bytes.push(' ' as u8),
        }
        assert(op_bytes@ =~= windable_text(cmd, even_odd));
        self.add(op_bytes.as_slice());
    }

    fn add_cmd(&mut self, cmd: char)
        requires
            (cmd as u32) < 128,
        ensures
            stream_grew(*old(self).stream, *final(self).stream, seq![cmd as u8]),
            *final(final(self).stream) == *final(old(self).stream),
    {
        let mut op: Vec<u8> = Vec::new();
        op.push(cmd as u8);
        self.add(op.as_slice());
    }

    /// Appends `operands`, a space and `operator`.
    fn add_operator(&mut self, operands: Vec<u8>, operator: &str)
        ensures
            stream_grew(*old(self).stream, *final(self).stream, with_operator(operands@, operator@)),
            *final(final(self).stream) == *final(old(self).stream),
    {
        let ghost operand_text = operands@;
        let mut cmd = operands;
        cmd.push(' ' as u8);
        crate::encoding::push_str(&mut cmd, operator);
        assert(cmd@ =~= with_operator(operand_text, operator@));
        self.add(cmd.as_slice());
    }

    //-------------------------- Drawing Commands --------------------------
    /// `/tag BMC`, or `/tag`, the property list and `BDC`.
    pub fn begin_marked_content(&mut self, tag: &str, property_list: Option<Vec<u8>>)
        ensures
            stream_grew(
                *old(self).stream,
                *final(self).stream,
                match property_list {
                    None => seq!['/' as u8] + utf8(tag@) + utf8(" BMC"@),
                    Some(p) => seq!['/' as u8] + utf8(tag@) + sp() + p@ + utf8(" BDC"@),
                },
            ),
            *final(final(self).stream) == *final(old(self).stream),
    {
        let mut cmd: Vec<u8> = Vec::new();
        cmd.push('/' as u8);
        crate::encoding::push_str(&mut cmd, tag);
        match property_list {
            None => {
                crate::encoding::push_str(&mut cmd, " BMC");
                assert(cmd@ =~= seq!['/' as u8] + utf8(tag@) + utf8(" BMC"@));
            },
            Some(props) => {
                cmd.push(' ' as u8);
                crate::encoding::push_slice(&mut cmd, props.as_slice());
                crate::encoding::push_str(&mut cmd, " BDC");
                assert(cmd@ =~= seq!['/' as u8] + utf8(tag@) + sp() + props@ + utf8(" BDC"@));
            },
        }
        self.add(cmd.as_slice());
    }

    /// Clips with the current path (`W`).
    pub fn clip(&mut self, even_odd: WindingRule)
        ensures
            stream_grew(*old(self).stream, *final(self).stream, windable_text('W', even_odd)),
            *final(final(self).stream) == *final(old(self).stream),
    {
        self.add_windable_cmd('W', even_odd)
    }

    /// Closes the current subpath (`h`).
    pub fn close(&mut self)
        ensures
            stream_grew(*old(self).stream, *final(self).stream, seq!['h' as u8]),
            *final(final(self).stream) == *final(old(self).stream),
    {
        self.add_cmd('h')
    }

    /// Extends the path by a curve to `pos3` with control points `pos1` and `pos2` (`c`).
    pub fn curve_to(&mut self, pos1: Posn, pos2: Posn, pos3: Posn)
        ensures
            stream_grew(
                *old(self).stream,
                *final(self).stream,
                with_operator(posn_text(pos1) + sp() + posn_text(pos2) + sp() + posn_text(pos3), "c"@),
            ),
            *final(final(self).stream) == *final(old(self).stream),
    {
        let mut v: Vec<u8> = Vec::new();
        push_posn(&mut v, pos1);
        v.push(' ' as u8);
        push_posn(&mut v, pos2);
        v.push(' ' as u8);
        push_posn(&mut v, pos3);
        assert(v@ =~= posn_text(pos1) + sp() + posn_text(pos2) + sp() + posn_text(pos3));
        self.add_operator(v, "c")
    }

    /// Extends the path by a curve to `pos3`, the current point being the first control point
    /// (`v`).
    pub fn curve_start_to(&mut self, pos2: Posn, pos3: Posn)
        ensures
            stream_grew(
                *old(self).stream,
                *final(self).stream,
                with_operator(posn_text(pos2) + sp() + posn_text(pos3), "v"@),
            ),
            *final(final(self).stream) == *final(old(self).stream),
    {
        let mut v: Vec<u8> = Vec::new();
        push_posn(&mut v, pos2);
        v.push(' ' as u8);
        push_posn(&mut v, pos3);
        assert(v@ =~= posn_text(pos2) + sp() + posn_text(pos3));
        self.add_operator(v, "v")
    }

    /// Extends the path by a curve to `pos3`, `pos3` being the second control point (`y`).
    pub fn curve_end_to(&mut self, pos1: Posn, pos3: Posn)
        ensures
            stream_grew(
                *old(self).stream,
                *final(self).stream,
                with_operator(posn_text(pos1) + sp() + posn_text(pos3), "y"@),
            ),
            *final(final(self).stream) == *final(old(self).stream),
    {
        let mut v: Vec<u8> = Vec::new();
        push_posn(&mut v, pos1);
        v.push(' ' as u8);
        push_posn(&mut v, pos3);
        assert(v@ =~= posn_text(pos1) + sp() + posn_text(pos3));
        self.add_operator(v, "y")
    }

    /// Paints the external object named `reference` (`Do`).
    pub fn draw_x_object(&mut self, reference: &str)
        ensures
            stream_grew(*old(self).stream, *final(self).stream, seq!['/' as u8] + utf8(reference@) + utf8(" Do"@)),
            *final(final(self).stream) == *final(old(self).stream),
    {
        let mut cmd: Vec<u8> = Vec::new();
        cmd.push('/' as u8);
        crate::encoding::push_str(&mut cmd, reference);
        crate::encoding::push_str(&mut cmd, " Do");
        self.add(cmd.as_slice());
    }

    /// Ends the path without filling or stroking (`n`).
    pub fn end(&mut self)
        ensures
            stream_grew(*old(self).stream, *final(self).stream, seq!['n' as u8]),
            *final(final(self).stream) == *final(old(self).stream),
    {
        self.add_cmd('n')
    }

    /// `EMC`.
    pub fn end_marked_content(&mut self)
        ensures
            stream_grew(*old(self).stream, *final(self).stream, seq!['E' as u8, 'M' as u8, 'C' as u8]),
            *final(final(self).stream) == *final(old(self).stream),
    {
        let cmd: [u8; 3] = ['E' as u8, 'M' as u8, 'C' as u8];
        self.add(&cmd);
    }

    /// `BT`.
    pub fn begin_text(&mut self)
        ensures
            stream_grew(*old(self).stream, *final(self).stream, seq!['B' as u8, 'T' as u8]),
            *final(final(self).stream) == *final(old(self).stream),
    {
        let cmd: [u8; 2] = ['B' as u8, 'T' as u8];
        self.add(&cmd);
    }

    /// `ET`.
    pub fn end_text(&mut self)
        ensures
            stream_grew(*old(self).stream, *final(self).stream, seq!['E' as u8, 'T' as u8]),
            *final(final(self).stream) == *final(old(self).stream),
    {
        let cmd: [u8; 2] = ['E' as u8, 'T' as u8];
        self.add(&cmd);
    }

    /// Fills the path (`f`).
    pub fn fill(&mut self, even_odd: WindingRule)
        ensures
            stream_grew(*old(self).stream, *final(self).stream, windable_text('f', even_odd)),
            *final(final(self).stream) == *final(old(self).stream),
    {
        self.add_windable_cmd('f', even_odd);
    }

    /// Fills and strokes the path (`B`).
    pub fn fill_and_stroke(&mut self, even_odd: WindingRule)
        ensures
            stream_grew(*old(self).stream, *final(self).stream, windable_text('B', even_odd)),
            *final(final(self).stream) == *final(old(self).stream),
    {
        self.add_windable_cmd('B', even_odd);
    }

    /// Closes, fills and strokes the path (`b`).
    pub fn fill_stroke_and_close(&mut self, even_odd: WindingRule)
        ensures
            stream_grew(*old(self).stream, *final(self).stream, windable_text('b', even_odd)),
            *final(final(self).stream) == *final(old(self).stream),
    {
        self.add_windable_cmd('b', even_odd);
    }

    /// An inline image (see [`inline_image_text`]); the data is compressed first for Flate.
    /// Nothing is written when the compressor fails.
    pub fn inline_image(
        &mut self,
        width_pixels: u32,
        height_pixels: u32,
        color_space: ColorSpace,
        bits_per_component: u8,
        raw_pixel_data: &[u8],
        compression_method: CompressionMethod,
    )
        ensures
            *final(final(self).stream) == *final(old(self).stream),
            ({
                let data = match compression_method {
                    CompressionMethod::Flate => zlib_compressed(raw_pixel_data@),
                    CompressionMethod::Uncompressed => Some(raw_pixel_data@),
                };
                match data {
                    Some(d) => stream_grew(
                        *old(self).stream,
                        *final(self).stream,
                        inline_image_text(width_pixels, height_pixels, color_space, bits_per_component, compression_method, d),
                    ),
                    None => *final(self).stream == *old(self).stream,
                }
            }),
    {
        let data_to_encode: Vec<u8> = match compression_method {
            CompressionMethod::Flate => match crate::objects::stream::zlib_compress(raw_pixel_data) {
                Some(d) => d,
                None => {
                    return ;
                },
            },
            CompressionMethod::Uncompressed => {
                let mut d: Vec<u8> = Vec::new();
                crate::encoding::push_slice(&mut d, raw_pixel_data);
                d
            },
        };
        let mut encoded_data = crate::encoding::ascii85_encode(data_to_encode.as_slice());
        encoded_data.push('~' as u8);
        encoded_data.push('>' as u8);
        let mut head: Vec<u8> = Vec::new();
        crate::encoding::push_str(&mut head, "BI /W ");
        crate::encoding::push_decimal(&mut head, width_pixels as u64);
        crate::encoding::push_str(&mut head, " /H ");
        crate::encoding::push_decimal(&mut head, height_pixels as u64);
        crate::encoding::push_str(&mut head, " /BPC ");
        crate::encoding::push_decimal(&mut head, bits_per_component as u64);
        crate::encoding::push_str(&mut head, " /CS /Device");
        crate::encoding::push_str(&mut head, color_space.as_str());
        crate::encoding::push_str(&mut head, " /F ");
        let method_name: &str = match compression_method {
            CompressionMethod::Flate => "FlateDecode",
            CompressionMethod::Uncompressed => "None",
        };
        crate::encoding::push_str(&mut head, method_name);
        crate::encoding::push_str(&mut head, " /L ");
        crate::encoding::push_decimal(&mut head, encoded_data.len() as u64);
        crate::encoding::push_str(&mut head, " ID\n");
        let ghost s0 = self.stream.content@;
        self.add(head.as_slice());
        self.add(encoded_data.as_slice());
        let tail: [u8; 4] = ['\n' as u8, 'E' as u8, 'I' as u8, '\n' as u8];
        proof {
            reveal_strlit("\nEI\n");
            assert(utf8("\nEI\n"@) =~= tail@) by {
                vstd::utf8::is_ascii_chars_encode_utf8("\nEI\n"@);
            }
        }
        self.add(&tail);
        assert(self.stream.content@ =~= s0 + inline_image_text(
            width_pixels,
            height_pixels,
            color_space,
            bits_per_component,
            compression_method,
            data_to_encode@,
        ));
    }

    /// Extends the path by a line to `posn` (`l`).
    pub fn line_to_x_y(&mut self, posn: Posn)
        ensures
            stream_grew(*old(self).stream, *final(self).stream, with_operator(posn_text(posn), "l"@)),
            *final(final(self).stream) == *final(old(self).stream),
    {
        let mut v: Vec<u8> = Vec::new();
        push_posn(&mut v, posn);
        self.add_operator(v, "l")
    }

    /// Moves to the start of the next text line, offset by `posn` (`T*`).
    pub fn move_text_to_next_line_at(&mut self, posn: Posn)
        ensures
            stream_grew(*old(self).stream, *final(self).stream, with_operator(posn_text(posn), "T*"@)),
            *final(final(self).stream) == *final(old(self).stream),
    {
        let mut v: Vec<u8> = Vec::new();
        push_posn(&mut v, posn);
        self.add_operator(v, "T*")
    }

    /// Begins a new subpath at `posn` (`m`).
    pub fn move_to_x_y(&mut self, posn: Posn)
        ensures
            stream_grew(*old(self).stream, *final(self).stream, with_operator(posn_text(posn), "m"@)),
            *final(final(self).stream) == *final(old(self).stream),
    {
        let mut v: Vec<u8> = Vec::new();
        push_posn(&mut v, posn);
        self.add_operator(v, "m")
    }

    /// Paints the shading named `name` (`sh`).
    pub fn paint_shading(&mut self, name: &str)
        ensures
            stream_grew(*old(self).stream, *final(self).stream, seq!['/' as u8] + utf8(name@) + utf8(" sh"@)),
            *final(final(self).stream) == *final(old(self).stream),
    {
        let mut cmd: Vec<u8> = Vec::new();
        cmd.push('/' as u8);
        crate::encoding::push_str(&mut cmd, name);
        crate::encoding::push_str(&mut cmd, " sh");
        self.add(cmd.as_slice());
    }

    /// Restores the graphics state (`Q`).
    pub fn pop_state(&mut self)
        ensures
            stream_grew(*old(self).stream, *final(self).stream, seq!['Q' as u8]),
            *final(final(self).stream) == *final(old(self).stream),
    {
        self.add_cmd('Q')
    }

    /// Saves the graphics state (`q`).
    pub fn push_state(&mut self)
        ensures
            stream_grew(*old(self).stream, *final(self).stream, seq!['q' as u8]),
            *final(final(self).stream) == *final(old(self).stream),
    {
        self.add_cmd('q');
    }

    /// Appends a rectangle to the path (`re`).
    pub fn rectangle(&mut self, posn: Posn, size: Dims)
        ensures
            stream_grew(
                *old(self).stream,
                *final(self).stream,
                with_operator(posn_text(posn) + sp() + dims_text(size), "re"@),
            ),
            *final(final(self).stream) == *final(old(self).stream),
    {
        let mut v: Vec<u8> = Vec::new();
        push_posn(&mut v, posn);
        v.push(' ' as u8);
        crate::encoding::push_real(&mut v, size.width);
        v.push(' ' as u8);
        crate::encoding::push_real(&mut v, size.height);
        assert(v@ =~= posn_text(posn) + sp() + dims_text(size));
        self.add_operator(v, "re")
    }

    /// Sets an RGB colour (`RG` to stroke, `rg` to fill).
    pub fn set_color_rgb(&mut self, rgb: RGB, stroke: StrokeOrFill)
        ensures
            stream_grew(
                *old(self).stream,
                *final(self).stream,
                with_operator(channels_text(rgb.channels()), stroke_op(stroke, "RG"@, "rg"@)),
            ),
            *final(final(self).stream) == *final(old(self).stream),
    {
        let operator = match stroke {
            StrokeOrFill::Stroke => "RG",
            StrokeOrFill::Fill => "rg",
        };
        let v = channels_bytes(&rgb.as_vec());
        self.add_operator(v, operator);
    }

    /// Sets a CMYK colour (`K` to stroke, `k` to fill).
    pub fn set_color_cmyk(&mut self, cmyk: CMYK, stroke: StrokeOrFill)
        ensures
            stream_grew(
                *old(self).stream,
                *final(self).stream,
                with_operator(channels_text(cmyk.channels()), stroke_op(stroke, "K"@, "k"@)),
            ),
            *final(final(self).stream) == *final(old(self).stream),
    {
        let operator = match stroke {
            StrokeOrFill::Stroke => "K",
            StrokeOrFill::Fill => "k",
        };
        let v = channels_bytes(&cmyk.as_vec());
        self.add_operator(v, operator)
    }

    /// Sets a grey level (`G` to stroke, `g` to fill).
    pub fn set_color_grayscale(&mut self, grayscale: Color, stroke: StrokeOrFill)
        ensures
            stream_grew(
                *old(self).stream,
                *final(self).stream,
                with_operator(real_text(grayscale.value() as int), stroke_op(stroke, "G"@, "g"@)),
            ),
            *final(final(self).stream) == *final(old(self).stream),
    {
        let operator = match stroke {
            StrokeOrFill::Stroke => "G",
            StrokeOrFill::Fill => "g",
        };
        let mut v: Vec<u8> = Vec::new();
        crate::encoding::push_real(&mut v, grayscale.to_fixed());
        self.add_operator(v, operator)
    }

    /// Selects the colour space named `space`: `/ space CS` to stroke, `/ space cs` to fill.
    pub fn set_color_space(&mut self, space: &str, stroke: StrokeOrFill)
        ensures
            stream_grew(
                *old(self).stream,
                *final(self).stream,
                seq!['/' as u8, ' ' as u8] + utf8(space@) + sp() + utf8(stroke_op(stroke, "CS"@, "cs"@)),
            ),
            *final(final(self).stream) == *final(old(self).stream),
    {
        let operator = match stroke {
            StrokeOrFill::Stroke => "CS",
            StrokeOrFill::Fill => "cs",
        };
        let mut cmd: Vec<u8> = Vec::new();
        cmd.push('/' as u8);
        cmd.push(' ' as u8);
        crate::encoding::push_str(&mut cmd, space);
        cmd.push(' ' as u8);
        crate::encoding::push_str(&mut cmd, operator);
        assert(cmd@ =~= seq!['/' as u8, ' ' as u8] + utf8(space@) + sp() + utf8(stroke_op(stroke, "CS"@, "cs"@)));
        self.add(cmd.as_slice());
    }

    /// Sets a colour by its components and, for a pattern, its name: the numbers, then
    /// `/name`, then `SCN` to stroke or `scn` to fill, separated by spaces.
    pub fn set_color_special(&mut self, name: Option<&str>, stroke: StrokeOrFill, operands: &[i64])
        ensures
            stream_grew(
                *old(self).stream,
                *final(self).stream,
                special_text(operands@, name, stroke),
            ),
            *final(final(self).stream) == *final(old(self).stream),
    {
        let mut cmd = reals_bytes(operands);
        if let Some(n) = name {
            if operands.len() > 0 {
                cmd.push(' ' as u8);
            }
            cmd.push('/' as u8);
            crate::encoding::push_str(&mut cmd, n);
        }
        let ghost with_name = cmd@;
        if operands.len() > 0 || name.is_some() {
            cmd.push(' ' as u8);
        }
        let operator = match stroke {
            StrokeOrFill::Stroke => "SCN",
            StrokeOrFill::Fill => "scn",
        };
        crate::encoding::push_str(&mut cmd, operator);
        proof {
            let nums = reals_text(operands@);
            if operands@.len() == 0 {
                assert(nums =~= Seq::<u8>::empty()) by {
                    reveal_with_fuel(reals_text, 1);
                }
            }
            match name {
                Some(n) => {
                    if operands@.len() > 0 {
                        assert(with_name =~= nums + sp() + seq!['/' as u8] + utf8(n@));
                    } else {
                        assert(with_name =~= seq!['/' as u8] + utf8(n@));
                    }
                },
                None => {
                    assert(with_name =~= nums);
                },
            }
            assert(cmd@ =~= special_text(operands@, name, stroke));
        }
        self.add(cmd.as_slice());
    }

    /// Selects the font named `font` at `size` (`Tf`).
    pub fn set_font_name_and_size(&mut self, font: &str, size: i64)
        ensures
            stream_grew(
                *old(self).stream,
                *final(self).stream,
                seq!['/' as u8] + utf8(font@) + sp() + real_text(size as int) + utf8(" Tf"@),
            ),
            *final(final(self).stream) == *final(old(self).stream),
    {
        let mut cmd: Vec<u8> = Vec::new();
        cmd.push('/' as u8);
        crate::encoding::push_str(&mut cmd, font);
        cmd.push(' ' as u8);
        crate::encoding::push_real(&mut cmd, size);
        crate::encoding::push_str(&mut cmd, " Tf");
        assert(cmd@ =~= seq!['/' as u8] + utf8(font@) + sp() + real_text(size as int) + utf8(" Tf"@));
        self.add(cmd.as_slice());
    }

    /// Sets the text rendering mode (`Tr`).
    pub fn set_text_rendering_mode(&mut self, mode: i32)
        ensures
            stream_grew(*old(self).stream, *final(self).stream, with_operator(int_text(mode as int), "Tr"@)),
            *final(final(self).stream) == *final(old(self).stream),
    {
        self.add_int_cmd("Tr", mode);
    }

    /// Sets the text rise (`Ts`).
    pub fn set_text_rise(&mut self, height: i64)
        ensures
            stream_grew(*old(self).stream, *final(self).stream, with_operator(real_text(height as int), "Ts"@)),
            *final(final(self).stream) == *final(old(self).stream),
    {
        self.add_float_cmd("Ts", height)
    }

    /// Sets the text matrix (`Tm`).
    pub fn set_text_matrix(&mut self, matrix: Matrix)
        ensures
            stream_grew(*old(self).stream, *final(self).stream, with_operator(matrix_text(matrix), "Tm"@)),
            *final(final(self).stream) == *final(old(self).stream),
    {
        let v = matrix_bytes(matrix);
        self.add_operator(v, "Tm")
    }

    /// Sets the text position without scaling, rotation or skew: the text matrix
    /// `[1 0 0 1 x y]`.
    pub fn set_text_position(&mut self, posn: Posn)
        ensures
            stream_grew(
                *old(self).stream,
                *final(self).stream,
                with_operator(matrix_text(Matrix { a: 10000, b: 0, c: 0, d: 10000, e: posn.x, f: posn.y }), "Tm"@),
            ),
            *final(final(self).stream) == *final(old(self).stream),
    {
        self.set_text_matrix(Matrix { a: 10000, b: 0, c: 0, d: 10000, e: posn.x, f: posn.y })
    }

    /// Shows a text string (`Tj`), written as by `encode_pdf_string`.
    pub fn show_single_text_string(&mut self, text: &str)
        ensures
            stream_grew(
                *old(self).stream,
                *final(self).stream,
                utf8(crate::objects::string::pdf_string_text(text@)) + utf8(" Tj"@),
            ),
            *final(final(self).stream) == *final(old(self).stream),
    {
        let s = crate::objects::string::encode_pdf_string(text);
        let mut cmd: Vec<u8> = Vec::new();
        crate::encoding::push_str(&mut cmd, s.as_str());
        crate::encoding::push_str(&mut cmd, " Tj");
        self.add(cmd.as_slice());
    }

    /// Shows text strings with positioning: `[text] TJ`.
    pub fn show_text_strings(&mut self, text: &str)
        ensures
            stream_grew(*old(self).stream, *final(self).stream, seq!['[' as u8] + utf8(text@) + utf8("] TJ"@)),
            *final(final(self).stream) == *final(old(self).stream),
    {
        let mut cmd: Vec<u8> = Vec::new();
        cmd.push('[' as u8);
        crate::encoding::push_str(&mut cmd, text);
        crate::encoding::push_str(&mut cmd, "] TJ");
        self.add(cmd.as_slice());
    }

    /// Sets the dash pattern: `[lengths] phase d`.
    pub fn set_dash_line_pattern(&mut self, dash_array: &[i64], dash_phase: i32)
        ensures
            stream_grew(
                *old(self).stream,
                *final(self).stream,
                seq!['[' as u8] + reals_text(dash_array@) + seq![']' as u8, ' ' as u8] + int_text(dash_phase as int)
                    + utf8(" d"@),
            ),
            *final(final(self).stream) == *final(old(self).stream),
    {
        let mut cmd: Vec<u8> = Vec::new();
        cmd.push('[' as u8);
        let arr = reals_bytes(dash_array);
        crate::encoding::push_slice(&mut cmd, arr.as_slice());
        cmd.push(']' as u8);
        cmd.push(' ' as u8);
        crate::encoding::push_int(&mut cmd, dash_phase as i64);
        crate::encoding::push_str(&mut cmd, " d");
        assert(cmd@ =~= seq!['[' as u8] + reals_text(dash_array@) + seq![']' as u8, ' ' as u8] + int_text(
            dash_phase as int,
        ) + utf8(" d"@));
        self.add(cmd.as_slice());
    }

    /// Sets the line cap style (`J`).
    pub fn set_line_cap_style(&mut self, line_cap: i32)
        ensures
            stream_grew(*old(self).stream, *final(self).stream, with_operator(int_text(line_cap as int), "J"@)),
            *final(final(self).stream) == *final(old(self).stream),
    {
        self.add_int_cmd("J", line_cap)
    }

    /// Sets the line join style (`j`).
    pub fn set_line_join_style(&mut self, line_join: i32)
        ensures
            stream_grew(*old(self).stream, *final(self).stream, with_operator(int_text(line_join as int), "j"@)),
            *final(final(self).stream) == *final(old(self).stream),
    {
        self.add_int_cmd("j", line_join)
    }

    /// Sets the line width (`w`).
    pub fn set_line_width(&mut self, width: i64)
        ensures
            stream_grew(*old(self).stream, *final(self).stream, with_operator(real_text(width as int), "w"@)),
            *final(final(self).stream) == *final(old(self).stream),
    {
        self.add_float_cmd("w", width)
    }

    /// Concatenates `matrix` to the current transformation matrix (`cm`).
    pub fn set_transformation_matrix(&mut self, matrix: Matrix)
        ensures
            stream_grew(*old(self).stream, *final(self).stream, with_operator(matrix_text(matrix), "cm"@)),
            *final(final(self).stream) == *final(old(self).stream),
    {
        let v = matrix_bytes(matrix);
        self.add_operator(v, "cm")
    }

    /// Sets the miter limit (`M`).
    pub fn set_miter_limit(&mut self, miter_limit: i64)
        ensures
            stream_grew(*old(self).stream, *final(self).stream, with_operator(real_text(miter_limit as int), "M"@)),
            *final(final(self).stream) == *final(old(self).stream),
    {
        self.add_float_cmd("M", miter_limit);
    }

    /// Selects the graphics state named `state_name` (`gs`).
    pub fn set_state(&mut self, state_name: &str)
        ensures
            stream_grew(*old(self).stream, *final(self).stream, seq!['/' as u8] + utf8(state_name@) + utf8(" gs"@)),
            *final(final(self).stream) == *final(old(self).stream),
    {
        let mut cmd: Vec<u8> = Vec::new();
        cmd.push('/' as u8);
        crate::encoding::push_str(&mut cmd, state_name);
        crate::encoding::push_str(&mut cmd, " gs");
        self.add(cmd.as_slice());
    }

    /// Strokes the path (`S`).
    pub fn stroke_path(&mut self)
        ensures
            stream_grew(*old(self).stream, *final(self).stream, seq!['S' as u8]),
            *final(final(self).stream) == *final(old(self).stream),
    {
        self.add_cmd('S');
    }

    /// Closes and strokes the path (`s`).
    pub fn stroke_and_close_path(&mut self)
        ensures
            stream_grew(*old(self).stream, *final(self).stream, seq!['s' as u8]),
            *final(final(self).stream) == *final(old(self).stream),
    {
        self.add_cmd('s');
    }

    fn add_float_cmd(&mut self, string: &str, value: i64)
        ensures
            stream_grew(*old(self).stream, *final(self).stream, with_operator(real_text(value as int), string@)),
            *final(final(self).stream) == *final(old(self).stream),
    {
        let mut v: Vec<u8> = Vec::new();
        crate::encoding::push_real(&mut v, value);
        self.add_operator(v, string)
    }

    fn add_int_cmd(&mut self, string: &str, value: i32)
        ensures
            stream_grew(*old(self).stream, *final(self).stream, with_operator(int_text(value as int), string@)),
            *final(final(self).stream) == *final(old(self).stream),
    {
        let mut v: Vec<u8> = Vec::new();
        crate::encoding::push_int(&mut v, value as i64);
        self.add_operator(v, string)
    }

    /// The curve of a rounded corner of radius `radius`, placed by `rel_corner_pos` within a
    /// box of size `size`; nothing for a radius under one ten-thousandth.
    fn draw_corner(&mut self, radius: i64, size: Dims, rel_corner_pos: Posn)
        requires
            in_drawing_range(radius),
            in_drawing_range(size.width),
            in_drawing_range(size.height),
            in_drawing_range(rel_corner_pos.x),
            in_drawing_range(rel_corner_pos.y),
        ensures
            stream_grew(*old(self).stream, *final(self).stream, corner_text(radius as int, size, rel_corner_pos)),
            *final(final(self).stream) == *final(old(self).stream),
    {
        proof {
            reveal(corner_text);
        }
        if radius < 1 {
            let empty: [u8; 0] = [];
            self.add(&empty);
            assert(empty@ =~= Seq::<u8>::empty());
            return ;
        }
        let k = kappa(radius);
        let x = rel_corner_pos.x;
        let y = rel_corner_pos.y;
        let width = size.width;
        let height = size.height;
        self.curve_to(
            Posn { x: x + width - radius + k, y: y + height },
            Posn { x: x + width, y: y + height - radius + k },
            Posn { x: x + width, y: y + height - radius },
        )
    }

    /// A rectangle with rounded corners: a move to the start of the top edge, then for each
    /// corner its curve followed by a line, and a close.
    pub fn rounded_rectangle(
        &mut self,
        posn: Posn,
        dims: Dims,
        radius_top_left: i64,
        radius_top_right: i64,
        radius_bottom_right: i64,
        radius_bottom_left: i64,
    )
        requires
            in_drawing_range(posn.x),
            in_drawing_range(posn.y),
            in_drawing_range(dims.width),
            in_drawing_range(dims.height),
            in_drawing_range(radius_top_left),
            in_drawing_range(radius_top_right),
            in_drawing_range(radius_bottom_right),
            in_drawing_range(radius_bottom_left),
        ensures
            stream_grew(
                *old(self).stream,
                *final(self).stream,
                rounded_rectangle_text(
                    posn,
                    dims,
                    radius_top_left as int,
                    radius_top_right as int,
                    radius_bottom_right as int,
                    radius_bottom_left as int,
                ),
            ),
            *final(final(self).stream) == *final(old(self).stream),
    {
        let ghost s0 = self.stream.content@;
        let x = posn.x;
        let y = posn.y;
        let width = dims.width;
        let height = dims.height;
        self.move_to_x_y(Posn { x: x + radius_top_left, y: y + height });
        self.corner_then_line(
            radius_top_left,
            dims,
            Posn { x: width, y: height },
            Posn { x: x + width - radius_top_right, y: y + height },
        );
        self.corner_then_line(
            radius_top_right,
            dims,
            Posn { x: width, y: 0 },
            Posn { x: x + width, y: y + radius_bottom_right },
        );
        self.corner_then_line(radius_bottom_right, dims, Posn { x: 0, y: 0 }, Posn { x: x + width, y });
        self.corner_then_line(radius_bottom_left, dims, Posn { x: 0, y: height }, Posn { x: x + radius_bottom_left, y });
        self.close();
        assert(self.stream.content@ =~= s0 + rounded_rectangle_text(
            posn,
            dims,
            radius_top_left as int,
            radius_top_right as int,
            radius_bottom_right as int,
            radius_bottom_left as int,
        ));
    }

    /// The curve of a corner, then a line to `to`.
    fn corner_then_line(&mut self, radius: i64, size: Dims, rel_corner_pos: Posn, to: Posn)
        requires
            in_drawing_range(radius),
            in_drawing_range(size.width),
            in_drawing_range(size.height),
            in_drawing_range(rel_corner_pos.x),
            in_drawing_range(rel_corner_pos.y),
        ensures
            stream_grew(
                *old(self).stream,
                *final(self).stream,
                corner_text(radius as int, size, rel_corner_pos) + with_operator(posn_text(to), "l"@),
            ),
            *final(final(self).stream) == *final(old(self).stream),
    {
        let ghost s0 = self.stream.content@;
        self.draw_corner(radius, size, rel_corner_pos);
        self.line_to_x_y(to);
        assert(self.stream.content@ =~= s0 + (corner_text(radius as int, size, rel_corner_pos) + with_operator(
            posn_text(to),
            "l"@,
        )));
    }

    /// Sets the pattern `pattern_name` as colour, after selecting the graphics state
    /// `graphics_state_name` when there is one.
    pub fn apply_gradient_pattern(&mut self, pattern_name: &str, stroke: StrokeOrFill, graphics_state_name: Option<&str>)
        ensures
            stream_grew(
                *old(self).stream,
                *final(self).stream,
                match graphics_state_name {
                    Some(gs) => seq!['/' as u8] + utf8(gs@) + utf8(" gs"@),
                    None => Seq::empty(),
                } + seq!['/' as u8, ' ' as u8] + utf8("Pattern"@) + sp() + utf8(stroke_op(stroke, "CS"@, "cs"@))
                    + special_text(Seq::empty(), Some(pattern_name), stroke),
            ),
            *final(final(self).stream) == *final(old(self).stream),
    {
        let ghost s0 = self.stream.content@;
        if let Some(gs) = graphics_state_name {
            self.set_state(gs);
        }
        self.set_color_space("Pattern", stroke);
        let empty: [i64; 0] = [];
        self.set_color_special(Some(pattern_name), stroke, &empty);
        assert(empty@ =~= Seq::<i64>::empty());
        assert(self.stream.content@ =~= s0 + (match graphics_state_name {
            Some(gs) => seq!['/' as u8] + utf8(gs@) + utf8(" gs"@),
            None => Seq::empty(),
        } + seq!['/' as u8, ' ' as u8] + utf8("Pattern"@) + sp() + utf8(stroke_op(stroke, "CS"@, "cs"@))
            + special_text(Seq::empty(), Some(pattern_name), stroke)));
    }
}

/// The text of `set_color_special`: the numbers, then `/name`, then the operator, separated by
/// spaces.
pub open spec fn special_text(operands: Seq<i64>, name: Option<&str>, stroke: StrokeOrFill) -> Seq<u8> {
    let nums = reals_text(operands);
    let with_name = match name {
        Some(n) => if operands.len() > 0 {
            nums + sp() + seq!['/' as u8] + utf8(n@)
        } else {
            seq!['/' as u8] + utf8(n@)
        },
        None => nums,
    };
    let op = utf8(stroke_op(stroke, "SCN"@, "scn"@));
    if operands.len() > 0 || name is Some {
        with_name + sp() + op
    } else {
        op
    }
}

/// Appends the two coordinates of `p`.
fn push_posn(v: &mut Vec<u8>, p: Posn)
    ensures
        final(v)@ == old(v)@ + posn_text(p),
{
    let ghost start = v@;
    crate::encoding::push_real(v, p.x);
    v.push(' ' as u8);
    crate::encoding::push_real(v, p.y);
    assert(v@ =~= start + posn_text(p));
}

/// The six numbers of `m`.
fn matrix_bytes(m: Matrix) -> (v: Vec<u8>)
    ensures
        v@ == matrix_text(m),
{
    let mut v: Vec<u8> = Vec::new();
    crate::encoding::push_real(&mut v, m.a);
    v.push(' ' as u8);
    crate::encoding::push_real(&mut v, m.b);
    v.push(' ' as u8);
    crate::encoding::push_real(&mut v, m.c);
    v.push(' ' as u8);
    crate::encoding::push_real(&mut v, m.d);
    v.push(' ' as u8);
    crate::encoding::push_real(&mut v, m.e);
    v.push(' ' as u8);
    crate::encoding::push_real(&mut v, m.f);
    assert(v@ =~= matrix_text(m));
    v
}

/// The channels of a colour, separated by spaces.
fn channels_bytes(c: &[Color]) -> (v: Vec<u8>)
    ensures
        v@ == channels_text(c@),
{
    let mut v: Vec<u8> = Vec::new();
    let mut i: usize = 0;
    assert(c@.take(0) =~= Seq::<Color>::empty());
    while i < c.len()
        invariant
            i <= c@.len(),
            v@ == channels_text(c@.take(i as int)),
        decreases c@.len() - i,
    {
        let ghost t = c@.take(i + 1);
        assert(t.drop_last() =~= c@.take(i as int));
        if i > 0 {
            v.push(' ' as u8);
        }
        crate::encoding::push_real(&mut v, c[i].to_fixed());
        proof {
            if i == 0 {
                assert(t =~= seq![c@[0]]);
            }
        }
        assert(v@ =~= channels_text(t));
        i = i + 1;
    }
    assert(c@.take(c@.len() as int) =~= c@);
    v
}

/// Real numbers separated by spaces.
fn reals_bytes(r: &[i64]) -> (v: Vec<u8>)
    ensures
        v@ == reals_text(r@),
{
    let mut v: Vec<u8> = Vec::new();
    let mut i: usize = 0;
    assert(r@.take(0) =~= Seq::<i64>::empty());
    while i < r.len()
        invariant
            i <= r@.len(),
            v@ == reals_text(r@.take(i as int)),
        decreases r@.len() - i,
    {
        let ghost t = r@.take(i + 1);
        assert(t.drop_last() =~= r@.take(i as int));
        if i > 0 {
            v.push(' ' as u8);
        }
        crate::encoding::push_real(&mut v, r[i]);
        proof {
            if i == 0 {
                assert(t =~= seq![r@[0]]);
            }
        }
        assert(v@ =~= reals_text(t));
        i = i + 1;
    }
    assert(r@.take(r@.len() as int) =~= r@);
    v
}

} // verus!
