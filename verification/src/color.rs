//! Colour spaces and colours.
//!
//! A colour channel lies between 0 and 1 and is held as a count of ten-thousandths, from 0
//! to 10000.
use vstd::prelude::*;
use crate::PdfError;
use crate::objects::number::NumberType;
use crate::objects::pdf_array::PdfArrayObject;
use crate::objects::pdf_object::{PdfObject, is_number};

verus! {

/// The number of ten-thousandths in a full channel.
pub const CHANNEL_MAX: i64 = 10000;

pub enum ColorSpace {
    CMYK,
    Gray,
    RGB,
}

impl ColorSpace {
    /// The colour space named `s`: `RGB`, `CMYK` or `Gray`.
    pub fn from_string(s: &str) -> (r: Option<ColorSpace>)
        ensures
            s@ == "RGB"@ <==> r matches Some(ColorSpace::RGB),
            s@ == "CMYK"@ <==> r matches Some(ColorSpace::CMYK),
            s@ == "Gray"@ <==> r matches Some(ColorSpace::Gray),
    {
        proof {
            reveal_strlit("RGB");
            reveal_strlit("CMYK");
            reveal_strlit("Gray");
            assert("RGB"@.len() == 3 && "CMYK"@.len() == 4 && "Gray"@.len() == 4);
            assert("CMYK"@[0] != "Gray"@[0]);
        }
        if crate::encoding::str_eq(s, "RGB") {
            Some(ColorSpace::RGB)
        } else if crate::encoding::str_eq(s, "CMYK") {
            Some(ColorSpace::CMYK)
        } else if crate::encoding::str_eq(s, "Gray") {
            Some(ColorSpace::Gray)
        } else {
            None
        }
    }

    /// The name of the colour space.
    pub fn as_str(&self) -> (s: &'static str)
        ensures
            s@ == color_space_name(*self),
    {
        match self {
            ColorSpace::RGB => "RGB",
            ColorSpace::CMYK => "CMYK",
            ColorSpace::Gray => "Gray",
        }
    }
}

pub open spec fn color_space_name(c: ColorSpace) -> Seq<char> {
    match c {
        ColorSpace::RGB => "RGB"@,
        ColorSpace::CMYK => "CMYK"@,
        ColorSpace::Gray => "Gray"@,
    }
}

/// One colour channel.
#[derive(Debug, Clone, Copy, PartialEq, Eq, Structural)]
pub struct Color {
    color: i64,
}

/// A channel value lies between 0 and 1.
pub open spec fn channel_ok(v: i64) -> bool {
    0 <= v <= CHANNEL_MAX
}

impl Color {
    pub closed spec fn value(self) -> i64 {
        self.color
    }

    /// The channel `color` ten-thousandths; it must lie between 0 and 1.
    pub fn new(color: i64) -> (c: Self)
        requires
            channel_ok(color),
        ensures
            c.value() == color,
    {
        Self { color }
    }

    /// The text of the channel (see [`channel_text`]).
    pub fn to_pdf(&self) -> (s: String)
        ensures
            s@ == channel_text(*self),
    {
        let mut s = String::new();
        crate::encoding::string_push_real(&mut s, self.color);
        s
    }

    /// The text of the channel (see [`channel_text`]).
    pub fn as_string(&self) -> (s: String)
        ensures
            s@ == channel_text(*self),
    {
        self.to_pdf()
    }

    /// The channel, in ten-thousandths.
    pub fn to_fixed(&self) -> (v: i64)
        ensures
            v == self.value(),
    {
        self.color
    }

    /// The channel as a number object value.
    pub fn to_number(&self) -> (n: NumberType)
        ensures
            n == NumberType::Real(self.value()),
    {
        NumberType::Real(self.color)
    }

    /// Fails when the channel lies outside 0 to 1.
    pub fn validate(&self) -> (r: Result<(), PdfError>)
        ensures
            r is Ok <==> channel_ok(self.value()),
            r is Err ==> r == Err::<(), PdfError>(PdfError::InvalidColorChannel { color: *self }),
    {
        if self.color < 0 || self.color > CHANNEL_MAX {
            return Err(PdfError::InvalidColorChannel { color: *self });
        }
        Ok(())
    }
}

/// `a` holds the given channels as real numbers and is a direct object.
pub open spec fn is_channel_array(a: PdfArrayObject, channels: Seq<Color>) -> bool {
    &&& a.values@.len() == channels.len()
    &&& forall|i: int|
        0 <= i < channels.len() ==> is_number(#[trigger] a.values@[i], NumberType::Real(channels[i].value()))
    &&& a.object_number is None
    &&& a.generation_number is None
}

/// An RGB colour.
#[derive(Debug, Clone, Copy, PartialEq, Eq, Structural)]
pub struct RGB {
    red: Color,
    green: Color,
    blue: Color,
}

impl RGB {
    pub closed spec fn channels(self) -> Seq<Color> {
        seq![self.red, self.green, self.blue]
    }

    /// The channels' texts, separated by spaces.
    pub fn to_pdf(&self) -> (s: String)
        ensures
            s@ == channels_joined(self.channels()),
    {
        let v = self.as_vec();
        join_channels(&v)
    }

    /// Each channel as its letter, a colon and its text, separated by spaces.
    pub fn as_string(&self) -> (s: String)
        ensures
            s@ == channels_labelled(self.channels(), seq!['r', 'g', 'b']),
    {
        let v = self.as_vec();
        let labels = ['r', 'g', 'b'];
        assert(labels@ =~= seq!['r', 'g', 'b']);
        label_channels(&v, &labels)
    }

    pub fn new(red: Color, green: Color, blue: Color) -> (c: Self)
        ensures
            c.channels() == seq![red, green, blue],
    {
        Self { red, green, blue }
    }

    /// The colour as the array `[r g b]`.
    pub fn as_pdf_array(&self) -> (a: PdfArrayObject)
        ensures
            is_channel_array(a, self.channels()),
    {
        let mut arr = PdfArrayObject::new();
        arr.push(PdfObject::num_obj(self.red.to_number()));
        arr.push(PdfObject::num_obj(self.green.to_number()));
        arr.push(PdfObject::num_obj(self.blue.to_number()));
        arr
    }

    pub fn as_vec(&self) -> (v: [Color; 3])
        ensures
            v@ == self.channels(),
    {
        [self.red, self.green, self.blue]
    }

    pub fn r(&self) -> (c: Color)
        ensures
            c == self.channels()[0],
    {
        self.red
    }

    pub fn g(&self) -> (c: Color)
        ensures
            c == self.channels()[1],
    {
        self.green
    }

    pub fn b(&self) -> (c: Color)
        ensures
            c == self.channels()[2],
    {
        self.blue
    }

    /// Fails when a channel lies outside 0 to 1.
    pub fn validate(&self) -> (r: Result<(), PdfError>)
        ensures
            r is Ok <==> (channel_ok(self.channels()[0].value()) && channel_ok(self.channels()[1].value())
                && channel_ok(self.channels()[2].value())),
            r is Err ==> r == Err::<(), PdfError>(PdfError::InvalidRGB { rgb: *self }),
    {
        if self.red.validate().is_err() || self.green.validate().is_err() || self.blue.validate().is_err() {
            return Err(PdfError::InvalidRGB { rgb: *self });
        }
        Ok(())
    }
}

/// An RGB colour with an alpha channel.
#[derive(Debug, Clone, Copy, PartialEq, Eq, Structural)]
pub struct RGBA {
    red: Color,
    green: Color,
    blue: Color,
    alpha: Color,
}

impl RGBA {
    pub closed spec fn channels(self) -> Seq<Color> {
        seq![self.red, self.green, self.blue, self.alpha]
    }

    /// The channels' texts, separated by spaces.
    pub fn to_pdf(&self) -> (s: String)
        ensures
            s@ == channels_joined(self.channels()),
    {
        let v = self.as_vec();
        join_channels(&v)
    }

    /// Each channel as its letter, a colon and its text, separated by spaces.
    pub fn as_string(&self) -> (s: String)
        ensures
            s@ == channels_labelled(self.channels(), seq!['r', 'g', 'b', 'a']),
    {
        let v = self.as_vec();
        let labels = ['r', 'g', 'b', 'a'];
        assert(labels@ =~= seq!['r', 'g', 'b', 'a']);
        label_channels(&v, &labels)
    }

    pub fn new(red: Color, green: Color, blue: Color, alpha: Color) -> (c: Self)
        ensures
            c.channels() == seq![red, green, blue, alpha],
    {
        Self { red, green, blue, alpha }
    }

    pub fn as_vec(&self) -> (v: [Color; 4])
        ensures
            v@ == self.channels(),
    {
        [self.red, self.green, self.blue, self.alpha]
    }

    /// The channels, each in ten-thousandths.
    pub fn as_vec_64(&self) -> (v: [i64; 4])
        ensures
            v@ == self.channels().map_values(|c: Color| c.value()),
    {
        let v = [self.red.color, self.green.color, self.blue.color, self.alpha.color];
        assert(v@ =~= self.channels().map_values(|c: Color| c.value()));
        v
    }

    /// Whether the colour is not fully opaque.
    pub fn has_transparency(&self) -> (b: bool)
        ensures
            b == (self.channels()[3].value() < CHANNEL_MAX),
    {
        self.alpha.color < CHANNEL_MAX
    }

    pub fn r(&self) -> (c: Color)
        ensures
            c == self.channels()[0],
    {
        self.red
    }

    pub fn g(&self) -> (c: Color)
        ensures
            c == self.channels()[1],
    {
        self.green
    }

    pub fn b(&self) -> (c: Color)
        ensures
            c == self.channels()[2],
    {
        self.blue
    }

    pub fn a(&self) -> (c: Color)
        ensures
            c == self.channels()[3],
    {
        self.alpha
    }

    /// Fails when a channel lies outside 0 to 1.
    pub fn validate(&self) -> (r: Result<(), PdfError>)
        ensures
            r is Ok <==> (channel_ok(self.channels()[0].value()) && channel_ok(self.channels()[1].value())
                && channel_ok(self.channels()[2].value()) && channel_ok(self.channels()[3].value())),
            r is Err ==> r == Err::<(), PdfError>(PdfError::InvalidRGBA { rgb: *self }),
    {
        if self.red.validate().is_err() || self.green.validate().is_err() || self.blue.validate().is_err()
            || self.alpha.validate().is_err() {
            return Err(PdfError::InvalidRGBA { rgb: *self });
        }
        Ok(())
    }
}

/// A CMYK colour.
#[derive(Debug, Clone, Copy, PartialEq, Eq, Structural)]
pub struct CMYK {
    cyan: Color,
    magenta: Color,
    yellow: Color,
    black: Color,
}

impl CMYK {
    pub closed spec fn channels(self) -> Seq<Color> {
        seq![self.cyan, self.magenta, self.yellow, self.black]
    }

    /// The channels' texts, separated by spaces.
    pub fn to_pdf(&self) -> (s: String)
        ensures
            s@ == channels_joined(self.channels()),
    {
        let v = self.as_vec();
        join_channels(&v)
    }

    /// Each channel as its letter, a colon and its text, separated by spaces.
    pub fn as_string(&self) -> (s: String)
        ensures
            s@ == channels_labelled(self.channels(), seq!['c', 'm', 'y', 'k']),
    {
        let v = self.as_vec();
        let labels = ['c', 'm', 'y', 'k'];
        assert(labels@ =~= seq!['c', 'm', 'y', 'k']);
        label_channels(&v, &labels)
    }

    pub fn new(cyan: Color, magenta: Color, yellow: Color, black: Color) -> (c: Self)
        ensures
            c.channels() == seq![cyan, magenta, yellow, black],
    {
        Self { cyan, magenta, yellow, black }
    }

    pub fn as_vec(&self) -> (v: [Color; 4])
        ensures
            v@ == self.channels(),
    {
        [self.cyan, self.magenta, self.yellow, self.black]
    }

    pub fn c(&self) -> (c: Color)
        ensures
            c == self.channels()[0],
    {
        self.cyan
    }

    pub fn m(&self) -> (c: Color)
        ensures
            c == self.channels()[1],
    {
        self.magenta
    }

    pub fn y(&self) -> (c: Color)
        ensures
            c == self.channels()[2],
    {
        self.yellow
    }

    pub fn k(&self) -> (c: Color)
        ensures
            c == self.channels()[3],
    {
        self.black
    }

    /// Fails when a channel lies outside 0 to 1.
    pub fn validate(&self) -> (r: Result<(), PdfError>)
        ensures
            r is Ok <==> (channel_ok(self.channels()[0].value()) && channel_ok(self.channels()[1].value())
                && channel_ok(self.channels()[2].value()) && channel_ok(self.channels()[3].value())),
            r is Err ==> r == Err::<(), PdfError>(PdfError::InvalidCMYK { cmyk: *self }),
    {
        if self.cyan.validate().is_err() || self.magenta.validate().is_err() || self.yellow.validate().is_err()
            || self.black.validate().is_err() {
            return Err(PdfError::InvalidCMYK { cmyk: *self });
        }
        Ok(())
    }
}

/// The text of a channel: its value with at most four decimals.
pub open spec fn channel_text(c: Color) -> Seq<char> {
    crate::encoding::ascii_chars(crate::encoding::real_text(c.value() as int))
}

/// The texts of the channels `c`, separated by spaces.
pub open spec fn channels_joined(c: Seq<Color>) -> Seq<char>
    decreases c.len(),
{
    if c.len() == 0 {
        Seq::empty()
    } else if c.len() == 1 {
        channel_text(c[0])
    } else {
        channels_joined(c.drop_last()) + " "@ + channel_text(c.last())
    }
}

/// Each channel as its label, a colon and its text, separated by spaces.
pub open spec fn channels_labelled(c: Seq<Color>, labels: Seq<char>) -> Seq<char>
    decreases c.len(),
{
    if c.len() == 0 {
        Seq::empty()
    } else if c.len() == 1 {
        seq![labels[0], ':'] + channel_text(c[0])
    } else {
        channels_labelled(c.drop_last(), labels) + " "@ + seq![labels[c.len() - 1], ':'] + channel_text(c.last())
    }
}

/// The texts of the channels, separated by spaces (see [`channels_joined`]).
fn join_channels(c: &[Color]) -> (s: String)
    ensures
        s@ == channels_joined(c@),
{
    let mut s = String::new();
    let mut i: usize = 0;
    assert(c@.take(0) =~= Seq::<Color>::empty());
    while i < c.len()
        invariant
            i <= c@.len(),
            s@ == channels_joined(c@.take(i as int)),
        decreases c@.len() - i,
    {
        let ghost t = c@.take(i + 1);
        assert(t.drop_last() =~= c@.take(i as int));
        if i > 0 {
            crate::encoding::string_push_str(&mut s, " ");
        }
        crate::encoding::string_push_real(&mut s, c[i].color);
        proof {
            reveal_strlit(" ");
            if i == 0 {
                assert(t =~= seq![c@[0]]);
            }
        }
        assert(s@ =~= channels_joined(t));
        i = i + 1;
    }
    assert(c@.take(c@.len() as int) =~= c@);
    s
}

/// Each channel as its label, a colon and its text (see [`channels_labelled`]).
fn label_channels(c: &[Color], labels: &[char]) -> (s: String)
    requires
        labels@.len() == c@.len(),
    ensures
        s@ == channels_labelled(c@, labels@),
{
    let mut s = String::new();
    let mut i: usize = 0;
    assert(c@.take(0) =~= Seq::<Color>::empty());
    while i < c.len()
        invariant
            i <= c@.len(),
            labels@.len() == c@.len(),
            s@ == channels_labelled(c@.take(i as int), labels@),
        decreases c@.len() - i,
    {
        let ghost t = c@.take(i + 1);
        assert(t.drop_last() =~= c@.take(i as int));
        if i > 0 {
            crate::encoding::string_push_str(&mut s, " ");
        }
        crate::encoding::string_push_char(&mut s, labels[i]);
        crate::encoding::string_push_char(&mut s, ':');
        crate::encoding::string_push_real(&mut s, c[i].color);
        proof {
            reveal_strlit(" ");
            if i == 0 {
                assert(t =~= seq![c@[0]]);
            }
        }
        assert(s@ =~= channels_labelled(t, labels@));
        i = i + 1;
    }
    assert(c@.take(c@.len() as int) =~= c@);
    s
}

} // verus!
