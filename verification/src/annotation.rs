//! Annotations: notes and links attached to a rectangle of a page.
use vstd::prelude::*;
use crate::PdfResult;
use crate::color::{RGB, is_channel_array};
use crate::objects::dictionary::{PdfDictionaryObject, keys_of, plain_dict};
use crate::objects::number::NumberType;
use crate::objects::pdf_array::PdfArrayObject;
use crate::objects::pdf_object::{PdfObject, is_int, is_name, is_number, is_string};
use crate::util::{Posn, Rectangle, is_rect_array};

verus! {

/// The flags of an annotation: one of the named flags, or any set of bits.
#[allow(non_camel_case_types)]
#[derive(Debug, Clone, Copy)]
pub enum AnnotationFlags {
    NONE,
    INVISIBLE,
    HIDDEN,
    PRINT,
    NO_ZOOM,
    NO_ROTATE,
    NO_VIEW,
    READ_ONLY,
    LOCKED,
    Bits(u32),
}

/// The bits of a set of flags.
pub open spec fn flag_bits(f: AnnotationFlags) -> u32 {
    match f {
        AnnotationFlags::NONE => 0,
        AnnotationFlags::INVISIBLE => 1,
        AnnotationFlags::HIDDEN => 2,
        AnnotationFlags::PRINT => 4,
        AnnotationFlags::NO_ZOOM => 8,
        AnnotationFlags::NO_ROTATE => 16,
        AnnotationFlags::NO_VIEW => 32,
        AnnotationFlags::READ_ONLY => 64,
        AnnotationFlags::LOCKED => 128,
        AnnotationFlags::Bits(b) => b,
    }
}

impl PartialEq for AnnotationFlags {
    /// Two sets of flags are equal when they have the same bits.
    fn eq(&self, other: &Self) -> (r: bool) {
        self.bits() == other.bits()
    }
}

impl vstd::std_specs::cmp::PartialEqSpecImpl for AnnotationFlags {
    open spec fn obeys_eq_spec() -> bool {
        true
    }

    open spec fn eq_spec(&self, other: &Self) -> bool {
        flag_bits(*self) == flag_bits(*other)
    }
}

impl Eq for AnnotationFlags {}

impl AnnotationFlags {
    pub fn from_bits(bits: u32) -> (f: Self)
        ensures
            flag_bits(f) == bits,
    {
        AnnotationFlags::Bits(bits)
    }

    pub fn bits(&self) -> (b: u32)
        ensures
            b == flag_bits(*self),
    {
        match self {
            AnnotationFlags::NONE => 0,
            AnnotationFlags::INVISIBLE => 1,
            AnnotationFlags::HIDDEN => 2,
            AnnotationFlags::PRINT => 4,
            AnnotationFlags::NO_ZOOM => 8,
            AnnotationFlags::NO_ROTATE => 16,
            AnnotationFlags::NO_VIEW => 32,
            AnnotationFlags::READ_ONLY => 64,
            AnnotationFlags::LOCKED => 128,
            AnnotationFlags::Bits(b) => *b,
        }
    }

    pub fn is_empty(&self) -> (b: bool)
        ensures
            b == (flag_bits(*self) == 0),
    {
        self.bits() == 0
    }

    /// The flags set in either.
    pub fn or(self, other: Self) -> (f: Self)
        ensures
            flag_bits(f) == flag_bits(self) | flag_bits(other),
    {
        AnnotationFlags::Bits(self.bits() | other.bits())
    }
}

/// Combining flags does not depend on the order, and keeps every flag of both.
pub proof fn law_flags_or(a: AnnotationFlags, b: AnnotationFlags)
    ensures
        flag_bits(a) | flag_bits(b) == flag_bits(b) | flag_bits(a),
        (flag_bits(a) | flag_bits(b)) & flag_bits(a) == flag_bits(a),
        (flag_bits(a) | flag_bits(b)) & flag_bits(b) == flag_bits(b),
{
    let x = flag_bits(a);
    let y = flag_bits(b);
    assert(x | y == y | x) by (bit_vector);
    assert((x | y) & x == x) by (bit_vector);
    assert((x | y) & y == y) by (bit_vector);
}

#[derive(Debug, Clone, Copy, PartialEq, Eq, Structural)]
pub enum BorderStyle {
    Solid,
    Dashed,
    Beveled,
    Inset,
    Underline,
}

pub open spec fn border_style_name(b: BorderStyle) -> Seq<char> {
    match b {
        BorderStyle::Solid => "S"@,
        BorderStyle::Dashed => "D"@,
        BorderStyle::Beveled => "B"@,
        BorderStyle::Inset => "I"@,
        BorderStyle::Underline => "U"@,
    }
}

impl BorderStyle {
    pub fn as_str(&self) -> (s: &'static str)
        ensures
            s@ == border_style_name(*self),
    {
        match self {
            BorderStyle::Solid => "S",
            BorderStyle::Dashed => "D",
            BorderStyle::Beveled => "B",
            BorderStyle::Inset => "I",
            BorderStyle::Underline => "U",
        }
    }
}

/// An annotation: its subtype, rectangle, flags, border, colour and text.
pub trait Annotation {
    fn subtype(&self) -> &'static str;

    fn rect(&self) -> Rectangle;

    fn flags(&self) -> AnnotationFlags;

    fn border_style(&self) -> Option<BorderStyle>;

    fn color(&self) -> Option<RGB>;

    fn contents(&self) -> Option<&str>;

    fn to_dict(&self) -> PdfResult<PdfDictionaryObject>;
}

/// The border style dictionary `<< /S (style) >>`.
pub open spec fn is_border_dict(o: PdfObject, style: BorderStyle) -> bool {
    o matches PdfObject::Dictionary(b) && {
        &&& plain_dict(b)
        &&& keys_of(b.values@) =~= seq!["S"@]
        &&& is_string(b.values@[0].1, border_style_name(style))
    }
}

/// Adds `/BS << /S (style) >>` when there is a border style.
fn add_border_style_to_dict(dest_dict: &mut PdfDictionaryObject, style: Option<BorderStyle>)
    requires
        !keys_of(old(dest_dict).values@).contains("BS"@),
    ensures
        final(dest_dict).object_number == old(dest_dict).object_number,
        final(dest_dict).generation_number == old(dest_dict).generation_number,
        final(dest_dict).children == old(dest_dict).children,
        old(dest_dict).wf() ==> final(dest_dict).wf(),
        match style {
            Some(s) => {
                &&& final(dest_dict).values@ == old(dest_dict).values@.push(final(dest_dict).values@.last())
                &&& keys_of(final(dest_dict).values@) =~= keys_of(old(dest_dict).values@).push("BS"@)
                &&& is_border_dict(final(dest_dict).values@.last().1, s)
            },
            None => final(dest_dict).values == old(dest_dict).values,
        },
{
    proof {
        reveal_strlit("S");
    }
    if let Some(s) = style {
        let mut bs_dict = PdfDictionaryObject::new();
        bs_dict.put_new("S", PdfObject::string_obj(s.as_str()));
        dest_dict.put_new("BS", PdfObject::Dictionary(bs_dict));
    }
}

#[derive(Debug, Clone, Copy, PartialEq, Eq, Structural)]
pub enum TextIcon {
    Comment,
    Key,
    Note,
    Help,
    NewParagraph,
    Paragraph,
    Insert,
}

pub open spec fn text_icon_name(t: TextIcon) -> Seq<char> {
    match t {
        TextIcon::Comment => "Comment"@,
        TextIcon::Key => "Key"@,
        TextIcon::Note => "Note"@,
        TextIcon::Help => "Help"@,
        TextIcon::NewParagraph => "NewParagraph"@,
        TextIcon::Paragraph => "Paragraph"@,
        TextIcon::Insert => "Insert"@,
    }
}

impl TextIcon {
    pub fn as_str(&self) -> (s: &'static str)
        ensures
            s@ == text_icon_name(*self),
    {
        match self {
            TextIcon::Comment => "Comment",
            TextIcon::Key => "Key",
            TextIcon::Note => "Note",
            TextIcon::Help => "Help",
            TextIcon::NewParagraph => "NewParagraph",
            TextIcon::Paragraph => "Paragraph",
            TextIcon::Insert => "Insert",
        }
    }
}

/// A note shown as an icon.
pub struct TextAnnotation {
    pub rect: Rectangle,
    pub contents: String,
    pub flags: AnnotationFlags,
    pub color: Option<RGB>,
    pub icon: TextIcon,
}

/// The yellow of a note: full red and green, no blue.
pub open spec fn is_note_yellow(c: RGB) -> bool {
    &&& c.channels()[0].value() == crate::color::CHANNEL_MAX
    &&& c.channels()[1].value() == crate::color::CHANNEL_MAX
    &&& c.channels()[2].value() == 0
}

impl Default for TextAnnotation {
    /// An empty printable note at the origin, yellow, with the `Note` icon.
    fn default() -> (a: Self)
        ensures
            a.rect == (Rectangle { x1: 0, y1: 0, x2: 0, y2: 0 }),
            a.contents@ == Seq::<char>::empty(),
            a.flags == AnnotationFlags::PRINT,
            a.color matches Some(c) && is_note_yellow(c),
            a.icon == TextIcon::Note,
    {
        let full = crate::color::Color::new(crate::color::CHANNEL_MAX);
        let none = crate::color::Color::new(0);
        Self {
            rect: Rectangle { x1: 0, y1: 0, x2: 0, y2: 0 },
            contents: String::new(),
            flags: AnnotationFlags::PRINT,
            color: Some(RGB::new(full, full, none)),
            icon: TextIcon::Note,
        }
    }
}

impl TextAnnotation {
    /// A note with the given rectangle and text, otherwise as [`TextAnnotation::default`].
    pub fn new(rect: Rectangle, contents: String) -> (a: Self)
        ensures
            a.rect == rect,
            a.contents@ == contents@,
            a.flags == AnnotationFlags::PRINT,
            a.color matches Some(c) && is_note_yellow(c),
            a.icon == TextIcon::Note,
    {
        let d = Self::default();
        Self { rect, contents, ..d }
    }

    pub fn with_icon(self, icon: TextIcon) -> (a: Self)
        ensures
            a.rect == self.rect,
            a.contents@ == self.contents@,
            a.flags == self.flags,
            a.color == self.color,
            a.icon == icon,
    {
        let mut s = self;
        s.icon = icon;
        s
    }

    pub fn with_color(self, rgb: RGB) -> (a: Self)
        ensures
            a.rect == self.rect,
            a.contents@ == self.contents@,
            a.flags == self.flags,
            a.color == Some(rgb),
            a.icon == self.icon,
    {
        let mut s = self;
        s.color = Some(rgb);
        s
    }
}

/// The entries of a note's dictionary: `/Type /Annot`, `/Subtype /Text`, `/Rect`, `/F` when
/// some flag is set, `/C` when there is a colour, `/Contents` and `/Name` with the icon.
pub open spec fn is_text_annotation_dict(a: TextAnnotation, d: PdfDictionaryObject) -> bool {
    let s = d.values@;
    let nf: int = if flag_bits(a.flags) != 0 { 1 } else { 0 };
    let nc: int = if a.color is Some { 1 } else { 0 };
    &&& plain_dict(d)
    &&& keys_of(s) =~= seq!["Type"@, "Subtype"@, "Rect"@] + (if nf == 1 { seq!["F"@] } else { seq![] }) + (
    if nc == 1 { seq!["C"@] } else { seq![] }) + seq!["Contents"@, "Name"@]
    &&& is_name(s[0].1, "Annot"@)
    &&& is_name(s[1].1, "Text"@)
    &&& s[2].1 matches PdfObject::Array(r) && is_rect_array(r, a.rect.x1, a.rect.y1, a.rect.x2, a.rect.y2)
    &&& nf == 1 ==> is_int(s[3].1, flag_bits(a.flags) as int)
    &&& a.color matches Some(c) ==> (s[3 + nf].1 matches PdfObject::Array(ca) && is_channel_array(ca, c.channels()))
    &&& is_string(s[3 + nf + nc].1, a.contents@)
    &&& is_name(s[4 + nf + nc].1, text_icon_name(a.icon))
}

impl Annotation for TextAnnotation {
    fn subtype(&self) -> (s: &'static str)
        ensures
            s@ == "Text"@,
    {
        "Text"
    }

    fn rect(&self) -> (r: Rectangle)
        ensures
            r == self.rect,
    {
        self.rect
    }

    fn flags(&self) -> (f: AnnotationFlags)
        ensures
            f == self.flags,
    {
        self.flags
    }

    fn border_style(&self) -> (b: Option<BorderStyle>)
        ensures
            b is None,
    {
        None
    }

    fn color(&self) -> (c: Option<RGB>)
        ensures
            c == self.color,
    {
        self.color
    }

    fn contents(&self) -> (c: Option<&str>)
        ensures
            c matches Some(t) && t@ == self.contents@,
    {
        Some(self.contents.as_str())
    }

    fn to_dict(&self) -> (r: PdfResult<PdfDictionaryObject>)
        ensures
            r matches Ok(d) && is_text_annotation_dict(*self, d),
    {
        proof {
            reveal_strlit("Type");
            reveal_strlit("Subtype");
            reveal_strlit("Rect");
            reveal_strlit("F");
            reveal_strlit("C");
            reveal_strlit("Contents");
            reveal_strlit("Name");
            assert("Type"@.len() == 4 && "Subtype"@.len() == 7 && "Rect"@.len() == 4 && "F"@.len() == 1);
            assert("C"@.len() == 1 && "Contents"@.len() == 8 && "Name"@.len() == 4);
            assert("Type"@[0] != "Rect"@[0] && "Type"@[0] != "Name"@[0] && "Rect"@[0] != "Name"@[0]);
            assert("F"@[0] != "C"@[0]);
        }
        let mut dict = PdfDictionaryObject::new();
        dict.put_new("Type", PdfObject::name_obj("Annot"));
        dict.put_new("Subtype", PdfObject::name_obj(self.subtype()));
        dict.put_new("Rect", PdfObject::Array(self.rect.as_pdf_array()));
        let ghost k3 = keys_of(dict.values@);
        if !self.flags.is_empty() {
            dict.put_new("F", PdfObject::num_obj(NumberType::Integer(self.flags.bits() as i64)));
        }
        let ghost k4 = keys_of(dict.values@);
        if let Some(rgb) = self.color {
            dict.put_new("C", PdfObject::Array(rgb.as_pdf_array()));
        }
        dict.put_new("Contents", PdfObject::string_obj(self.contents.as_str()));
        dict.put_new("Name", PdfObject::name_obj(self.icon.as_str()));
        Ok(dict)
    }
}

/// What a link does.
#[derive(Debug, Clone)]
pub enum LinkAction {
    Uri(String),
    GoTo { page: usize, position: Posn, zoom: Option<i64> },
}

/// A link: a rectangle that opens a URI or goes to a page.
pub struct LinkAnnotation {
    pub rect: Rectangle,
    pub flags: AnnotationFlags,
    pub border_style: Option<BorderStyle>,
    pub action: LinkAction,
}

impl LinkAnnotation {
    /// A printable link to `uri`, without border.
    pub fn uri(rect: Rectangle, uri: String) -> (a: Self)
        ensures
            a.rect == rect,
            a.flags == AnnotationFlags::PRINT,
            a.border_style is None,
            a.action matches LinkAction::Uri(u) && u@ == uri@,
    {
        Self { rect, flags: AnnotationFlags::PRINT, border_style: None, action: LinkAction::Uri(uri) }
    }

    /// A printable link to a position on page `page`, without border.
    pub fn goto(rect: Rectangle, page: usize, position: Posn, zoom: Option<i64>) -> (a: Self)
        ensures
            a.rect == rect,
            a.flags == AnnotationFlags::PRINT,
            a.border_style is None,
            a.action matches LinkAction::GoTo { page: p, position: q, zoom: z } && p == page && q == position
                && z == zoom,
    {
        Self {
            rect,
            flags: AnnotationFlags::PRINT,
            border_style: None,
            action: LinkAction::GoTo { page, position, zoom },
        }
    }

    pub fn with_border(self, style: BorderStyle) -> (a: Self)
        ensures
            a.rect == self.rect,
            a.flags == self.flags,
            a.border_style == Some(style),
            a.action == self.action,
    {
        let mut s = self;
        s.border_style = Some(style);
        s
    }
}

/// The destination of a link: `[page /XYZ x y zoom]`, with the name `null` for no zoom.
pub open spec fn is_link_dest(page: usize, position: Posn, zoom: Option<i64>, a: PdfArrayObject) -> bool {
    let s = a.values@;
    &&& s.len() == 5
    &&& is_number(s[0], NumberType::Integer(page as i64))
    &&& is_name(s[1], "XYZ"@)
    &&& is_number(s[2], NumberType::Real(position.x))
    &&& is_number(s[3], NumberType::Real(position.y))
    &&& match zoom {
        Some(z) => is_number(s[4], NumberType::Real(z)),
        None => is_name(s[4], "null"@),
    }
    &&& a.object_number is None
    &&& a.generation_number is None
}

/// The entries of a link's dictionary: `/Type /Annot`, `/Subtype /Link`, `/Rect`, `/F` when
/// some flag is set, `/BS` when there is a border style, then `/A` with a URI action or
/// `/Dest` with the destination.
pub open spec fn is_link_annotation_dict(a: LinkAnnotation, d: PdfDictionaryObject) -> bool {
    let s = d.values@;
    let nf: int = if flag_bits(a.flags) != 0 { 1 } else { 0 };
    let nb: int = if a.border_style is Some { 1 } else { 0 };
    let last = 3 + nf + nb;
    &&& plain_dict(d)
    &&& keys_of(s) =~= seq!["Type"@, "Subtype"@, "Rect"@] + (if nf == 1 { seq!["F"@] } else { seq![] }) + (
    if nb == 1 { seq!["BS"@] } else { seq![] }) + (if a.action is Uri { seq!["A"@] } else { seq!["Dest"@] })
    &&& is_name(s[0].1, "Annot"@)
    &&& is_name(s[1].1, "Link"@)
    &&& s[2].1 matches PdfObject::Array(r) && is_rect_array(r, a.rect.x1, a.rect.y1, a.rect.x2, a.rect.y2)
    &&& nf == 1 ==> is_int(s[3].1, flag_bits(a.flags) as int)
    &&& a.border_style matches Some(b) ==> is_border_dict(s[3 + nf].1, b)
    &&& match a.action {
        LinkAction::Uri(u) => s[last].1 matches PdfObject::Dictionary(ad) && {
            &&& plain_dict(ad)
            &&& keys_of(ad.values@) =~= seq!["S"@, "URI"@]
            &&& is_name(ad.values@[0].1, "URI"@)
            &&& is_string(ad.values@[1].1, u@)
        },
        LinkAction::GoTo { page, position, zoom } => s[last].1 matches PdfObject::Array(dest)
            && is_link_dest(page, position, zoom, dest),
    }
}

impl Annotation for LinkAnnotation {
    fn subtype(&self) -> (s: &'static str)
        ensures
            s@ == "Link"@,
    {
        "Link"
    }

    fn rect(&self) -> (r: Rectangle)
        ensures
            r == self.rect,
    {
        self.rect
    }

    fn flags(&self) -> (f: AnnotationFlags)
        ensures
            f == self.flags,
    {
        self.flags
    }

    fn border_style(&self) -> (b: Option<BorderStyle>)
        ensures
            b == self.border_style,
    {
        self.border_style
    }

    fn color(&self) -> (c: Option<RGB>)
        ensures
            c is None,
    {
        None
    }

    fn contents(&self) -> (c: Option<&str>)
        ensures
            c is None,
    {
        None
    }

    fn to_dict(&self) -> (r: PdfResult<PdfDictionaryObject>)
        ensures
            r matches Ok(d) && is_link_annotation_dict(*self, d),
    {
        proof {
            reveal_strlit("Type");
            reveal_strlit("Subtype");
            reveal_strlit("Rect");
            reveal_strlit("F");
            reveal_strlit("BS");
            reveal_strlit("A");
            reveal_strlit("Dest");
            reveal_strlit("S");
            reveal_strlit("URI");
            assert("Type"@.len() == 4 && "Subtype"@.len() == 7 && "Rect"@.len() == 4 && "F"@.len() == 1);
            assert("BS"@.len() == 2 && "A"@.len() == 1 && "Dest"@.len() == 4);
            assert("Type"@[0] != "Rect"@[0] && "Type"@[0] != "Dest"@[0] && "Rect"@[0] != "Dest"@[0]);
            assert("F"@[0] != "A"@[0] && "S"@.len() == 1 && "URI"@.len() == 3);
        }
        let mut dict = PdfDictionaryObject::new();
        dict.put_new("Type", PdfObject::name_obj("Annot"));
        dict.put_new("Subtype", PdfObject::name_obj(self.subtype()));
        dict.put_new("Rect", PdfObject::Array(self.rect.as_pdf_array()));
        let flags = self.flags();
        if flags.bits() != 0 {
            dict.put_new("F", PdfObject::num_obj(NumberType::Integer(flags.bits() as i64)));
        }
        add_border_style_to_dict(&mut dict, self.border_style);
        match &self.action {
            LinkAction::Uri(uri) => {
                let mut action_dict = PdfDictionaryObject::new();
                action_dict.put_new("S", PdfObject::name_obj("URI"));
                action_dict.put_new("URI", PdfObject::string_obj(uri.as_str()));
                dict.put_new("A", PdfObject::Dictionary(action_dict));
            },
            LinkAction::GoTo { page, position, zoom } => {
                let mut dest = PdfArrayObject::new();
                dest.push(PdfObject::num_obj(NumberType::Integer(*page as i64)));
                dest.push(PdfObject::name_obj("XYZ"));
                dest.push(PdfObject::num_obj(NumberType::Real(position.x)));
                dest.push(PdfObject::num_obj(NumberType::Real(position.y)));
                match zoom {
                    Some(z) => dest.push(PdfObject::num_obj(NumberType::Real(*z))),
                    None => dest.push(PdfObject::name_obj("null")),
                }
                dict.put_new("Dest", PdfObject::Array(dest));
            },
        }
        Ok(dict)
    }
}

} // verus!
