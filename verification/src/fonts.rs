//! The twelve standard Type 1 fonts, which every viewer has.
use vstd::prelude::*;
use crate::PdfError;
use crate::objects::dictionary::{PdfDictionaryObject, keys_of, plain_dict};
use crate::objects::pdf_object::{PdfObject, is_name};

verus! {

#[derive(Debug, Clone, Copy, PartialEq, Eq, Structural)]
pub enum StandardFont {
    Helvetica,
    HelveticaBold,
    HelveticaOblique,
    HelveticaBoldOblique,
    TimesRoman,
    TimesBold,
    TimesItalic,
    TimesBoldItalic,
    Courier,
    CourierBold,
    CourierOblique,
    CourierBoldOblique,
}

/// The base font name of a standard font.
pub open spec fn font_name(f: StandardFont) -> Seq<char> {
    match f {
        StandardFont::Helvetica => "Helvetica"@,
        StandardFont::HelveticaBold => "Helvetica-Bold"@,
        StandardFont::HelveticaOblique => "Helvetica-Oblique"@,
        StandardFont::HelveticaBoldOblique => "Helvetica-BoldOblique"@,
        StandardFont::TimesRoman => "Times-Roman"@,
        StandardFont::TimesBold => "Times-Bold"@,
        StandardFont::TimesItalic => "Times-Italic"@,
        StandardFont::TimesBoldItalic => "Times-BoldItalic"@,
        StandardFont::Courier => "Courier"@,
        StandardFont::CourierBold => "Courier-Bold"@,
        StandardFont::CourierOblique => "Courier-Oblique"@,
        StandardFont::CourierBoldOblique => "Courier-BoldOblique"@,
    }
}

impl StandardFont {
    pub fn pdf_name(&self) -> (s: &'static str)
        ensures
            s@ == font_name(*self),
    {
        match self {
            StandardFont::Helvetica => "Helvetica",
            StandardFont::HelveticaBold => "Helvetica-Bold",
            StandardFont::HelveticaOblique => "Helvetica-Oblique",
            StandardFont::HelveticaBoldOblique => "Helvetica-BoldOblique",
            StandardFont::TimesRoman => "Times-Roman",
            StandardFont::TimesBold => "Times-Bold",
            StandardFont::TimesItalic => "Times-Italic",
            StandardFont::TimesBoldItalic => "Times-BoldItalic",
            StandardFont::Courier => "Courier",
            StandardFont::CourierBold => "Courier-Bold",
            StandardFont::CourierOblique => "Courier-Oblique",
            StandardFont::CourierBoldOblique => "Courier-BoldOblique",
        }
    }
}

/// The standard fonts, in the order in which they are listed.
pub open spec fn all_standard_fonts() -> Seq<StandardFont> {
    seq![
        StandardFont::Helvetica,
        StandardFont::HelveticaBold,
        StandardFont::HelveticaOblique,
        StandardFont::HelveticaBoldOblique,
        StandardFont::TimesRoman,
        StandardFont::TimesBold,
        StandardFont::TimesItalic,
        StandardFont::TimesBoldItalic,
        StandardFont::Courier,
        StandardFont::CourierBold,
        StandardFont::CourierOblique,
        StandardFont::CourierBoldOblique,
    ]
}

/// No two standard fonts share a name.
proof fn lemma_font_names_distinct()
    ensures
        forall|a: int, b: int|
            0 <= a < 12 && 0 <= b < 12 && a != b ==> font_name(#[trigger] all_standard_fonts()[a]) != font_name(
                #[trigger] all_standard_fonts()[b],
            ),
{
    reveal_strlit("Helvetica");
    reveal_strlit("Helvetica-Bold");
    reveal_strlit("Helvetica-Oblique");
    reveal_strlit("Helvetica-BoldOblique");
    reveal_strlit("Times-Roman");
    reveal_strlit("Times-Bold");
    reveal_strlit("Times-Italic");
    reveal_strlit("Times-BoldItalic");
    reveal_strlit("Courier");
    reveal_strlit("Courier-Bold");
    reveal_strlit("Courier-Oblique");
    reveal_strlit("Courier-BoldOblique");
    assert("Helvetica"@.len() == 9 && "Helvetica-Bold"@.len() == 14 && "Helvetica-Oblique"@.len() == 17);
    assert("Helvetica-BoldOblique"@.len() == 21 && "Times-Roman"@.len() == 11 && "Times-Bold"@.len() == 10);
    assert("Times-Italic"@.len() == 12 && "Times-BoldItalic"@.len() == 16 && "Courier"@.len() == 7);
    assert("Courier-Bold"@.len() == 12 && "Courier-Oblique"@.len() == 15 && "Courier-BoldOblique"@.len() == 19);
    assert("Times-Italic"@[0] != "Courier-Bold"@[0]);
}

/// `o` is the dictionary of the standard font named `name`: `/Type /Font`, `/Subtype
/// /Type1` and `/BaseFont` with the name.
pub open spec fn is_font_dict(o: PdfObject, name: Seq<char>) -> bool {
    o matches PdfObject::Dictionary(d) && {
        &&& plain_dict(d)
        &&& keys_of(d.values@) =~= seq!["Type"@, "Subtype"@, "BaseFont"@]
        &&& is_name(d.values@[0].1, "Font"@)
        &&& is_name(d.values@[1].1, "Type1"@)
        &&& is_name(d.values@[2].1, name)
    }
}

/// The dictionary of the standard font named `name`.
fn font_dict(name: &str) -> (o: PdfObject)
    ensures
        is_font_dict(o, name@),
{
    proof {
        reveal_strlit("Type");
        reveal_strlit("Subtype");
        reveal_strlit("BaseFont");
        assert("Type"@.len() == 4 && "Subtype"@.len() == 7 && "BaseFont"@.len() == 8);
    }
    let mut dict = PdfDictionaryObject::new();
    dict.put_new("Type", PdfObject::name_obj("Font"));
    dict.put_new("Subtype", PdfObject::name_obj("Type1"));
    dict.put_new("BaseFont", PdfObject::name_obj(name));
    PdfObject::Dictionary(dict)
}

/// The font resource dictionary of the twelve standard fonts: one entry per font, in the
/// order of [`all_standard_fonts`], named after it and holding its font dictionary.
pub fn standard_fonts_dict() -> (r: Result<PdfDictionaryObject, PdfError>)
    ensures
        r matches Ok(d) && {
            &&& plain_dict(d)
            &&& d.values@.len() == 12
            &&& forall|i: int|
                0 <= i < 12 ==> (#[trigger] d.values@[i]).0.value@ == font_name(all_standard_fonts()[i])
                    && is_font_dict(d.values@[i].1, font_name(all_standard_fonts()[i]))
        },
{
    let fonts: [StandardFont; 12] = [
        StandardFont::Helvetica,
        StandardFont::HelveticaBold,
        StandardFont::HelveticaOblique,
        StandardFont::HelveticaBoldOblique,
        StandardFont::TimesRoman,
        StandardFont::TimesBold,
        StandardFont::TimesItalic,
        StandardFont::TimesBoldItalic,
        StandardFont::Courier,
        StandardFont::CourierBold,
        StandardFont::CourierOblique,
        StandardFont::CourierBoldOblique,
    ];
    proof {
        lemma_font_names_distinct();
        assert(fonts@ =~= all_standard_fonts());
    }
    let mut fonts_dict = PdfDictionaryObject::new();
    let mut i: usize = 0;
    while i < 12
        invariant
            i <= 12,
            fonts@ == all_standard_fonts(),
            forall|a: int, b: int|
                0 <= a < 12 && 0 <= b < 12 && a != b ==> font_name(#[trigger] all_standard_fonts()[a]) != font_name(
                    #[trigger] all_standard_fonts()[b],
                ),
            plain_dict(fonts_dict),
            fonts_dict.values@.len() == i,
            forall|t: int|
                0 <= t < i ==> (#[trigger] fonts_dict.values@[t]).0.value@ == font_name(all_standard_fonts()[t])
                    && is_font_dict(fonts_dict.values@[t].1, font_name(all_standard_fonts()[t])),
        decreases 12 - i,
    {
        let name = fonts[i].pdf_name();
        proof {
            if keys_of(fonts_dict.values@).contains(name@) {
                let t = choose|t: int|
                    0 <= t < keys_of(fonts_dict.values@).len() && keys_of(fonts_dict.values@)[t] == name@;
                assert(fonts_dict.values@[t].0.value@ == font_name(all_standard_fonts()[t]));
                assert(font_name(all_standard_fonts()[t]) != font_name(all_standard_fonts()[i as int]));
            }
        }
        fonts_dict.put_new(name, font_dict(name));
        i = i + 1;
    }
    Ok(fonts_dict)
}

} // verus!
