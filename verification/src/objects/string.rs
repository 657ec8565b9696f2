//! String objects written as text: an escaped literal for ASCII text, hexadecimal UTF-16
//! otherwise.
use vstd::prelude::*;
use crate::objects::metadata::PdfMetadata;
use crate::objects::pdf_string::{needs_escape, utf16_units};

verus! {

/// A string object with its cross-reference data.
pub struct StringObject {
    value: Option<String>,
    metadata: PdfMetadata,
}

/// The characters of `cs`, each of `\`, `(` and `)` preceded by a backslash.
pub open spec fn escaped_chars(cs: Seq<char>) -> Seq<char>
    decreases cs.len(),
{
    if cs.len() == 0 {
        Seq::empty()
    } else {
        let c = cs.last();
        escaped_chars(cs.drop_last()) + if needs_escape(c) {
            seq!['\\', c]
        } else {
            seq![c]
        }
    }
}

/// The escaped characters between parentheses.
pub open spec fn literal_chars(cs: Seq<char>) -> Seq<char> {
    seq!['('] + escaped_chars(cs) + seq![')']
}

/// The upper-case hexadecimal digit of `d` (0 to 15).
pub open spec fn hex_digit(d: int) -> char {
    if d < 10 {
        (('0' as int) + d) as char
    } else {
        (('A' as int) + d - 10) as char
    }
}

/// A 16-bit unit as four upper-case hexadecimal digits.
pub open spec fn hex4(u: u16) -> Seq<char> {
    let v = u as int;
    seq![hex_digit(v / 4096), hex_digit((v / 256) % 16), hex_digit((v / 16) % 16), hex_digit(v % 16)]
}

/// The hexadecimal digits of the UTF-16 units of one character.
pub open spec fn char_hex(c: char) -> Seq<char> {
    let u = utf16_units(c);
    if u.len() == 1 {
        hex4(u[0])
    } else {
        hex4(u[0]) + hex4(u[1])
    }
}

/// The hexadecimal digits of the UTF-16 units of `cs`.
pub open spec fn utf16_hex(cs: Seq<char>) -> Seq<char>
    decreases cs.len(),
{
    if cs.len() == 0 {
        Seq::empty()
    } else {
        utf16_hex(cs.drop_last()) + char_hex(cs.last())
    }
}

/// The UTF-16BE bytes of `cs` with their byte-order mark, hex-encoded: `<`, `FEFF`, the
/// hexadecimal UTF-16 units in upper case, `>`.
pub open spec fn non_ascii_text(cs: Seq<char>) -> Seq<char> {
    "<FEFF"@ + utf16_hex(cs) + ">"@
}

/// The text of a string: an escaped literal when every character is ASCII, the hexadecimal
/// UTF-16 form otherwise.
pub open spec fn pdf_string_text(cs: Seq<char>) -> Seq<char> {
    if vstd::utf8::is_ascii_chars(cs) {
        literal_chars(cs)
    } else {
        non_ascii_text(cs)
    }
}

impl StringObject {
    pub closed spec fn spec_value(&self) -> Option<Seq<char>> {
        match self.value {
            Some(s) => Some(s@),
            None => None,
        }
    }

    pub closed spec fn spec_metadata(&self) -> PdfMetadata {
        self.metadata
    }

    /// A string object of in-use, unnumbered metadata.
    pub fn new(value: Option<String>) -> (s: Self)
        ensures
            s.spec_value() == match value {
                Some(v) => Some(v@),
                None => None::<Seq<char>>,
            },
            s.spec_metadata() == PdfMetadata::default_spec(),
    {
        Self { value, metadata: PdfMetadata::new() }
    }

    pub fn metadata(&self) -> (m: &PdfMetadata)
        ensures
            *m == self.spec_metadata(),
    {
        &self.metadata
    }

    /// The string as written, the empty string when there is no value.
    pub fn data(&self) -> (s: String)
        ensures
            s@ == pdf_string_text(
                match self.spec_value() {
                    Some(v) => v,
                    None => Seq::<char>::empty(),
                },
            ),
    {
        match &self.value {
            Some(v) => encode_pdf_string(v.as_str()),
            None => {
                proof {
                    reveal_strlit("");
                    assert(""@ =~= Seq::<char>::empty());
                }
                encode_pdf_string("")
            },
        }
    }
}

/// The text of `string` (see [`pdf_string_text`]).
pub fn encode_pdf_string(string: &str) -> (s: String)
    ensures
        s@ == pdf_string_text(string@),
{
    if string.is_ascii() {
        encode_ascii(string)
    } else {
        encode_non_ascii(string)
    }
}

/// The characters of `string` between parentheses, each of `\`, `(` and `)` escaped.
pub fn encode_ascii(string: &str) -> (s: String)
    ensures
        s@ == literal_chars(string@),
{
    broadcast use vstd::string::group_string_axioms;
    let mut result = String::new();
    crate::encoding::string_push_char(&mut result, '(');
    for ch in it: string.chars()
        invariant
            it.seq() == string@,
            result@ == seq!['('] + escaped_chars(string@.take(it.index())),
    {
        let ghost before = string@.take(it.index());
        let ghost after = string@.take(it.index() + 1);
        assert(after.drop_last() =~= before);
        assert(after.last() == ch);
        if ch == '\\' || ch == '(' || ch == ')' {
            crate::encoding::string_push_char(&mut result, '\\');
        }
        crate::encoding::string_push_char(&mut result, ch);
        assert(result@ =~= seq!['('] + escaped_chars(after));
    }
    crate::encoding::string_push_char(&mut result, ')');
    assert(string@.take(string@.len() as int) =~= string@);
    result
}

/// The upper-case hexadecimal digit of `d`.
fn hex_char(d: u16) -> (c: char)
    requires
        d < 16,
    ensures
        c == hex_digit(d as int),
{
    match d {
        0 => '0',
        1 => '1',
        2 => '2',
        3 => '3',
        4 => '4',
        5 => '5',
        6 => '6',
        7 => '7',
        8 => '8',
        9 => '9',
        10 => 'A',
        11 => 'B',
        12 => 'C',
        13 => 'D',
        14 => 'E',
        _ => 'F',
    }
}

/// Appends the four hexadecimal digits of `u`.
fn push_hex4(s: &mut String, u: u16)
    ensures
        final(s)@ == old(s)@ + hex4(u),
{
    let ghost start = s@;
    crate::encoding::string_push_char(s, hex_char(u / 4096));
    crate::encoding::string_push_char(s, hex_char((u / 256) % 16));
    crate::encoding::string_push_char(s, hex_char((u / 16) % 16));
    crate::encoding::string_push_char(s, hex_char(u % 16));
    assert(s@ =~= start + hex4(u));
}

/// `<FEFF`, the UTF-16 units of `string` as upper-case hexadecimal digits, `>`.
pub fn encode_non_ascii(string: &str) -> (s: String)
    ensures
        s@ == non_ascii_text(string@),
{
    broadcast use vstd::string::group_string_axioms;
    let mut hex_content = String::new();
    for ch in it: string.chars()
        invariant
            it.seq() == string@,
            hex_content@ == utf16_hex(string@.take(it.index())),
    {
        let ghost before = string@.take(it.index());
        let ghost after = string@.take(it.index() + 1);
        assert(after.drop_last() =~= before);
        assert(after.last() == ch);
        let v: u32 = ch as u32;
        if v < 0x10000 {
            push_hex4(&mut hex_content, v as u16);
        } else {
            proof {
                vstd::utf8::char_is_scalar(ch);
            }
            let w: u32 = v - 0x10000;
            let hi: u16 = (0xD800 + w / 1024) as u16;
            let lo: u16 = (0xDC00 + w % 1024) as u16;
            push_hex4(&mut hex_content, hi);
            push_hex4(&mut hex_content, lo);
        }
        assert(hex_content@ =~= utf16_hex(after));
    }
    assert(string@.take(string@.len() as int) =~= string@);
    let mut result = String::new();
    crate::encoding::string_push_str(&mut result, "<FEFF");
    crate::encoding::string_push_str(&mut result, hex_content.as_str());
    crate::encoding::string_push_str(&mut result, ">");
    result
}

} // verus!
