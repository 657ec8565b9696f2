//! String objects written as PDF text strings.
use vstd::prelude::*;
use crate::PdfError;
use crate::version::Version;

verus! {

/// A string object of the document.
#[derive(Clone)]
pub struct PdfStringObject {
    pub value: String,
}

/// Whether `c` must be preceded by a backslash inside a literal string.
pub open spec fn needs_escape(c: char) -> bool {
    c == '\\' || c == '(' || c == ')'
}

/// The bytes of ASCII characters, each of `\`, `(` and `)` preceded by a backslash.
pub open spec fn escaped_ascii(cs: Seq<char>) -> Seq<u8>
    decreases cs.len(),
{
    if cs.len() == 0 {
        Seq::empty()
    } else {
        let c = cs.last();
        escaped_ascii(cs.drop_last()) + if needs_escape(c) {
            seq!['\\' as u8, c as u8]
        } else {
            seq![c as u8]
        }
    }
}

/// A literal string: the escaped characters between parentheses.
pub open spec fn ascii_literal(cs: Seq<char>) -> Seq<u8> {
    seq!['(' as u8] + escaped_ascii(cs) + seq![')' as u8]
}

/// The UTF-16 code units of a character: one unit below U+10000, else a surrogate pair.
pub open spec fn utf16_units(c: char) -> Seq<u16> {
    let v = c as u32;
    if v < 0x10000 {
        seq![v as u16]
    } else {
        seq![(0xD800 + (v - 0x10000) / 1024) as u16, (0xDC00 + (v - 0x10000) % 1024) as u16]
    }
}

/// The big-endian bytes of the UTF-16 code units of a character.
pub open spec fn utf16_be_char(c: char) -> Seq<u8> {
    let u = utf16_units(c);
    if u.len() == 1 {
        seq![(u[0] / 256) as u8, (u[0] % 256) as u8]
    } else {
        seq![(u[0] / 256) as u8, (u[0] % 256) as u8, (u[1] / 256) as u8, (u[1] % 256) as u8]
    }
}

/// The UTF-16BE encoding of a character sequence.
pub open spec fn utf16_be(cs: Seq<char>) -> Seq<u8>
    decreases cs.len(),
{
    if cs.len() == 0 {
        Seq::empty()
    } else {
        utf16_be(cs.drop_last()) + utf16_be_char(cs.last())
    }
}

/// The UTF-8 byte-order mark.
pub open spec fn bom_utf8() -> Seq<u8> {
    seq![0xEFu8, 0xBBu8, 0xBFu8]
}

/// The UTF-16BE byte-order mark.
pub open spec fn bom_utf16() -> Seq<u8> {
    seq![0xFEu8, 0xFFu8]
}

/// A text string as written for the given PDF version: an escaped literal string when every
/// character is ASCII; otherwise, from PDF 2.0 on, the UTF-8 bytes after a UTF-8 byte-order
/// mark, and before PDF 2.0 the UTF-16BE bytes after a UTF-16 byte-order mark.
pub open spec fn text_string_bytes(cs: Seq<char>, version: Version) -> Seq<u8> {
    if vstd::utf8::is_ascii_chars(cs) {
        ascii_literal(cs)
    } else if crate::version::version_rank(version) >= 8 {
        bom_utf8() + vstd::utf8::encode_utf8(cs)
    } else {
        bom_utf16() + utf16_be(cs)
    }
}

/// A string of ASCII characters is written the same way for every version.
pub proof fn law_ascii_text_same_for_all_versions(cs: Seq<char>, v1: Version, v2: Version)
    requires
        vstd::utf8::is_ascii_chars(cs),
    ensures
        text_string_bytes(cs, v1) == text_string_bytes(cs, v2),
{
}

/// The bytes a reader takes from the inside of a literal string: a backslash stands for the
/// byte after it, every other byte for itself.
pub open spec fn literal_unescape(s: Seq<u8>) -> Seq<u8>
    decreases s.len(),
{
    if s.len() == 0 {
        Seq::empty()
    } else if s[0] == '\\' as u8 && s.len() >= 2 {
        seq![s[1]] + literal_unescape(s.subrange(2, s.len() as int))
    } else {
        seq![s[0]] + literal_unescape(s.subrange(1, s.len() as int))
    }
}

/// The inside of a literal string is well formed: every backslash has a byte after it to
/// escape, and no parenthesis stands unescaped, so the string ends at the closing `)`.
pub open spec fn well_escaped(s: Seq<u8>) -> bool
    decreases s.len(),
{
    if s.len() == 0 {
        true
    } else if s[0] == '\\' as u8 {
        s.len() >= 2 && well_escaped(s.subrange(2, s.len() as int))
    } else {
        s[0] != '(' as u8 && s[0] != ')' as u8 && well_escaped(s.subrange(1, s.len() as int))
    }
}

/// The bytes of ASCII characters, one for one.
pub open spec fn ascii_bytes(cs: Seq<char>) -> Seq<u8> {
    cs.map_values(|c: char| c as u8)
}

proof fn lemma_unescape_escaped(cs: Seq<char>, rest: Seq<u8>)
    requires
        vstd::utf8::is_ascii_chars(cs),
    ensures
        literal_unescape(escaped_ascii(cs) + rest) == ascii_bytes(cs) + literal_unescape(rest),
        well_escaped(escaped_ascii(cs) + rest) == well_escaped(rest),
    decreases cs.len(),
{
    if cs.len() > 0 {
        let c = cs.last();
        let init = cs.drop_last();
        assert(vstd::utf8::is_ascii_chars(init)) by {
            assert forall|i: int| 0 <= i < init.len() implies '\0' <= #[trigger] init[i] <= '\u{7f}' by {
                assert(init[i] == cs[i]);
            }
        }
        assert('\0' <= cs[cs.len() - 1] <= '\u{7f}');
        let piece: Seq<u8> = if needs_escape(c) {
            seq!['\\' as u8, c as u8]
        } else {
            seq![c as u8]
        };
        assert(escaped_ascii(cs) + rest =~= escaped_ascii(init) + (piece + rest));
        lemma_unescape_escaped(init, piece + rest);
        let pr = piece + rest;
        if needs_escape(c) {
            assert(pr.subrange(2, pr.len() as int) =~= rest);
        } else {
            assert(c as u8 != '\\' as u8);
            assert(pr.subrange(1, pr.len() as int) =~= rest);
        }
        assert(ascii_bytes(cs) =~= ascii_bytes(init) + seq![c as u8]);
    } else {
        assert(escaped_ascii(cs) + rest =~= rest);
        assert(ascii_bytes(cs) =~= Seq::<u8>::empty());
    }
}

/// A string of ASCII characters is written, for every version, as a literal string that a
/// reader takes back as exactly those characters: it opens with `(`, closes with `)`, what lies
/// between has no bare parenthesis and no dangling backslash, and undoing its backslash
/// escapes gives the characters' bytes.
pub proof fn law_ascii_literal_reads_back(cs: Seq<char>, version: Version)
    requires
        vstd::utf8::is_ascii_chars(cs),
    ensures
        ({
            let b = text_string_bytes(cs, version);
            &&& b.len() >= 2
            &&& b[0] == '(' as u8
            &&& b[b.len() - 1] == ')' as u8
            &&& literal_unescape(b.subrange(1, b.len() - 1)) == ascii_bytes(cs)
            &&& well_escaped(b.subrange(1, b.len() - 1))
        }),
{
    let b = text_string_bytes(cs, version);
    lemma_unescape_escaped(cs, Seq::empty());
    assert(escaped_ascii(cs) + Seq::<u8>::empty() =~= escaped_ascii(cs));
    assert(b.subrange(1, b.len() - 1) =~= escaped_ascii(cs));
    assert(ascii_bytes(cs) + literal_unescape(Seq::<u8>::empty()) =~= ascii_bytes(cs));
}

impl PdfStringObject {
    pub fn new(value: &str) -> (s: Self)
        ensures
            s.value@ == value@,
    {
        Self { value: value.to_owned() }
    }

    /// The text string of this object as written for `version`.
    pub fn encode(&self, version: Version) -> (r: Result<Vec<u8>, PdfError>)
        ensures
            r is Ok,
            r->Ok_0@ == text_string_bytes(self.value@, version),
    {
        Ok(encode_text_string(self.value.as_str(), version))
    }
}

/// The text string of `string` as written for `version` (see [`text_string_bytes`]).
pub fn encode_text_string(string: &str, version: Version) -> (b: Vec<u8>)
    ensures
        b@ == text_string_bytes(string@, version),
{
    if string.is_ascii() {
        encode_ascii(string)
    } else if version.is_at_least(Version::V2_2017) {
        encode_utf8(string)
    } else {
        encode_utf16(string)
    }
}

/// An escaped literal string between parentheses.
pub fn encode_ascii(string: &str) -> (b: Vec<u8>)
    requires
        vstd::utf8::is_ascii_chars(string@),
    ensures
        b@ == ascii_literal(string@),
{
    broadcast use vstd::string::group_string_axioms;
    let mut result: Vec<u8> = Vec::new();
    result.push('(' as u8);
    for ch in it: string.chars()
        invariant
            it.seq() == string@,
            vstd::utf8::is_ascii_chars(string@),
            result@ == seq!['(' as u8] + escaped_ascii(string@.take(it.index())),
    {
        let ghost before = string@.take(it.index());
        let ghost after = string@.take(it.index() + 1);
        assert(after.drop_last() =~= before);
        assert(after.last() == ch);
        if ch == '\\' || ch == '(' || ch == ')' {
            result.push('\\' as u8);
        }
        proof {
            assert('\0' <= ch <= '\u{7f}');
        }
        result.push(ch as u8);
        assert(result@ =~= seq!['(' as u8] + escaped_ascii(after));
    }
    result.push(')' as u8);
    assert(string@.take(string@.len() as int) =~= string@);
    result
}

/// The UTF-16BE bytes of `string` after a UTF-16 byte-order mark.
pub fn encode_utf16(string: &str) -> (b: Vec<u8>)
    ensures
        b@ == bom_utf16() + utf16_be(string@),
{
    broadcast use vstd::string::group_string_axioms;
    let mut bytes: Vec<u8> = Vec::new();
    bytes.push(0xFE);
    bytes.push(0xFF);
    for ch in it: string.chars()
        invariant
            it.seq() == string@,
            bytes@ == bom_utf16() + utf16_be(string@.take(it.index())),
    {
        let ghost before = string@.take(it.index());
        let ghost after = string@.take(it.index() + 1);
        assert(after.drop_last() =~= before);
        assert(after.last() == ch);
        let v: u32 = ch as u32;
        if v < 0x10000 {
            let u: u16 = v as u16;
            bytes.push((u / 256) as u8);
            bytes.push((u % 256) as u8);
        } else {
            proof {
                vstd::utf8::char_is_scalar(ch);
            }
            let w: u32 = v - 0x10000;
            let hi: u16 = (0xD800 + w / 1024) as u16;
            let lo: u16 = (0xDC00 + w % 1024) as u16;
            bytes.push((hi / 256) as u8);
            bytes.push((hi % 256) as u8);
            bytes.push((lo / 256) as u8);
            bytes.push((lo % 256) as u8);
        }
        assert(bytes@ =~= bom_utf16() + utf16_be(after));
    }
    assert(string@.take(string@.len() as int) =~= string@);
    bytes
}

/// The UTF-8 bytes of `string` after a UTF-8 byte-order mark.
pub fn encode_utf8(string: &str) -> (b: Vec<u8>)
    ensures
        b@ == bom_utf8() + vstd::utf8::encode_utf8(string@),
{
    let mut bytes: Vec<u8> = Vec::new();
    bytes.push(0xEF);
    bytes.push(0xBB);
    bytes.push(0xBF);
    crate::encoding::push_str(&mut bytes, string);
    assert(bytes@ =~= bom_utf8() + vstd::utf8::encode_utf8(string@));
    bytes
}

} // verus!
