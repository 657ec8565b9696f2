//! Cross-reference streams (PDF 1.5): the cross-reference information of a file as binary rows
//! in a stream object.
//!
//! Entry types:
//!  Type                  Num  Field2         Field3
//!  Free object           0    Next free obj  Generation (65535 for object 0)
//!  Uncompressed          1    Byte offset    Generation
//!  Compressed in objstm  2    objstm number  Index within objstm
use vstd::prelude::*;
use crate::cross_ref::{be_tail, push_be_tail};
use crate::encoding::{dec_digits, push_decimal, push_str};
use crate::objects::metadata::ObjectStatus;

verus! {

#[derive(Debug, Clone, Copy, PartialEq, Eq, Structural)]
pub enum CrossRefStreamEntry {
    FreeObject { next_free_obj: usize, generation: u16 },
    Uncompressed { byte_offset: usize, generation: u16 },
    CompressedInObjstm { objstm_number: usize, index_within_objstm: u16 },
}

/// The smallest number of bytes, at least one, that holds `v`.
pub open spec fn bytes_needed(v: nat) -> nat
    decreases v,
{
    if v < 256 {
        1
    } else {
        1 + bytes_needed(v / 256)
    }
}

/// `256^n`.
pub open spec fn pow256(n: nat) -> nat
    decreases n,
{
    if n == 0 {
        1
    } else {
        256 * pow256((n - 1) as nat)
    }
}

/// `v` fits in `n` bytes, and in no fewer.
pub proof fn lemma_bytes_needed(v: nat)
    ensures
        1 <= bytes_needed(v),
        v < pow256(bytes_needed(v)),
        bytes_needed(v) > 1 ==> v >= pow256((bytes_needed(v) - 1) as nat),
    decreases v,
{
    if v >= 256 {
        lemma_bytes_needed(v / 256);
        let n = bytes_needed(v / 256);
        let q = v / 256;
        let p = pow256(n);
        assert(pow256(n + 1) == 256 * p);
        assert(v < 256 * p) by (nonlinear_arith)
            requires
                q == v / 256,
                q < p,
        ;
        if n > 1 {
            let p1 = pow256((n - 1) as nat);
            assert(p == 256 * p1);
            assert(v >= 256 * p1) by (nonlinear_arith)
                requires
                    q == v / 256,
                    q >= p1,
            ;
        } else {
            assert(pow256(1) == 256 * pow256(0));
        }
        assert(bytes_needed(v) == n + 1);
    } else {
        assert(pow256(1) == 256 * pow256(0));
    }
}

pub proof fn lemma_bytes_needed_bound(v: nat, n: nat)
    requires
        v < pow256(n),
        n >= 1,
    ensures
        bytes_needed(v) <= n,
    decreases v,
{
    if v >= 256 {
        assert(n >= 2) by {
            if n == 1 {
                assert(pow256(1) == 256 * pow256(0));
            }
        }
        assert(pow256(n) == 256 * pow256((n - 1) as nat));
        lemma_bytes_needed_bound(v / 256, (n - 1) as nat);
    }
}

/// The type and the two fields of an entry.
pub open spec fn entry_fields(e: CrossRefStreamEntry) -> (u8, nat, nat) {
    match e {
        CrossRefStreamEntry::FreeObject { next_free_obj, generation } => (0, next_free_obj as nat, generation as nat),
        CrossRefStreamEntry::Uncompressed { byte_offset, generation } => (1, byte_offset as nat, generation as nat),
        CrossRefStreamEntry::CompressedInObjstm { objstm_number, index_within_objstm } => (
            2,
            objstm_number as nat,
            index_within_objstm as nat,
        ),
    }
}

/// The entry that describes an object: a free entry (generation 65535 when the offset, which
/// then stands for the object number, is 0), an entry in an object stream when the object was
/// compressed into one, and an uncompressed entry otherwise.
pub open spec fn entry_for(
    status: ObjectStatus,
    offset: usize,
    generation: u16,
    compression_info: Option<(usize, usize)>,
) -> CrossRefStreamEntry {
    if status == ObjectStatus::Free {
        CrossRefStreamEntry::FreeObject {
            next_free_obj: 0,
            generation: if offset == 0 { 65535 } else { 0 },
        }
    } else if compression_info is Some {
        CrossRefStreamEntry::CompressedInObjstm {
            objstm_number: compression_info->Some_0.0,
            index_within_objstm: compression_info->Some_0.1 as u16,
        }
    } else {
        CrossRefStreamEntry::Uncompressed { byte_offset: offset, generation }
    }
}

/// The widths of the two fields that every entry of `s` needs, and at least 1.
pub open spec fn optimal_widths(s: Seq<CrossRefStreamEntry>) -> (nat, nat)
    decreases s.len(),
{
    if s.len() == 0 {
        (1, 1)
    } else {
        let w = optimal_widths(s.drop_last());
        let f = entry_fields(s.last());
        (vstd::math::max(w.0 as int, bytes_needed(f.1) as int) as nat, vstd::math::max(
            w.1 as int,
            bytes_needed(f.2) as int,
        ) as nat)
    }
}

/// The binary rows of the entries: for each, the type byte, the second field in `w2`
/// big-endian bytes and the third field in `w3`.
pub open spec fn stream_rows(s: Seq<CrossRefStreamEntry>, w2: nat, w3: nat) -> Seq<u8>
    decreases s.len(),
{
    if s.len() == 0 {
        Seq::empty()
    } else {
        let f = entry_fields(s.last());
        stream_rows(s.drop_last(), w2, w3) + seq![f.0] + be_tail(f.1, w2) + be_tail(f.2, w3)
    }
}

impl CrossRefStreamEntry {
    pub fn from_object_metadata(
        status: ObjectStatus,
        offset: usize,
        generation: u16,
        compression_info: Option<(usize, usize)>,
    ) -> (e: Self)
        ensures
            e == entry_for(status, offset, generation, compression_info),
    {
        if status == ObjectStatus::Free {
            CrossRefStreamEntry::FreeObject {
                next_free_obj: 0,
                generation: if offset == 0 { 65535 } else { 0 },
            }
        } else if let Some((objstm_num, index)) = compression_info {
            CrossRefStreamEntry::CompressedInObjstm {
                objstm_number: objstm_num,
                index_within_objstm: index as u16,
            }
        } else {
            CrossRefStreamEntry::Uncompressed { byte_offset: offset, generation }
        }
    }

    /// The smallest number of bytes, at least one, that holds `value`.
    pub fn bytes_needed_usize(value: usize) -> (n: usize)
        ensures
            n as nat == bytes_needed(value as nat),
            1 <= n <= 8,
    {
        proof {
            lemma_bytes_needed(value as nat);
            assert(pow256(8) == 0x1_0000_0000_0000_0000) by {
                reveal_with_fuel(pow256, 9);
            }
            lemma_bytes_needed_bound(value as nat, 8);
        }
        let mut v = value;
        let mut n: usize = 1;
        while v >= 256
            invariant
                1 <= n <= 8,
                n + bytes_needed(v as nat) - 1 == bytes_needed(value as nat),
                bytes_needed(value as nat) <= 8,
            decreases v,
        {
            proof {
                lemma_bytes_needed((v / 256) as nat);
            }
            v = v / 256;
            n = n + 1;
        }
        n
    }

    /// The smallest number of bytes, at least one, that holds `value`.
    pub fn bytes_needed_u16(value: u16) -> (n: usize)
        ensures
            n as nat == bytes_needed(value as nat),
            1 <= n <= 2,
    {
        if value < 256 {
            1
        } else {
            assert(bytes_needed((value / 256) as nat) == 1);
            2
        }
    }

    /// The type byte of the entry: 0 free, 1 uncompressed, 2 in an object stream.
    pub fn type_byte(&self) -> (b: u8)
        ensures
            b == entry_fields(*self).0,
    {
        match self {
            CrossRefStreamEntry::FreeObject { .. } => 0,
            CrossRefStreamEntry::Uncompressed { .. } => 1,
            CrossRefStreamEntry::CompressedInObjstm { .. } => 2,
        }
    }

    /// The smallest widths of the two fields that hold this entry.
    pub fn required_widths(&self) -> (w: (usize, usize))
        ensures
            w.0 as nat == bytes_needed(entry_fields(*self).1),
            w.1 as nat == bytes_needed(entry_fields(*self).2),
            1 <= w.0 <= 8,
            1 <= w.1 <= 2,
    {
        match self {
            CrossRefStreamEntry::FreeObject { next_free_obj, generation } => (
                Self::bytes_needed_usize(*next_free_obj),
                Self::bytes_needed_u16(*generation),
            ),
            CrossRefStreamEntry::Uncompressed { byte_offset, generation } => (
                Self::bytes_needed_usize(*byte_offset),
                Self::bytes_needed_u16(*generation),
            ),
            CrossRefStreamEntry::CompressedInObjstm { objstm_number, index_within_objstm } => (
                Self::bytes_needed_usize(*objstm_number),
                Self::bytes_needed_u16(*index_within_objstm),
            ),
        }
    }
}

/// The entries of a cross-reference stream, starting with the free root entry.
pub struct CrossRefStream {
    entries: Vec<CrossRefStreamEntry>,
}

impl View for CrossRefStream {
    type V = Seq<CrossRefStreamEntry>;

    closed spec fn view(&self) -> Seq<CrossRefStreamEntry> {
        self.entries@
    }
}

/// The widths stay within the eight bytes of an offset and the two bytes of a generation.
pub proof fn lemma_optimal_widths_bounds(s: Seq<CrossRefStreamEntry>)
    ensures
        1 <= optimal_widths(s).0 <= 8,
        1 <= optimal_widths(s).1 <= 2,
    decreases s.len(),
{
    if s.len() > 0 {
        lemma_optimal_widths_bounds(s.drop_last());
        let f = entry_fields(s.last());
        assert(pow256(8) == 0x1_0000_0000_0000_0000) by {
            reveal_with_fuel(pow256, 9);
        }
        assert(pow256(2) == 65536) by {
            reveal_with_fuel(pow256, 3);
        }
        lemma_bytes_needed_bound(f.1, 8);
        lemma_bytes_needed_bound(f.2, 2);
    }
}

/// Every entry fits in the widths that `calculate_optimal_widths` gives: each field is below
/// `256^width`, so the binary rows lose nothing.
pub proof fn law_optimal_widths_fit(s: Seq<CrossRefStreamEntry>, i: int)
    requires
        0 <= i < s.len(),
    ensures
        entry_fields(s[i]).1 < pow256(optimal_widths(s).0),
        entry_fields(s[i]).2 < pow256(optimal_widths(s).1),
    decreases s.len(),
{
    let f = entry_fields(s[i]);
    lemma_bytes_needed(f.1);
    lemma_bytes_needed(f.2);
    lemma_widths_cover(s, i);
    lemma_pow256_monotone(bytes_needed(f.1), optimal_widths(s).0);
    lemma_pow256_monotone(bytes_needed(f.2), optimal_widths(s).1);
}

proof fn lemma_widths_cover(s: Seq<CrossRefStreamEntry>, i: int)
    requires
        0 <= i < s.len(),
    ensures
        bytes_needed(entry_fields(s[i]).1) <= optimal_widths(s).0,
        bytes_needed(entry_fields(s[i]).2) <= optimal_widths(s).1,
    decreases s.len(),
{
    if i < s.len() - 1 {
        lemma_widths_cover(s.drop_last(), i);
    }
}

proof fn lemma_pow256_monotone(a: nat, b: nat)
    requires
        a <= b,
    ensures
        pow256(a) <= pow256(b),
    decreases b,
{
    if a < b {
        lemma_pow256_monotone(a, (b - 1) as nat);
        assert(pow256(b) == 256 * pow256((b - 1) as nat));
    }
}

/// The number that the big-endian bytes `b` stand for.
pub open spec fn be_value(b: Seq<u8>) -> nat
    decreases b.len(),
{
    if b.len() == 0 {
        0
    } else {
        be_value(b.drop_last()) * 256 + b.last() as nat
    }
}

/// A value below `256^n` written in `n` big-endian bytes reads back as itself.
proof fn lemma_be_roundtrip(v: nat, n: nat)
    requires
        v < pow256(n),
    ensures
        be_tail(v, n).len() == n,
        be_value(be_tail(v, n)) == v,
    decreases n,
{
    if n > 0 {
        let p = pow256((n - 1) as nat);
        assert(pow256(n) == 256 * p);
        assert(v / 256 < p) by (nonlinear_arith)
            requires
                v < 256 * p,
        ;
        lemma_be_roundtrip(v / 256, (n - 1) as nat);
        let t = be_tail(v, n);
        assert(t.drop_last() =~= be_tail(v / 256, (n - 1) as nat));
        assert(t.last() == (v % 256) as u8);
        assert((v / 256) * 256 + v % 256 == v);
    }
}

/// The row of one entry: its type, then its two fields in `w2` and `w3` big-endian bytes.
pub open spec fn stream_row(e: CrossRefStreamEntry, w2: nat, w3: nat) -> Seq<u8> {
    let f = entry_fields(e);
    seq![f.0] + be_tail(f.1, w2) + be_tail(f.2, w3)
}

/// The rows of `s` take `1 + w2 + w3` bytes each.
proof fn lemma_stream_rows_len(s: Seq<CrossRefStreamEntry>, w2: nat, w3: nat)
    ensures
        stream_rows(s, w2, w3).len() == s.len() * (1 + w2 + w3),
    decreases s.len(),
{
    let n = 1 + w2 + w3;
    if s.len() > 0 {
        let p = s.drop_last();
        let f = entry_fields(s.last());
        lemma_stream_rows_len(p, w2, w3);
        lemma_be_tail_len(f.1, w2);
        lemma_be_tail_len(f.2, w3);
        assert(s.len() * n == p.len() * n + n) by (nonlinear_arith)
            requires
                s.len() == p.len() + 1,
        ;
    }
}

/// The rows of `s` lie one after another, each `1 + w2 + w3` bytes long.
proof fn lemma_stream_rows_layout(s: Seq<CrossRefStreamEntry>, w2: nat, w3: nat, i: int)
    requires
        0 <= i < s.len(),
    ensures
        stream_rows(s, w2, w3).len() == s.len() * (1 + w2 + w3),
        0 <= i * (1 + w2 + w3),
        (i + 1) * (1 + w2 + w3) <= s.len() * (1 + w2 + w3),
        stream_rows(s, w2, w3).subrange(i * (1 + w2 + w3), (i + 1) * (1 + w2 + w3)) == stream_row(s[i], w2, w3),
    decreases s.len(),
{
    let n = 1 + w2 + w3;
    let p = s.drop_last();
    let f = entry_fields(s.last());
    lemma_be_tail_len(f.1, w2);
    lemma_be_tail_len(f.2, w3);
    lemma_stream_rows_len(s, w2, w3);
    lemma_stream_rows_len(p, w2, w3);
    let last_row = stream_row(s.last(), w2, w3);
    assert(stream_rows(s, w2, w3) =~= stream_rows(p, w2, w3) + last_row);
    assert(s.len() * n == p.len() * n + n) by (nonlinear_arith)
        requires
            s.len() == p.len() + 1,
    ;
    assert(0 <= i * n && (i + 1) * n <= s.len() * n && (i + 1) * n == i * n + n) by (nonlinear_arith)
        requires
            0 <= i < s.len(),
            n >= 1,
    ;
    if i < p.len() {
        lemma_stream_rows_layout(p, w2, w3, i);
        assert(stream_rows(s, w2, w3).subrange(i * n, (i + 1) * n) =~= stream_rows(p, w2, w3).subrange(
            i * n,
            (i + 1) * n,
        ));
        assert(s[i] == p[i]);
    } else {
        assert(i * n == p.len() * n);
        assert(stream_rows(s, w2, w3).subrange(i * n, (i + 1) * n) =~= last_row);
    }
}

proof fn lemma_be_tail_len(v: nat, n: nat)
    ensures
        be_tail(v, n).len() == n,
    decreases n,
{
    if n > 0 {
        lemma_be_tail_len(v / 256, (n - 1) as nat);
    }
}

/// The binary rows of a cross-reference stream read back as its entries, in order: with the
/// widths of [`optimal_widths`], row `i` is the type of entry `i` followed by its two fields,
/// each read back in full from its big-endian bytes.
pub proof fn law_stream_rows_decode(s: Seq<CrossRefStreamEntry>, i: int)
    requires
        0 <= i < s.len(),
    ensures
        ({
            let w = optimal_widths(s);
            let n = 1 + w.0 + w.1;
            let rows = stream_rows(s, w.0, w.1);
            let f = entry_fields(s[i]);
            &&& rows.len() == s.len() * n
            &&& rows[i * n] == f.0
            &&& be_value(rows.subrange(i * n + 1, i * n + 1 + w.0)) == f.1
            &&& be_value(rows.subrange(i * n + 1 + w.0, (i + 1) * n)) == f.2
        }),
{
    let w = optimal_widths(s);
    let n = 1 + w.0 + w.1;
    let rows = stream_rows(s, w.0, w.1);
    let f = entry_fields(s[i]);
    lemma_stream_rows_layout(s, w.0, w.1, i);
    law_optimal_widths_fit(s, i);
    lemma_be_roundtrip(f.1, w.0);
    lemma_be_roundtrip(f.2, w.1);
    assert((i + 1) * n == i * n + n) by (nonlinear_arith)
        requires
            n >= 1,
    ;
    let row = rows.subrange(i * n, (i + 1) * n);
    assert(row =~= stream_row(s[i], w.0, w.1));
    assert(row.len() == n);
    assert(rows[i * n] == row[0]);
    assert(rows.subrange(i * n + 1, i * n + 1 + w.0) =~= row.subrange(1, 1 + w.0 as int));
    assert(row.subrange(1, 1 + w.0 as int) =~= be_tail(f.1, w.0));
    assert(rows.subrange(i * n + 1 + w.0, (i + 1) * n) =~= row.subrange(1 + w.0 as int, n as int));
    assert(row.subrange(1 + w.0 as int, n as int) =~= be_tail(f.2, w.1));
}

/// The `W` array of the dictionary: `[ 1 w2 w3 ]`.
pub open spec fn w_array_text(w2: nat, w3: nat) -> Seq<u8> {
    vstd::utf8::encode_utf8("[ 1 "@) + dec_digits(w2) + seq![' ' as u8] + dec_digits(w3) + vstd::utf8::encode_utf8(" ]"@)
}

/// The complete cross-reference stream object: `N 0 obj`, the dictionary
/// `<< /Type /XRef /Size n /Root r 0 R /W [ 1 w2 w3 ] /Info i 0 R /Length l >>` (the `Info`
/// entry only when there is an information dictionary), `stream`, the binary rows,
/// `endstream` and `endobj`.
pub open spec fn stream_object_text(
    s: Seq<CrossRefStreamEntry>,
    stream_num: nat,
    root_obj_id: nat,
    info_obj_id: Option<nat>,
) -> Seq<u8> {
    let w = optimal_widths(s);
    let rows = stream_rows(s, w.0, w.1);
    let info: Seq<u8> = match info_obj_id {
        Some(i) => vstd::utf8::encode_utf8(" /Info "@) + dec_digits(i) + vstd::utf8::encode_utf8(" 0 R"@),
        None => Seq::empty(),
    };
    dec_digits(stream_num) + vstd::utf8::encode_utf8(" 0 obj\n<< /Type /XRef /Size "@) + dec_digits(s.len())
        + vstd::utf8::encode_utf8(" /Root "@) + dec_digits(root_obj_id) + vstd::utf8::encode_utf8(" 0 R /W "@)
        + w_array_text(w.0, w.1) + info + vstd::utf8::encode_utf8(" /Length "@) + dec_digits(rows.len())
        + vstd::utf8::encode_utf8(" >>\nstream\n"@) + rows + vstd::utf8::encode_utf8("\nendstream\nendobj"@)
}

impl CrossRefStream {
    pub fn new() -> (s: Self)
        ensures
            s@ == seq![CrossRefStreamEntry::FreeObject { next_free_obj: 0, generation: 65535 }],
    {
        let mut stream = CrossRefStream { entries: Vec::new() };
        stream.entries.push(CrossRefStreamEntry::FreeObject { next_free_obj: 0, generation: 65535 });
        stream
    }

    pub fn add_entry(&mut self, entry: CrossRefStreamEntry)
        ensures
            final(self)@ == old(self)@.push(entry),
    {
        self.entries.push(entry);
    }

    /// The smallest field widths that hold every entry (see [`optimal_widths`]).
    pub fn calculate_optimal_widths(&self) -> (w: (usize, usize))
        ensures
            w.0 as nat == optimal_widths(self@).0,
            w.1 as nat == optimal_widths(self@).1,
            1 <= w.0 <= 8,
            1 <= w.1 <= 2,
    {
        let mut max2: usize = 1;
        let mut max3: usize = 1;
        let mut i: usize = 0;
        while i < self.entries.len()
            invariant
                i <= self.entries@.len(),
                max2 as nat == optimal_widths(self.entries@.take(i as int)).0,
                max3 as nat == optimal_widths(self.entries@.take(i as int)).1,
                1 <= max2 <= 8,
                1 <= max3 <= 2,
            decreases self.entries@.len() - i,
        {
            let (w2, w3) = self.entries[i].required_widths();
            if w2 > max2 {
                max2 = w2;
            }
            if w3 > max3 {
                max3 = w3;
            }
            assert(self.entries@.take(i + 1).drop_last() =~= self.entries@.take(i as int));
            i = i + 1;
        }
        assert(self.entries@.take(self.entries@.len() as int) =~= self.entries@);
        (max2, max3)
    }

    /// The binary rows of the entries (see [`stream_rows`]); the widths are at most the eight
    /// bytes of an offset and the two bytes of a generation.
    pub fn build_binary_data(&self, field2_width: usize, field3_width: usize) -> (data: Vec<u8>)
        requires
            field2_width <= 8,
            field3_width <= 2,
        ensures
            data@ == stream_rows(self@, field2_width as nat, field3_width as nat),
    {
        let mut data: Vec<u8> = Vec::new();
        let mut i: usize = 0;
        while i < self.entries.len()
            invariant
                i <= self.entries@.len(),
                data@ == stream_rows(self.entries@.take(i as int), field2_width as nat, field3_width as nat),
            decreases self.entries@.len() - i,
        {
            let entry = self.entries[i];
            data.push(entry.type_byte());
            let (field2, field3): (usize, u16) = match entry {
                CrossRefStreamEntry::FreeObject { next_free_obj, generation } => (next_free_obj, generation),
                CrossRefStreamEntry::Uncompressed { byte_offset, generation } => (byte_offset, generation),
                CrossRefStreamEntry::CompressedInObjstm { objstm_number, index_within_objstm } => (
                    objstm_number,
                    index_within_objstm,
                ),
            };
            push_be_tail(&mut data, field2 as u64, field2_width);
            push_be_tail(&mut data, field3 as u64, field3_width);
            assert(self.entries@.take(i + 1).drop_last() =~= self.entries@.take(i as int));
            i = i + 1;
        }
        assert(self.entries@.take(self.entries@.len() as int) =~= self.entries@);
        data
    }

    pub fn entry_count(&self) -> (n: usize)
        ensures
            n == self@.len(),
    {
        self.entries.len()
    }

    /// The complete cross-reference stream object (see [`stream_object_text`]), with the
    /// length of its binary data, for writing it into a file.
    pub fn build_stream_object(&self, stream_num: usize, root_obj_id: usize, info_obj_id: Option<usize>) -> (r: (
        Vec<u8>,
        usize,
    ))
        ensures
            r.1 == stream_rows(self@, optimal_widths(self@).0, optimal_widths(self@).1).len(),
            r.0@ == stream_object_text(
                self@,
                stream_num as nat,
                root_obj_id as nat,
                match info_obj_id {
                    Some(i) => Some(i as nat),
                    None => None,
                },
            ),
    {
        let (field2_width, field3_width) = self.calculate_optimal_widths();
        let xref_data = self.build_binary_data(field2_width, field3_width);
        let mut out: Vec<u8> = Vec::new();
        push_decimal(&mut out, stream_num as u64);
        push_str(&mut out, " 0 obj\n<< /Type /XRef /Size ");
        push_decimal(&mut out, self.entries.len() as u64);
        push_str(&mut out, " /Root ");
        push_decimal(&mut out, root_obj_id as u64);
        push_str(&mut out, " 0 R /W ");
        let ghost before_w = out@;
        push_str(&mut out, "[ 1 ");
        push_decimal(&mut out, field2_width as u64);
        out.push(' ' as u8);
        push_decimal(&mut out, field3_width as u64);
        push_str(&mut out, " ]");
        assert(out@ =~= before_w + w_array_text(field2_width as nat, field3_width as nat));
        let ghost before_info = out@;
        if let Some(info_id) = info_obj_id {
            push_str(&mut out, " /Info ");
            push_decimal(&mut out, info_id as u64);
            push_str(&mut out, " 0 R");
        }
        let ghost after_info = out@;
        push_str(&mut out, " /Length ");
        push_decimal(&mut out, xref_data.len() as u64);
        push_str(&mut out, " >>\nstream\n");
        crate::encoding::push_slice(&mut out, xref_data.as_slice());
        push_str(&mut out, "\nendstream\nendobj");
        proof {
            let s = self@;
            let w = optimal_widths(s);
            let rows = stream_rows(s, w.0, w.1);
            let info: Seq<u8> = match info_obj_id {
                Some(i) => vstd::utf8::encode_utf8(" /Info "@) + dec_digits(i as nat) + vstd::utf8::encode_utf8(" 0 R"@),
                None => Seq::empty(),
            };
            assert(after_info =~= before_info + info);
        }
        assert(out@ =~= stream_object_text(
            self@,
            stream_num as nat,
            root_obj_id as nat,
            match info_obj_id {
                Some(i) => Some(i as nat),
                None => None,
            },
        ));
        (out, xref_data.len())
    }
}

} // verus!
