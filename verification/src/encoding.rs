//! Text forms of numbers and bytes as they are written into a PDF file.
use vstd::prelude::*;

verus! {

/// The ASCII code of the decimal digit `d` (0 to 9).
pub open spec fn digit(d: int) -> u8 {
    (48 + d) as u8
}

/// The decimal digits of `n`, most significant first, without leading zeros.
pub open spec fn dec_digits(n: nat) -> Seq<u8>
    decreases n,
{
    if n < 10 {
        seq![digit(n as int)]
    } else {
        dec_digits(n / 10).push(digit((n % 10) as int))
    }
}

/// The number that the decimal digits `s` stand for.
pub open spec fn digits_value(s: Seq<u8>) -> int
    decreases s.len(),
{
    if s.len() == 0 {
        0
    } else {
        digits_value(s.drop_last()) * 10 + (s.last() - 48)
    }
}

proof fn lemma_digits_value(n: nat)
    ensures
        digits_value(dec_digits(n)) == n,
    decreases n,
{
    let d = dec_digits(n);
    if n >= 10 {
        lemma_digits_value(n / 10);
        assert(d == dec_digits(n / 10).push(digit((n % 10) as int)));
        assert(d.drop_last() =~= dec_digits(n / 10));
        assert(d.last() == digit((n % 10) as int));
        assert(digit((n % 10) as int) == 48 + n % 10);
        assert(digits_value(d) == digits_value(d.drop_last()) * 10 + (d.last() - 48));
        assert((n / 10) * 10 + n % 10 == n);
    } else {
        assert(d == seq![digit(n as int)]);
        assert(d.drop_last() =~= Seq::<u8>::empty());
        assert(digit(n as int) == 48 + n);
        assert(digits_value(d) == digits_value(d.drop_last()) * 10 + (d.last() - 48));
    }
}

/// Different numbers have different decimal digits.
pub proof fn lemma_dec_digits_injective(n: nat, m: nat)
    requires
        dec_digits(n) == dec_digits(m),
    ensures
        n == m,
{
    lemma_digits_value(n);
    lemma_digits_value(m);
}

/// Different numbers have different decimal texts.
pub proof fn lemma_dec_text_injective(n: nat, m: nat)
    requires
        ascii_chars(dec_digits(n)) == ascii_chars(dec_digits(m)),
    ensures
        n == m,
{
    let a = dec_digits(n);
    let b = dec_digits(m);
    assert(ascii_chars(a).len() == a.len());
    assert(ascii_chars(b).len() == b.len());
    assert(a.len() == b.len());
    assert forall|i: int| 0 <= i < a.len() implies a[i] == b[i] by {
        assert(ascii_chars(a)[i] == ascii_chars(b)[i]);
        assert(ascii_chars(a)[i] == a[i] as char);
        assert(ascii_chars(b)[i] == b[i] as char);
        assert((a[i] as char) as u8 == a[i]);
        assert((b[i] as char) as u8 == b[i]);
    }
    assert(a =~= b);
    lemma_dec_digits_injective(n, m);
}

/// The decimal text of an integer: a minus sign for negative values, then the digits.
pub open spec fn int_text(i: int) -> Seq<u8> {
    if i < 0 {
        seq!['-' as u8] + dec_digits((-i) as nat)
    } else {
        dec_digits(i as nat)
    }
}

/// `n` ASCII zeros.
pub open spec fn zeros(n: nat) -> Seq<u8> {
    Seq::new(n, |_i: int| '0' as u8)
}

/// The decimal digits of `n`, padded on the left with zeros to at least `width` characters.
pub open spec fn zero_padded(n: nat, width: nat) -> Seq<u8> {
    let d = dec_digits(n);
    if d.len() >= width {
        d
    } else {
        zeros((width - d.len()) as nat) + d
    }
}

/// `s` without its trailing ASCII zeros.
pub open spec fn trim_zeros(s: Seq<u8>) -> Seq<u8>
    decreases s.len(),
{
    if s.len() > 0 && s.last() == '0' as u8 {
        trim_zeros(s.drop_last())
    } else {
        s
    }
}

/// Number of ten-thousandths in one: a real number is held as a count of ten-thousandths.
pub const REAL_SCALE: i64 = 10000;

/// The text of the real number `v / 10000`: at most four decimals, written without trailing
/// zeros, and without a decimal point when the value is whole.
pub open spec fn real_text(v: int) -> Seq<u8> {
    let a: nat = if v < 0 { (-v) as nat } else { v as nat };
    let sign: Seq<u8> = if v < 0 { seq!['-' as u8] } else { Seq::empty() };
    let frac: nat = a % 10000;
    if frac == 0 {
        sign + dec_digits(a / 10000)
    } else {
        sign + dec_digits(a / 10000) + seq!['.' as u8] + trim_zeros(zero_padded(frac, 4))
    }
}

/// Every byte of `s` is an ASCII code.
pub open spec fn all_ascii(s: Seq<u8>) -> bool {
    forall|i: int| 0 <= i < s.len() ==> #[trigger] s[i] < 128
}

/// The characters that stand for the ASCII bytes of `s`.
pub open spec fn ascii_chars(s: Seq<u8>) -> Seq<char> {
    s.map_values(|b: u8| b as char)
}

pub proof fn lemma_dec_digits_ascii(n: nat)
    ensures
        all_ascii(dec_digits(n)),
        dec_digits(n).len() >= 1,
        forall|i: int| 0 <= i < dec_digits(n).len() ==> 48 <= #[trigger] dec_digits(n)[i] <= 57,
    decreases n,
{
    if n >= 10 {
        lemma_dec_digits_ascii(n / 10);
    }
}

pub proof fn lemma_trim_zeros_prefix(s: Seq<u8>)
    ensures
        trim_zeros(s).len() <= s.len(),
        trim_zeros(s) == s.subrange(0, trim_zeros(s).len() as int),
    decreases s.len(),
{
    if s.len() > 0 && s.last() == '0' as u8 {
        lemma_trim_zeros_prefix(s.drop_last());
    }
}

pub proof fn lemma_int_text_ascii(i: int)
    ensures
        all_ascii(int_text(i)),
{
    if i < 0 {
        lemma_dec_digits_ascii((-i) as nat);
    } else {
        lemma_dec_digits_ascii(i as nat);
    }
}

pub proof fn lemma_zero_padded_ascii(n: nat, w: nat)
    ensures
        all_ascii(zero_padded(n, w)),
        zero_padded(n, w).len() >= w,
{
    lemma_dec_digits_ascii(n);
}

/// `10^k`.
pub open spec fn pow10(k: nat) -> nat
    decreases k,
{
    if k == 0 {
        1
    } else {
        10 * pow10((k - 1) as nat)
    }
}

/// A number below `10^k` has at most `k` decimal digits, so padding it to `k` digits gives
/// exactly `k`.
pub proof fn lemma_zero_padded_len(n: nat, k: nat)
    requires
        1 <= k,
        n < pow10(k),
    ensures
        dec_digits(n).len() <= k,
        zero_padded(n, k).len() == k,
    decreases k,
{
    if n >= 10 {
        if k == 1 {
            assert(pow10(1) == 10 * pow10(0));
        }
        let p = pow10((k - 1) as nat);
        assert(n / 10 < p) by (nonlinear_arith)
            requires
                n < 10 * p,
        ;
        lemma_zero_padded_len(n / 10, (k - 1) as nat);
    }
}

pub proof fn lemma_real_text_ascii(v: int)
    ensures
        all_ascii(real_text(v)),
{
    let a: nat = if v < 0 { (-v) as nat } else { v as nat };
    lemma_dec_digits_ascii(a / 10000);
    lemma_zero_padded_ascii(a % 10000, 4);
    lemma_trim_zeros_prefix(zero_padded(a % 10000, 4));
}

/// Appends the decimal digits of `n`.
pub fn push_decimal(out: &mut Vec<u8>, n: u64)
    ensures
        final(out)@ == old(out)@ + dec_digits(n as nat),
    decreases n,
{
    if n >= 10 {
        push_decimal(out, n / 10);
    }
    let d: u8 = (n % 10) as u8;
    out.push(48 + d);
    proof {
        if n >= 10 {
            assert(dec_digits(n as nat) == dec_digits((n / 10) as nat).push(digit((n % 10) as int)));
        }
    }
}

/// Appends the decimal text of the signed integer `i`.
pub fn push_int(out: &mut Vec<u8>, i: i64)
    ensures
        final(out)@ == old(out)@ + int_text(i as int),
{
    if i < 0 {
        out.push('-' as u8);
        let m: u64 = if i == i64::MIN { 9223372036854775808u64 } else { (-i) as u64 };
        push_decimal(out, m);
    } else {
        push_decimal(out, i as u64);
    }
}

/// Appends the decimal digits of `n`, padded on the left with zeros to `width` characters.
pub fn push_zero_padded(out: &mut Vec<u8>, n: u64, width: usize)
    ensures
        final(out)@ == old(out)@ + zero_padded(n as nat, width as nat),
{
    let mut digits: Vec<u8> = Vec::new();
    push_decimal(&mut digits, n);
    assert(digits@ == dec_digits(n as nat));
    if digits.len() < width {
        let pad = width - digits.len();
        let mut k: usize = 0;
        while k < pad
            invariant
                k <= pad,
                out@ == old(out)@ + zeros(k as nat),
            decreases pad - k,
        {
            out.push('0' as u8);
            k = k + 1;
            assert(out@ =~= old(out)@ + zeros(k as nat));
        }
        assert(out@ =~= old(out)@ + zeros(pad as nat));
    }
    push_slice(out, &digits);
}

/// Appends the bytes of `s`.
pub fn push_slice(out: &mut Vec<u8>, s: &[u8])
    ensures
        final(out)@ == old(out)@ + s@,
{
    let ghost start = old(out)@;
    let mut i: usize = 0;
    while i < s.len()
        invariant
            i <= s@.len(),
            out@ == start + s@.subrange(0, i as int),
        decreases s@.len() - i,
    {
        out.push(s[i]);
        i = i + 1;
        assert(out@ =~= start + s@.subrange(0, i as int));
    }
    assert(s@.subrange(0, s@.len() as int) =~= s@);
}

/// Appends the UTF-8 bytes of `s`.
pub fn push_str(out: &mut Vec<u8>, s: &str)
    ensures
        final(out)@ == old(out)@ + vstd::utf8::encode_utf8(s@),
{
    push_slice(out, s.as_bytes());
}

/// The text of a real number held in ten-thousandths: its integer part, then, unless it is
/// whole, a point and its decimals without trailing zeros.
pub fn to_bytes_num(n: i64) -> (v: Vec<u8>)
    ensures
        v@ == real_text(n as int),
{
    let mut v: Vec<u8> = Vec::new();
    push_real(&mut v, n);
    v
}

/// Appends the text of the real number `v / 10000` (see [`real_text`]).
pub fn push_real(out: &mut Vec<u8>, v: i64)
    ensures
        final(out)@ == old(out)@ + real_text(v as int),
{
    let a: u64 = if v == i64::MIN { 9223372036854775808u64 } else if v < 0 { (-v) as u64 } else { v as u64 };
    assert(a as int == if v < 0 { -(v as int) } else { v as int });
    if v < 0 {
        out.push('-' as u8);
    }
    let ghost after_sign = out@;
    push_decimal(out, a / 10000);
    let frac = a % 10000;
    if frac != 0 {
        out.push('.' as u8);
        let mut f: Vec<u8> = Vec::new();
        push_zero_padded(&mut f, frac, 4);
        let ghost padded = f@;
        while f.len() > 0 && f[f.len() - 1] == '0' as u8
            invariant
                trim_zeros(f@) == trim_zeros(padded),
            decreases f@.len(),
        {
            assert(f@.drop_last() == f@.subrange(0, f@.len() - 1));
            f.pop();
        }
        assert(trim_zeros(f@) == f@);
        push_slice(out, &f);
    }
}


/// Byte `i` of `c`, or zero past its end.
pub open spec fn byte_or_zero(c: Seq<u8>, i: int) -> nat {
    if 0 <= i < c.len() { c[i] as nat } else { 0 }
}

/// The 32-bit big-endian value of the group `c` of at most four bytes, padded with zero bytes.
pub open spec fn group_value(c: Seq<u8>) -> nat {
    byte_or_zero(c, 0) * 16777216 + byte_or_zero(c, 1) * 65536 + byte_or_zero(c, 2) * 256
        + byte_or_zero(c, 3)
}

/// The five base-85 digits of `v`, most significant first, each written as the character with
/// code `digit + 33`.
pub open spec fn base85_digits(v: nat) -> Seq<u8> {
    seq![
        ((v / 52200625) % 85 + 33) as u8,
        ((v / 614125) % 85 + 33) as u8,
        ((v / 7225) % 85 + 33) as u8,
        ((v / 85) % 85 + 33) as u8,
        (v % 85 + 33) as u8,
    ]
}

/// The ASCII85 text of one group: `z` for a full group of zero bytes, the five digits for any
/// other full group, and the first `n + 1` digits for a last group of `n` bytes.
pub open spec fn ascii85_group(c: Seq<u8>) -> Seq<u8> {
    if c.len() == 4 && group_value(c) == 0 {
        seq!['z' as u8]
    } else if c.len() == 4 {
        base85_digits(group_value(c))
    } else {
        base85_digits(group_value(c)).take(c.len() + 1int)
    }
}

/// The ASCII85 encoding of `data`, four bytes at a time, without an end marker.
pub open spec fn ascii85(data: Seq<u8>) -> Seq<u8>
    decreases data.len(),
{
    if data.len() == 0 {
        Seq::empty()
    } else if data.len() <= 4 {
        ascii85_group(data)
    } else {
        ascii85_group(data.take(4)) + ascii85(data.skip(4))
    }
}

/// The number that five ASCII85 characters stand for: each is a base-85 digit written as its
/// value plus 33, most significant first.
pub open spec fn a85_value(g: Seq<u8>) -> int {
    (g[0] - 33) * 52200625 + (g[1] - 33) * 614125 + (g[2] - 33) * 7225 + (g[3] - 33) * 85 + (g[4] - 33)
}

/// A last group of fewer than five characters, completed with `u`, the highest digit.
pub open spec fn a85_pad(g: Seq<u8>) -> Seq<u8> {
    Seq::new(5, |i: int| if i < g.len() { g[i] } else { 'u' as u8 })
}

/// The four big-endian bytes of a 32-bit value.
pub open spec fn be_bytes4(v: int) -> Seq<u8> {
    seq![(v / 16777216 % 256) as u8, (v / 65536 % 256) as u8, (v / 256 % 256) as u8, (v % 256) as u8]
}

/// The bytes that ASCII85 text stands for, as a decoder reads it: `z` for four zero bytes,
/// each five characters for the four bytes of their value, and a last group of `k`
/// characters, completed with `u`, for the first `k - 1` bytes of its value.
pub open spec fn ascii85_decode(s: Seq<u8>) -> Seq<u8>
    decreases s.len(),
{
    if s.len() == 0 {
        Seq::empty()
    } else if s[0] == 'z' as u8 {
        seq![0u8, 0u8, 0u8, 0u8] + ascii85_decode(s.skip(1))
    } else if s.len() >= 5 {
        be_bytes4(a85_value(s.take(5))) + ascii85_decode(s.skip(5))
    } else {
        be_bytes4(a85_value(a85_pad(s))).take(s.len() - 1)
    }
}

/// The five digits of a 32-bit value give the value back, and none of them is `z`.
proof fn lemma_base85_value(v: nat)
    requires
        v < 4294967296,
    ensures
        a85_value(base85_digits(v)) == v,
        forall|i: int| 0 <= i < 5 ==> 33 <= #[trigger] base85_digits(v)[i] <= 117,
{
    let q1 = v / 85;
    let q2 = v / 7225;
    let q3 = v / 614125;
    let q4 = v / 52200625;
    assert(q2 == q1 / 85);
    assert(q3 == q2 / 85);
    assert(q4 == q3 / 85);
    assert(q4 < 85);
    assert(v == 85 * q1 + v % 85);
    assert(q1 == 85 * q2 + q1 % 85);
    assert(q2 == 85 * q3 + q2 % 85);
    assert(q3 == 85 * q4 + q3 % 85);
}

/// The four bytes of the value of a group of four give the group back.
proof fn lemma_be_bytes_group(c: Seq<u8>)
    requires
        c.len() == 4,
    ensures
        be_bytes4(group_value(c) as int) == c,
{
    let v = group_value(c) as int;
    assert(v == c[0] * 16777216 + c[1] * 65536 + c[2] * 256 + c[3]);
    assert(v / 16777216 == c[0]);
    assert(v / 65536 == c[0] * 256 + c[1]);
    assert(v / 256 == c[0] * 65536 + c[1] * 256 + c[2]);
    assert(be_bytes4(v) =~= c);
}

/// The digit values of a 32-bit value `v`: `v` is their positional sum in base 85.
proof fn lemma_digit_values(v: nat)
    requires
        v < 4294967296,
    ensures
        ({
            let d = base85_digits(v);
            &&& v == (d[0] - 33) * 52200625 + (d[1] - 33) * 614125 + (d[2] - 33) * 7225 + (d[3] - 33) * 85 + (d[4] - 33)
            &&& forall|i: int| 0 <= i < 5 ==> 33 <= #[trigger] d[i] <= 117
        }),
{
    lemma_base85_value(v);
}

/// A value that lies less than `unit` above `base` agrees with it on the bytes above `unit`,
/// where `base` has no bytes below `unit`.
proof fn lemma_bytes_above(c: Seq<u8>, w: int)
    requires
        1 <= c.len() <= 3,
        group_value(c) <= w,
        c.len() == 1 ==> w < group_value(c) + 16777216,
        c.len() == 2 ==> w < group_value(c) + 65536,
        c.len() == 3 ==> w < group_value(c) + 256,
    ensures
        be_bytes4(w).take(c.len() as int) == c,
{
    if c.len() == 1 {
        assert(group_value(c) == c[0] * 16777216);
        assert(w / 16777216 == c[0]);
        assert(be_bytes4(w).take(1) =~= c);
    } else if c.len() == 2 {
        assert(group_value(c) == c[0] * 16777216 + c[1] * 65536);
        assert(w / 16777216 == c[0]);
        assert(w / 65536 == c[0] * 256 + c[1]);
        assert(be_bytes4(w).take(2) =~= c);
    } else {
        assert(group_value(c) == c[0] * 16777216 + c[1] * 65536 + c[2] * 256);
        assert(w / 16777216 == c[0]);
        assert(w / 65536 == c[0] * 256 + c[1]);
        assert(w / 256 == c[0] * 65536 + c[1] * 256 + c[2]);
        assert(be_bytes4(w).take(3) =~= c);
    }
}

/// A last group of `n` bytes, written as the first `n + 1` digits of its zero-padded value,
/// reads back, completed with `u`, as those `n` bytes: the completion adds less than one unit
/// of the last byte kept.
proof fn lemma_last_group_reads_back(c: Seq<u8>)
    requires
        1 <= c.len() <= 3,
    ensures
        be_bytes4(a85_value(a85_pad(base85_digits(group_value(c)).take(c.len() + 1int)))).take(c.len() as int) == c,
{
    let n = c.len() as int;
    let v = group_value(c);
    lemma_digit_values(v);
    let d = base85_digits(v);
    let g = a85_pad(d.take(n + 1));
    let w = a85_value(g);
    assert(g[0] == d[0] && g[1] == d[1]);
    assert(g[4] == 117);
    assert(g[2] == (if n >= 2 { d[2] } else { 117u8 }));
    assert(g[3] == (if n >= 3 { d[3] } else { 117u8 }));
    assert(0 <= w - v);
    if n == 1 {
        assert(w - v < 16777216);
    } else if n == 2 {
        assert(w - v < 65536);
    } else {
        assert(w - v < 256);
    }
    lemma_bytes_above(c, w);
}

/// ASCII85 text reads back as exactly the data it was made from: a decoder (see
/// [`ascii85_decode`]) gives every byte back, in order, with nothing added or lost.
pub proof fn law_ascii85_reads_back(data: Seq<u8>)
    ensures
        ascii85_decode(ascii85(data)) == data,
    decreases data.len(),
{
    if data.len() == 0 {
    } else {
        let c = if data.len() <= 4 { data } else { data.take(4) };
        let rest: Seq<u8> = if data.len() <= 4 { Seq::empty() } else { data.skip(4) };
        assert(data =~= c + rest);
        let g = ascii85_group(c);
        let tail = if data.len() <= 4 { Seq::<u8>::empty() } else { ascii85(rest) };
        assert(ascii85(data) =~= g + tail);
        if data.len() > 4 {
            law_ascii85_reads_back(rest);
        }
        assert(ascii85_decode(tail) == rest);
        if c.len() == 4 && group_value(c) == 0 {
            assert(c =~= seq![0u8, 0u8, 0u8, 0u8]);
            assert((g + tail).skip(1) =~= tail);
            assert(ascii85_decode(g + tail) == seq![0u8, 0u8, 0u8, 0u8] + ascii85_decode(tail));
        } else if c.len() == 4 {
            lemma_base85_value(group_value(c));
            lemma_be_bytes_group(c);
            assert((g + tail).take(5) =~= g);
            assert((g + tail).skip(5) =~= tail);
            assert((g + tail)[0] == g[0]);
            assert(ascii85_decode(g + tail) == be_bytes4(a85_value(g)) + ascii85_decode(tail));
        } else {
            lemma_base85_value(group_value(c));
            lemma_last_group_reads_back(c);
            assert(tail.len() == 0);
            assert(g + tail =~= g);
            assert(g[0] == base85_digits(group_value(c))[0]);
            assert(ascii85_decode(g) == be_bytes4(a85_value(a85_pad(g))).take(g.len() - 1));
        }
        assert(ascii85_decode(ascii85(data)) =~= data);
    }
}

/// The number of whole groups of four bytes of `data` that are all zero.
pub open spec fn zero_groups(data: Seq<u8>) -> nat
    decreases data.len(),
{
    if data.len() < 4 {
        0
    } else {
        (if data[0] == 0 && data[1] == 0 && data[2] == 0 && data[3] == 0 {
            1nat
        } else {
            0nat
        }) + zero_groups(data.skip(4))
    }
}

/// The length of ASCII85 text: one character for each whole group of four zero bytes, five
/// for each other whole group, and for a last group of `r` bytes `r + 1`.
pub proof fn law_ascii85_length(data: Seq<u8>)
    ensures
        ({
            let full = data.len() / 4;
            let r = data.len() % 4;
            &&& zero_groups(data) <= full
            &&& ascii85(data).len() == 5 * (full - zero_groups(data)) + zero_groups(data) + (if r > 0 {
                r + 1
            } else {
                0
            })
        }),
    decreases data.len(),
{
    let n = data.len();
    if n > 4 {
        let rest = data.skip(4);
        law_ascii85_length(rest);
        let c = data.take(4);
        assert(c[0] == data[0] && c[1] == data[1] && c[2] == data[2] && c[3] == data[3]);
        assert(group_value(c) == 0 <==> (c[0] == 0 && c[1] == 0 && c[2] == 0 && c[3] == 0));
        assert(base85_digits(group_value(c)).len() == 5);
        assert(ascii85(data) == ascii85_group(c) + ascii85(rest));
        assert(rest.len() == n - 4);
        assert(n / 4 == rest.len() / 4 + 1);
        assert(n % 4 == rest.len() % 4);
    } else if n == 4 {
        assert(data.skip(4).len() == 0);
        assert(zero_groups(data.skip(4)) == 0);
        assert(group_value(data) == 0 <==> (data[0] == 0 && data[1] == 0 && data[2] == 0 && data[3] == 0));
        assert(base85_digits(group_value(data)).len() == 5);
    } else if n > 0 {
        assert(base85_digits(group_value(data)).len() == 5);
        assert(ascii85_group(data).len() == n + 1);
    }
}

fn base85_of(v: u32) -> (d: [u8; 5])
    ensures
        d@ == base85_digits(v as nat),
{
    proof {
        vstd::arithmetic::div_mod::lemma_div_denominator(v as int, 85, 85);
        vstd::arithmetic::div_mod::lemma_div_denominator(v as int, 7225, 85);
        vstd::arithmetic::div_mod::lemma_div_denominator(v as int, 614125, 85);
    }
    let v1 = v / 85;
    let v2 = v1 / 85;
    let v3 = v2 / 85;
    let v4 = v3 / 85;
    let d = [
        (v4 % 85) as u8 + 33,
        (v3 % 85) as u8 + 33,
        (v2 % 85) as u8 + 33,
        (v1 % 85) as u8 + 33,
        (v % 85) as u8 + 33,
    ];
    assert(d@ =~= base85_digits(v as nat));
    d
}

/// ASCII85-encodes `data` (without the `~>` end marker).
pub fn ascii85_encode(data: &[u8]) -> (out: Vec<u8>)
    ensures
        out@ == ascii85(data@),
{
    let mut result: Vec<u8> = Vec::new();
    let n = data.len();
    let mut i: usize = 0;
    assert(data@.skip(0) =~= data@);
    while i < n
        invariant
            n == data@.len(),
            i <= n,
            ascii85(data@) == result@ + ascii85(data@.skip(i as int)),
        decreases n - i,
    {
        let rest = n - i;
        let len: usize = if rest >= 4 { 4 } else { rest };
        let ghost chunk = data@.subrange(i as int, i + len);
        let b0: u32 = data[i] as u32;
        let b1: u32 = if len > 1 { data[i + 1] as u32 } else { 0 };
        let b2: u32 = if len > 2 { data[i + 2] as u32 } else { 0 };
        let b3: u32 = if len > 3 { data[i + 3] as u32 } else { 0 };
        let value: u32 = b0 * 16777216 + b1 * 65536 + b2 * 256 + b3;
        assert(value as nat == group_value(chunk));
        let ghost before = result@;
        if len == 4 && value == 0 {
            result.push('z' as u8);
        } else {
            let d = base85_of(value);
            let mut k: usize = 0;
            while k < len + 1
                invariant
                    k <= len + 1,
                    len <= 4,
                    d@ == base85_digits(value as nat),
                    result@ == before + d@.take(k as int),
                decreases len + 1 - k,
            {
                result.push(d[k]);
                k = k + 1;
                assert(result@ =~= before + d@.take(k as int));
            }
            assert(d@.take(5) =~= d@);
        }
        assert(result@ == before + ascii85_group(chunk));
        proof {
            let s = data@.skip(i as int);
            if s.len() > 4 {
                assert(s.take(4) =~= chunk);
                assert(s.skip(4) =~= data@.skip(i + 4));
            } else {
                assert(s =~= chunk);
                assert(data@.skip(i + len) =~= Seq::<u8>::empty());
            }
        }
        i = i + len;
    }
    result
}

/// The bytes of `s` followed by nothing else: a byte copy of a string.
pub fn to_bytes_str(s: &str) -> (v: Vec<u8>)
    ensures
        v@ == vstd::utf8::encode_utf8(s@),
{
    let mut v: Vec<u8> = Vec::new();
    push_str(&mut v, s);
    v
}


/// Whether two strings hold the same characters.
pub fn str_eq(a: &str, b: &str) -> (r: bool)
    ensures
        r == (a@ == b@),
{
    let x = a.as_bytes();
    let y = b.as_bytes();
    proof {
        vstd::utf8::encode_utf8_decode_utf8(a@);
        vstd::utf8::encode_utf8_decode_utf8(b@);
    }
    if x.len() != y.len() {
        return false;
    }
    let mut i: usize = 0;
    while i < x.len()
        invariant
            x@.len() == y@.len(),
            x@ == vstd::utf8::encode_utf8(a@),
            y@ == vstd::utf8::encode_utf8(b@),
            i <= x@.len(),
            forall|j: int| 0 <= j < i ==> x@[j] == y@[j],
        decreases x@.len() - i,
    {
        if x[i] != y[i] {
            return false;
        }
        i = i + 1;
    }
    assert(x@ =~= y@);
    true
}

/// Appends `t` to the string `s`.
pub fn string_push_str(s: &mut String, t: &str)
    ensures
        final(s)@ == old(s)@ + t@,
{
    s.append(t);
}

/// Appends the character `c` to the string `s`.
///
/// Calls `String::push`, which std documents as appending the given character onto the end
/// of the string.
#[verifier::external_body]
pub fn string_push_char(s: &mut String, c: char)
    ensures
        final(s)@ == old(s)@.push(c),
{
    s.push(c);
}

/// The string whose characters are the ASCII bytes of `bytes`.
///
/// Calls `String::from_utf8`: its documentation says that it returns the string whose UTF-8
/// encoding is the given bytes when they are valid UTF-8, which ASCII bytes always are, and
/// that each ASCII byte encodes the character with the same code.
#[verifier::external_body]
pub fn ascii_to_string(bytes: Vec<u8>) -> (s: String)
    requires
        all_ascii(bytes@),
    ensures
        s@ == ascii_chars(bytes@),
{
    String::from_utf8(bytes).unwrap_or_default()
}

/// Appends the decimal digits of `n` to the string `s`.
pub fn string_push_decimal(s: &mut String, n: u64)
    ensures
        final(s)@ == old(s)@ + ascii_chars(dec_digits(n as nat)),
{
    let mut v: Vec<u8> = Vec::new();
    push_decimal(&mut v, n);
    proof {
        lemma_dec_digits_ascii(n as nat);
    }
    let t = ascii_to_string(v);
    string_push_str(s, t.as_str());
}

/// Appends the decimal digits of `n`, padded on the left with zeros to `width` characters, to
/// the string `s`.
pub fn string_push_zero_padded(s: &mut String, n: u64, width: usize)
    ensures
        final(s)@ == old(s)@ + ascii_chars(zero_padded(n as nat, width as nat)),
{
    let mut v: Vec<u8> = Vec::new();
    push_zero_padded(&mut v, n, width);
    assert(v@ =~= zero_padded(n as nat, width as nat));
    proof {
        lemma_zero_padded_ascii(n as nat, width as nat);
    }
    let t = ascii_to_string(v);
    string_push_str(s, t.as_str());
}

/// Appends the decimal text of the signed integer `i` to the string `s`.
pub fn string_push_int(s: &mut String, i: i64)
    ensures
        final(s)@ == old(s)@ + ascii_chars(int_text(i as int)),
{
    let mut v: Vec<u8> = Vec::new();
    push_int(&mut v, i);
    assert(v@ =~= int_text(i as int));
    proof {
        lemma_int_text_ascii(i as int);
    }
    let t = ascii_to_string(v);
    string_push_str(s, t.as_str());
}

/// Appends the text of the real number `v / 10000` (see [`real_text`]) to the string `s`.
pub fn string_push_real(s: &mut String, v: i64)
    ensures
        final(s)@ == old(s)@ + ascii_chars(real_text(v as int)),
{
    let mut b: Vec<u8> = Vec::new();
    push_real(&mut b, v);
    assert(b@ =~= real_text(v as int));
    proof {
        lemma_real_text_ascii(v as int);
    }
    let t = ascii_to_string(b);
    string_push_str(s, t.as_str());
}

/// A number written as in a PDF file.
pub trait ToPdfNum {
    /// The text of the number.
    spec fn pdf_text(&self) -> Seq<char>;

    fn to_pdf_string(&self) -> (s: String)
        ensures
            s@ == self.pdf_text(),
    ;
}

impl ToPdfNum for i8 {
    open spec fn pdf_text(&self) -> Seq<char> {
        ascii_chars(int_text(*self as int))
    }

    fn to_pdf_string(&self) -> (s: String) {
        let mut s = String::new();
        string_push_int(&mut s, *self as i64);
        s
    }
}

impl ToPdfNum for i16 {
    open spec fn pdf_text(&self) -> Seq<char> {
        ascii_chars(int_text(*self as int))
    }

    fn to_pdf_string(&self) -> (s: String) {
        let mut s = String::new();
        string_push_int(&mut s, *self as i64);
        s
    }
}

impl ToPdfNum for i32 {
    open spec fn pdf_text(&self) -> Seq<char> {
        ascii_chars(int_text(*self as int))
    }

    fn to_pdf_string(&self) -> (s: String) {
        let mut s = String::new();
        string_push_int(&mut s, *self as i64);
        s
    }
}

impl ToPdfNum for i64 {
    open spec fn pdf_text(&self) -> Seq<char> {
        ascii_chars(int_text(*self as int))
    }

    fn to_pdf_string(&self) -> (s: String) {
        let mut s = String::new();
        string_push_int(&mut s, *self as i64);
        s
    }
}

impl ToPdfNum for isize {
    open spec fn pdf_text(&self) -> Seq<char> {
        ascii_chars(int_text(*self as int))
    }

    fn to_pdf_string(&self) -> (s: String) {
        let mut s = String::new();
        string_push_int(&mut s, *self as i64);
        s
    }
}

impl ToPdfNum for u8 {
    open spec fn pdf_text(&self) -> Seq<char> {
        ascii_chars(int_text(*self as int))
    }

    fn to_pdf_string(&self) -> (s: String) {
        let mut s = String::new();
        string_push_decimal(&mut s, *self as u64);
        s
    }
}

impl ToPdfNum for u16 {
    open spec fn pdf_text(&self) -> Seq<char> {
        ascii_chars(int_text(*self as int))
    }

    fn to_pdf_string(&self) -> (s: String) {
        let mut s = String::new();
        string_push_decimal(&mut s, *self as u64);
        s
    }
}

impl ToPdfNum for u32 {
    open spec fn pdf_text(&self) -> Seq<char> {
        ascii_chars(int_text(*self as int))
    }

    fn to_pdf_string(&self) -> (s: String) {
        let mut s = String::new();
        string_push_decimal(&mut s, *self as u64);
        s
    }
}

impl ToPdfNum for u64 {
    open spec fn pdf_text(&self) -> Seq<char> {
        ascii_chars(int_text(*self as int))
    }

    fn to_pdf_string(&self) -> (s: String) {
        let mut s = String::new();
        string_push_decimal(&mut s, *self as u64);
        s
    }
}

impl ToPdfNum for usize {
    open spec fn pdf_text(&self) -> Seq<char> {
        ascii_chars(int_text(*self as int))
    }

    fn to_pdf_string(&self) -> (s: String) {
        let mut s = String::new();
        string_push_decimal(&mut s, *self as u64);
        s
    }
}

/// The text of a number as written in a PDF file.
pub fn f_to_pdf_num<T: ToPdfNum>(n: T) -> (s: String)
    ensures
        s@ == n.pdf_text(),
{
    n.to_pdf_string()
}

} // verus!
