//! The telemetry codec: decodes one wire line into a typed sample.
//!
//! The device sends one object per line, in the shape
//! `{"pot1":N,"pot2":N,"pot3":N}` with the three fields in that order, each
//! `N` a non-negative decimal integer without a leading zero, and optional
//! blanks (space, tab, carriage return, line feed) between tokens.  Decoding
//! is all-or-nothing per line: a line that does not match this exact shape,
//! or whose values do not fit the sample's fields, is rejected with an error
//! and never a panic.
//!
//! The grammar is stated by the spec functions below ([`parse_line`] is the
//! whole line); [`decode`] is proved to accept exactly the lines the grammar
//! accepts.

use crate::types::PotentiometerData;
use vstd::prelude::*;

verus! {

/// Largest field value a sample can hold.
pub const MAX_FIELD_VALUE: u16 = u16::MAX;

/// Why a line was rejected.
#[derive(Debug, Clone, Copy, PartialEq, Eq, Structural)]
pub enum DecodeError {
    /// The line does not match the wire shape.
    Malformed,
    /// The line matches the wire shape, but a field value does not fit.
    ValueOutOfRange,
}

/// A blank byte: space, tab, carriage return or line feed.
pub open spec fn is_ws(b: u8) -> bool {
    b == 0x20 || b == 0x09 || b == 0x0d || b == 0x0a
}

/// An ASCII decimal digit.
pub open spec fn is_digit(b: u8) -> bool {
    0x30 <= b <= 0x39
}

/// First position at or after `i` that does not hold a blank.
pub open spec fn skip_ws(s: Seq<u8>, i: int) -> int
    decreases s.len() - i,
{
    if i < s.len() && is_ws(s[i]) {
        skip_ws(s, i + 1)
    } else {
        i
    }
}

/// First position at or after `i` that does not hold a digit.
pub open spec fn digit_run_end(s: Seq<u8>, i: int) -> int
    decreases s.len() - i,
{
    if i < s.len() && is_digit(s[i]) {
        digit_run_end(s, i + 1)
    } else {
        i
    }
}

/// Value of the decimal digits `s[i..j]`.
pub open spec fn num_value(s: Seq<u8>, i: int, j: int) -> nat
    decreases j - i,
{
    if i < j {
        num_value(s, i, j - 1) * 10 + (s[j - 1] as int - 0x30) as nat
    } else {
        0
    }
}

/// A number at `i`: a maximal non-empty digit run, no leading zero.  Yields
/// its value and the position after it.
pub open spec fn parse_number(s: Seq<u8>, i: int) -> Option<(nat, int)> {
    let j = digit_run_end(s, i);
    if j == i {
        None
    } else if s[i] == 0x30 && j > i + 1 {
        None
    } else {
        Some((num_value(s, i, j), j))
    }
}

/// A quoted key `"pot<d>"` at `i`, where `d` is the digit byte of the channel.
pub open spec fn key_matches(s: Seq<u8>, i: int, d: u8) -> bool {
    &&& i + 6 <= s.len()
    &&& s[i] == 0x22  // '"'
    &&& s[i + 1] == 0x70  // 'p'
    &&& s[i + 2] == 0x6f  // 'o'
    &&& s[i + 3] == 0x74  // 't'
    &&& s[i + 4] == d
    &&& s[i + 5] == 0x22  // '"'
}

/// One `"pot<d>" : <number>` field starting at `i`, blanks allowed around the
/// tokens.  Yields the field's value and the position after its last digit.
pub open spec fn parse_field(s: Seq<u8>, i: int, d: u8) -> Option<(nat, int)> {
    let i1 = skip_ws(s, i);
    if !key_matches(s, i1, d) {
        None
    } else {
        let i2 = skip_ws(s, i1 + 6);
        if !(i2 < s.len() && s[i2] == 0x3a) {  // ':'
            None
        } else {
            parse_number(s, skip_ws(s, i2 + 1))
        }
    }
}

/// The whole wire line: `{"pot1":N,"pot2":N,"pot3":N}` with optional blanks
/// between tokens and around the line, and nothing else before its end.
pub open spec fn parse_line(s: Seq<u8>) -> Option<(nat, nat, nat)> {
    let i0 = skip_ws(s, 0);
    if !(i0 < s.len() && s[i0] == 0x7b) {  // '{'
        None
    } else {
        match parse_field(s, i0 + 1, 0x31) {
            None => None,
            Some((v1, j1)) => {
                let c1 = skip_ws(s, j1);
                if !(c1 < s.len() && s[c1] == 0x2c) {  // ','
                    None
                } else {
                    match parse_field(s, c1 + 1, 0x32) {
                        None => None,
                        Some((v2, j2)) => {
                            let c2 = skip_ws(s, j2);
                            if !(c2 < s.len() && s[c2] == 0x2c) {
                                None
                            } else {
                                match parse_field(s, c2 + 1, 0x33) {
                                    None => None,
                                    Some((v3, j3)) => {
                                        let e = skip_ws(s, j3);
                                        if !(e < s.len() && s[e] == 0x7d) {  // '}'
                                            None
                                        } else if skip_ws(s, e + 1) == s.len() {
                                            Some((v1, v2, v3))
                                        } else {
                                            None
                                        }
                                    },
                                }
                            }
                        },
                    }
                }
            },
        }
    }
}

/// The decimal digits of `n`, most significant first, no leading zero.
pub open spec fn spec_digits(n: nat) -> Seq<u8>
    decreases n,
{
    if n < 10 {
        seq![(0x30 + n) as u8]
    } else {
        spec_digits(n / 10).push((0x30 + n % 10) as u8)
    }
}

/// The quoted key for the channel whose digit byte is `d`.
pub open spec fn key_seq(d: u8) -> Seq<u8> {
    seq![0x22, 0x70, 0x6f, 0x74, d, 0x22]
}

/// One compact field: quoted key, colon, decimal value.
pub open spec fn field_seq(d: u8, v: nat) -> Seq<u8> {
    key_seq(d) + seq![0x3a] + spec_digits(v)
}

/// The compact line the device sends for the three values: no blanks, fields
/// in channel order.
pub open spec fn canonical_line(v1: nat, v2: nat, v3: nat) -> Seq<u8> {
    seq![0x7b] + field_seq(0x31, v1) + seq![0x2c] + field_seq(0x32, v2) + seq![0x2c] + field_seq(
        0x33,
        v3,
    ) + seq![0x7d]
}

/// The decimal form of a value is non-empty, all digits, and starts with a
/// zero only for the value zero.
proof fn lemma_digits_wf(n: nat)
    ensures
        spec_digits(n).len() >= 1,
        forall|k: int| 0 <= k < spec_digits(n).len() ==> is_digit(#[trigger] spec_digits(n)[k]),
        n < 10 ==> spec_digits(n).len() == 1,
        spec_digits(n)[0] == 0x30 ==> n == 0,
    decreases n,
{
    if n >= 10 {
        lemma_digits_wf(n / 10);
    }
}

/// A run of digits followed by a non-digit (or the end) is exactly the
/// maximal run.
proof fn lemma_digit_run(s: Seq<u8>, i: int, j: int)
    requires
        0 <= i <= j <= s.len(),
        forall|k: int| i <= k < j ==> is_digit(#[trigger] s[k]),
        j == s.len() || !is_digit(s[j]),
    ensures
        digit_run_end(s, i) == j,
    decreases j - i,
{
    if i < j {
        lemma_digit_run(s, i + 1, j);
    }
}

/// The value of the decimal form of `n`, read back, is `n`.
proof fn lemma_num_value_digits(s: Seq<u8>, i: int, n: nat)
    requires
        0 <= i,
        i + spec_digits(n).len() <= s.len(),
        s.subrange(i, i + spec_digits(n).len() as int) == spec_digits(n),
    ensures
        num_value(s, i, i + spec_digits(n).len() as int) == n,
    decreases n,
{
    let l = spec_digits(n).len() as int;
    if n < 10 {
        assert(s[i] == spec_digits(n)[0]) by {
            assert(s.subrange(i, i + 1)[0] == s[i]);
        }
        assert(num_value(s, i, i) == 0);
        assert(num_value(s, i, i + 1) == (s[i] as int - 0x30) as nat);
    } else {
        lemma_digits_wf(n / 10);
        let lp = spec_digits(n / 10).len() as int;
        assert(l == lp + 1);
        assert forall|k: int| 0 <= k < lp implies #[trigger] s.subrange(i, i + lp)[k]
            == spec_digits(n / 10)[k] by {
            assert(s.subrange(i, i + l)[k] == spec_digits(n)[k]);
            assert(s.subrange(i, i + lp)[k] == s[i + k]);
        }
        assert(s.subrange(i, i + lp) =~= spec_digits(n / 10));
        lemma_num_value_digits(s, i, n / 10);
        assert(s[i + l - 1] == spec_digits(n)[l - 1]) by {
            assert(s.subrange(i, i + l)[l - 1] == s[i + l - 1]);
        }
        assert(spec_digits(n)[l - 1] == (0x30 + n % 10) as u8);
        assert(num_value(s, i, i + l) == num_value(s, i, i + l - 1) * 10 + (s[i + l - 1] as int
            - 0x30) as nat);
        assert((n / 10) * 10 + n % 10 == n) by (nonlinear_arith);
    }
}

/// A compact field at `i`, followed by a non-digit, parses to exactly its
/// value, ending right after its last digit.
proof fn lemma_parse_field_exact(s: Seq<u8>, i: int, d: u8, v: nat)
    requires
        0 <= i,
        i + field_seq(d, v).len() <= s.len(),
        s.subrange(i, i + field_seq(d, v).len() as int) == field_seq(d, v),
        i + field_seq(d, v).len() == s.len() || !is_digit(s[i + field_seq(d, v).len()]),
    ensures
        parse_field(s, i, d) == Some((v, i + field_seq(d, v).len() as int)),
{
    lemma_digits_wf(v);
    let dl = spec_digits(v).len() as int;
    let fl = field_seq(d, v).len() as int;
    assert(fl == 7 + dl);
    assert forall|k: int| 0 <= k < fl implies s[i + k] == #[trigger] field_seq(d, v)[k] by {
        assert(s.subrange(i, i + fl)[k] == field_seq(d, v)[k]);
    }
    assert(field_seq(d, v)[0] == 0x22);
    assert(field_seq(d, v)[1] == 0x70);
    assert(field_seq(d, v)[2] == 0x6f);
    assert(field_seq(d, v)[3] == 0x74);
    assert(field_seq(d, v)[4] == d);
    assert(field_seq(d, v)[5] == 0x22);
    assert(field_seq(d, v)[6] == 0x3a);
    assert(s[i] == 0x22 && s[i + 1] == 0x70 && s[i + 2] == 0x6f && s[i + 3] == 0x74 && s[i + 4]
        == d && s[i + 5] == 0x22 && s[i + 6] == 0x3a);
    assert(skip_ws(s, i) == i);
    assert(key_matches(s, i, d));
    assert(skip_ws(s, i + 6) == i + 6);
    assert forall|k: int| i + 7 <= k < i + 7 + dl implies is_digit(#[trigger] s[k]) by {
        let q = k - i - 7;
        assert(field_seq(d, v)[7 + q] == spec_digits(v)[q]);
        assert(s[i + (7 + q)] == field_seq(d, v)[7 + q]);
        assert(is_digit(spec_digits(v)[q]));
    }
    assert(is_digit(s[i + 7]));
    assert(skip_ws(s, i + 7) == i + 7);
    lemma_digit_run(s, i + 7, i + 7 + dl);
    assert forall|k: int| 0 <= k < dl implies #[trigger] s.subrange(i + 7, i + 7 + dl)[k]
        == spec_digits(v)[k] by {
        assert(field_seq(d, v)[7 + k] == spec_digits(v)[k]);
        assert(s[i + (7 + k)] == field_seq(d, v)[7 + k]);
        assert(s.subrange(i + 7, i + 7 + dl)[k] == s[i + 7 + k]);
    }
    assert(s.subrange(i + 7, i + 7 + dl) =~= spec_digits(v));
    lemma_num_value_digits(s, i + 7, v);
    assert(s[i + 7] == spec_digits(v)[0]);
    assert(parse_number(s, i + 7) == Some((v, i + 7 + dl)));
}

/// Every line in the device's compact shape parses to exactly its three
/// values: the grammar accepts the whole wire format.
pub proof fn lemma_parse_canonical(v1: nat, v2: nat, v3: nat)
    ensures
        parse_line(canonical_line(v1, v2, v3)) == Some((v1, v2, v3)),
{
    lemma_digits_wf(v1);
    lemma_digits_wf(v2);
    lemma_digits_wf(v3);
    let s = canonical_line(v1, v2, v3);
    let f1 = field_seq(0x31, v1).len() as int;
    let f2 = field_seq(0x32, v2).len() as int;
    let f3 = field_seq(0x33, v3).len() as int;
    assert(s.len() == 4 + f1 + f2 + f3);
    assert(s[0] == 0x7b);
    assert(skip_ws(s, 0) == 0);
    assert(s.subrange(1, 1 + f1) =~= field_seq(0x31, v1));
    assert(s[1 + f1] == 0x2c);
    lemma_parse_field_exact(s, 1, 0x31, v1);
    assert(skip_ws(s, 1 + f1) == 1 + f1);
    let i2 = 1 + f1 + 1;
    assert(s.subrange(i2, i2 + f2) =~= field_seq(0x32, v2));
    assert(s[i2 + f2] == 0x2c);
    lemma_parse_field_exact(s, i2, 0x32, v2);
    assert(skip_ws(s, i2 + f2) == i2 + f2);
    let i3 = i2 + f2 + 1;
    assert(s.subrange(i3, i3 + f3) =~= field_seq(0x33, v3));
    assert(s[i3 + f3] == 0x7d);
    lemma_parse_field_exact(s, i3, 0x33, v3);
    assert(skip_ws(s, i3 + f3) == i3 + f3);
    assert(skip_ws(s, i3 + f3 + 1) == s.len());
}

/// Decode one logical line (without its terminator) into a sample.
///
/// Returns the sample exactly when the line matches the wire shape and every
/// field value fits; `Malformed` exactly when the shape does not match;
/// `ValueOutOfRange` exactly when the shape matches but a value does not fit.
pub fn decode(line: &[u8]) -> (r: Result<PotentiometerData, DecodeError>)
    ensures
        match r {
            Ok(d) => parse_line(line@) == Some(
                (d.pot1 as nat, d.pot2 as nat, d.pot3 as nat),
            ),
            Err(DecodeError::Malformed) => parse_line(line@) is None,
            Err(DecodeError::ValueOutOfRange) => parse_line(line@) matches Some(v) && (v.0
                > MAX_FIELD_VALUE || v.1 > MAX_FIELD_VALUE || v.2 > MAX_FIELD_VALUE),
        },
{
    let i0 = exec_skip_ws(line, 0);
    if !(i0 < line.len() && line[i0] == 0x7b) {
        return Err(DecodeError::Malformed);
    }
    let f1 = match exec_parse_field(line, i0 + 1, 0x31) {
        None => {
            return Err(DecodeError::Malformed);
        },
        Some(f) => f,
    };
    let c1 = exec_skip_ws(line, f1.end);
    if !(c1 < line.len() && line[c1] == 0x2c) {
        return Err(DecodeError::Malformed);
    }
    let f2 = match exec_parse_field(line, c1 + 1, 0x32) {
        None => {
            return Err(DecodeError::Malformed);
        },
        Some(f) => f,
    };
    let c2 = exec_skip_ws(line, f2.end);
    if !(c2 < line.len() && line[c2] == 0x2c) {
        return Err(DecodeError::Malformed);
    }
    let f3 = match exec_parse_field(line, c2 + 1, 0x33) {
        None => {
            return Err(DecodeError::Malformed);
        },
        Some(f) => f,
    };
    let e = exec_skip_ws(line, f3.end);
    if !(e < line.len() && line[e] == 0x7d) {
        return Err(DecodeError::Malformed);
    }
    if exec_skip_ws(line, e + 1) != line.len() {
        return Err(DecodeError::Malformed);
    }
    if f1.too_big || f2.too_big || f3.too_big {
        return Err(DecodeError::ValueOutOfRange);
    }
    Ok(PotentiometerData { pot1: f1.value, pot2: f2.value, pot3: f3.value })
}

/// A parsed field: its (possibly clamped) value and the position after it.
struct ParsedField {
    value: u16,
    end: usize,
    too_big: bool,
}

/// First position at or after `i` without a blank; mirrors [`skip_ws`].
fn exec_skip_ws(line: &[u8], i: usize) -> (r: usize)
    requires
        i <= line@.len(),
    ensures
        r == skip_ws(line@, i as int),
        i <= r <= line@.len(),
{
    let mut j = i;
    while j < line.len() && (line[j] == 0x20 || line[j] == 0x09 || line[j] == 0x0d || line[j]
        == 0x0a)
        invariant
            i <= j <= line@.len(),
            skip_ws(line@, i as int) == skip_ws(line@, j as int),
        decreases line@.len() - j,
    {
        j += 1;
    }
    j
}

/// A field `"pot<d>" : <number>` at `i`; mirrors [`parse_field`].
fn exec_parse_field(line: &[u8], i: usize, d: u8) -> (r: Option<ParsedField>)
    requires
        i <= line@.len(),
    ensures
        match r {
            None => parse_field(line@, i as int, d) is None,
            Some(f) => {
                &&& parse_field(line@, i as int, d) matches Some(p)
                &&& f.end == p.1
                &&& i <= f.end <= line@.len()
                &&& (f.too_big <==> p.0 > MAX_FIELD_VALUE)
                &&& (!f.too_big ==> f.value == p.0)
            },
        },
{
    let i1 = exec_skip_ws(line, i);
    if !(line.len() >= 6 && i1 <= line.len() - 6 && line[i1] == 0x22 && line[i1 + 1] == 0x70
        && line[i1 + 2] == 0x6f && line[i1 + 3] == 0x74 && line[i1 + 4] == d && line[i1 + 5]
        == 0x22) {
        return None;
    }
    let i2 = exec_skip_ws(line, i1 + 6);
    if !(i2 < line.len() && line[i2] == 0x3a) {
        return None;
    }
    let i5 = exec_skip_ws(line, i2 + 1);
    exec_parse_number(line, i5)
}

/// A number at `i`; mirrors [`parse_number`].  When the value does not fit a
/// sample field, `too_big` is set and the run is still consumed.
fn exec_parse_number(line: &[u8], i: usize) -> (r: Option<ParsedField>)
    requires
        i <= line@.len(),
    ensures
        match r {
            None => parse_number(line@, i as int) is None,
            Some(f) => {
                &&& parse_number(line@, i as int) matches Some(p)
                &&& f.end == p.1
                &&& i <= f.end <= line@.len()
                &&& (f.too_big <==> p.0 > MAX_FIELD_VALUE)
                &&& (!f.too_big ==> f.value == p.0)
            },
        },
{
    if !(i < line.len() && 0x30 <= line[i] && line[i] <= 0x39) {
        return None;
    }
    let mut j = i;
    let mut acc: u32 = 0;
    let mut too_big = false;
    while j < line.len() && 0x30 <= line[j] && line[j] <= 0x39
        invariant
            i <= j <= line@.len(),
            i < line@.len() && 0x30 <= line@[i as int] <= 0x39,
            digit_run_end(line@, i as int) == digit_run_end(line@, j as int),
            too_big <==> num_value(line@, i as int, j as int) > MAX_FIELD_VALUE,
            !too_big ==> acc == num_value(line@, i as int, j as int),
            acc <= 0xFFFF * 10 + 9,
        decreases line@.len() - j,
    {
        let d: u32 = (line[j] - 0x30) as u32;
        proof {
            assert(num_value(line@, i as int, j as int + 1) == num_value(
                line@,
                i as int,
                j as int,
            ) * 10 + d);
            if num_value(line@, i as int, j as int) > 0xFFFF {
                assert(num_value(line@, i as int, j as int) * 10 + d > 0xFFFF)
                    by (nonlinear_arith)
                    requires
                        num_value(line@, i as int, j as int) > 0xFFFF,
                        d >= 0,
                ;
            }
        }
        if !too_big {
            acc = acc * 10 + d;
            if acc > 0xFFFF {
                too_big = true;
            }
        }
        j += 1;
    }
    proof {
        assert(digit_run_end(line@, j as int) == j);
    }
    if line[i] == 0x30 && j > i + 1 {
        return None;
    }
    let value: u16 = if too_big {
        0
    } else {
        acc as u16
    };
    Some(ParsedField { value, end: j, too_big })
}

} // verus!
