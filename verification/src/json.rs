//! JSON reading and writing on UTF-8 byte vectors.
//!
//! The launcher persists its settings and account profile as JSON and
//! receives descriptors and authentication responses as JSON, so the
//! grammar is part of this library's own interface: parsing and emission
//! are implemented and specified here directly.
//!
//! Numbers are integers; a number with a fraction or exponent, or one
//! outside the `i64` range, is kept only as the marker [`JsonValue::Float`]
//! so that callers can degrade it explicitly.

use vstd::prelude::*;

verus! {

// ---------------------------------------------------------------------
// Data model
// ---------------------------------------------------------------------

/// A parsed JSON document. Strings are UTF-8 byte vectors.
#[derive(Debug, PartialEq)]
pub enum JsonValue {
    Null,
    Bool(bool),
    Int(i64),
    /// A number that is not an `i64`: kept as a marker only.
    Float,
    Str(Vec<u8>),
    Arr(Vec<JsonValue>),
    Obj(Vec<(Vec<u8>, JsonValue)>),
}

/// The mathematical counterpart of [`JsonValue`].
pub enum JVal {
    Null,
    Bool(bool),
    Int(i64),
    Float,
    Str(Seq<u8>),
    Arr(Seq<JVal>),
    Obj(Seq<(Seq<u8>, JVal)>),
}

impl JsonValue {
    pub open spec fn view(&self) -> JVal
        decreases self,
    {
        match self {
            JsonValue::Null => JVal::Null,
            JsonValue::Bool(b) => JVal::Bool(*b),
            JsonValue::Int(n) => JVal::Int(*n),
            JsonValue::Float => JVal::Float,
            JsonValue::Str(t) => JVal::Str(t@),
            JsonValue::Arr(v) => JVal::Arr(
                Seq::new(
                    v@.len(),
                    |k: int| if 0 <= k < v@.len() { v@[k].view() } else { JVal::Null },
                ),
            ),
            JsonValue::Obj(m) => JVal::Obj(
                Seq::new(
                    m@.len(),
                    |k: int|
                        if 0 <= k < m@.len() {
                            (m@[k].0@, m@[k].1.view())
                        } else {
                            (Seq::empty(), JVal::Null)
                        },
                ),
            ),
        }
    }
}

// ---------------------------------------------------------------------
// Byte classes
// ---------------------------------------------------------------------

pub open spec fn is_ws(b: u8) -> bool {
    b == 0x20 || b == 0x09 || b == 0x0a || b == 0x0d
}

pub open spec fn is_digit(b: u8) -> bool {
    0x30 <= b <= 0x39
}

pub open spec fn digit_val(b: u8) -> int {
    b - 0x30
}

pub open spec fn is_hex(b: u8) -> bool {
    is_digit(b) || (0x41 <= b <= 0x46) || (0x61 <= b <= 0x66)
}

pub open spec fn hex_val(b: u8) -> int {
    if is_digit(b) {
        b - 0x30
    } else if 0x41 <= b <= 0x46 {
        b - 0x37
    } else {
        b - 0x57
    }
}

/// Lower-case hexadecimal digit for a value in `0 .. 16`.
pub open spec fn hex_digit(v: int) -> u8 {
    if v < 10 {
        (0x30 + v) as u8
    } else {
        (0x57 + v) as u8
    }
}

// ---------------------------------------------------------------------
// Leading whitespace
// ---------------------------------------------------------------------

/// Number of leading whitespace bytes.
pub open spec fn ws_len(s: Seq<u8>) -> int
    decreases s.len(),
{
    if s.len() > 0 && is_ws(s[0]) {
        1 + ws_len(s.skip(1))
    } else {
        0
    }
}

pub proof fn lemma_ws_len_bounds(s: Seq<u8>)
    ensures
        0 <= ws_len(s) <= s.len(),
    decreases s.len(),
{
    if s.len() > 0 && is_ws(s[0]) {
        lemma_ws_len_bounds(s.skip(1));
    }
}

/// Advances past whitespace starting at `i`.
pub fn skip_ws(s: &Vec<u8>, i: usize) -> (r: usize)
    requires
        i <= s@.len(),
    ensures
        i <= r <= s@.len(),
        r - i == ws_len(s@.skip(i as int)),
    decreases s@.len() - i,
{
    proof {
        lemma_ws_len_bounds(s@.skip(i as int));
    }
    if i < s.len() {
        let b = s[i];
        if b == 0x20 || b == 0x09 || b == 0x0a || b == 0x0d {
            proof {
                assert(s@.skip(i as int).skip(1) =~= s@.skip(i + 1));
            }
            return skip_ws(s, i + 1);
        }
    }
    proof {
        if i < s@.len() {
            assert(!is_ws(s@.skip(i as int)[0]));
        }
    }
    i
}

// ---------------------------------------------------------------------
// Strings: emission
// ---------------------------------------------------------------------

/// How one byte of string content is written: quote and backslash are
/// escaped, control bytes use a `\u00xy` escape, everything else is
/// passed through.
pub open spec fn esc_byte(b: u8) -> Seq<u8> {
    if b == 0x22 {
        seq![0x5cu8, 0x22u8]
    } else if b == 0x5c {
        seq![0x5cu8, 0x5cu8]
    } else if b < 0x20 {
        seq![0x5cu8, 0x75u8, 0x30u8, 0x30u8, hex_digit((b as int) / 0x10), hex_digit((b as int) % 0x10)]
    } else {
        seq![b]
    }
}

pub open spec fn spec_emit_string_body(t: Seq<u8>) -> Seq<u8>
    decreases t.len(),
{
    if t.len() == 0 {
        Seq::empty()
    } else {
        esc_byte(t[0]) + spec_emit_string_body(t.drop_first())
    }
}

/// A string value as written: quoted and escaped.
pub open spec fn spec_emit_string(t: Seq<u8>) -> Seq<u8> {
    seq![0x22u8] + spec_emit_string_body(t) + seq![0x22u8]
}

/// Appends the escaped body of `t` (from index `i` on) to `out`.
fn emit_string_body_from(t: &Vec<u8>, i: usize, out: &mut Vec<u8>)
    requires
        i <= t@.len(),
    ensures
        final(out)@ == old(out)@ + spec_emit_string_body(t@.skip(i as int)),
    decreases t@.len() - i,
{
    if i == t.len() {
        proof {
            assert(t@.skip(i as int).len() == 0);
            assert(final(out)@ =~= old(out)@ + spec_emit_string_body(t@.skip(i as int)));
        }
        return ;
    }
    let b = t[i];
    if b == 0x22 {
        out.push(0x5c);
        out.push(0x22);
    } else if b == 0x5c {
        out.push(0x5c);
        out.push(0x5c);
    } else if b < 0x20 {
        out.push(0x5c);
        out.push(0x75);
        out.push(0x30);
        out.push(0x30);
        let hi = b / 0x10;
        let lo = b % 0x10;
        out.push(if hi < 10 { 0x30 + hi } else { 0x57 + hi });
        out.push(if lo < 10 { 0x30 + lo } else { 0x57 + lo });
    } else {
        out.push(b);
    }
    proof {
        assert(out@ =~= old(out)@ + esc_byte(t@[i as int]));
    }
    emit_string_body_from(t, i + 1, out);
    proof {
        let suf = t@.skip(i as int);
        assert(suf[0] == t@[i as int]);
        assert(suf.drop_first() =~= t@.skip(i + 1));
        assert(final(out)@ =~= old(out)@ + spec_emit_string_body(suf));
    }
}

/// Appends the quoted, escaped form of `t` to `out`.
pub fn emit_string(t: &Vec<u8>, out: &mut Vec<u8>)
    ensures
        final(out)@ == old(out)@ + spec_emit_string(t@),
{
    out.push(0x22);
    emit_string_body_from(t, 0, out);
    out.push(0x22);
    proof {
        assert(t@.skip(0) =~= t@);
        assert(final(out)@ =~= old(out)@ + spec_emit_string(t@));
    }
}

// ---------------------------------------------------------------------
// Strings: parsing
// ---------------------------------------------------------------------

pub open spec fn is_simple_escape(b: u8) -> bool {
    b == 0x22 || b == 0x5c || b == 0x2f || b == 0x62 || b == 0x66 || b == 0x6e || b == 0x72
        || b == 0x74
}

pub open spec fn unescape(b: u8) -> u8 {
    if b == 0x62 {
        0x08
    } else if b == 0x66 {
        0x0c
    } else if b == 0x6e {
        0x0a
    } else if b == 0x72 {
        0x0d
    } else if b == 0x74 {
        0x09
    } else {
        b
    }
}

/// Parses string content up to and including the closing quote; the
/// suffix `s` starts just after the opening quote. Returns the decoded
/// bytes and the number of input bytes consumed.
pub open spec fn sp_strbody(s: Seq<u8>) -> Option<(Seq<u8>, int)>
    decreases s.len(),
{
    if s.len() == 0 {
        None
    } else if s[0] == 0x22 {
        Some((Seq::empty(), 1))
    } else if s[0] == 0x5c {
        if s.len() < 2 {
            None
        } else {
            let e = s[1];
            if is_simple_escape(e) {
                match sp_strbody(s.skip(2)) {
                    None => None,
                    Some((t, n)) => Some((seq![unescape(e)] + t, n + 2)),
                }
            } else if e == 0x75 {
                if s.len() >= 6 && is_hex(s[2]) && is_hex(s[3]) && is_hex(s[4]) && is_hex(s[5]) {
                    let v = hex_val(s[2]) * 0x1000 + hex_val(s[3]) * 0x100 + hex_val(s[4]) * 0x10
                        + hex_val(s[5]);
                    if v < 0x80 {
                        match sp_strbody(s.skip(6)) {
                            None => None,
                            Some((t, n)) => Some((seq![v as u8] + t, n + 6)),
                        }
                    } else {
                        None
                    }
                } else {
                    None
                }
            } else {
                None
            }
        }
    } else {
        match sp_strbody(s.skip(1)) {
            None => None,
            Some((t, n)) => Some((seq![s[0]] + t, n + 1)),
        }
    }
}

/// A whole string token: opening quote, body, closing quote.
pub open spec fn sp_string(s: Seq<u8>) -> Option<(Seq<u8>, int)> {
    if s.len() >= 1 && s[0] == 0x22 {
        match sp_strbody(s.skip(1)) {
            None => None,
            Some((t, n)) => Some((t, n + 1)),
        }
    } else {
        None
    }
}

pub proof fn lemma_sp_strbody_bounds(s: Seq<u8>)
    ensures
        match sp_strbody(s) {
            Some((t, n)) => 1 <= n <= s.len(),
            None => true,
        },
    decreases s.len(),
{
    if s.len() == 0 {
    } else if s[0] == 0x22 {
    } else if s[0] == 0x5c {
        if s.len() >= 2 {
            lemma_sp_strbody_bounds(s.skip(2));
            if s.len() >= 6 {
                lemma_sp_strbody_bounds(s.skip(6));
            }
        }
    } else {
        lemma_sp_strbody_bounds(s.skip(1));
    }
}

pub proof fn lemma_sp_string_bounds(s: Seq<u8>)
    ensures
        match sp_string(s) {
            Some((t, n)) => 2 <= n <= s.len(),
            None => true,
        },
{
    if s.len() >= 1 && s[0] == 0x22 {
        lemma_sp_strbody_bounds(s.skip(1));
    }
}

/// Parses string content starting at `i` (just after the opening
/// quote), appending decoded bytes to `out`; returns the index just
/// after the closing quote.
fn parse_string_body(s: &Vec<u8>, i: usize, out: &mut Vec<u8>) -> (r: Option<usize>)
    requires
        i <= s@.len(),
    ensures
        match r {
            Some(j) => {
                &&& i < j <= s@.len()
                &&& match sp_strbody(s@.skip(i as int)) {
                    Some((t, n)) => n == j - i && final(out)@ == old(out)@ + t,
                    None => false,
                }
            },
            None => sp_strbody(s@.skip(i as int)) is None,
        },
    decreases s@.len() - i,
{
    let ghost suf = s@.skip(i as int);
    if i == s.len() {
        return None;
    }
    let b = s[i];
    proof {
        assert(suf[0] == b);
    }
    if b == 0x22 {
        proof {
            assert(final(out)@ =~= old(out)@ + Seq::<u8>::empty());
        }
        return Some(i + 1);
    }
    if b == 0x5c {
        if i + 1 >= s.len() {
            return None;
        }
        let e = s[i + 1];
        proof {
            assert(suf[1] == e);
        }
        if e == 0x22 || e == 0x5c || e == 0x2f || e == 0x62 || e == 0x66 || e == 0x6e || e == 0x72
            || e == 0x74 {
            let u = if e == 0x62 {
                0x08
            } else if e == 0x66 {
                0x0c
            } else if e == 0x6e {
                0x0a
            } else if e == 0x72 {
                0x0d
            } else if e == 0x74 {
                0x09
            } else {
                e
            };
            out.push(u);
            proof {
                assert(suf.skip(2) =~= s@.skip(i + 2));
            }
            let r = parse_string_body(s, i + 2, out);
            proof {
                if r is Some {
                    let (t, n) = sp_strbody(s@.skip(i + 2)).unwrap();
                    assert(final(out)@ =~= old(out)@ + (seq![unescape(e)] + t));
                }
            }
            return r;
        }
        if e == 0x75 {
            if s.len() - (i + 1) < 5 {
                return None;
            }
            let h2 = s[i + 2];
            let h3 = s[i + 3];
            let h4 = s[i + 4];
            let h5 = s[i + 5];
            proof {
                assert(suf[2] == h2 && suf[3] == h3 && suf[4] == h4 && suf[5] == h5);
            }
            let v2 = hex_nibble(h2);
            let v3 = hex_nibble(h3);
            let v4 = hex_nibble(h4);
            let v5 = hex_nibble(h5);
            match (v2, v3, v4, v5) {
                (Some(a), Some(b3), Some(c), Some(d)) => {
                    let v: u32 = (a as u32) * 0x1000 + (b3 as u32) * 0x100 + (c as u32) * 0x10
                        + (d as u32);
                    if v < 0x80 {
                        out.push(v as u8);
                        proof {
                            assert(suf.skip(6) =~= s@.skip(i + 6));
                        }
                        let r = parse_string_body(s, i + 6, out);
                        proof {
                            if r is Some {
                                let (t, n) = sp_strbody(s@.skip(i + 6)).unwrap();
                                assert(final(out)@ =~= old(out)@ + (seq![(v as u8)] + t));
                            }
                        }
                        return r;
                    } else {
                        return None;
                    }
                },
                _ => {
                    return None;
                },
            }
        }
        return None;
    }
    out.push(b);
    proof {
        assert(suf.skip(1) =~= s@.skip(i + 1));
    }
    let r = parse_string_body(s, i + 1, out);
    proof {
        if r is Some {
            let (t, n) = sp_strbody(s@.skip(i + 1)).unwrap();
            assert(final(out)@ =~= old(out)@ + (seq![b] + t));
        }
    }
    r
}

/// Hexadecimal value of one byte, if it is a hex digit.
fn hex_nibble(b: u8) -> (r: Option<u8>)
    ensures
        match r {
            Some(v) => is_hex(b) && v == hex_val(b) && v < 16,
            None => !is_hex(b),
        },
{
    if 0x30 <= b && b <= 0x39 {
        Some(b - 0x30)
    } else if 0x41 <= b && b <= 0x46 {
        Some(b - 0x37)
    } else if 0x61 <= b && b <= 0x66 {
        Some(b - 0x57)
    } else {
        None
    }
}

/// Parses a whole string token starting at `i`.
pub fn parse_string(s: &Vec<u8>, i: usize) -> (r: Option<(Vec<u8>, usize)>)
    requires
        i <= s@.len(),
    ensures
        match r {
            Some((t, j)) => {
                &&& i < j <= s@.len()
                &&& sp_string(s@.skip(i as int)) == Some((t@, j - i as int))
            },
            None => sp_string(s@.skip(i as int)) is None,
        },
{
    if i == s.len() || s[i] != 0x22 {
        return None;
    }
    proof {
        assert(s@.skip(i as int)[0] == 0x22);
        assert(s@.skip(i as int).skip(1) =~= s@.skip(i + 1));
    }
    let mut out: Vec<u8> = Vec::new();
    match parse_string_body(s, i + 1, &mut out) {
        Some(j) => {
            proof {
                assert(out@ =~= Seq::<u8>::empty() + out@);
            }
            Some((out, j))
        },
        None => None,
    }
}

// ---------------------------------------------------------------------
// Round trip: a string written by `emit_string` parses back to itself
// ---------------------------------------------------------------------

pub proof fn lemma_strbody_round_trip(t: Seq<u8>, rest: Seq<u8>)
    ensures
        sp_strbody(spec_emit_string_body(t) + seq![0x22u8] + rest) == Some(
            (t, spec_emit_string_body(t).len() + 1 as int),
        ),
    decreases t.len(),
{
    let e = spec_emit_string_body(t);
    let s = e + seq![0x22u8] + rest;
    if t.len() == 0 {
        assert(s =~= seq![0x22u8] + rest);
        assert(s[0] == 0x22);
        assert(t =~= Seq::<u8>::empty());
    } else {
        let t0 = t[0];
        let t1 = t.drop_first();
        let e1 = spec_emit_string_body(t1);
        assert(e == esc_byte(t0) + e1);
        lemma_strbody_round_trip(t1, rest);
        let s1 = e1 + seq![0x22u8] + rest;
        if t0 == 0x22 {
            assert(s[0] == 0x5c && s[1] == 0x22);
            assert(s.skip(2) =~= s1);
            assert(seq![unescape(0x22u8)] + t1 =~= t);
        } else if t0 == 0x5c {
            assert(s[0] == 0x5c && s[1] == 0x5c);
            assert(s.skip(2) =~= s1);
            assert(seq![unescape(0x5cu8)] + t1 =~= t);
        } else if t0 < 0x20 {
            let hi = hex_digit((t0 as int) / 0x10);
            let lo = hex_digit((t0 as int) % 0x10);
            assert(s[0] == 0x5c && s[1] == 0x75 && s[2] == 0x30 && s[3] == 0x30 && s[4] == hi
                && s[5] == lo);
            assert(is_hex(hi) && hex_val(hi) == t0 / 0x10);
            assert(is_hex(lo) && hex_val(lo) == t0 % 0x10);
            assert(hex_val(s[2]) == 0 && hex_val(s[3]) == 0);
            let v = hex_val(s[2]) * 0x1000 + hex_val(s[3]) * 0x100 + hex_val(s[4]) * 0x10
                + hex_val(s[5]);
            assert(v == (t0 / 0x10) * 0x10 + t0 % 0x10);
            assert(v == t0);
            assert(s.skip(6) =~= s1);
            assert(seq![(v as u8)] + t1 =~= t);
        } else {
            assert(s[0] == t0);
            assert(t0 != 0x22 && t0 != 0x5c);
            assert(s.skip(1) =~= s1);
            assert(seq![t0] + t1 =~= t);
        }
    }
}

pub proof fn lemma_string_round_trip(t: Seq<u8>, rest: Seq<u8>)
    ensures
        sp_string(spec_emit_string(t) + rest) == Some((t, spec_emit_string(t).len() as int)),
{
    let s = spec_emit_string(t) + rest;
    assert(s[0] == 0x22);
    assert(s.skip(1) =~= spec_emit_string_body(t) + seq![0x22u8] + rest);
    lemma_strbody_round_trip(t, rest);
}

// ---------------------------------------------------------------------
// Numbers
// ---------------------------------------------------------------------

/// Bytes that may continue a number once its leading digits have been
/// read: more digits, a fraction, an exponent, or an exponent sign.
pub open spec fn is_num_cont(b: u8) -> bool {
    is_digit(b) || b == 0x2e || b == 0x65 || b == 0x45 || b == 0x2b || b == 0x2d
}

/// Number of leading decimal digits.
pub open spec fn digit_run(s: Seq<u8>) -> int
    decreases s.len(),
{
    if s.len() > 0 && is_digit(s[0]) {
        1 + digit_run(s.skip(1))
    } else {
        0
    }
}

pub proof fn lemma_digit_run_bounds(s: Seq<u8>)
    ensures
        0 <= digit_run(s) <= s.len(),
    decreases s.len(),
{
    if s.len() > 0 && is_digit(s[0]) {
        lemma_digit_run_bounds(s.skip(1));
    }
}

/// Number of leading number-continuation bytes.
pub open spec fn num_tail(s: Seq<u8>) -> int
    decreases s.len(),
{
    if s.len() > 0 && is_num_cont(s[0]) {
        1 + num_tail(s.skip(1))
    } else {
        0
    }
}

pub proof fn lemma_num_tail_bounds(s: Seq<u8>)
    ensures
        0 <= num_tail(s) <= s.len(),
    decreases s.len(),
{
    if s.len() > 0 && is_num_cont(s[0]) {
        lemma_num_tail_bounds(s.skip(1));
    }
}

/// Value of the first `k` bytes of `s` read as decimal digits.
pub open spec fn digits_val(s: Seq<u8>, k: int) -> int
    decreases k,
{
    if k <= 0 {
        0
    } else {
        digits_val(s, k - 1) * 10 + digit_val(s[k - 1])
    }
}

pub open spec fn pow10(k: nat) -> nat
    decreases k,
{
    if k == 0 {
        1
    } else {
        10 * pow10((k - 1) as nat)
    }
}

proof fn lemma_pow10_19()
    ensures
        pow10(19) == 10_000_000_000_000_000_000,
{
    reveal_with_fuel(pow10, 21);
}

proof fn lemma_digits_val_nonneg(s: Seq<u8>, k: int)
    requires
        forall|m: int| 0 <= m < k ==> is_digit(#[trigger] s[m]),
    ensures
        digits_val(s, k) >= 0,
    decreases k,
{
    if k > 0 {
        lemma_digits_val_nonneg(s, k - 1);
    }
}

/// An unsigned number token. A fraction or exponent, a run of more than
/// 19 digits, or a value beyond `i64::MAX` yields the `Float` marker.
pub open spec fn sp_unum(s: Seq<u8>) -> Option<(JVal, int)> {
    let k = digit_run(s);
    if k == 0 {
        None
    } else if k < s.len() && (s[k] == 0x2e || s[k] == 0x65 || s[k] == 0x45) {
        Some((JVal::Float, k + num_tail(s.skip(k))))
    } else if k > 19 {
        Some((JVal::Float, k))
    } else if digits_val(s, k) > 0x7fff_ffff_ffff_ffff {
        Some((JVal::Float, k))
    } else {
        Some((JVal::Int(digits_val(s, k) as i64), k))
    }
}

pub open spec fn jval_neg(v: JVal) -> JVal {
    match v {
        JVal::Int(n) => JVal::Int((0 - n as int) as i64),
        _ => v,
    }
}

/// A number token, with an optional leading minus sign.
pub open spec fn sp_number(s: Seq<u8>) -> Option<(JVal, int)> {
    if s.len() == 0 {
        None
    } else if s[0] == 0x2d {
        match sp_unum(s.skip(1)) {
            None => None,
            Some((v, k)) => Some((jval_neg(v), k + 1)),
        }
    } else {
        sp_unum(s)
    }
}

/// Absolute index just after the digit run starting at `i`.
fn digit_run_end(s: &Vec<u8>, i: usize) -> (r: usize)
    requires
        i <= s@.len(),
    ensures
        i <= r <= s@.len(),
        r - i == digit_run(s@.skip(i as int)),
        forall|m: int| i <= m < r ==> is_digit(#[trigger] s@[m]),
    decreases s@.len() - i,
{
    proof {
        lemma_digit_run_bounds(s@.skip(i as int));
    }
    if i < s.len() {
        let b = s[i];
        if 0x30 <= b && b <= 0x39 {
            proof {
                assert(s@.skip(i as int).skip(1) =~= s@.skip(i + 1));
            }
            return digit_run_end(s, i + 1);
        }
    }
    proof {
        if i < s@.len() {
            assert(!is_digit(s@.skip(i as int)[0]));
        }
    }
    i
}

/// Absolute index just after the number-continuation run starting at `i`.
fn num_tail_end(s: &Vec<u8>, i: usize) -> (r: usize)
    requires
        i <= s@.len(),
    ensures
        i <= r <= s@.len(),
        r - i == num_tail(s@.skip(i as int)),
    decreases s@.len() - i,
{
    proof {
        lemma_num_tail_bounds(s@.skip(i as int));
    }
    if i < s.len() {
        let b = s[i];
        if (0x30 <= b && b <= 0x39) || b == 0x2e || b == 0x65 || b == 0x45 || b == 0x2b
            || b == 0x2d {
            proof {
                assert(s@.skip(i as int).skip(1) =~= s@.skip(i + 1));
            }
            return num_tail_end(s, i + 1);
        }
    }
    proof {
        if i < s@.len() {
            assert(!is_num_cont(s@.skip(i as int)[0]));
        }
    }
    i
}

/// Parses an unsigned number token starting at `i`.
fn parse_unum(s: &Vec<u8>, i: usize) -> (r: Option<(JsonValue, usize)>)
    requires
        i <= s@.len(),
    ensures
        match r {
            Some((v, j)) => {
                &&& i < j <= s@.len()
                &&& sp_unum(s@.skip(i as int)) == Some((v@, j - i as int))
                &&& match v {
                    JsonValue::Int(n) => 0 <= n,
                    _ => true,
                }
            },
            None => sp_unum(s@.skip(i as int)) is None,
        },
{
    let ghost suf = s@.skip(i as int);
    let k_end = digit_run_end(s, i);
    if k_end == i {
        return None;
    }
    let ghost k = k_end - i;
    proof {
        assert(forall|m: int| 0 <= m < suf.len() ==> suf[m] == s@[i + m]);
    }
    if k_end < s.len() {
        let b = s[k_end];
        if b == 0x2e || b == 0x65 || b == 0x45 {
            proof {
                assert(suf[k] == s@[k_end as int]);
                assert(suf.skip(k) =~= s@.skip(k_end as int));
            }
            let t_end = num_tail_end(s, k_end);
            return Some((JsonValue::Float, t_end));
        }
        proof {
            assert(suf[k] == s@[k_end as int]);
        }
    }
    if k_end - i > 19 {
        return Some((JsonValue::Float, k_end));
    }
    let mut val: u64 = 0;
    let mut j = i;
    proof {
        lemma_pow10_19();
    }
    while j < k_end
        invariant
            i <= j <= k_end <= s@.len(),
            k_end - i <= 19,
            suf == s@.skip(i as int),
            forall|m: int| i <= m < k_end ==> is_digit(#[trigger] s@[m]),
            val == digits_val(suf, j - i),
            val < pow10((j - i) as nat),
            pow10(19) == 10_000_000_000_000_000_000,
        decreases k_end - j,
    {
        proof {
            assert(pow10(((j - i) + 1) as nat) == 10 * pow10((j - i) as nat));
            lemma_pow10_mono((((j - i) + 1)) as nat, 19);
            assert(suf[j - i] == s@[j as int]);
        }
        let d = s[j] - 0x30;
        val = val * 10 + (d as u64);
        j += 1;
    }
    proof {
        lemma_digits_val_nonneg(suf, k as int);
    }
    if val > 0x7fff_ffff_ffff_ffff {
        Some((JsonValue::Float, k_end))
    } else {
        Some((JsonValue::Int(val as i64), k_end))
    }
}

proof fn lemma_pow10_mono(a: nat, b: nat)
    requires
        a <= b,
    ensures
        pow10(a) <= pow10(b),
    decreases b,
{
    if a < b {
        lemma_pow10_mono(a, (b - 1) as nat);
        lemma_pow10_pos((b - 1) as nat);
    }
}

proof fn lemma_pow10_pos(k: nat)
    ensures
        pow10(k) >= 1,
    decreases k,
{
    if k > 0 {
        lemma_pow10_pos((k - 1) as nat);
    }
}

/// Parses a number token starting at `i`.
pub fn parse_number(s: &Vec<u8>, i: usize) -> (r: Option<(JsonValue, usize)>)
    requires
        i <= s@.len(),
    ensures
        match r {
            Some((v, j)) => {
                &&& i < j <= s@.len()
                &&& sp_number(s@.skip(i as int)) == Some((v@, j - i as int))
            },
            None => sp_number(s@.skip(i as int)) is None,
        },
{
    if i == s.len() {
        return None;
    }
    if s[i] == 0x2d {
        proof {
            assert(s@.skip(i as int)[0] == 0x2d);
            assert(s@.skip(i as int).skip(1) =~= s@.skip(i + 1));
        }
        match parse_unum(s, i + 1) {
            None => None,
            Some((v, j)) => {
                let nv = match v {
                    JsonValue::Int(n) => JsonValue::Int(-n),
                    other => other,
                };
                Some((nv, j))
            },
        }
    } else {
        proof {
            assert(s@.skip(i as int)[0] != 0x2d);
        }
        parse_unum(s, i)
    }
}

// ---------------------------------------------------------------------
// Numbers: emission and round trip
// ---------------------------------------------------------------------

/// Decimal digits of `m`, most significant first.
pub open spec fn spec_dec_digits(m: nat) -> Seq<u8>
    decreases m,
{
    if m < 10 {
        seq![(0x30 + m) as u8]
    } else {
        spec_dec_digits(m / 10) + seq![(0x30 + m % 10) as u8]
    }
}

/// An integer as written: minus sign for negative values, then digits.
pub open spec fn spec_emit_int(n: int) -> Seq<u8> {
    if n < 0 {
        seq![0x2du8] + spec_dec_digits((0 - n) as nat)
    } else {
        spec_dec_digits(n as nat)
    }
}

/// Appends the decimal digits of `m` to `out`.
fn emit_dec_digits(m: u64, out: &mut Vec<u8>)
    ensures
        final(out)@ == old(out)@ + spec_dec_digits(m as nat),
    decreases m,
{
    if m < 10 {
        out.push(0x30 + (m as u8));
        proof {
            assert(final(out)@ =~= old(out)@ + spec_dec_digits(m as nat));
        }
    } else {
        emit_dec_digits(m / 10, out);
        out.push(0x30 + ((m % 10) as u8));
        proof {
            assert((m as nat) / 10 == (m / 10) as nat);
            assert(final(out)@ =~= old(out)@ + spec_dec_digits(m as nat));
        }
    }
}

/// Appends the decimal form of `n` to `out`.
pub fn emit_int(n: i64, out: &mut Vec<u8>)
    ensures
        final(out)@ == old(out)@ + spec_emit_int(n as int),
{
    if n < 0 {
        out.push(0x2d);
        let m: u64 = if n == i64::MIN {
            9_223_372_036_854_775_808u64
        } else {
            (-n) as u64
        };
        proof {
            assert(m as nat == (0 - n as int) as nat);
        }
        emit_dec_digits(m, out);
        proof {
            assert(final(out)@ =~= old(out)@ + spec_emit_int(n as int));
        }
    } else {
        emit_dec_digits(n as u64, out);
    }
}

proof fn lemma_dec_digits_are_digits(m: nat)
    ensures
        spec_dec_digits(m).len() >= 1,
        forall|i: int|
            0 <= i < spec_dec_digits(m).len() ==> is_digit(#[trigger] spec_dec_digits(m)[i]),
    decreases m,
{
    if m >= 10 {
        lemma_dec_digits_are_digits(m / 10);
    }
}

proof fn lemma_dec_digits_len(m: nat, k: nat)
    requires
        k >= 1,
        m < pow10(k),
    ensures
        spec_dec_digits(m).len() <= k,
    decreases m,
{
    if m < 10 {
    } else {
        assert(pow10(k) == 10 * pow10((k - 1) as nat));
        lemma_pow10_pos((k - 1) as nat);
        assert(m / 10 < pow10((k - 1) as nat));
        if k == 1 {
            assert(pow10(1) == 10 * pow10(0));
            reveal_with_fuel(pow10, 2);
            assert(false);
        }
        lemma_dec_digits_len(m / 10, (k - 1) as nat);
    }
}

/// A run of digits followed by a non-continuation byte is read as
/// exactly that run.
proof fn lemma_digit_run_of_digits(a: Seq<u8>, b: Seq<u8>)
    requires
        forall|i: int| 0 <= i < a.len() ==> is_digit(#[trigger] a[i]),
        b.len() == 0 || !is_digit(b[0]),
    ensures
        digit_run(a + b) == a.len(),
    decreases a.len(),
{
    let s = a + b;
    if a.len() == 0 {
        assert(s =~= b);
    } else {
        assert(s[0] == a[0]);
        assert(s.skip(1) =~= a.drop_first() + b);
        lemma_digit_run_of_digits(a.drop_first(), b);
    }
}

/// The value of emitted digits followed by anything is the emitted
/// number.
proof fn lemma_digits_val_of_emit(m: nat, b: Seq<u8>)
    ensures
        digits_val(spec_dec_digits(m) + b, spec_dec_digits(m).len() as int) == m,
    decreases m,
{
    let a = spec_dec_digits(m);
    let s = a + b;
    if m < 10 {
        assert(s[0] == (0x30 + m) as u8);
        assert(digits_val(s, 1) == digits_val(s, 0) * 10 + digit_val(s[0]));
    } else {
        let a1 = spec_dec_digits(m / 10);
        let d = (0x30 + m % 10) as u8;
        assert(a == a1 + seq![d]);
        assert(s =~= a1 + (seq![d] + b));
        lemma_digits_val_of_emit(m / 10, seq![d] + b);
        assert(s[a.len() - 1] == d);
        assert(digits_val(s, a.len() as int) == digits_val(s, a.len() - 1) * 10 + digit_val(
            s[a.len() - 1],
        ));
    }
}

/// Round trip for integers: the emitted decimal form parses back to the
/// same value, provided whatever follows cannot extend the number.
pub proof fn lemma_int_round_trip(n: int, rest: Seq<u8>)
    requires
        -0x7fff_ffff_ffff_ffff <= n <= 0x7fff_ffff_ffff_ffff,
        rest.len() == 0 || !is_num_cont(rest[0]),
    ensures
        sp_number(spec_emit_int(n) + rest) == Some(
            (JVal::Int(n as i64), spec_emit_int(n).len() as int),
        ),
{
    lemma_pow10_19();
    if n < 0 {
        let m = (0 - n) as nat;
        let a = spec_dec_digits(m);
        let s = spec_emit_int(n) + rest;
        lemma_dec_digits_are_digits(m);
        assert(s[0] == 0x2d);
        assert(s.skip(1) =~= a + rest);
        lemma_unum_round_trip(m, rest);
        assert(sp_unum(a + rest) == Some((JVal::Int(m as i64), a.len() as int)));
        assert(jval_neg(JVal::Int(m as i64)) == JVal::Int(n as i64));
    } else {
        let m = n as nat;
        let a = spec_dec_digits(m);
        let s = spec_emit_int(n) + rest;
        lemma_dec_digits_are_digits(m);
        assert(s[0] == a[0]);
        assert(is_digit(s[0]) && s[0] != 0x2d);
        lemma_unum_round_trip(m, rest);
    }
}

proof fn lemma_unum_round_trip(m: nat, rest: Seq<u8>)
    requires
        m <= 0x7fff_ffff_ffff_ffff,
        rest.len() == 0 || !is_num_cont(rest[0]),
    ensures
        sp_unum(spec_dec_digits(m) + rest) == Some(
            (JVal::Int(m as i64), spec_dec_digits(m).len() as int),
        ),
{
    lemma_pow10_19();
    let a = spec_dec_digits(m);
    let s = a + rest;
    lemma_dec_digits_are_digits(m);
    lemma_digit_run_of_digits(a, rest);
    let k = digit_run(s);
    assert(k == a.len());
    if k < s.len() {
        assert(s[k] == rest[0]);
        assert(!(s[k] == 0x2e || s[k] == 0x65 || s[k] == 0x45));
    }
    assert(m < pow10(19)) by {
        lemma_pow10_19();
    }
    lemma_dec_digits_len(m, 19);
    lemma_digits_val_of_emit(m, rest);
}


// ---------------------------------------------------------------------
// Values, arrays, objects
// ---------------------------------------------------------------------

/// Views of a sequence of parsed values.
pub open spec fn views_of(s: Seq<JsonValue>) -> Seq<JVal> {
    Seq::new(s.len(), |k: int| s[k]@)
}

/// Views of a sequence of parsed object members.
pub open spec fn member_views(s: Seq<(Vec<u8>, JsonValue)>) -> Seq<(Seq<u8>, JVal)> {
    Seq::new(s.len(), |k: int| (s[k].0@, s[k].1@))
}

/// One JSON value. The `first` flags of the element and member parsers
/// tell whether a closing bracket may come immediately (an empty array
/// or object).
pub open spec fn sp_value(s: Seq<u8>) -> Option<(JVal, int)>
    decreases s.len(), 0int,
{
    if s.len() == 0 {
        None
    } else {
        let b = s[0];
        if b == 0x22 {
            match sp_string(s) {
                None => None,
                Some((t, n)) => Some((JVal::Str(t), n)),
            }
        } else if b == 0x5b {
            match sp_elems(s.skip(1), true) {
                None => None,
                Some((es, n)) => Some((JVal::Arr(es), n + 1)),
            }
        } else if b == 0x7b {
            match sp_members(s.skip(1), true) {
                None => None,
                Some((ms, n)) => Some((JVal::Obj(ms), n + 1)),
            }
        } else if b == 0x74 {
            if s.len() >= 4 && s[1] == 0x72 && s[2] == 0x75 && s[3] == 0x65 {
                Some((JVal::Bool(true), 4))
            } else {
                None
            }
        } else if b == 0x66 {
            if s.len() >= 5 && s[1] == 0x61 && s[2] == 0x6c && s[3] == 0x73 && s[4] == 0x65 {
                Some((JVal::Bool(false), 5))
            } else {
                None
            }
        } else if b == 0x6e {
            if s.len() >= 4 && s[1] == 0x75 && s[2] == 0x6c && s[3] == 0x6c {
                Some((JVal::Null, 4))
            } else {
                None
            }
        } else if b == 0x2d || is_digit(b) {
            sp_number(s)
        } else {
            None
        }
    }
}

/// Array elements from just after `[` (or after a `,` when `first` is
/// false) up to and including the closing `]`.
pub open spec fn sp_elems(s: Seq<u8>, first: bool) -> Option<(Seq<JVal>, int)>
    decreases s.len(), 1int,
{
    let w = ws_len(s);
    if !(0 <= w <= s.len()) {
        None
    } else {
        let s1 = s.skip(w);
        if s1.len() == 0 {
            None
        } else if first && s1[0] == 0x5d {
            Some((Seq::empty(), w + 1))
        } else {
            match sp_value(s1) {
                None => None,
                Some((v, n)) => {
                    if !(1 <= n <= s1.len()) {
                        None
                    } else {
                        let s2 = s1.skip(n);
                        let w2 = ws_len(s2);
                        if !(0 <= w2 <= s2.len()) {
                            None
                        } else {
                            let s3 = s2.skip(w2);
                            if s3.len() == 0 {
                                None
                            } else if s3[0] == 0x5d {
                                Some((seq![v], w + n + w2 + 1))
                            } else if s3[0] == 0x2c {
                                match sp_elems(s3.skip(1), false) {
                                    None => None,
                                    Some((vs, m)) => Some((seq![v] + vs, w + n + w2 + 1 + m)),
                                }
                            } else {
                                None
                            }
                        }
                    }
                },
            }
        }
    }
}

/// Object members from just after `{` (or after a `,` when `first` is
/// false) up to and including the closing `}`.
pub open spec fn sp_members(s: Seq<u8>, first: bool) -> Option<(Seq<(Seq<u8>, JVal)>, int)>
    decreases s.len(), 1int,
{
    let w = ws_len(s);
    if !(0 <= w <= s.len()) {
        None
    } else {
        let s1 = s.skip(w);
        if s1.len() == 0 {
            None
        } else if first && s1[0] == 0x7d {
            Some((Seq::empty(), w + 1))
        } else {
            match sp_string(s1) {
                None => None,
                Some((key, kn)) => {
                    if !(1 <= kn <= s1.len()) {
                        None
                    } else {
                        let s2 = s1.skip(kn);
                        let w2 = ws_len(s2);
                        if !(0 <= w2 <= s2.len()) {
                            None
                        } else {
                            let s3 = s2.skip(w2);
                            if s3.len() == 0 || s3[0] != 0x3a {
                                None
                            } else {
                                let s4 = s3.skip(1);
                                let w3 = ws_len(s4);
                                if !(0 <= w3 <= s4.len()) {
                                    None
                                } else {
                                    let s5 = s4.skip(w3);
                                    match sp_value(s5) {
                                        None => None,
                                        Some((v, vn)) => {
                                            if !(1 <= vn <= s5.len()) {
                                                None
                                            } else {
                                                let s6 = s5.skip(vn);
                                                let w4 = ws_len(s6);
                                                if !(0 <= w4 <= s6.len()) {
                                                    None
                                                } else {
                                                    let s7 = s6.skip(w4);
                                                    if s7.len() == 0 {
                                                        None
                                                    } else if s7[0] == 0x7d {
                                                        Some(
                                                            (
                                                                seq![(key, v)],
                                                                w + kn + w2 + 1 + w3 + vn + w4 + 1,
                                                            ),
                                                        )
                                                    } else if s7[0] == 0x2c {
                                                        match sp_members(s7.skip(1), false) {
                                                            None => None,
                                                            Some((ms, mn)) => Some(
                                                                (
                                                                    seq![(key, v)] + ms,
                                                                    w + kn + w2 + 1 + w3 + vn + w4
                                                                        + 1 + mn,
                                                                ),
                                                            ),
                                                        }
                                                    } else {
                                                        None
                                                    }
                                                }
                                            }
                                        },
                                    }
                                }
                            }
                        }
                    }
                },
            }
        }
    }
}

/// A whole document: one value surrounded by whitespace only.
pub open spec fn sp_document(s: Seq<u8>) -> Option<JVal> {
    let w = ws_len(s);
    if !(0 <= w <= s.len()) {
        None
    } else {
        match sp_value(s.skip(w)) {
            None => None,
            Some((v, n)) => {
                if !(1 <= n <= s.len() - w) {
                    None
                } else if w + n + ws_len(s.skip(w + n)) == s.len() {
                    Some(v)
                } else {
                    None
                }
            },
        }
    }
}

/// Parses one value starting at `i`.
pub fn parse_value(s: &Vec<u8>, i: usize) -> (r: Option<(JsonValue, usize)>)
    requires
        i <= s@.len(),
    ensures
        match r {
            Some((v, j)) => {
                &&& i < j <= s@.len()
                &&& sp_value(s@.skip(i as int)) == Some((v@, j - i as int))
            },
            None => sp_value(s@.skip(i as int)) is None,
        },
    decreases s@.len() - i, 0int,
{
    let ghost su = s@.skip(i as int);
    if i == s.len() {
        return None;
    }
    let b = s[i];
    proof {
        assert(su[0] == b);
    }
    if b == 0x22 {
        match parse_string(s, i) {
            None => None,
            Some((t, j)) => Some((JsonValue::Str(t), j)),
        }
    } else if b == 0x5b {
        proof {
            assert(su.skip(1) =~= s@.skip(i + 1));
        }
        match parse_elems(s, i + 1, true) {
            None => None,
            Some((vs, j)) => {
                let v = JsonValue::Arr(vs);
                proof {
                    assert(v@->Arr_0 =~= views_of(v->Arr_0@));
                }
                Some((v, j))
            },
        }
    } else if b == 0x7b {
        proof {
            assert(su.skip(1) =~= s@.skip(i + 1));
        }
        match parse_members(s, i + 1, true) {
            None => None,
            Some((ms, j)) => {
                let v = JsonValue::Obj(ms);
                proof {
                    assert(v@->Obj_0 =~= member_views(v->Obj_0@));
                }
                Some((v, j))
            },
        }
    } else if b == 0x74 {
        if s.len() - i >= 4 && s[i + 1] == 0x72 && s[i + 2] == 0x75 && s[i + 3] == 0x65 {
            proof {
                assert(su[1] == s@[i + 1] && su[2] == s@[i + 2] && su[3] == s@[i + 3]);
            }
            Some((JsonValue::Bool(true), i + 4))
        } else {
            proof {
                if su.len() >= 4 {
                    assert(su[1] == s@[i + 1] && su[2] == s@[i + 2] && su[3] == s@[i + 3]);
                }
            }
            None
        }
    } else if b == 0x66 {
        if s.len() - i >= 5 && s[i + 1] == 0x61 && s[i + 2] == 0x6c && s[i + 3] == 0x73 && s[i
            + 4] == 0x65 {
            proof {
                assert(su[1] == s@[i + 1] && su[2] == s@[i + 2] && su[3] == s@[i + 3] && su[4]
                    == s@[i + 4]);
            }
            Some((JsonValue::Bool(false), i + 5))
        } else {
            proof {
                if su.len() >= 5 {
                    assert(su[1] == s@[i + 1] && su[2] == s@[i + 2] && su[3] == s@[i + 3] && su[4]
                        == s@[i + 4]);
                }
            }
            None
        }
    } else if b == 0x6e {
        if s.len() - i >= 4 && s[i + 1] == 0x75 && s[i + 2] == 0x6c && s[i + 3] == 0x6c {
            proof {
                assert(su[1] == s@[i + 1] && su[2] == s@[i + 2] && su[3] == s@[i + 3]);
            }
            Some((JsonValue::Null, i + 4))
        } else {
            proof {
                if su.len() >= 4 {
                    assert(su[1] == s@[i + 1] && su[2] == s@[i + 2] && su[3] == s@[i + 3]);
                }
            }
            None
        }
    } else if b == 0x2d || (0x30 <= b && b <= 0x39) {
        parse_number(s, i)
    } else {
        None
    }
}

/// Parses array elements starting at `i` (just after `[` or `,`).
#[verifier::rlimit(100)]
fn parse_elems(s: &Vec<u8>, i: usize, first: bool) -> (r: Option<(Vec<JsonValue>, usize)>)
    requires
        i <= s@.len(),
    ensures
        match r {
            Some((vs, j)) => {
                &&& i < j <= s@.len()
                &&& sp_elems(s@.skip(i as int), first) == Some((views_of(vs@), j - i as int))
            },
            None => sp_elems(s@.skip(i as int), first) is None,
        },
    decreases s@.len() - i, 1int,
{
    let ghost su = s@.skip(i as int);
    proof {
        lemma_ws_len_bounds(su);
    }
    let w_end = skip_ws(s, i);
    proof {
        assert(su.skip(w_end - i) =~= s@.skip(w_end as int));
    }
    if w_end == s.len() {
        return None;
    }
    if first && s[w_end] == 0x5d {
        let vs: Vec<JsonValue> = Vec::new();
        proof {
            assert(s@.skip(w_end as int)[0] == 0x5d);
            assert(views_of(vs@) =~= Seq::<JVal>::empty());
        }
        return Some((vs, w_end + 1));
    }
    proof {
        assert(s@.skip(w_end as int)[0] == s@[w_end as int]);
    }
    match parse_value(s, w_end) {
        None => None,
        Some((v, ve)) => {
            proof {
                assert(s@.skip(w_end as int).skip(ve - w_end) =~= s@.skip(ve as int));
                lemma_ws_len_bounds(s@.skip(ve as int));
            }
            let w2_end = skip_ws(s, ve);
            proof {
                assert(s@.skip(ve as int).skip(w2_end - ve) =~= s@.skip(w2_end as int));
            }
            if w2_end == s.len() {
                return None;
            }
            let b = s[w2_end];
            proof {
                assert(s@.skip(w2_end as int)[0] == b);
            }
            if b == 0x5d {
                let mut vs: Vec<JsonValue> = Vec::new();
                vs.push(v);
                proof {
                    assert(views_of(vs@) =~= seq![v@]);
                }
                Some((vs, w2_end + 1))
            } else if b == 0x2c {
                proof {
                    assert(s@.skip(w2_end as int).skip(1) =~= s@.skip(w2_end + 1));
                }
                match parse_elems(s, w2_end + 1, false) {
                    None => None,
                    Some((vs0, j)) => {
                        let mut vs = vs0;
                        let ghost tailv = views_of(vs@);
                        vs.insert(0, v);
                        proof {
                            assert(views_of(vs@) =~= seq![v@] + tailv);
                        }
                        Some((vs, j))
                    },
                }
            } else {
                None
            }
        },
    }
}

/// Parses object members starting at `i` (just after `{` or `,`).
#[verifier::rlimit(100)]
fn parse_members(s: &Vec<u8>, i: usize, first: bool) -> (r: Option<
    (Vec<(Vec<u8>, JsonValue)>, usize),
>)
    requires
        i <= s@.len(),
    ensures
        match r {
            Some((ms, j)) => {
                &&& i < j <= s@.len()
                &&& sp_members(s@.skip(i as int), first) == Some((member_views(ms@), j - i as int))
            },
            None => sp_members(s@.skip(i as int), first) is None,
        },
    decreases s@.len() - i, 1int,
{
    let ghost su = s@.skip(i as int);
    proof {
        lemma_ws_len_bounds(su);
    }
    let w_end = skip_ws(s, i);
    proof {
        assert(su.skip(w_end - i) =~= s@.skip(w_end as int));
    }
    if w_end == s.len() {
        return None;
    }
    if first && s[w_end] == 0x7d {
        let ms: Vec<(Vec<u8>, JsonValue)> = Vec::new();
        proof {
            assert(s@.skip(w_end as int)[0] == 0x7d);
            assert(member_views(ms@) =~= Seq::<(Seq<u8>, JVal)>::empty());
        }
        return Some((ms, w_end + 1));
    }
    proof {
        assert(s@.skip(w_end as int)[0] == s@[w_end as int]);
    }
    match parse_string(s, w_end) {
        None => None,
        Some((key, ke)) => {
            proof {
                assert(s@.skip(w_end as int).skip(ke - w_end) =~= s@.skip(ke as int));
                lemma_ws_len_bounds(s@.skip(ke as int));
            }
            let w2_end = skip_ws(s, ke);
            proof {
                assert(s@.skip(ke as int).skip(w2_end - ke) =~= s@.skip(w2_end as int));
            }
            if w2_end == s.len() || s[w2_end] != 0x3a {
                proof {
                    if w2_end < s@.len() {
                        assert(s@.skip(w2_end as int)[0] == s@[w2_end as int]);
                    }
                }
                return None;
            }
            proof {
                assert(s@.skip(w2_end as int)[0] == 0x3a);
                assert(s@.skip(w2_end as int).skip(1) =~= s@.skip(w2_end + 1));
                lemma_ws_len_bounds(s@.skip(w2_end + 1));
            }
            let w3_end = skip_ws(s, w2_end + 1);
            proof {
                assert(s@.skip(w2_end + 1).skip(w3_end - (w2_end + 1)) =~= s@.skip(
                    w3_end as int,
                ));
            }
            match parse_value(s, w3_end) {
                None => None,
                Some((v, ve)) => {
                    proof {
                        assert(s@.skip(w3_end as int).skip(ve - w3_end) =~= s@.skip(ve as int));
                        lemma_ws_len_bounds(s@.skip(ve as int));
                    }
                    let w4_end = skip_ws(s, ve);
                    proof {
                        assert(s@.skip(ve as int).skip(w4_end - ve) =~= s@.skip(w4_end as int));
                    }
                    if w4_end == s.len() {
                        return None;
                    }
                    let b = s[w4_end];
                    proof {
                        assert(s@.skip(w4_end as int)[0] == b);
                    }
                    if b == 0x7d {
                        let mut ms: Vec<(Vec<u8>, JsonValue)> = Vec::new();
                        ms.push((key, v));
                        proof {
                            assert(member_views(ms@) =~= seq![(key@, v@)]);
                        }
                        Some((ms, w4_end + 1))
                    } else if b == 0x2c {
                        proof {
                            assert(s@.skip(w4_end as int).skip(1) =~= s@.skip(w4_end + 1));
                        }
                        match parse_members(s, w4_end + 1, false) {
                            None => None,
                            Some((ms0, j)) => {
                                let mut ms = ms0;
                                let ghost tailm = member_views(ms@);
                                ms.insert(0, (key, v));
                                proof {
                                    assert(member_views(ms@) =~= seq![(key@, v@)] + tailm);
                                }
                                Some((ms, j))
                            },
                        }
                    } else {
                        None
                    }
                },
            }
        },
    }
}

/// Parses a whole document; the entire input must be one JSON value
/// surrounded by whitespace only.
pub fn parse_document(s: &Vec<u8>) -> (r: Option<JsonValue>)
    ensures
        match r {
            Some(v) => sp_document(s@) == Some(v@),
            None => sp_document(s@) is None,
        },
{
    proof {
        lemma_ws_len_bounds(s@);
        assert(s@.skip(0) =~= s@);
    }
    let w_end = skip_ws(s, 0);
    match parse_value(s, w_end) {
        None => None,
        Some((v, j)) => {
            proof {
                lemma_ws_len_bounds(s@.skip(j as int));
            }
            let t_end = skip_ws(s, j);
            if t_end == s.len() {
                Some(v)
            } else {
                None
            }
        },
    }
}

/// The first byte of an emitted integer is a minus sign or a digit.
pub proof fn lemma_emit_int_first_byte(n: int)
    ensures
        spec_emit_int(n).len() >= 1,
        spec_emit_int(n)[0] == 0x2d || is_digit(spec_emit_int(n)[0]),
{
    if n < 0 {
        lemma_dec_digits_are_digits((0 - n) as nat);
    } else {
        lemma_dec_digits_are_digits(n as nat);
    }
}

// ---------------------------------------------------------------------
// Building blocks for round-trip proofs over emitted objects
// ---------------------------------------------------------------------

/// A string token is one JSON value.
pub proof fn lemma_string_value(t: Seq<u8>, rest: Seq<u8>)
    ensures
        sp_value(spec_emit_string(t) + rest) == Some(
            (JVal::Str(t), spec_emit_string(t).len() as int),
        ),
{
    let s = spec_emit_string(t) + rest;
    assert(s[0] == 0x22);
    lemma_string_round_trip(t, rest);
}

/// One object member followed by a comma and more members: given that
/// the key and value texts parse as claimed and the remainder parses as
/// members, the whole text parses as the member followed by the rest.
#[verifier::rlimit(100)]
#[verifier::spinoff_prover]
pub proof fn lemma_member_cons(
    kt: Seq<u8>,
    k0: Seq<u8>,
    ev: Seq<u8>,
    jv0: JVal,
    r: Seq<u8>,
    ms_t: Seq<(Seq<u8>, JVal)>,
    n_t: int,
    first: bool,
)
    requires
        kt.len() >= 1,
        kt[0] == 0x22,
        ev.len() >= 1,
        !is_ws(ev[0]),
        sp_string(kt + seq![0x3au8] + ev + seq![0x2cu8] + r) == Some((k0, kt.len() as int)),
        sp_value(ev + seq![0x2cu8] + r) == Some((jv0, ev.len() as int)),
        sp_members(r, false) == Some((ms_t, n_t)),
    ensures
        sp_members(kt + seq![0x3au8] + ev + seq![0x2cu8] + r, first) == Some(
            (seq![(k0, jv0)] + ms_t, kt.len() + 1 + ev.len() + 1 + n_t),
        ),
{
    let s = kt + seq![0x3au8] + ev + seq![0x2cu8] + r;
    assert(s[0] == kt[0]);
    assert(ws_len(s) == 0);
    assert(s.skip(0) =~= s);
    let s2 = s.skip(kt.len() as int);
    assert(s2 =~= seq![0x3au8] + ev + seq![0x2cu8] + r);
    assert(s2[0] == 0x3a);
    assert(ws_len(s2) == 0);
    assert(s2.skip(0) =~= s2);
    let s4 = s2.skip(1);
    assert(s4 =~= ev + seq![0x2cu8] + r);
    assert(s4[0] == ev[0]);
    assert(ws_len(s4) == 0);
    assert(s4.skip(0) =~= s4);
    let s6 = s4.skip(ev.len() as int);
    assert(s6 =~= seq![0x2cu8] + r);
    assert(s6[0] == 0x2c);
    assert(ws_len(s6) == 0);
    assert(s6.skip(0) =~= s6);
    let s8 = s6.skip(1);
    assert(s8 =~= r);
}

/// The last object member, followed by the closing brace.
#[verifier::rlimit(100)]
#[verifier::spinoff_prover]
pub proof fn lemma_member_last(
    kt: Seq<u8>,
    k0: Seq<u8>,
    ev: Seq<u8>,
    jv0: JVal,
    rest: Seq<u8>,
    first: bool,
)
    requires
        kt.len() >= 1,
        kt[0] == 0x22,
        ev.len() >= 1,
        !is_ws(ev[0]),
        sp_string(kt + seq![0x3au8] + ev + seq![0x7du8] + rest) == Some((k0, kt.len() as int)),
        sp_value(ev + seq![0x7du8] + rest) == Some((jv0, ev.len() as int)),
    ensures
        sp_members(kt + seq![0x3au8] + ev + seq![0x7du8] + rest, first) == Some(
            (seq![(k0, jv0)], kt.len() + 1 + ev.len() + 1 as int),
        ),
{
    let s = kt + seq![0x3au8] + ev + seq![0x7du8] + rest;
    assert(s[0] == kt[0]);
    assert(ws_len(s) == 0);
    assert(s.skip(0) =~= s);
    let s2 = s.skip(kt.len() as int);
    assert(s2 =~= seq![0x3au8] + ev + seq![0x7du8] + rest);
    assert(s2[0] == 0x3a);
    assert(ws_len(s2) == 0);
    assert(s2.skip(0) =~= s2);
    let s4 = s2.skip(1);
    assert(s4 =~= ev + seq![0x7du8] + rest);
    assert(s4[0] == ev[0]);
    assert(ws_len(s4) == 0);
    assert(s4.skip(0) =~= s4);
    let s6 = s4.skip(ev.len() as int);
    assert(s6 =~= seq![0x7du8] + rest);
    assert(s6[0] == 0x7d);
    assert(ws_len(s6) == 0);
    assert(s6.skip(0) =~= s6);
}

// ---------------------------------------------------------------------
// Whitespace in emitted objects
// ---------------------------------------------------------------------

/// Leading whitespace adds up.
pub proof fn lemma_ws_len_prepend(pad: Seq<u8>, s: Seq<u8>)
    requires
        forall|k: int| 0 <= k < pad.len() ==> is_ws(#[trigger] pad[k]),
    ensures
        ws_len(pad + s) == pad.len() + ws_len(s),
    decreases pad.len(),
{
    if pad.len() == 0 {
        assert(pad + s =~= s);
    } else {
        let t = pad + s;
        assert(t[0] == pad[0]);
        assert(t.skip(1) =~= pad.drop_first() + s);
        assert(forall|k: int|
            0 <= k < pad.drop_first().len() ==> is_ws(#[trigger] pad.drop_first()[k]));
        lemma_ws_len_prepend(pad.drop_first(), s);
    }
}

/// Member parsing sees through leading whitespace: padding shifts the
/// count and changes nothing else.
pub proof fn lemma_members_ws_prepend(pad: Seq<u8>, s: Seq<u8>, first: bool)
    requires
        forall|k: int| 0 <= k < pad.len() ==> is_ws(#[trigger] pad[k]),
    ensures
        sp_members(pad + s, first) == match sp_members(s, first) {
            Some((ms, n)) => Some((ms, pad.len() + n)),
            None => None::<(Seq<(Seq<u8>, JVal)>, int)>,
        },
{
    let t = pad + s;
    lemma_ws_len_prepend(pad, s);
    lemma_ws_len_bounds(s);
    let w0 = ws_len(s);
    let w = ws_len(t);
    assert(w == pad.len() + w0);
    assert(t.skip(w) =~= s.skip(w0));
}

/// The last member of a line-broken object: the member, then a newline
/// and the closing brace.
#[verifier::rlimit(100)]
#[verifier::spinoff_prover]
pub proof fn lemma_member_last_newline(
    kt: Seq<u8>,
    k0: Seq<u8>,
    ev: Seq<u8>,
    jv0: JVal,
    rest: Seq<u8>,
    first: bool,
)
    requires
        kt.len() >= 1,
        kt[0] == 0x22,
        ev.len() >= 1,
        !is_ws(ev[0]),
        sp_string(kt + seq![0x3au8] + ev + seq![0x0au8, 0x7du8] + rest) == Some(
            (k0, kt.len() as int),
        ),
        sp_value(ev + seq![0x0au8, 0x7du8] + rest) == Some((jv0, ev.len() as int)),
    ensures
        sp_members(kt + seq![0x3au8] + ev + seq![0x0au8, 0x7du8] + rest, first) == Some(
            (seq![(k0, jv0)], kt.len() + ev.len() + 3 as int),
        ),
{
    let s = kt + seq![0x3au8] + ev + seq![0x0au8, 0x7du8] + rest;
    assert(s[0] == kt[0]);
    assert(ws_len(s) == 0);
    assert(s.skip(0) =~= s);
    let s2 = s.skip(kt.len() as int);
    assert(s2 =~= seq![0x3au8] + ev + seq![0x0au8, 0x7du8] + rest);
    assert(s2[0] == 0x3a);
    assert(ws_len(s2) == 0);
    assert(s2.skip(0) =~= s2);
    let s4 = s2.skip(1);
    assert(s4 =~= ev + seq![0x0au8, 0x7du8] + rest);
    assert(s4[0] == ev[0]);
    assert(ws_len(s4) == 0);
    assert(s4.skip(0) =~= s4);
    let s6 = s4.skip(ev.len() as int);
    assert(s6 =~= seq![0x0au8, 0x7du8] + rest);
    assert(s6[0] == 0x0a);
    assert(s6.skip(1) =~= seq![0x7du8] + rest);
    assert(s6.skip(1)[0] == 0x7d);
    assert(ws_len(s6.skip(1)) == 0);
    assert(ws_len(s6) == 1);
    assert(s6.skip(1).skip(0) =~= s6.skip(1));
}

} // verus!
