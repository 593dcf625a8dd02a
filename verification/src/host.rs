//! The pure part of the script-host API: string slicing, concatenation,
//! all-occurrences replacement, regular-expression capture, and the
//! JSON bridge check. The surrounding binary registers thin shims for
//! these with the embedded interpreter and keeps the I/O host calls to
//! itself.

use vstd::prelude::*;
use crate::error::HostError;
use crate::json::JsonValue;
use crate::json::JVal;
use crate::json::sp_document;
use crate::json::parse_document;
use crate::json::member_views;
use crate::util::concat_bytes;
use crate::util::push_bytes;

verus! {

/// The clamp of `i` to `0 .. n`.
pub open spec fn clamp_to(i: int, n: int) -> int {
    if i > n {
        n
    } else {
        i
    }
}

/// The code-point slice `s[start .. end]`, indices clamped to the
/// string's length.
pub fn host_substring(s: &Vec<char>, start: usize, end: usize) -> (r: Vec<char>)
    requires
        start <= end,
    ensures
        r@ == s@.subrange(
            clamp_to(start as int, s@.len() as int),
            clamp_to(end as int, s@.len() as int),
        ),
{
    let mut out: Vec<char> = Vec::new();
    if start >= s.len() {
        proof {
            let a = clamp_to(start as int, s@.len() as int);
            let b = clamp_to(end as int, s@.len() as int);
            assert(s@.subrange(a, b) =~= Seq::<char>::empty());
            assert(out@ =~= Seq::<char>::empty());
        }
        return out;
    }
    let mut i = start;
    proof {
        assert(out@ =~= s@.subrange(start as int, i as int));
    }
    while i < end && i < s.len()
        invariant
            start <= i <= end,
            i as int <= s@.len(),
            start as int <= s@.len(),
            out@ == s@.subrange(start as int, i as int),
        decreases end - i,
    {
        out.push(s[i]);
        proof {
            assert(out@ =~= s@.subrange(start as int, i + 1));
        }
        i += 1;
    }
    proof {
        let a = clamp_to(start as int, s@.len() as int);
        let b = clamp_to(end as int, s@.len() as int);
        assert(out@ =~= s@.subrange(a, b));
    }
    out
}

/// Concatenation of two strings.
pub fn host_append(a: &Vec<u8>, b: &Vec<u8>) -> (r: Vec<u8>)
    ensures
        r@ == a@ + b@,
{
    concat_bytes(a, b)
}

/// `needle` occurs at the front of `s`.
pub open spec fn spec_prefix_at(s: Seq<u8>, needle: Seq<u8>) -> bool {
    s.len() >= needle.len() && s.take(needle.len() as int) == needle
}

/// All-occurrences replacement, scanning left to right without
/// overlaps. An empty pattern leaves the text unchanged.
pub open spec fn spec_replace(s: Seq<u8>, from: Seq<u8>, to: Seq<u8>) -> Seq<u8>
    decreases s.len(),
{
    if from.len() == 0 {
        s
    } else if s.len() == 0 {
        Seq::empty()
    } else if spec_prefix_at(s, from) {
        to + spec_replace(s.skip(from.len() as int), from, to)
    } else {
        seq![s[0]] + spec_replace(s.skip(1), from, to)
    }
}

/// `from` occurs in `s` at position `i`.
fn prefix_at(s: &Vec<u8>, i: usize, from: &Vec<u8>) -> (r: bool)
    requires
        i <= s@.len(),
    ensures
        r == spec_prefix_at(s@.skip(i as int), from@),
{
    let slen = s.len();
    if slen - i < from.len() {
        return false;
    }
    let mut k: usize = 0;
    while k < from.len()
        invariant
            k <= from@.len(),
            slen == s@.len(),
            i + from@.len() <= slen,
            forall|m: int| 0 <= m < k ==> s@[i + m] == from@[m],
        decreases from@.len() - k,
    {
        if s[i + k] != from[k] {
            proof {
                assert(s@.skip(i as int).take(from@.len() as int)[k as int] != from@[k as int]);
            }
            return false;
        }
        k += 1;
    }
    proof {
        assert(s@.skip(i as int).take(from@.len() as int) =~= from@);
    }
    true
}

/// Replaces every occurrence of `from` in `s` with `to`, scanning left
/// to right. An empty pattern is refused.
pub fn host_replace(s: &Vec<u8>, from: &Vec<u8>, to: &Vec<u8>) -> (r: Result<Vec<u8>, HostError>)
    ensures
        match r {
            Ok(out) => from@.len() > 0 && out@ == spec_replace(s@, from@, to@),
            Err(e) => from@.len() == 0 && e == HostError::EmptyPattern,
        },
{
    if from.len() == 0 {
        return Err(HostError::EmptyPattern);
    }
    let mut out: Vec<u8> = Vec::new();
    let mut i: usize = 0;
    proof {
        assert(s@.skip(0) =~= s@);
    }
    while i < s.len()
        invariant
            i <= s@.len(),
            from@.len() > 0,
            spec_replace(s@, from@, to@) == out@ + spec_replace(s@.skip(i as int), from@, to@),
        decreases s@.len() - i,
    {
        let ghost suf = s@.skip(i as int);
        if prefix_at(s, i, from) {
            push_bytes(&mut out, to);
            proof {
                assert(suf.skip(from@.len() as int) =~= s@.skip(i + from@.len()));
            }
            i = i + from.len();
        } else {
            out.push(s[i]);
            proof {
                assert(suf[0] == s@[i as int]);
                assert(suf.skip(1) =~= s@.skip(i + 1));
            }
            i = i + 1;
        }
    }
    proof {
        assert(spec_replace(s@.skip(i as int), from@, to@) =~= Seq::<u8>::empty());
        assert(out@ + Seq::<u8>::empty() =~= out@);
    }
    Ok(out)
}

// ---------------------------------------------------------------------
// Regular-expression capture
// ---------------------------------------------------------------------

/// What taking capture group 1 of the first match of `pattern` in
/// `text` yields: `None` when the pattern does not compile or cannot
/// run, `Some(None)` when there is no match or no first group, and
/// `Some(Some(c))` for the captured text. The result is a function of
/// the two strings alone.
pub uninterp spec fn regex_first_group(pattern: Seq<char>, text: Seq<char>) -> Option<
    Option<Seq<char>>,
>;

/// Relies on fancy_regex's Regex::new, Regex::captures, Captures::get
/// and Match::as_str: compiles `pattern`, finds its first match in
/// `text`, and takes capture group 1.
#[verifier::external_body]
fn regex_capture_raw(text: &str, pattern: &str) -> (r: Result<Option<String>, bool>)
    ensures
        match r {
            Ok(c) => match c {
                Some(c) => regex_first_group(pattern@, text@) == Some(Some(c@)),
                None => regex_first_group(pattern@, text@) == Some(None::<Seq<char>>),
            },
            Err(_) => regex_first_group(pattern@, text@) is None,
        },
{
    match fancy_regex::Regex::new(pattern) {
        Ok(re) => match re.captures(text) {
            Ok(Some(caps)) => Ok(caps.get(1).map(|m| m.as_str().to_string())),
            Ok(None) => Ok(None),
            Err(_) => Err(true),
        },
        Err(_) => Err(false),
    }
}

/// Capture group 1 of the first match of `pattern` in `text`, as the
/// scripts' `regex_capture` sees it: a missing match or group raises,
/// as does a pattern that does not compile.
pub fn host_regex_capture(text: &str, pattern: &str) -> (r: Result<String, HostError>)
    ensures
        match r {
            Ok(c) => regex_first_group(pattern@, text@) == Some(Some(c@)),
            Err(HostError::NoMatch) => regex_first_group(pattern@, text@) == Some(
                None::<Seq<char>>,
            ),
            Err(HostError::BadPattern) => regex_first_group(pattern@, text@) is None,
            Err(_) => false,
        },
{
    match regex_capture_raw(text, pattern) {
        Ok(Some(c)) => Ok(c),
        Ok(None) => Err(HostError::NoMatch),
        Err(_) => Err(HostError::BadPattern),
    }
}

// ---------------------------------------------------------------------
// The JSON bridge
// ---------------------------------------------------------------------

/// The JSON shapes the script bridge carries over: objects of such
/// shapes, strings, and integers. Anything else raises in the script.
pub open spec fn spec_bridgeable(v: JVal) -> bool
    decreases v,
{
    match v {
        JVal::Int(_) => true,
        JVal::Str(_) => true,
        JVal::Obj(ms) => forall|k: int|
            0 <= k < ms.len() ==> spec_bridgeable(#[trigger] ms[k].1),
        _ => false,
    }
}

/// Whether a parsed value can cross the bridge.
fn bridgeable(v: &JsonValue) -> (r: bool)
    ensures
        r == spec_bridgeable(v@),
    decreases v,
{
    match v {
        JsonValue::Int(_) => true,
        JsonValue::Str(_) => true,
        JsonValue::Obj(ms) => {
            let ghost mv = member_views(ms@);
            proof {
                assert(v@->Obj_0 =~= mv);
            }
            let mut i: usize = 0;
            while i < ms.len()
                invariant
                    i <= ms@.len(),
                    mv == member_views(ms@),
                    v@ is Obj,
                    v@->Obj_0 == mv,
                    v == JsonValue::Obj(*ms),
                    forall|k: int| 0 <= k < i ==> spec_bridgeable(#[trigger] mv[k].1),
                decreases ms@.len() - i,
            {
                proof {
                    assert(decreases_to!(*v => *ms));
                    assert(decreases_to!(*ms => ms@[i as int]));
                    assert(decreases_to!(ms@[i as int] => ms@[i as int].1));
                }
                if !bridgeable(&ms[i].1) {
                    proof {
                        assert(!spec_bridgeable(mv[i as int].1));
                    }
                    return false;
                }
                i += 1;
            }
            true
        },
        _ => false,
    }
}

/// Parses script-supplied text for the `to_json` host call. The text
/// must be well-formed JSON and hold only shapes the bridge carries:
/// objects, strings and integers.
pub fn host_to_json(text: &Vec<u8>) -> (r: Result<JsonValue, HostError>)
    ensures
        match r {
            Ok(v) => sp_document(text@) == Some(v@) && spec_bridgeable(v@),
            Err(HostError::BadJson) => sp_document(text@) is None,
            Err(HostError::UnsupportedJson) => match sp_document(text@) {
                Some(v) => !spec_bridgeable(v),
                None => false,
            },
            Err(_) => false,
        },
{
    match parse_document(text) {
        Some(v) => {
            if bridgeable(&v) {
                Ok(v)
            } else {
                Err(HostError::UnsupportedJson)
            }
        },
        None => Err(HostError::BadJson),
    }
}

} // verus!
