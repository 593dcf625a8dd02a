//! Template substitution for launch arguments and policy bodies.
//!
//! A placeholder is written `{name}`. Substitution scans left to right:
//! at a `{` it takes the text up to the first following `}` as the name
//! and replaces the whole token with the configured value; a `{` that
//! has no closing `}` or whose name is not configured passes through
//! unchanged.

use vstd::prelude::*;
use crate::util::spec_assoc_lookup;
use crate::util::assoc_lookup;
use crate::util::push_bytes;

verus! {

/// Index of the first occurrence of `b`, if any.
pub open spec fn find_byte(s: Seq<u8>, b: u8) -> Option<int>
    decreases s.len(),
{
    if s.len() == 0 {
        None
    } else if s[0] == b {
        Some(0)
    } else {
        match find_byte(s.drop_first(), b) {
            None => None,
            Some(k) => Some(k + 1),
        }
    }
}

pub proof fn lemma_find_byte_bounds(s: Seq<u8>, b: u8)
    ensures
        match find_byte(s, b) {
            Some(k) => 0 <= k < s.len() && s[k] == b && (forall|j: int| 0 <= j < k ==> s[j] != b),
            None => forall|j: int| 0 <= j < s.len() ==> s[j] != b,
        },
    decreases s.len(),
{
    if s.len() > 0 && s[0] != b {
        lemma_find_byte_bounds(s.drop_first(), b);
        match find_byte(s.drop_first(), b) {
            Some(k) => {
                assert(s[k + 1] == s.drop_first()[k]);
                assert forall|j: int| 0 <= j < k + 1 implies s[j] != b by {
                    if j > 0 {
                        assert(s.drop_first()[j - 1] == s[j]);
                    }
                }
            },
            None => {
                assert forall|j: int| 0 <= j < s.len() implies s[j] != b by {
                    if j > 0 {
                        assert(s.drop_first()[j - 1] == s[j]);
                    }
                }
            },
        }
    }
}

/// One left-to-right pass of placeholder substitution.
pub open spec fn spec_substitute(t: Seq<u8>, m: Seq<(Seq<u8>, Seq<u8>)>) -> Seq<u8>
    decreases t.len(),
{
    if t.len() == 0 {
        Seq::empty()
    } else if t[0] == 0x7b {
        match find_byte(t.skip(1), 0x7d) {
            None => t,
            Some(k) => {
                if !(0 <= k <= t.len() - 2) {
                    t
                } else {
                    let name = t.skip(1).take(k);
                    match spec_assoc_lookup(m, name) {
                        Some(v) => v + spec_substitute(t.skip(k + 2), m),
                        None => seq![t[0]] + spec_substitute(t.skip(1), m),
                    }
                }
            },
        }
    } else {
        seq![t[0]] + spec_substitute(t.skip(1), m)
    }
}

/// Absolute index of the first `b` at or after `i`.
pub fn find_byte_at(s: &Vec<u8>, i: usize, b: u8) -> (r: Option<usize>)
    requires
        i <= s@.len(),
    ensures
        match r {
            Some(j) => i <= j < s@.len() && find_byte(s@.skip(i as int), b) == Some(j - i as int),
            None => find_byte(s@.skip(i as int), b) is None,
        },
    decreases s@.len() - i,
{
    proof {
        lemma_find_byte_bounds(s@.skip(i as int), b);
    }
    if i == s.len() {
        return None;
    }
    if s[i] == b {
        proof {
            assert(s@.skip(i as int)[0] == b);
        }
        return Some(i);
    }
    proof {
        assert(s@.skip(i as int)[0] != b);
        assert(s@.skip(i as int).drop_first() =~= s@.skip(i + 1));
    }
    find_byte_at(s, i + 1, b)
}

/// Copies `t[a .. b]` into a fresh vector.
pub fn copy_range(t: &Vec<u8>, a: usize, b: usize) -> (r: Vec<u8>)
    requires
        a <= b <= t@.len(),
    ensures
        r@ == t@.subrange(a as int, b as int),
{
    let mut out: Vec<u8> = Vec::new();
    let mut i = a;
    while i < b
        invariant
            a <= i <= b <= t@.len(),
            out@ == t@.subrange(a as int, i as int),
        decreases b - i,
    {
        out.push(t[i]);
        proof {
            assert(out@ =~= t@.subrange(a as int, i + 1));
        }
        i += 1;
    }
    out
}

/// Substitutes configured `{name}` placeholders in `t`.
pub fn substitute(t: &Vec<u8>, m: &Vec<(Vec<u8>, Vec<u8>)>) -> (r: Vec<u8>)
    ensures
        r@ == spec_substitute(t@, m.deep_view()),
{
    let ghost gm = m.deep_view();
    let mut out: Vec<u8> = Vec::new();
    let mut i: usize = 0;
    proof {
        assert(t@.skip(0) =~= t@);
    }
    while i < t.len()
        invariant
            i <= t@.len(),
            gm == m.deep_view(),
            spec_substitute(t@, gm) == out@ + spec_substitute(t@.skip(i as int), gm),
        decreases t@.len() - i,
    {
        let ghost suf = t@.skip(i as int);
        let b = t[i];
        proof {
            assert(suf[0] == b);
        }
        if b == 0x7b {
            match find_byte_at(t, i + 1, 0x7d) {
                None => {
                    proof {
                        assert(suf.skip(1) =~= t@.skip(i + 1));
                        assert(spec_substitute(suf, gm) == suf);
                    }
                    // the rest passes through unchanged
                    let mut j = i;
                    while j < t.len()
                        invariant
                            i <= j <= t@.len(),
                            gm == m.deep_view(),
                            spec_substitute(t@, gm) == out@ + t@.skip(i as int).skip(
                                (j - i) as int,
                            ),
                        decreases t@.len() - j,
                    {
                        let ghost oldout = out@;
                        let ghost rem = t@.skip(i as int).skip((j - i) as int);
                        proof {
                            assert(rem[0] == t@[j as int]);
                            assert(t@.skip(i as int).skip((j + 1 - i) as int) =~= rem.drop_first());
                        }
                        out.push(t[j]);
                        proof {
                            assert(oldout.push(t@[j as int]) + rem.drop_first() =~= oldout + rem);
                        }
                        j += 1;
                    }
                    proof {
                        assert(t@.skip(i as int).skip((j - i) as int).len() == 0);
                        assert(out@ + t@.skip(i as int).skip((j - i) as int) =~= out@);
                        assert(spec_substitute(t@.skip(j as int), gm) == Seq::<u8>::empty());
                        assert(out@ + Seq::<u8>::empty() =~= out@);
                    }
                    i = j;
                },
                Some(close) => {
                    let ghost k = close - (i + 1);
                    proof {
                        assert(t@.skip(i + 1) =~= suf.skip(1));
                        assert(find_byte(suf.skip(1), 0x7d) == Some(k as int));
                        assert(suf.skip(1).take(k as int) =~= t@.subrange(i + 1, close as int));
                    }
                    let name = copy_range(t, i + 1, close);
                    match assoc_lookup(m, &name) {
                        Some(v) => {
                            push_bytes(&mut out, v);
                            proof {
                                assert(suf.skip(k + 2) =~= t@.skip(close + 1));
                            }
                            i = close + 1;
                        },
                        None => {
                            out.push(b);
                            proof {
                                assert(suf.skip(1) =~= t@.skip(i + 1));
                            }
                            i = i + 1;
                        },
                    }
                },
            }
        } else {
            out.push(b);
            proof {
                assert(suf.skip(1) =~= t@.skip(i + 1));
            }
            i = i + 1;
        }
    }
    proof {
        assert(spec_substitute(t@.skip(i as int), gm) == Seq::<u8>::empty());
        assert(out@ + Seq::<u8>::empty() =~= out@);
    }
    out
}

/// Substitutes placeholders in every argument of a list.
pub fn apply_special_params(
    arguments: &Vec<Vec<u8>>,
    special_params: &Vec<(Vec<u8>, Vec<u8>)>,
) -> (r: Vec<Vec<u8>>)
    ensures
        r@.len() == arguments@.len(),
        forall|k: int|
            0 <= k < r@.len() ==> (#[trigger] r@[k])@ == spec_substitute(
                arguments@[k]@,
                special_params.deep_view(),
            ),
{
    let mut out: Vec<Vec<u8>> = Vec::new();
    let mut i: usize = 0;
    while i < arguments.len()
        invariant
            i <= arguments@.len(),
            out@.len() == i,
            forall|k: int|
                0 <= k < i ==> (#[trigger] out@[k])@ == spec_substitute(
                    arguments@[k]@,
                    special_params.deep_view(),
                ),
        decreases arguments@.len() - i,
    {
        let s = substitute(&arguments[i], special_params);
        out.push(s);
        i += 1;
    }
    out
}

// ---------------------------------------------------------------------
// No placeholder survives a substitution whose names are all known
// ---------------------------------------------------------------------

/// Some byte of `s` opens a placeholder.
pub open spec fn has_open_brace(s: Seq<u8>) -> bool {
    exists|i: int| 0 <= i < s.len() && s[i] == 0x7b
}

/// Every `{` in `t` opens a `{name}` token whose name is configured.
pub open spec fn all_placeholders_recognized(t: Seq<u8>, m: Seq<(Seq<u8>, Seq<u8>)>) -> bool {
    forall|i: int|
        0 <= i < t.len() && t[i] == 0x7b ==> match find_byte(#[trigger] t.skip(i + 1), 0x7d) {
            Some(k) => spec_assoc_lookup(m, t.skip(i + 1).take(k)) is Some,
            None => false,
        }
}

proof fn lemma_recognized_skip(t: Seq<u8>, m: Seq<(Seq<u8>, Seq<u8>)>, d: int)
    requires
        all_placeholders_recognized(t, m),
        0 <= d <= t.len(),
    ensures
        all_placeholders_recognized(t.skip(d), m),
{
    let ts = t.skip(d);
    assert forall|i: int| 0 <= i < ts.len() && ts[i] == 0x7b implies match find_byte(
        #[trigger] ts.skip(i + 1),
        0x7d,
    ) {
        Some(k) => spec_assoc_lookup(m, ts.skip(i + 1).take(k)) is Some,
        None => false,
    } by {
        assert(ts[i] == t[d + i]);
        assert(ts.skip(i + 1) =~= t.skip(d + i + 1));
        match find_byte(t.skip(d + i + 1), 0x7d) {
            Some(k) => {
                assert(ts.skip(i + 1).take(k) =~= t.skip(d + i + 1).take(k));
            },
            None => {},
        }
    }
}

/// After substitution no placeholder remains: if every `{` in the
/// template opens a recognized placeholder and no configured value
/// contains `{`, the result contains no `{` at all — so in particular
/// no `{name}` token survives.
pub proof fn lemma_substitute_no_placeholder(t: Seq<u8>, m: Seq<(Seq<u8>, Seq<u8>)>)
    requires
        all_placeholders_recognized(t, m),
        forall|j: int| 0 <= j < m.len() ==> !has_open_brace((#[trigger] m[j]).1),
    ensures
        !has_open_brace(spec_substitute(t, m)),
    decreases t.len(),
{
    if t.len() == 0 {
    } else if t[0] == 0x7b {
        let trig = t.skip(0int + 1);
        assert(trig =~= t.skip(1));
        match find_byte(t.skip(1), 0x7d) {
            None => {
                assert(false);
            },
            Some(k) => {
                lemma_find_byte_bounds(t.skip(1), 0x7d);
                let name = t.skip(1).take(k);
                match spec_assoc_lookup(m, name) {
                    Some(v) => {
                        lemma_lookup_value_no_brace(m, name);
                        lemma_recognized_skip(t, m, k + 2);
                        lemma_substitute_no_placeholder(t.skip(k + 2), m);
                        let r = v + spec_substitute(t.skip(k + 2), m);
                        assert forall|i: int| 0 <= i < r.len() implies r[i] != 0x7b by {
                            if i < v.len() {
                                assert(r[i] == v[i]);
                            } else {
                                assert(r[i] == spec_substitute(t.skip(k + 2), m)[i - v.len()]);
                            }
                        }
                    },
                    None => {
                        assert(false);
                    },
                }
            },
        }
    } else {
        lemma_recognized_skip(t, m, 1);
        lemma_substitute_no_placeholder(t.skip(1), m);
        let r = seq![t[0]] + spec_substitute(t.skip(1), m);
        assert forall|i: int| 0 <= i < r.len() implies r[i] != 0x7b by {
            if i == 0 {
                assert(r[0] == t[0]);
            } else {
                assert(r[i] == spec_substitute(t.skip(1), m)[i - 1]);
            }
        }
    }
}

proof fn lemma_lookup_value_no_brace(m: Seq<(Seq<u8>, Seq<u8>)>, name: Seq<u8>)
    requires
        forall|j: int| 0 <= j < m.len() ==> !has_open_brace((#[trigger] m[j]).1),
        spec_assoc_lookup(m, name) is Some,
    ensures
        !has_open_brace(spec_assoc_lookup(m, name).unwrap()),
    decreases m.len(),
{
    if m.len() > 0 {
        if m[0].0 == name {
        } else {
            assert(forall|j: int|
                0 <= j < m.drop_first().len() ==> #[trigger] m.drop_first()[j] == m[j + 1]);
            lemma_lookup_value_no_brace(m.drop_first(), name);
        }
    }
}

} // verus!
