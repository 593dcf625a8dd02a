//! Small byte-vector helpers shared by the other modules.

use vstd::prelude::*;

verus! {

/// Compares two byte vectors for equality.
pub fn bytes_eq(a: &Vec<u8>, b: &Vec<u8>) -> (r: bool)
    ensures
        r == (a@ == b@),
{
    if a.len() != b.len() {
        assert(a@ != b@);
        return false;
    }
    let mut i: usize = 0;
    while i < a.len()
        invariant
            i <= a.len(),
            a.len() == b.len(),
            forall|k: int| 0 <= k < i ==> a@[k] == b@[k],
        decreases a.len() - i,
    {
        if a[i] != b[i] {
            assert(a@[i as int] != b@[i as int]);
            return false;
        }
        i += 1;
    }
    proof {
        assert(a@ =~= b@);
    }
    true
}

/// Appends a copy of `src` to `out`.
pub fn push_bytes(out: &mut Vec<u8>, src: &Vec<u8>)
    ensures
        final(out)@ == old(out)@ + src@,
{
    let mut i: usize = 0;
    while i < src.len()
        invariant
            i <= src.len(),
            out@ == old(out)@ + src@.subrange(0, i as int),
        decreases src.len() - i,
    {
        out.push(src[i]);
        proof {
            assert(out@ =~= old(out)@ + src@.subrange(0, i + 1));
        }
        i += 1;
    }
    proof {
        assert(src@.subrange(0, src@.len() as int) =~= src@);
    }
}

/// Concatenates two byte vectors into a fresh one.
pub fn concat_bytes(a: &Vec<u8>, b: &Vec<u8>) -> (r: Vec<u8>)
    ensures
        r@ == a@ + b@,
{
    let mut out: Vec<u8> = Vec::new();
    push_bytes(&mut out, a);
    push_bytes(&mut out, b);
    proof {
        assert(out@ =~= a@ + b@);
    }
    out
}

/// Looks a key up in an association list, returning the first match.
pub open spec fn spec_assoc_lookup(m: Seq<(Seq<u8>, Seq<u8>)>, key: Seq<u8>) -> Option<Seq<u8>>
    decreases m.len(),
{
    if m.len() == 0 {
        None
    } else if m[0].0 == key {
        Some(m[0].1)
    } else {
        spec_assoc_lookup(m.drop_first(), key)
    }
}

/// Association-list lookup on byte-vector pairs.
pub fn assoc_lookup<'a>(m: &'a Vec<(Vec<u8>, Vec<u8>)>, key: &Vec<u8>) -> (r: Option<&'a Vec<u8>>)
    ensures
        match r {
            Some(v) => spec_assoc_lookup(m.deep_view(), key@) == Some(v@),
            None => spec_assoc_lookup(m.deep_view(), key@) is None,
        },
{
    let ghost dv = m.deep_view();
    proof {
        assert(dv.len() == m@.len());
        assert(dv.subrange(0, dv.len() as int) =~= dv);
    }
    let mut i: usize = 0;
    while i < m.len()
        invariant
            i <= m.len(),
            dv == m.deep_view(),
            dv.len() == m@.len(),
            spec_assoc_lookup(dv, key@) == spec_assoc_lookup(
                dv.subrange(i as int, dv.len() as int),
                key@,
            ),
        decreases m.len() - i,
    {
        let ghost tail = dv.subrange(i as int, dv.len() as int);
        proof {
            assert(tail[0] == dv[i as int]);
            assert(dv[i as int] == m@[i as int].deep_view());
            assert(m@[i as int].0.deep_view() =~= m@[i as int].0@);
            assert(m@[i as int].1.deep_view() =~= m@[i as int].1@);
            assert(tail.drop_first() =~= dv.subrange(i + 1, dv.len() as int));
        }
        if bytes_eq(&m[i].0, key) {
            proof {
                assert(spec_assoc_lookup(tail, key@) == Some(m@[i as int].1@));
            }
            return Some(&m[i].1);
        }
        proof {
            assert(tail[0].0 != key@);
        }
        i += 1;
    }
    proof {
        assert(dv.subrange(dv.len() as int, dv.len() as int)
            =~= Seq::<(Seq<u8>, Seq<u8>)>::empty());
    }
    None
}

/// Copies a byte vector.
pub fn clone_bytes(v: &Vec<u8>) -> (r: Vec<u8>)
    ensures
        r@ == v@,
{
    let r = v.clone();
    proof {
        assert(r@ =~= v@);
    }
    r
}

/// Splits `s` at every occurrence of `sep`; `n` separators give `n + 1`
/// segments.
pub open spec fn spec_split(s: Seq<u8>, sep: u8) -> Seq<Seq<u8>>
    decreases s.len(),
{
    match crate::template::find_byte(s, sep) {
        None => seq![s],
        Some(k) => {
            if !(0 <= k < s.len()) {
                seq![s]
            } else {
                seq![s.take(k)] + spec_split(s.skip(k + 1), sep)
            }
        },
    }
}

/// Splits a byte vector at every occurrence of `sep`.
pub fn split_bytes(s: &Vec<u8>, sep: u8) -> (r: Vec<Vec<u8>>)
    ensures
        r@.len() == spec_split(s@, sep).len(),
        forall|k: int|
            0 <= k < r@.len() ==> (#[trigger] r@[k])@ == spec_split(s@, sep)[k],
{
    let ghost target = spec_split(s@, sep);
    let slen = s.len();
    let mut out: Vec<Vec<u8>> = Vec::new();
    let mut pos: usize = 0;
    proof {
        assert(s@.skip(0) =~= s@);
    }
    loop
        invariant
            pos <= s@.len(),
            slen == s@.len(),
            target == spec_split(s@, sep),
            out@.len() + spec_split(s@.skip(pos as int), sep).len() == target.len(),
            forall|k: int| 0 <= k < out@.len() ==> (#[trigger] out@[k])@ == target[k],
            forall|k: int|
                0 <= k < spec_split(s@.skip(pos as int), sep).len() ==> #[trigger] spec_split(
                    s@.skip(pos as int),
                    sep,
                )[k] == target[out@.len() + k],
        decreases s@.len() - pos,
    {
        let ghost suf = s@.skip(pos as int);
        match crate::template::find_byte_at(s, pos, sep) {
            None => {
                let seg = crate::template::copy_range(s, pos, s.len());
                let ghost oldout = out@;
                proof {
                    assert(suf =~= s@.subrange(pos as int, s@.len() as int));
                    assert(spec_split(suf, sep) =~= seq![suf]);
                    assert(spec_split(suf, sep).len() == 1);
                    assert(spec_split(suf, sep)[0] == suf);
                }
                out.push(seg);
                proof {
                    assert(out@.len() == target.len());
                    assert forall|k: int|
                        0 <= k < out@.len() implies (#[trigger] out@[k])@ == target[k] by {
                        if k < oldout.len() {
                            assert(out@[k] == oldout[k]);
                        } else {
                            assert(out@[k] == seg);
                            assert(target[k] == suf);
                        }
                    }
                }
                return out;
            },
            Some(j) => {
                let seg = crate::template::copy_range(s, pos, j);
                let ghost oldout = out@;
                proof {
                    assert(crate::template::find_byte(suf, sep) == Some(j - pos as int));
                    assert(suf.take(j - pos as int) =~= s@.subrange(pos as int, j as int));
                    assert(suf.skip((j - pos as int) + 1) =~= s@.skip(j + 1));
                }
                out.push(seg);
                let ghost oldpos = pos as int;
                pos = j + 1;
                proof {
                    let newsuf = s@.skip(pos as int);
                    assert(spec_split(suf, sep) == seq![suf.take(j - oldpos)] + spec_split(
                        newsuf,
                        sep,
                    ));
                    assert forall|k: int|
                        0 <= k < out@.len() implies (#[trigger] out@[k])@ == target[k] by {
                        if k < oldout.len() {
                            assert(out@[k] == oldout[k]);
                        } else {
                            assert(out@[k] == seg);
                            assert(spec_split(suf, sep)[0] == suf.take(j - oldpos));
                            assert(target[k] == suf.take(j - oldpos));
                        }
                    }
                    assert forall|k: int|
                        0 <= k < spec_split(newsuf, sep).len() implies #[trigger] spec_split(
                            newsuf,
                            sep,
                        )[k] == target[out@.len() + k] by {
                        assert(spec_split(suf, sep)[k + 1] == spec_split(newsuf, sep)[k]);
                        assert(spec_split(suf, sep)[k + 1] == target[oldout.len() + (k + 1)]);
                    }
                }
            },
        }
    }
}

} // verus!
