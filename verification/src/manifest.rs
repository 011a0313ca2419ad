//! The overwrite manifest: a text file holding one installation-relative path
//! per line.  Parsing splits the bytes into lines, trims ASCII whitespace from
//! each, and keeps the non-empty results, in order.

use vstd::prelude::*;
use crate::paths::{first_at, lemma_first_at_bounds, lemma_first_at_scan, find_from};

verus! {

/// The line separator.
pub open spec fn nl() -> u8 {
    10
}

/// Whitespace that line trimming removes: space, tab, and carriage return
/// (the latter makes `\r\n` line endings harmless).
pub open spec fn is_ws(b: u8) -> bool {
    b == 32 || b == 9 || b == 13
}

/// `s` with leading whitespace removed.
pub open spec fn trim_front(s: Seq<u8>) -> Seq<u8>
    decreases s.len(),
{
    if s.len() > 0 && is_ws(s[0]) {
        trim_front(s.drop_first())
    } else {
        s
    }
}

/// `s` with trailing whitespace removed.
pub open spec fn trim_back(s: Seq<u8>) -> Seq<u8>
    decreases s.len(),
{
    if s.len() > 0 && is_ws(s[s.len() - 1]) {
        trim_back(s.drop_last())
    } else {
        s
    }
}

/// `s` with whitespace removed from both ends.
pub open spec fn trimmed(s: Seq<u8>) -> Seq<u8> {
    trim_back(trim_front(s))
}

proof fn lemma_trim_front_scan(s: Seq<u8>, a: int)
    requires
        0 <= a <= s.len(),
        forall|j: int| 0 <= j < a ==> is_ws(s[j]),
        a < s.len() ==> !is_ws(s[a]),
    ensures
        trim_front(s) == s.subrange(a, s.len() as int),
    decreases a,
{
    if a == 0 {
        assert(s.subrange(0, s.len() as int) =~= s);
    } else {
        assert(is_ws(s[0]));
        let t = s.drop_first();
        assert forall|j: int| 0 <= j < a - 1 implies is_ws(t[j]) by {
            assert(t[j] == s[j + 1]);
        }
        lemma_trim_front_scan(t, a - 1);
        assert(t.subrange(a - 1, t.len() as int) =~= s.subrange(a, s.len() as int));
    }
}

proof fn lemma_trim_back_scan(s: Seq<u8>, b: int)
    requires
        0 <= b <= s.len(),
        forall|j: int| b <= j < s.len() ==> is_ws(s[j]),
        b > 0 ==> !is_ws(s[b - 1]),
    ensures
        trim_back(s) == s.subrange(0, b),
    decreases s.len() - b,
{
    if b == s.len() {
        if s.len() > 0 {
            assert(s.subrange(0, s.len() as int) =~= s);
        }
    } else {
        assert(is_ws(s[s.len() - 1]));
        let t = s.drop_last();
        assert(t =~= s.subrange(0, s.len() - 1));
        lemma_trim_back_scan(t, b);
        assert(t.subrange(0, b) =~= s.subrange(0, b));
    }
}

/// Trim `v[i..e]` in place: the returned bounds `(a, b)` delimit the trimmed
/// slice within `v`.
fn trim_bounds(v: &Vec<u8>, i: usize, e: usize) -> (r: (usize, usize))
    requires
        i <= e <= v@.len(),
    ensures
        i <= r.0 <= r.1 <= e,
        trimmed(v@.subrange(i as int, e as int)) == v@.subrange(r.0 as int, r.1 as int),
{
    let ghost line = v@.subrange(i as int, e as int);
    let mut a: usize = i;
    while a < e && (v[a] == 32 || v[a] == 9 || v[a] == 13)
        invariant
            i <= a <= e <= v@.len(),
            forall|j: int| i <= j < a ==> is_ws(v@[j]),
        decreases e - a,
    {
        a = a + 1;
    }
    let mut b: usize = e;
    while b > a && (v[b - 1] == 32 || v[b - 1] == 9 || v[b - 1] == 13)
        invariant
            a <= b <= e <= v@.len(),
            forall|j: int| b <= j < e ==> is_ws(v@[j]),
        decreases b,
    {
        b = b - 1;
    }
    proof {
        assert forall|j: int| 0 <= j < a - i implies is_ws(line[j]) by {
            assert(line[j] == v@[i + j]);
        }
        assert(a - i < line.len() ==> !is_ws(line[a - i]));
        lemma_trim_front_scan(line, a - i);
        let mid = line.subrange(a - i, line.len() as int);
        assert(mid =~= v@.subrange(a as int, e as int));
        assert forall|j: int| b - a <= j < mid.len() implies is_ws(mid[j]) by {
            assert(mid[j] == v@[a + j]);
        }
        assert(b - a > 0 ==> !is_ws(mid[b - a - 1]));
        lemma_trim_back_scan(mid, b - a);
        assert(mid.subrange(0, b - a) =~= v@.subrange(a as int, b as int));
    }
    (a, b)
}

/// The manifest denoted by the bytes of the manifest file: each line split on
/// `\n`, trimmed, with empty results dropped.
pub open spec fn manifest_of(s: Seq<u8>) -> Seq<Seq<u8>>
    decreases s.len(),
    via manifest_of_decreases
{
    if s.len() == 0 {
        Seq::empty()
    } else {
        let e = first_at(s, nl());
        let line = trimmed(s.subrange(0, e));
        let rest = if e < s.len() {
            manifest_of(s.subrange(e + 1, s.len() as int))
        } else {
            Seq::<Seq<u8>>::empty()
        };
        if line.len() > 0 {
            seq![line] + rest
        } else {
            rest
        }
    }
}

#[via_fn]
proof fn manifest_of_decreases(s: Seq<u8>) {
    lemma_first_at_bounds(s, nl());
}

/// Copy `v[a..b]` into a fresh vector.
pub fn copy_range(v: &Vec<u8>, a: usize, b: usize) -> (r: Vec<u8>)
    requires
        a <= b <= v@.len(),
    ensures
        r@ == v@.subrange(a as int, b as int),
{
    let mut r: Vec<u8> = Vec::new();
    let mut j: usize = a;
    while j < b
        invariant
            a <= j <= b <= v@.len(),
            r@ =~= v@.subrange(a as int, j as int),
        decreases b - j,
    {
        r.push(v[j]);
        proof {
            assert(r@ =~= v@.subrange(a as int, j + 1));
        }
        j = j + 1;
    }
    r
}

/// Parse the manifest file bytes into the ordered list of entries.
pub fn parse_manifest(text: &Vec<u8>) -> (r: Vec<Vec<u8>>)
    ensures
        r.deep_view() == manifest_of(text@),
{
    let n = text.len();
    let mut out: Vec<Vec<u8>> = Vec::new();
    let mut i: usize = 0;
    proof {
        assert(text@.subrange(0, n as int) =~= text@);
        assert(out.deep_view() + manifest_of(text@) =~~= manifest_of(text@));
    }
    while i < n
        invariant
            i <= n == text@.len(),
            manifest_of(text@) == out.deep_view() + manifest_of(
                text@.subrange(i as int, n as int),
            ),
        decreases n - i,
    {
        let ghost suf = text@.subrange(i as int, n as int);
        let e = find_from(text, i, 10);
        proof {
            lemma_first_at_scan(text@, nl(), i as int, e as int);
            assert(suf.subrange(0, e - i) =~= text@.subrange(i as int, e as int));
        }
        let (a, b) = trim_bounds(text, i, e);
        let ghost line = trimmed(suf.subrange(0, e - i));
        proof {
            assert(line == text@.subrange(a as int, b as int));
            if e < n {
                assert(suf.subrange(e - i + 1, suf.len() as int) =~= text@.subrange(
                    e + 1,
                    n as int,
                ));
            }
        }
        if b > a {
            let entry = copy_range(text, a, b);
            let ghost old_dv = out.deep_view();
            out.push(entry);
            proof {
                assert(out.deep_view() =~~= old_dv.push(line));
                assert(old_dv.push(line) =~~= old_dv + seq![line]);
            }
        }
        let ghost rest = if e < n {
            manifest_of(text@.subrange(e + 1, n as int))
        } else {
            Seq::<Seq<u8>>::empty()
        };
        proof {
            assert(manifest_of(suf) == (if line.len() > 0 {
                seq![line] + rest
            } else {
                rest
            }));
            assert(manifest_of(text@) =~~= out.deep_view() + rest);
        }
        if e == n {
            proof {
                assert(manifest_of(text@.subrange(n as int, n as int)) =~= Seq::<Seq<u8>>::empty());
                assert(out.deep_view() + Seq::<Seq<u8>>::empty() =~~= out.deep_view());
            }
            i = n;
        } else {
            i = e + 1;
        }
    }
    proof {
        assert(text@.subrange(n as int, n as int) =~= Seq::<u8>::empty());
        assert(out.deep_view() + manifest_of(Seq::<u8>::empty()) =~~= out.deep_view());
    }
    out
}

} // verus!
