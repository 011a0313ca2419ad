//! Byte-level relative paths, as they appear in the overwrite manifest and in
//! archive entry names: components separated by `/`, with no drive or scheme
//! syntax.  All reasoning is over `Seq<u8>` views.

use vstd::prelude::*;

verus! {

/// The path separator.
pub open spec fn sep() -> u8 {
    47
}

/// The ASCII dot, used to spot `.` and `..` components.
pub open spec fn dot() -> u8 {
    46
}

/// Index of the first occurrence of `b` in `s`, or `s.len()` when absent.
pub open spec fn first_at(s: Seq<u8>, b: u8) -> int
    decreases s.len(),
{
    if s.len() == 0 {
        0
    } else if s[0] == b {
        0
    } else {
        1 + first_at(s.drop_first(), b)
    }
}

pub proof fn lemma_first_at_bounds(s: Seq<u8>, b: u8)
    ensures
        0 <= first_at(s, b) <= s.len(),
        forall|j: int| 0 <= j < first_at(s, b) ==> s[j] != b,
        first_at(s, b) < s.len() ==> s[first_at(s, b)] == b,
    decreases s.len(),
{
    if s.len() > 0 && s[0] != b {
        lemma_first_at_bounds(s.drop_first(), b);
        assert forall|j: int| 0 <= j < first_at(s, b) implies s[j] != b by {
            if j > 0 {
                assert(s[j] == s.drop_first()[j - 1]);
            }
        }
    }
}

/// A scan that saw no `b` in `s[i..e]` and stopped at `e` (either the end or
/// an occurrence of `b`) has found `first_at` of the suffix starting at `i`.
pub proof fn lemma_first_at_scan(s: Seq<u8>, b: u8, i: int, e: int)
    requires
        0 <= i <= e <= s.len(),
        forall|j: int| i <= j < e ==> s[j] != b,
        e < s.len() ==> s[e] == b,
    ensures
        first_at(s.subrange(i, s.len() as int), b) == e - i,
    decreases e - i,
{
    let suf = s.subrange(i, s.len() as int);
    if i == e {
        if e < s.len() {
            assert(suf[0] == b);
        }
    } else {
        assert(suf[0] == s[i]);
        assert(suf.drop_first() =~= s.subrange(i + 1, s.len() as int));
        lemma_first_at_scan(s, b, i + 1, e);
    }
}

/// Find the first occurrence of `b` in `v` at or after `from`, returning
/// `v.len()` when there is none.
pub fn find_from(v: &Vec<u8>, from: usize, b: u8) -> (e: usize)
    requires
        from <= v@.len(),
    ensures
        from <= e <= v@.len(),
        forall|j: int| from <= j < e ==> v@[j] != b,
        e < v@.len() ==> v@[e as int] == b,
{
    let mut e: usize = from;
    while e < v.len()
        invariant
            from <= e <= v@.len(),
            forall|j: int| from <= j < e ==> v@[j] != b,
        decreases v@.len() - e,
    {
        if v[e] == b {
            return e;
        }
        e = e + 1;
    }
    e
}

/// `p` lies under `d`: it is `d` itself, or a path inside the directory `d`.
pub open spec fn path_under(p: Seq<u8>, d: Seq<u8>) -> bool {
    p == d || (p.len() > d.len() && p.subrange(0, d.len() as int) == d && p[d.len() as int]
        == sep())
}

/// The two byte vectors hold the same bytes.
pub fn bytes_eq(a: &Vec<u8>, b: &Vec<u8>) -> (r: bool)
    ensures
        r == (a@ == b@),
{
    if a.len() != b.len() {
        assert(a@ != b@);
        return false;
    }
    let mut i: usize = 0;
    while i < a.len()
        invariant
            i <= a@.len(),
            a@.len() == b@.len(),
            forall|j: int| 0 <= j < i ==> a@[j] == b@[j],
        decreases a@.len() - i,
    {
        if a[i] != b[i] {
            return false;
        }
        i = i + 1;
    }
    proof {
        assert(a@ =~= b@);
    }
    true
}

/// Decide whether `p` lies under `d` (see [`path_under`]).
pub fn is_under(p: &Vec<u8>, d: &Vec<u8>) -> (r: bool)
    ensures
        r == path_under(p@, d@),
{
    if p.len() < d.len() {
        return false;
    }
    if p.len() == d.len() {
        return bytes_eq(p, d);
    }
    let mut i: usize = 0;
    while i < d.len()
        invariant
            i <= d@.len() < p@.len(),
            forall|j: int| 0 <= j < i ==> p@[j] == d@[j],
        decreases d@.len() - i,
    {
        if p[i] != d[i] {
            assert(p@.subrange(0, d@.len() as int)[i as int] != d@[i as int]);
            return false;
        }
        i = i + 1;
    }
    proof {
        assert(p@.subrange(0, d@.len() as int) =~= d@);
    }
    p[d.len()] == sep_byte()
}

/// The separator as an executable byte.
pub fn sep_byte() -> (r: u8)
    ensures
        r == sep(),
{
    47
}

/// A component is forbidden when it is empty, `.`, or `..`.
pub open spec fn bad_component(c: Seq<u8>) -> bool {
    ||| c.len() == 0
    ||| (c.len() == 1 && c[0] == dot())
    ||| (c.len() == 2 && c[0] == dot() && c[1] == dot())
}

/// A path is safe to join under a root directory: non-empty, relative, and
/// with every `/`-separated component non-empty and neither `.` nor `..`, so
/// that the joined path can never escape the root.
pub open spec fn safe_path(p: Seq<u8>) -> bool
    decreases p.len(),
    via safe_path_decreases
{
    if p.len() == 0 {
        false
    } else {
        let e = first_at(p, sep());
        !bad_component(p.subrange(0, e)) && (e < p.len() ==> safe_path(
            p.subrange(e + 1, p.len() as int),
        ))
    }
}

#[via_fn]
proof fn safe_path_decreases(p: Seq<u8>) {
    lemma_first_at_bounds(p, sep());
}

/// One component `v[i..e]` is acceptable: non-empty and not a dot component.
fn component_ok(v: &Vec<u8>, i: usize, e: usize) -> (r: bool)
    requires
        i <= e <= v@.len(),
    ensures
        r == !bad_component(v@.subrange(i as int, e as int)),
{
    if e == i {
        return false;
    }
    if e - i == 1 && v[i] == 46 {
        return false;
    }
    if e - i == 2 && v[i] == 46 && v[i + 1] == 46 {
        return false;
    }
    true
}

/// Decide whether `p` is a safe relative path (see [`safe_path`]).
pub fn is_safe_path(p: &Vec<u8>) -> (r: bool)
    ensures
        r == safe_path(p@),
{
    let n = p.len();
    if n == 0 {
        return false;
    }
    proof {
        assert(p@.subrange(0, p@.len() as int) =~= p@);
    }
    let mut i: usize = 0;
    loop
        invariant
            i <= p@.len(),
            p@.len() > 0,
            safe_path(p@) == safe_path(p@.subrange(i as int, p@.len() as int)),
            i < p@.len() || (i == p@.len() && i > 0 && p@[i - 1] == sep()),
        decreases p@.len() - i,
    {
        let ghost suf = p@.subrange(i as int, p@.len() as int);
        if i == p.len() {
            // a trailing separator leaves an empty final component
            assert(suf.len() == 0);
            return false;
        }
        let e = find_from(p, i, 47);
        proof {
            lemma_first_at_scan(p@, sep(), i as int, e as int);
            assert(suf.subrange(0, (e - i) as int) =~= p@.subrange(i as int, e as int));
        }
        if !component_ok(p, i, e) {
            return false;
        }
        if e == p.len() {
            return true;
        }
        proof {
            assert(suf.subrange(e - i + 1, suf.len() as int) =~= p@.subrange(
                e + 1,
                p@.len() as int,
            ));
        }
        i = e + 1;
    }
}

} // verus!
