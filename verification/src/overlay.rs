//! The delete-then-copy overlay: manifest entries are cleared from the target
//! tree (a named file, or a whole directory subtree), then every source file
//! whose target counterpart is absent is copied over.  Files the manifest does
//! not name and files already present are never touched.
//!
//! Trees are modelled as sequences of `(path, data)` entries with first-match
//! lookup; the installation directory walk in the surrounding program supplies
//! and consumes plain path lists.

use vstd::prelude::*;
use crate::paths::{path_under, safe_path, is_under, is_safe_path, bytes_eq};
use crate::manifest::manifest_of;

verus! {

/// One regular file of a tree: its root-relative path and its bytes.
pub struct FileEntry {
    pub path: Vec<u8>,
    pub data: Vec<u8>,
}

impl DeepView for FileEntry {
    type V = (Seq<u8>, Seq<u8>);

    open spec fn deep_view(&self) -> (Seq<u8>, Seq<u8>) {
        (self.path@, self.data@)
    }
}

/// First-match lookup of path `p` among `files`.
pub open spec fn lookup(files: Seq<(Seq<u8>, Seq<u8>)>, p: Seq<u8>) -> Option<Seq<u8>>
    decreases files.len(),
{
    if files.len() == 0 {
        None
    } else if files[0].0 == p {
        Some(files[0].1)
    } else {
        lookup(files.drop_first(), p)
    }
}

/// Lookup distributes over concatenation, preferring the left part.
pub proof fn lemma_lookup_cat(a: Seq<(Seq<u8>, Seq<u8>)>, b: Seq<(Seq<u8>, Seq<u8>)>, p: Seq<u8>)
    ensures
        lookup(a + b, p) == (if lookup(a, p) is Some {
            lookup(a, p)
        } else {
            lookup(b, p)
        }),
    decreases a.len(),
{
    if a.len() == 0 {
        assert(a + b =~= b);
    } else {
        assert((a + b).drop_first() =~= a.drop_first() + b);
        lemma_lookup_cat(a.drop_first(), b, p);
    }
}

/// Lookup after appending one entry.
pub proof fn lemma_lookup_push(files: Seq<(Seq<u8>, Seq<u8>)>, e: (Seq<u8>, Seq<u8>), p: Seq<u8>)
    ensures
        lookup(files.push(e), p) == (if lookup(files, p) is Some {
            lookup(files, p)
        } else if e.0 == p {
            Some(e.1)
        } else {
            None
        }),
{
    reveal_with_fuel(lookup, 3);
    assert(files.push(e) =~= files + seq![e]);
    lemma_lookup_cat(files, seq![e], p);
    assert(seq![e][0] == e);
    assert(seq![e].drop_first() =~= Seq::<(Seq<u8>, Seq<u8>)>::empty());
    assert(lookup(seq![e], p) == (if e.0 == p {
        Some(e.1)
    } else {
        None
    }));
}

/// `p` survives the deletion phase: no manifest entry names it, nor a
/// directory above it.
pub open spec fn survives(p: Seq<u8>, m: Seq<Seq<u8>>) -> bool {
    forall|k: int| 0 <= k < m.len() ==> !path_under(p, m[k])
}

/// What the overlay leaves at path `p`: the target's own file when it
/// survives deletion, and otherwise whatever the source tree has there.
pub open spec fn overlay_lookup(
    src: Seq<(Seq<u8>, Seq<u8>)>,
    tgt: Seq<(Seq<u8>, Seq<u8>)>,
    m: Seq<Seq<u8>>,
    p: Seq<u8>,
) -> Option<Seq<u8>> {
    if lookup(tgt, p) is Some && survives(p, m) {
        lookup(tgt, p)
    } else {
        lookup(src, p)
    }
}

/// Failure modes of overlay planning.  A manifest entry or source path that
/// could escape the installation root is rejected outright.
#[derive(Clone, Copy, Debug, PartialEq, Eq, Structural)]
pub enum OverlayError {
    UnsafeManifestEntry,
    UnsafeSourcePath,
}

impl OverlayError {
    /// A human-readable description of the failure.
    pub fn message(&self) -> (r: &'static str)
        ensures
            self is UnsafeManifestEntry ==> r@ == "Manifest entry escapes the installation root"@,
            self is UnsafeSourcePath ==> r@ == "Source path escapes the installation root"@,
    {
        match self {
            OverlayError::UnsafeManifestEntry => "Manifest entry escapes the installation root",
            OverlayError::UnsafeSourcePath => "Source path escapes the installation root",
        }
    }
}

/// The filesystem actions one overlay run performs: paths to clear first,
/// then paths to copy from the source tree.  `deleted` counts the manifest
/// entries the target actually held before the run — entries already absent
/// are skipped silently and not counted.
pub struct OverlayPlan {
    pub deletes: Vec<Vec<u8>>,
    pub copies: Vec<Vec<u8>>,
    pub deleted: usize,
}

/// Counts reported after an overlay run.
#[derive(Clone, Copy, Debug, PartialEq, Eq, Structural)]
pub struct OverlayStats {
    pub deleted: usize,
    pub copied: usize,
}

impl OverlayPlan {
    /// The counts this plan will produce: one deletion per manifest entry
    /// that existed in the target, one copy per scheduled file.
    pub fn stats(&self) -> (r: OverlayStats)
        ensures
            r.deleted == self.deleted,
            r.copied == self.copies@.len(),
    {
        OverlayStats { deleted: self.deleted, copied: self.copies.len() }
    }
}

/// Every path in the list is safe to join under a root (see
/// [`crate::paths::safe_path`]).
pub open spec fn all_safe(paths: Seq<Seq<u8>>) -> bool {
    forall|k: int| 0 <= k < paths.len() ==> safe_path(paths[k])
}

/// Some element of `paths` equals `p`.
pub open spec fn contains_path(paths: Seq<Seq<u8>>, p: Seq<u8>) -> bool {
    exists|k: int| 0 <= k < paths.len() && paths[k] == p
}

/// A source file at `p` must be copied: the target tree does not hold it
/// once the deletion phase has run.
pub open spec fn needs_copy(p: Seq<u8>, tgt_paths: Seq<Seq<u8>>, m: Seq<Seq<u8>>) -> bool {
    !(contains_path(tgt_paths, p) && survives(p, m))
}

/// How many manifest entries name something the target tree holds: only
/// those deletions find anything to remove.
pub open spec fn deleted_count_spec(m: Seq<Seq<u8>>, tgt_paths: Seq<Seq<u8>>) -> nat
    decreases m.len(),
{
    if m.len() == 0 {
        0
    } else {
        (if contains_path(tgt_paths, m[0]) {
            1 as nat
        } else {
            0
        }) + deleted_count_spec(m.drop_first(), tgt_paths)
    }
}

/// The source paths to copy, in source order: those absent from the target
/// tree after deletion.
pub open spec fn copy_plan(
    src_paths: Seq<Seq<u8>>,
    tgt_paths: Seq<Seq<u8>>,
    m: Seq<Seq<u8>>,
) -> Seq<Seq<u8>>
    decreases src_paths.len(),
{
    if src_paths.len() == 0 {
        Seq::empty()
    } else {
        let rest = copy_plan(src_paths.drop_first(), tgt_paths, m);
        if needs_copy(src_paths[0], tgt_paths, m) {
            seq![src_paths[0]] + rest
        } else {
            rest
        }
    }
}

proof fn lemma_contains_unfold(s: Seq<Seq<u8>>, p: Seq<u8>)
    requires
        s.len() > 0,
    ensures
        contains_path(s, p) <==> (s[0] == p || contains_path(s.drop_first(), p)),
{
    if contains_path(s, p) {
        let k = choose|k: int| 0 <= k < s.len() && s[k] == p;
        if k > 0 {
            assert(s.drop_first()[k - 1] == p);
        }
    }
    if s.len() > 1 && contains_path(s.drop_first(), p) {
        let k = choose|k: int| 0 <= k < s.drop_first().len() && s.drop_first()[k] == p;
        assert(s[k + 1] == p);
    }
}

/// The copy plan holds a path exactly when the source tree holds it and the
/// target tree, after the deletion phase, does not.
pub proof fn lemma_copy_plan_membership(
    src_paths: Seq<Seq<u8>>,
    tgt_paths: Seq<Seq<u8>>,
    m: Seq<Seq<u8>>,
    p: Seq<u8>,
)
    ensures
        contains_path(copy_plan(src_paths, tgt_paths, m), p) <==> (contains_path(src_paths, p)
            && needs_copy(p, tgt_paths, m)),
    decreases src_paths.len(),
{
    if src_paths.len() == 0 {
        assert(!contains_path(copy_plan(src_paths, tgt_paths, m), p));
        assert(!contains_path(src_paths, p));
    } else {
        let rest = copy_plan(src_paths.drop_first(), tgt_paths, m);
        lemma_copy_plan_membership(src_paths.drop_first(), tgt_paths, m, p);
        lemma_contains_unfold(src_paths, p);
        if needs_copy(src_paths[0], tgt_paths, m) {
            let whole = seq![src_paths[0]] + rest;
            assert(whole.len() > 0);
            assert(whole[0] == src_paths[0]);
            assert(whole.drop_first() =~= rest);
            lemma_contains_unfold(whole, p);
        }
    }
}

/// Decide whether path `p` survives deletion under manifest `m`.
pub fn path_survives(p: &Vec<u8>, m: &Vec<Vec<u8>>) -> (r: bool)
    ensures
        r == survives(p@, m.deep_view()),
{
    let mut k: usize = 0;
    while k < m.len()
        invariant
            k <= m@.len(),
            m.deep_view().len() == m@.len(),
            forall|j: int| 0 <= j < k ==> !path_under(p@, m.deep_view()[j]),
        decreases m@.len() - k,
    {
        if is_under(p, &m[k]) {
            proof {
                assert(m.deep_view()[k as int] =~= m@[k as int]@);
            }
            return false;
        }
        proof {
            assert(m.deep_view()[k as int] =~= m@[k as int]@);
        }
        k = k + 1;
    }
    true
}

/// Whether the target tree holds a file at path `p`.
pub fn tree_has(tgt: &Vec<FileEntry>, p: &Vec<u8>) -> (r: bool)
    ensures
        r == (lookup(tgt.deep_view(), p@) is Some),
{
    let ghost t = tgt.deep_view();
    let mut k: usize = 0;
    while k < tgt.len()
        invariant
            k <= tgt@.len(),
            t == tgt.deep_view(),
            t.len() == tgt@.len(),
            lookup(t.subrange(0, k as int), p@) is None,
        decreases tgt@.len() - k,
    {
        proof {
            assert(t[k as int] == tgt@[k as int].deep_view());
            assert(t.subrange(0, k + 1) =~= t.subrange(0, k as int).push(t[k as int]));
            lemma_lookup_push(t.subrange(0, k as int), t[k as int], p@);
        }
        if bytes_eq(&tgt[k].path, p) {
            proof {
                assert(t =~= t.subrange(0, k + 1) + t.subrange(k + 1, t.len() as int));
                lemma_lookup_cat(t.subrange(0, k + 1), t.subrange(k + 1, t.len() as int), p@);
            }
            return true;
        }
        k = k + 1;
    }
    proof {
        assert(t.subrange(0, t.len() as int) =~= t);
    }
    false
}

/// Copy the bytes of a vector.
pub fn clone_bytes(v: &Vec<u8>) -> (r: Vec<u8>)
    ensures
        r@ == v@,
{
    let r = crate::manifest::copy_range(v, 0, v.len());
    proof {
        assert(v@.subrange(0, v@.len() as int) =~= v@);
    }
    r
}

/// Apply the overlay to a modelled pair of trees: the result holds, for every
/// path, exactly what [`overlay_lookup`] prescribes.  Surviving target files
/// come first, in their original order, followed by the copied source files.
pub fn apply_overlay(source: &Vec<FileEntry>, target: &Vec<FileEntry>, m: &Vec<Vec<u8>>) -> (r:
    Vec<FileEntry>)
    ensures
        forall|p: Seq<u8>|
            lookup(r.deep_view(), p) == overlay_lookup(
                source.deep_view(),
                target.deep_view(),
                m.deep_view(),
                p,
            ),
{
    let ghost srcv = source.deep_view();
    let ghost tgtv = target.deep_view();
    let ghost mv = m.deep_view();
    let mut r: Vec<FileEntry> = Vec::new();
    let mut k: usize = 0;
    while k < target.len()
        invariant
            k <= target@.len(),
            tgtv == target.deep_view(),
            mv == m.deep_view(),
            tgtv.len() == target@.len(),
            forall|p: Seq<u8>|
                #[trigger] lookup(r.deep_view(), p) == (if survives(p, mv) {
                    lookup(tgtv.subrange(0, k as int), p)
                } else {
                    None
                }),
        decreases target@.len() - k,
    {
        let ghost rv0 = r.deep_view();
        proof {
            assert(tgtv[k as int] == target@[k as int].deep_view());
            assert(tgtv.subrange(0, k + 1) =~= tgtv.subrange(0, k as int).push(tgtv[k as int]));
        }
        let keep = path_survives(&target[k].path, m);
        if keep {
            let e = FileEntry {
                path: clone_bytes(&target[k].path),
                data: clone_bytes(&target[k].data),
            };
            r.push(e);
            proof {
                assert(r.deep_view() =~~= rv0.push(tgtv[k as int]));
            }
        }
        proof {
            assert forall|p: Seq<u8>|
                #[trigger] lookup(r.deep_view(), p) == (if survives(p, mv) {
                    lookup(tgtv.subrange(0, k + 1), p)
                } else {
                    None
                }) by {
                lemma_lookup_push(tgtv.subrange(0, k as int), tgtv[k as int], p);
                if keep {
                    lemma_lookup_push(rv0, tgtv[k as int], p);
                }
            }
        }
        k = k + 1;
    }
    proof {
        assert(tgtv.subrange(0, tgtv.len() as int) =~= tgtv);
    }
    let mut i: usize = 0;
    while i < source.len()
        invariant
            i <= source@.len(),
            srcv == source.deep_view(),
            tgtv == target.deep_view(),
            mv == m.deep_view(),
            srcv.len() == source@.len(),
            forall|p: Seq<u8>|
                #[trigger] lookup(r.deep_view(), p) == (if lookup(tgtv, p) is Some
                    && survives(p, mv) {
                    lookup(tgtv, p)
                } else {
                    lookup(srcv.subrange(0, i as int), p)
                }),
        decreases source@.len() - i,
    {
        let ghost rv0 = r.deep_view();
        proof {
            assert(srcv[i as int] == source@[i as int].deep_view());
            assert(srcv.subrange(0, i + 1) =~= srcv.subrange(0, i as int).push(srcv[i as int]));
        }
        let present = tree_has(target, &source[i].path) && path_survives(&source[i].path, m);
        if !present {
            let e = FileEntry {
                path: clone_bytes(&source[i].path),
                data: clone_bytes(&source[i].data),
            };
            r.push(e);
            proof {
                assert(r.deep_view() =~~= rv0.push(srcv[i as int]));
            }
        }
        proof {
            assert forall|p: Seq<u8>|
                #[trigger] lookup(r.deep_view(), p) == (if lookup(tgtv, p) is Some
                    && survives(p, mv) {
                    lookup(tgtv, p)
                } else {
                    lookup(srcv.subrange(0, i + 1), p)
                }) by {
                lemma_lookup_push(srcv.subrange(0, i as int), srcv[i as int], p);
                if !present {
                    lemma_lookup_push(rv0, srcv[i as int], p);
                }
            }
        }
        i = i + 1;
    }
    proof {
        assert(srcv.subrange(0, srcv.len() as int) =~= srcv);
    }
    r
}

/// Check that every path in the list is safe (see [`crate::paths::safe_path`]).
pub fn all_paths_safe(paths: &Vec<Vec<u8>>) -> (r: bool)
    ensures
        r == all_safe(paths.deep_view()),
{
    let ghost pv = paths.deep_view();
    let mut k: usize = 0;
    while k < paths.len()
        invariant
            k <= paths@.len(),
            pv == paths.deep_view(),
            pv.len() == paths@.len(),
            forall|j: int| 0 <= j < k ==> safe_path(pv[j]),
        decreases paths@.len() - k,
    {
        proof {
            assert(pv[k as int] =~= paths@[k as int]@);
        }
        if !is_safe_path(&paths[k]) {
            return false;
        }
        k = k + 1;
    }
    true
}

/// Whether `paths` holds an element equal to `p`.
pub fn has_path(paths: &Vec<Vec<u8>>, p: &Vec<u8>) -> (r: bool)
    ensures
        r == contains_path(paths.deep_view(), p@),
{
    let ghost pv = paths.deep_view();
    let mut k: usize = 0;
    while k < paths.len()
        invariant
            k <= paths@.len(),
            pv == paths.deep_view(),
            pv.len() == paths@.len(),
            forall|j: int| 0 <= j < k ==> pv[j] != p@,
        decreases paths@.len() - k,
    {
        proof {
            assert(pv[k as int] =~= paths@[k as int]@);
        }
        if bytes_eq(&paths[k], p) {
            return true;
        }
        k = k + 1;
    }
    false
}

/// Plan one overlay run from the parsed manifest, the relative paths of the
/// regular files under the source tree, and those paths among them that the
/// target tree already holds.  The plan clears every manifest entry, then
/// copies exactly the source files the deletion phase leaves absent.
/// Planning fails if and only if some manifest entry or source path could
/// escape the installation root.
pub fn plan_overlay(
    manifest: &Vec<Vec<u8>>,
    source_paths: &Vec<Vec<u8>>,
    target_paths: &Vec<Vec<u8>>,
) -> (r: Result<OverlayPlan, OverlayError>)
    ensures
        r is Ok <==> all_safe(manifest.deep_view()) && all_safe(source_paths.deep_view()),
        r matches Ok(plan) ==> plan.deletes.deep_view() == manifest.deep_view()
            && plan.copies.deep_view() == copy_plan(
            source_paths.deep_view(),
            target_paths.deep_view(),
            manifest.deep_view(),
        ) && plan.deleted == deleted_count_spec(manifest.deep_view(), target_paths.deep_view()),
        r matches Err(e) ==> (e is UnsafeManifestEntry <==> !all_safe(manifest.deep_view())),
{
    let ghost mv = manifest.deep_view();
    let ghost srcv = source_paths.deep_view();
    let ghost tgtv = target_paths.deep_view();
    if !all_paths_safe(manifest) {
        return Err(OverlayError::UnsafeManifestEntry);
    }
    if !all_paths_safe(source_paths) {
        return Err(OverlayError::UnsafeSourcePath);
    }
    let mut deletes: Vec<Vec<u8>> = Vec::new();
    let mut deleted: usize = 0;
    let mut k: usize = 0;
    proof {
        assert(mv.subrange(0, mv.len() as int) =~= mv);
    }
    while k < manifest.len()
        invariant
            k <= manifest@.len(),
            mv == manifest.deep_view(),
            tgtv == target_paths.deep_view(),
            mv.len() == manifest@.len(),
            deletes.deep_view() =~~= mv.subrange(0, k as int),
            deleted <= k,
            deleted_count_spec(mv, tgtv) == deleted + deleted_count_spec(
                mv.subrange(k as int, mv.len() as int),
                tgtv,
            ),
        decreases manifest@.len() - k,
    {
        let ghost dv0 = deletes.deep_view();
        let ghost suf = mv.subrange(k as int, mv.len() as int);
        proof {
            assert(mv[k as int] =~= manifest@[k as int]@);
            assert(suf[0] == mv[k as int]);
            assert(suf.drop_first() =~= mv.subrange(k + 1, mv.len() as int));
        }
        deletes.push(clone_bytes(&manifest[k]));
        if has_path(target_paths, &manifest[k]) {
            deleted = deleted + 1;
        }
        proof {
            assert(deletes.deep_view() =~~= dv0.push(mv[k as int]));
            assert(dv0.push(mv[k as int]) =~~= mv.subrange(0, k + 1));
        }
        k = k + 1;
    }
    proof {
        assert(mv.subrange(0, mv.len() as int) =~= mv);
        assert(deletes.deep_view() =~~= mv);
        assert(mv.subrange(mv.len() as int, mv.len() as int) =~= Seq::<Seq<u8>>::empty());
    }
    let n = source_paths.len();
    let mut copies: Vec<Vec<u8>> = Vec::new();
    let mut i: usize = 0;
    proof {
        assert(srcv.subrange(0, n as int) =~= srcv);
        assert(copies.deep_view() + copy_plan(srcv, tgtv, mv) =~~= copy_plan(srcv, tgtv, mv));
    }
    while i < n
        invariant
            i <= n == source_paths@.len(),
            mv == manifest.deep_view(),
            srcv == source_paths.deep_view(),
            tgtv == target_paths.deep_view(),
            srcv.len() == n,
            copy_plan(srcv, tgtv, mv) == copies.deep_view() + copy_plan(
                srcv.subrange(i as int, n as int),
                tgtv,
                mv,
            ),
        decreases n - i,
    {
        let ghost suf = srcv.subrange(i as int, n as int);
        proof {
            assert(suf[0] == srcv[i as int]);
            assert(suf.drop_first() =~= srcv.subrange(i + 1, n as int));
            assert(srcv[i as int] =~= source_paths@[i as int]@);
        }
        let wanted = !(has_path(target_paths, &source_paths[i]) && path_survives(
            &source_paths[i],
            manifest,
        ));
        if wanted {
            let ghost cv0 = copies.deep_view();
            copies.push(clone_bytes(&source_paths[i]));
            proof {
                assert(copies.deep_view() =~~= cv0.push(srcv[i as int]));
                assert(cv0.push(srcv[i as int]) =~~= cv0 + seq![srcv[i as int]]);
                assert(copies.deep_view() + copy_plan(suf.drop_first(), tgtv, mv) =~~= cv0 + (
                seq![srcv[i as int]] + copy_plan(suf.drop_first(), tgtv, mv)));
            }
        }
        i = i + 1;
    }
    proof {
        assert(srcv.subrange(n as int, n as int) =~= Seq::<Seq<u8>>::empty());
        assert(copies.deep_view() + copy_plan(Seq::<Seq<u8>>::empty(), tgtv, mv)
            =~~= copies.deep_view());
    }
    Ok(OverlayPlan { deletes, copies, deleted })
}

/// Plan one overlay run straight from the manifest file's bytes: the
/// manifest is parsed (see [`crate::manifest::manifest_of`]) and the run
/// planned against it.
pub fn plan_from_manifest_text(
    text: &Vec<u8>,
    source_paths: &Vec<Vec<u8>>,
    target_paths: &Vec<Vec<u8>>,
) -> (r: Result<OverlayPlan, OverlayError>)
    ensures
        r is Ok <==> all_safe(manifest_of(text@)) && all_safe(source_paths.deep_view()),
        r matches Ok(plan) ==> plan.deletes.deep_view() == manifest_of(text@)
            && plan.copies.deep_view() == copy_plan(
            source_paths.deep_view(),
            target_paths.deep_view(),
            manifest_of(text@),
        ) && plan.deleted == deleted_count_spec(manifest_of(text@), target_paths.deep_view()),
        r matches Err(e) ==> (e is UnsafeManifestEntry <==> !all_safe(manifest_of(text@))),
{
    let entries = crate::manifest::parse_manifest(text);
    plan_overlay(&entries, source_paths, target_paths)
}

/// Overlay completeness: a file present in the source tree and absent from
/// the target tree before the run is present afterwards with the source's
/// bytes, whatever the manifest says.
pub proof fn lemma_overlay_completeness(
    src: Seq<(Seq<u8>, Seq<u8>)>,
    tgt: Seq<(Seq<u8>, Seq<u8>)>,
    m: Seq<Seq<u8>>,
    p: Seq<u8>,
)
    requires
        lookup(tgt, p) is None,
        lookup(src, p) is Some,
    ensures
        overlay_lookup(src, tgt, m, p) == lookup(src, p),
{
}

/// Overlay non-destructiveness: a file already present in the target tree
/// and not named by the manifest (nor lying under a named directory) keeps
/// its bytes.
pub proof fn lemma_overlay_non_destructive(
    src: Seq<(Seq<u8>, Seq<u8>)>,
    tgt: Seq<(Seq<u8>, Seq<u8>)>,
    m: Seq<Seq<u8>>,
    p: Seq<u8>,
)
    requires
        lookup(tgt, p) is Some,
        survives(p, m),
    ensures
        overlay_lookup(src, tgt, m, p) == lookup(tgt, p),
{
}

/// Manifest deletion: at a path the manifest clears, the overlay leaves the
/// source tree's file when the source has one, and nothing at all otherwise —
/// the target's old file at that path is gone either way.
pub proof fn lemma_manifest_deletion(
    src: Seq<(Seq<u8>, Seq<u8>)>,
    tgt: Seq<(Seq<u8>, Seq<u8>)>,
    m: Seq<Seq<u8>>,
    p: Seq<u8>,
)
    requires
        !survives(p, m),
    ensures
        overlay_lookup(src, tgt, m, p) == lookup(src, p),
{
}

} // verus!

