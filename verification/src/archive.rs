//! Archive extraction planning.  The downloaded launcher package is a ZIP
//! archive whose entries all sit under one top-level folder; extraction
//! strips that folder, skips entries that do not belong under it or whose
//! path is unsafe, and turns the rest into directory-creation and file-write
//! actions relative to the launcher directory.
//!
//! Reading the archive itself is delegated to the `zip` crate over an
//! in-memory buffer; everything decided about an entry is verified here.

use vstd::prelude::*;
use std::io::Cursor;
use zip::ZipArchive;
use crate::paths::{sep, safe_path, path_under, is_safe_path};
use crate::manifest::copy_range;

verus! {

/// In-memory byte reader the archive is opened over.
#[verifier::external_type_specification]
#[verifier::external_body]
#[verifier::reject_recursive_types(T)]
pub struct ExCursor<T>(Cursor<T>);

/// A parsed ZIP archive of the `zip` crate.
#[verifier::external_type_specification]
#[verifier::external_body]
#[verifier::reject_recursive_types(R)]
pub struct ExZipArchive<R>(ZipArchive<R>);

/// The entries a ZIP archive with the given bytes holds, in index order:
/// each entry's name and its uncompressed bytes, a function of the archive
/// bytes alone.
pub uninterp spec fn entries_of(data: Seq<u8>) -> Seq<(Seq<u8>, Seq<u8>)>;

/// Whether the bytes parse as a ZIP archive (a central directory is found
/// and read); a function of the bytes alone.
pub uninterp spec fn zip_parses(data: Seq<u8>) -> bool;

/// Whether entry `i` of the archive bytes can be read and decompressed
/// whole; a function of the bytes and the index alone.
pub uninterp spec fn entry_read_ok(data: Seq<u8>, i: int) -> bool;

/// The entries an opened archive value holds (name and uncompressed bytes,
/// in index order).
pub uninterp spec fn archive_entries(a: ZipArchive<Cursor<Vec<u8>>>) -> Seq<(Seq<u8>, Seq<u8>)>;

/// Whether entry `i` of an opened archive value can be read and decompressed
/// whole.
pub uninterp spec fn archive_entry_ok(a: ZipArchive<Cursor<Vec<u8>>>, i: int) -> bool;

/// Failure modes of archive extraction.
#[derive(Clone, Copy, Debug, PartialEq, Eq, Structural)]
pub enum ArchiveError {
    /// The bytes do not parse as a ZIP archive.
    BadArchive,
    /// An entry could not be read or decompressed.
    EntryRead,
}

impl ArchiveError {
    /// A human-readable description of the failure.
    pub fn message(&self) -> (r: &'static str)
        ensures
            self is BadArchive ==> r@ == "Unable to open archive"@,
            self is EntryRead ==> r@ == "Unable to read archive entry"@,
    {
        match self {
            ArchiveError::BadArchive => "Unable to open archive",
            ArchiveError::EntryRead => "Unable to read archive entry",
        }
    }
}

/// Relies on `zip::ZipArchive::new` over an in-memory cursor: whether the
/// bytes parse, and what entries they hold, are determined by the bytes
/// alone, and a parse failure is the only error.
#[verifier::external_body]
fn zip_open(data: Vec<u8>) -> (r: Result<ZipArchive<Cursor<Vec<u8>>>, ArchiveError>)
    ensures
        r is Ok <==> zip_parses(data@),
        r matches Ok(a) ==> archive_entries(a) == entries_of(data@) && (forall|i: int|
            archive_entry_ok(a, i) == entry_read_ok(data@, i)),
        r matches Err(e) ==> e is BadArchive,
{
    match ZipArchive::new(Cursor::new(data)) {
        Ok(a) => Ok(a),
        Err(_) => Err(ArchiveError::BadArchive),
    }
}

/// Relies on `zip::ZipArchive::len`: the number of entries in the archive.
#[verifier::external_body]
fn zip_len(a: &ZipArchive<Cursor<Vec<u8>>>) -> (r: usize)
    ensures
        r == archive_entries(*a).len(),
{
    a.len()
}

/// Relies on `zip::ZipArchive::by_index` and `std::io::Read::read_to_end`:
/// reading entry `i` from the in-memory archive succeeds exactly when that
/// entry's data decompresses whole, yields that entry's name bytes and
/// uncompressed bytes, and leaves the archive's entries unchanged.
#[verifier::external_body]
fn zip_entry(a: &mut ZipArchive<Cursor<Vec<u8>>>, i: usize) -> (r: Result<
    (Vec<u8>, Vec<u8>),
    ArchiveError,
>)
    requires
        i < archive_entries(*old(a)).len(),
    ensures
        archive_entries(*final(a)) == archive_entries(*old(a)),
        forall|j: int| archive_entry_ok(*final(a), j) == archive_entry_ok(*old(a), j),
        r is Ok <==> archive_entry_ok(*old(a), i as int),
        r matches Ok(e) ==> (e.0@, e.1@) == archive_entries(*old(a))[i as int],
        r matches Err(e) ==> e is EntryRead,
{
    match a.by_index(i) {
        Ok(mut f) => {
            let name: Vec<u8> = f.name().as_bytes().to_vec();
            let mut buf: Vec<u8> = Vec::new();
            match std::io::Read::read_to_end(&mut f, &mut buf) {
                Ok(_) => Ok((name, buf)),
                Err(_) => Err(ArchiveError::EntryRead),
            }
        },
        Err(_) => Err(ArchiveError::EntryRead),
    }
}

/// Where an entry named `name` lands relative to the launcher directory:
/// `None` when the entry does not sit under the expected top-level folder
/// `root`, is that folder itself, or has an unsafe remainder; otherwise
/// whether it is a directory entry (name ends in `/`) and its relative path
/// with the folder prefix stripped.
pub open spec fn entry_dest(name: Seq<u8>, root: Seq<u8>) -> Option<(bool, Seq<u8>)> {
    let is_dir = name.len() > 0 && name[name.len() - 1] == sep();
    let stem = if is_dir {
        name.drop_last()
    } else {
        name
    };
    if path_under(stem, root) && stem.len() > root.len() {
        let rel = stem.subrange(root.len() as int + 1, stem.len() as int);
        if safe_path(rel) {
            Option::Some((is_dir, rel))
        } else {
            Option::None
        }
    } else {
        Option::None
    }
}

/// Compute [`entry_dest`] for an entry name.
pub fn entry_destination(name: &Vec<u8>, root: &Vec<u8>) -> (r: Option<(bool, Vec<u8>)>)
    ensures
        r matches Some(t) ==> entry_dest(name@, root@) == Option::Some((t.0, t.1@)),
        r is None ==> entry_dest(name@, root@) is None,
{
    let n = name.len();
    let is_dir = n > 0 && name[n - 1] == 47;
    let stem_len = if is_dir {
        n - 1
    } else {
        n
    };
    let ghost stem = if is_dir {
        name@.drop_last()
    } else {
        name@
    };
    proof {
        assert(stem =~= name@.subrange(0, stem_len as int));
    }
    if stem_len <= root.len() {
        proof {
            if path_under(stem, root@) {
                assert(stem.len() <= root@.len());
            }
        }
        return None;
    }
    let mut k: usize = 0;
    while k < root.len()
        invariant
            k <= root@.len() < stem_len <= name@.len(),
            stem == name@.subrange(0, stem_len as int),
            forall|j: int| 0 <= j < k ==> name@[j] == root@[j],
        decreases root@.len() - k,
    {
        if name[k] != root[k] {
            proof {
                assert(stem.subrange(0, root@.len() as int)[k as int] != root@[k as int]);
            }
            return None;
        }
        k = k + 1;
    }
    if name[root.len()] != 47 {
        proof {
            assert(stem[root@.len() as int] == name@[root@.len() as int]);
        }
        return None;
    }
    proof {
        assert(stem.subrange(0, root@.len() as int) =~= root@);
        assert(path_under(stem, root@));
    }
    let rel = copy_range(name, root.len() + 1, stem_len);
    proof {
        assert(rel@ =~= stem.subrange(root@.len() as int + 1, stem.len() as int));
    }
    if is_safe_path(&rel) {
        Some((is_dir, rel))
    } else {
        None
    }
}

/// One extraction step: create a directory, or write a file with the given
/// bytes, at a path relative to the launcher directory.
pub struct ExtractAction {
    /// Create a directory rather than write a file.
    pub is_dir: bool,
    /// Destination path relative to the launcher directory.
    pub rel: Vec<u8>,
    /// File bytes to write; empty for directories.
    pub data: Vec<u8>,
}

impl DeepView for ExtractAction {
    type V = (bool, Seq<u8>, Seq<u8>);

    open spec fn deep_view(&self) -> (bool, Seq<u8>, Seq<u8>) {
        (self.is_dir, self.rel@, self.data@)
    }
}

/// The extraction steps an entry list gives rise to, in order: one step per
/// entry that maps under the stripped top-level folder.
pub open spec fn extract_plan_spec(entries: Seq<(Seq<u8>, Seq<u8>)>, root: Seq<u8>) -> Seq<
    (bool, Seq<u8>, Seq<u8>),
>
    decreases entries.len(),
{
    if entries.len() == 0 {
        Seq::empty()
    } else {
        let rest = extract_plan_spec(entries.drop_first(), root);
        match entry_dest(entries[0].0, root) {
            Option::None => rest,
            Option::Some(d) => seq![
                (
                    d.0,
                    d.1,
                    if d.0 {
                        Seq::<u8>::empty()
                    } else {
                        entries[0].1
                    },
                ),
            ] + rest,
        }
    }
}

/// Plan the extraction of a downloaded archive: parse `data` as a ZIP
/// archive and map every entry under the top-level folder `root` to its
/// action, in entry order.  The plan is returned exactly when the bytes
/// parse as a ZIP archive and every entry can be read; otherwise the error
/// says which of the two failed.
pub fn read_archive(data: Vec<u8>, root: &Vec<u8>) -> (r: Result<Vec<ExtractAction>, ArchiveError>)
    ensures
        r is Ok <==> zip_parses(data@) && (forall|j: int|
            0 <= j < entries_of(data@).len() ==> entry_read_ok(data@, j)),
        r matches Ok(v) ==> v.deep_view() == extract_plan_spec(entries_of(data@), root@),
        r matches Err(e) ==> (e is BadArchive <==> !zip_parses(data@)),
{
    let ghost dv = data@;
    let mut a = match zip_open(data) {
        Ok(a) => a,
        Err(e) => {
            return Err(e);
        },
    };
    let ghost ents = archive_entries(a);
    let n = zip_len(&a);
    let mut out: Vec<ExtractAction> = Vec::new();
    let mut i: usize = 0;
    proof {
        assert(ents.subrange(0, n as int) =~= ents);
        assert(out.deep_view() + extract_plan_spec(ents, root@) =~~= extract_plan_spec(
            ents,
            root@,
        ));
    }
    while i < n
        invariant
            i <= n == ents.len(),
            dv == data@,
            ents == entries_of(dv),
            zip_parses(dv),
            archive_entries(a) == ents,
            forall|j: int| archive_entry_ok(a, j) == entry_read_ok(dv, j),
            forall|j: int| 0 <= j < i ==> entry_read_ok(dv, j),
            extract_plan_spec(ents, root@) == out.deep_view() + extract_plan_spec(
                ents.subrange(i as int, n as int),
                root@,
            ),
        decreases n - i,
    {
        let ghost suf = ents.subrange(i as int, n as int);
        proof {
            assert(suf[0] == ents[i as int]);
            assert(suf.drop_first() =~= ents.subrange(i + 1, n as int));
        }
        let (nm, bytes) = match zip_entry(&mut a, i) {
            Ok(e) => e,
            Err(e) => {
                proof {
                    assert(!entry_read_ok(dv, i as int));
                }
                return Err(e);
            },
        };
        match entry_destination(&nm, root) {
            Some(t) => {
                let (d, rel) = t;
                let ghost cv0 = out.deep_view();
                let act = ExtractAction {
                    is_dir: d,
                    rel,
                    data: if d {
                        Vec::new()
                    } else {
                        bytes
                    },
                };
                out.push(act);
                proof {
                    let ghost step = (
                        d,
                        act.rel@,
                        if d {
                            Seq::<u8>::empty()
                        } else {
                            suf[0].1
                        },
                    );
                    assert(out.deep_view() =~~= cv0.push(step));
                    assert(cv0.push(step) =~~= cv0 + seq![step]);
                    assert(out.deep_view() + extract_plan_spec(suf.drop_first(), root@) =~~= cv0 + (
                    seq![step] + extract_plan_spec(suf.drop_first(), root@)));
                }
            },
            None => {
            },
        }
        i = i + 1;
    }
    proof {
        assert(ents.subrange(n as int, n as int) =~= Seq::<(Seq<u8>, Seq<u8>)>::empty());
        assert(out.deep_view() + extract_plan_spec(Seq::<(Seq<u8>, Seq<u8>)>::empty(), root@)
            =~~= out.deep_view());
    }
    Ok(out)
}

} // verus!
