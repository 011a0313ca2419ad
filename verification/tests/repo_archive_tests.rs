use std::io::{Cursor, Write};

use modsync::archive::{entry_destination, read_archive, ArchiveError};
use modsync::repo::{decide_sync_action, SyncAction, SyncError};

fn b(s: &str) -> Vec<u8> {
    s.as_bytes().to_vec()
}

#[test]
fn sync_with_equal_tips_is_up_to_date() {
    let tip = b("0123456789abcdef0123");
    let action = decide_sync_action(Some(&tip), &tip, false, false);
    assert_eq!(action, SyncAction::UpToDate);
}

#[test]
fn sync_without_local_branch_fast_forwards() {
    let fetched = b("0123456789abcdef0123");
    let action = decide_sync_action(None, &fetched, false, false);
    assert_eq!(action, SyncAction::FastForward);
}

#[test]
fn sync_repeated_after_fast_forward_is_up_to_date() {
    let local = b("aaaaaaaaaaaaaaaaaaaa");
    let fetched = b("bbbbbbbbbbbbbbbbbbbb");
    let first = decide_sync_action(Some(&local), &fetched, false, true);
    assert_eq!(first, SyncAction::FastForward);
    // the fast-forward moved the tip to the fetched commit; the remote is
    // unchanged, so the next run has nothing to do
    let second = decide_sync_action(Some(&fetched), &fetched, false, false);
    assert_eq!(second, SyncAction::UpToDate);
}

#[test]
fn sync_diverged_tips_need_a_merge() {
    let local = b("aaaaaaaaaaaaaaaaaaaa");
    let fetched = b("bbbbbbbbbbbbbbbbbbbb");
    let action = decide_sync_action(Some(&local), &fetched, false, false);
    assert_eq!(action, SyncAction::Merge);
}

#[test]
fn sync_analysis_up_to_date_wins_over_merge() {
    // after a real merge the fetched commit is in the local history even
    // though the tips differ
    let local = b("cccccccccccccccccccc");
    let fetched = b("bbbbbbbbbbbbbbbbbbbb");
    let action = decide_sync_action(Some(&local), &fetched, true, false);
    assert_eq!(action, SyncAction::UpToDate);
}

#[test]
fn sync_error_messages_match_the_stage() {
    assert_eq!(SyncError::Init.message(), "Unable to initialize repository");
    assert_eq!(SyncError::AddRemote.message(), "Unable to add remote");
    assert_eq!(SyncError::Remote.message(), "Unable to obtain remote");
    assert_eq!(SyncError::Merge.message(), "Unable to merge");
}

#[test]
fn entry_destination_strips_the_root_folder() {
    let root = b("MultiMC");
    let d = entry_destination(&b("MultiMC/MultiMC.exe"), &root).unwrap();
    assert!(!d.0);
    assert_eq!(d.1, b("MultiMC.exe"));
    let d = entry_destination(&b("MultiMC/jars/"), &root).unwrap();
    assert!(d.0);
    assert_eq!(d.1, b("jars"));
}

#[test]
fn entry_destination_skips_foreign_and_unsafe_entries() {
    let root = b("MultiMC");
    assert!(entry_destination(&b("other/file.txt"), &root).is_none());
    assert!(entry_destination(&b("MultiMC"), &root).is_none());
    assert!(entry_destination(&b("MultiMC/"), &root).is_none());
    assert!(entry_destination(&b("MultiMCx/file"), &root).is_none());
    assert!(entry_destination(&b("MultiMC/../evil"), &root).is_none());
    assert!(entry_destination(&b("MultiMC//x"), &root).is_none());
    assert!(entry_destination(&b(""), &root).is_none());
}

fn build_zip(entries: &[(&str, Option<&[u8]>)]) -> Vec<u8> {
    let mut w = zip::ZipWriter::new(Cursor::new(Vec::new()));
    let options = zip::write::SimpleFileOptions::default();
    for (name, data) in entries {
        match data {
            Some(bytes) => {
                w.start_file(*name, options).unwrap();
                w.write_all(bytes).unwrap();
            }
            None => {
                w.add_directory(*name, options).unwrap();
            }
        }
    }
    w.finish().unwrap().into_inner()
}

#[test]
fn read_archive_plans_extraction_of_rooted_entries() {
    let data = build_zip(&[
        ("MultiMC/MultiMC.exe", Some(b"binary-bytes".as_slice())),
        ("MultiMC/jars", None),
        ("MultiMC/jars/runtime.jar", Some(b"jar-bytes".as_slice())),
        ("stray/readme.txt", Some(b"not-ours".as_slice())),
    ]);
    let actions = read_archive(data, &b("MultiMC")).unwrap();
    assert_eq!(actions.len(), 3);
    assert!(!actions[0].is_dir);
    assert_eq!(actions[0].rel, b("MultiMC.exe"));
    assert_eq!(actions[0].data, b"binary-bytes".to_vec());
    assert!(actions[1].is_dir);
    assert_eq!(actions[1].rel, b("jars"));
    assert_eq!(actions[1].data, b(""));
    assert!(!actions[2].is_dir);
    assert_eq!(actions[2].rel, b("jars/runtime.jar"));
    assert_eq!(actions[2].data, b"jar-bytes".to_vec());
}

#[test]
fn read_archive_of_unchanged_bytes_succeeds_again_with_the_same_plan() {
    let data = build_zip(&[("MultiMC/MultiMC.exe", Some(b"binary-bytes".as_slice()))]);
    let first = read_archive(data.clone(), &b("MultiMC")).unwrap();
    let second = read_archive(data, &b("MultiMC")).unwrap();
    assert_eq!(first.len(), second.len());
    for (a, c) in first.iter().zip(second.iter()) {
        assert_eq!(a.is_dir, c.is_dir);
        assert_eq!(a.rel, c.rel);
        assert_eq!(a.data, c.data);
    }
}

#[test]
fn read_archive_rejects_bytes_that_are_no_archive() {
    let r = read_archive(b("definitely not a zip file"), &b("MultiMC"));
    assert_eq!(r.err().unwrap(), ArchiveError::BadArchive);
}
