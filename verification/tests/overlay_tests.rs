use modsync::manifest::parse_manifest;
use modsync::overlay::{
    apply_overlay, plan_from_manifest_text, plan_overlay, FileEntry, OverlayError,
};
use modsync::paths::{is_safe_path, is_under};

fn b(s: &str) -> Vec<u8> {
    s.as_bytes().to_vec()
}

fn fe(path: &str, data: &str) -> FileEntry {
    FileEntry { path: b(path), data: b(data) }
}

fn find<'a>(tree: &'a [FileEntry], path: &str) -> Option<&'a FileEntry> {
    tree.iter().find(|e| e.path == path.as_bytes())
}

#[test]
fn manifest_parsing_trims_and_drops_empty_lines() {
    let text = b("mods/foo.jar\n\n  config/x.toml \t\r\nmods/bar.jar");
    let entries = parse_manifest(&text);
    assert_eq!(entries.len(), 3);
    assert_eq!(entries[0], b("mods/foo.jar"));
    assert_eq!(entries[1], b("config/x.toml"));
    assert_eq!(entries[2], b("mods/bar.jar"));
}

#[test]
fn manifest_parsing_empty_text_gives_no_entries() {
    assert_eq!(parse_manifest(&b("")).len(), 0);
    assert_eq!(parse_manifest(&b("\n \n\t\n")).len(), 0);
}

#[test]
fn path_under_covers_entry_itself_and_subtree() {
    assert!(is_under(&b("mods"), &b("mods")));
    assert!(is_under(&b("mods/foo.jar"), &b("mods")));
    assert!(!is_under(&b("modsX/foo.jar"), &b("mods")));
    assert!(!is_under(&b("mod"), &b("mods")));
}

#[test]
fn safe_path_rejects_traversal_and_absolute_paths() {
    assert!(is_safe_path(&b("mods/foo.jar")));
    assert!(is_safe_path(&b("a/b/c")));
    assert!(!is_safe_path(&b("")));
    assert!(!is_safe_path(&b("/etc/passwd")));
    assert!(!is_safe_path(&b("../outside")));
    assert!(!is_safe_path(&b("mods/../../outside")));
    assert!(!is_safe_path(&b("mods//foo")));
    assert!(!is_safe_path(&b("mods/./foo")));
    assert!(!is_safe_path(&b("mods/")));
}

#[test]
fn overlay_scenario_manifest_refresh_and_new_config() {
    // manifest clears mods/foo.jar; the target keeps mods/bar.jar untouched,
    // gets the fresh mods/foo.jar back from the source, and gains the new
    // config/settings.json.
    let manifest = vec![b("mods/foo.jar")];
    let source = vec![fe("mods/foo.jar", "new-foo"), fe("config/settings.json", "settings")];
    let target = vec![fe("mods/foo.jar", "old-foo"), fe("mods/bar.jar", "bar")];
    let result = apply_overlay(&source, &target, &manifest);
    assert_eq!(find(&result, "mods/foo.jar").unwrap().data, b("new-foo"));
    assert_eq!(find(&result, "mods/bar.jar").unwrap().data, b("bar"));
    assert_eq!(find(&result, "config/settings.json").unwrap().data, b("settings"));
    assert_eq!(result.len(), 3);
}

#[test]
fn overlay_completeness_copies_missing_files() {
    let source = vec![fe("a/new.txt", "fresh")];
    let target = vec![fe("b/old.txt", "kept")];
    let result = apply_overlay(&source, &target, &Vec::new());
    assert_eq!(find(&result, "a/new.txt").unwrap().data, b("fresh"));
}

#[test]
fn overlay_non_destructive_keeps_existing_files() {
    let source = vec![fe("present.txt", "from-source")];
    let target = vec![fe("present.txt", "local-edit"), fe("extra.txt", "mine")];
    let result = apply_overlay(&source, &target, &Vec::new());
    assert_eq!(find(&result, "present.txt").unwrap().data, b("local-edit"));
    assert_eq!(find(&result, "extra.txt").unwrap().data, b("mine"));
}

#[test]
fn overlay_manifest_deletes_whole_directory() {
    let manifest = vec![b("mods")];
    let source: Vec<FileEntry> = Vec::new();
    let target = vec![fe("mods/a.jar", "a"), fe("mods/sub/b.jar", "b"), fe("config/c.toml", "c")];
    let result = apply_overlay(&source, &target, &manifest);
    assert!(find(&result, "mods/a.jar").is_none());
    assert!(find(&result, "mods/sub/b.jar").is_none());
    assert_eq!(find(&result, "config/c.toml").unwrap().data, b("c"));
}

#[test]
fn plan_lists_deletes_and_needed_copies() {
    let manifest = vec![b("mods/foo.jar")];
    let source_paths = vec![b("mods/foo.jar"), b("config/settings.json"), b("mods/bar.jar")];
    // before the run the target holds foo (to be cleared) and bar (kept)
    let target_paths = vec![b("mods/foo.jar"), b("mods/bar.jar")];
    let plan = plan_overlay(&manifest, &source_paths, &target_paths).unwrap();
    assert_eq!(plan.deletes, vec![b("mods/foo.jar")]);
    assert_eq!(plan.copies, vec![b("mods/foo.jar"), b("config/settings.json")]);
    let stats = plan.stats();
    assert_eq!(stats.deleted, 1);
    assert_eq!(stats.copied, 2);
}

#[test]
fn absent_manifest_entries_are_not_counted_as_deleted() {
    // the only manifest entry does not exist in the target: it is still
    // listed for the (idempotent) deletion attempt, but the reported count
    // stays zero
    let manifest = vec![b("mods/ghost.jar")];
    let plan = plan_overlay(&manifest, &Vec::new(), &Vec::new()).unwrap();
    assert_eq!(plan.deletes.len(), 1);
    assert_eq!(plan.stats().deleted, 0);
    assert_eq!(plan.stats().copied, 0);
}

#[test]
fn plan_rejects_unsafe_manifest_entry() {
    let manifest = vec![b("../escape")];
    let r = plan_overlay(&manifest, &Vec::new(), &Vec::new());
    assert_eq!(r.err().unwrap(), OverlayError::UnsafeManifestEntry);
}

#[test]
fn plan_rejects_unsafe_source_path() {
    let source_paths = vec![b("ok.txt"), b("/abs")];
    let r = plan_overlay(&Vec::new(), &source_paths, &Vec::new());
    assert_eq!(r.err().unwrap(), OverlayError::UnsafeSourcePath);
}

#[test]
fn plan_from_manifest_text_parses_then_plans() {
    let text = b("mods/foo.jar\n\n");
    let source_paths = vec![b("mods/foo.jar")];
    let target_paths = vec![b("mods/foo.jar")];
    let plan = plan_from_manifest_text(&text, &source_paths, &target_paths).unwrap();
    assert_eq!(plan.deletes, vec![b("mods/foo.jar")]);
    // foo.jar is cleared, so it must be copied back
    assert_eq!(plan.copies, vec![b("mods/foo.jar")]);
}
