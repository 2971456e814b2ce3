//! Run-level scenarios driven through the library's executable decisions: a
//! destination tree is simulated as a map from path to bytes, each source
//! file is placed exactly as the pipeline would place it, and whole runs are
//! replayed to observe idempotence, dedup and dry-run purity on concrete
//! values.

use mecla::conflict::{resolve_collision, CollisionOutcome};
use mecla::metadata::Timestamp;
use mecla::naming::{build_target_dir, format_filename, join_path};
use std::collections::BTreeMap;

#[derive(Clone, Debug, PartialEq)]
struct SrcFile {
    path: String,
    tag: Option<String>,
    t: Timestamp,
    ext: String,
    data: Vec<u8>,
}

fn ts(second: u32) -> Timestamp {
    Timestamp { year: 2024, month: 7, day: 1, hour: 10, minute: 0, second }
}

fn file(path: &str, tag: Option<&str>, second: u32, data: &[u8]) -> SrcFile {
    SrcFile {
        path: path.to_string(),
        tag: tag.map(|s| s.to_string()),
        t: ts(second),
        ext: "jpg".to_string(),
        data: data.to_vec(),
    }
}

/// Processes one file against the tree exactly as the pipeline does, and
/// reports whether its source was consumed.
fn place(
    tree: &mut BTreeMap<String, Vec<u8>>,
    f: &SrcFile,
    out_root: &str,
    dry_run: bool,
) -> bool {
    let dir = build_target_dir(out_root, &f.t, f.tag.as_deref());
    let base = format_filename(&f.t, &f.ext);
    let dest = join_path(&dir, &base);
    match tree.get(&dest) {
        None => {
            if !dry_run {
                tree.insert(dest, f.data.clone());
            }
            true
        }
        Some(existing) => {
            let prefix = format!("{}/", dir);
            let occupied: Vec<String> = tree
                .keys()
                .filter_map(|k| k.strip_prefix(&prefix).map(|n| n.to_string()))
                .filter(|n| !n.contains('/'))
                .collect();
            match resolve_collision(&f.t, &f.ext, &f.data, existing, &occupied) {
                CollisionOutcome::SkippedDuplicate => true,
                CollisionOutcome::RenamedOnCollision(name) => {
                    if !dry_run {
                        tree.insert(join_path(&dir, &name), f.data.clone());
                    }
                    true
                }
                CollisionOutcome::PersistentCollision => false,
            }
        }
    }
}

/// One full run: returns the files whose sources were not consumed.
fn run_once(
    tree: &mut BTreeMap<String, Vec<u8>>,
    files: &[SrcFile],
    dry_run: bool,
) -> Vec<SrcFile> {
    let mut leftovers = Vec::new();
    for f in files {
        if !place(tree, f, "/out", dry_run) {
            leftovers.push(f.clone());
        }
    }
    leftovers
}

#[test]
fn rerun_changes_nothing() {
    let files = vec![
        file("/in/Vacation/a.jpg", Some("Vacation"), 1, b"aaa"),
        file("/in/Vacation/b.jpg", Some("Vacation"), 1, b"bbb"),
        file("/in/c.jpg", None, 2, b"ccc"),
        file("/in/c2.jpg", None, 2, b"ccc"),
    ];
    let mut tree = BTreeMap::new();
    let leftovers = run_once(&mut tree, &files, false);
    assert!(leftovers.is_empty());
    let after_first = tree.clone();
    let leftovers2 = run_once(&mut tree, &leftovers, false);
    assert!(leftovers2.is_empty());
    assert_eq!(tree, after_first);
}

#[test]
fn rerun_leaves_persistent_collisions_failing() {
    let colliding = file("/in/x.jpg", None, 3, b"new content");
    let mut tree = BTreeMap::new();
    // salt the naive name and every admissible suffixed candidate
    let dir = build_target_dir("/out", &colliding.t, None);
    let base = format_filename(&colliding.t, "jpg");
    tree.insert(join_path(&dir, &base), b"other".to_vec());
    let hex = blake3::hash(b"new content").to_hex().to_string();
    for n in [8, 12, 16, 20] {
        let name = format!("2024-07-01 10.00.03 {}.jpg", hex[..n].to_uppercase());
        tree.insert(join_path(&dir, &name), b"salt".to_vec());
    }
    let before = tree.clone();
    let leftovers = run_once(&mut tree, &[colliding.clone()], false);
    assert_eq!(leftovers, vec![colliding]);
    assert_eq!(tree, before);
    let leftovers2 = run_once(&mut tree, &leftovers, false);
    assert_eq!(leftovers2, leftovers);
    assert_eq!(tree, before);
}

#[test]
fn dedup_keeps_exactly_one_copy() {
    let files = vec![
        file("/in/a/p.jpg", Some("a"), 5, b"same"),
        file("/in/b/p.jpg", Some("a"), 5, b"same"),
    ];
    let mut tree = BTreeMap::new();
    let leftovers = run_once(&mut tree, &files, false);
    assert!(leftovers.is_empty());
    assert_eq!(tree.len(), 1);
    let (path, data) = tree.iter().next().unwrap();
    assert_eq!(path, "/out/2024/07 a/2024-07-01 10.00.05.jpg");
    assert_eq!(data, b"same");
}

#[test]
fn collision_keeps_both_contents() {
    let files = vec![
        file("/in/p.jpg", None, 6, b"first"),
        file("/in/q.jpg", None, 6, b"second"),
    ];
    let mut tree = BTreeMap::new();
    let leftovers = run_once(&mut tree, &files, false);
    assert!(leftovers.is_empty());
    assert_eq!(tree.len(), 2);
    let hex = blake3::hash(b"second").to_hex().to_string();
    let suffixed = format!("/out/2024/07/2024-07-01 10.00.06 {}.jpg", hex[..8].to_uppercase());
    assert_eq!(tree.get("/out/2024/07/2024-07-01 10.00.06.jpg").unwrap(), b"first");
    assert_eq!(tree.get(suffixed.as_str()).unwrap(), b"second");
}

#[test]
fn dry_run_leaves_tree_untouched() {
    let files = vec![
        file("/in/Vacation/a.jpg", Some("Vacation"), 1, b"aaa"),
        file("/in/b.jpg", None, 2, b"bbb"),
    ];
    let mut tree = BTreeMap::new();
    tree.insert("/out/2024/07/existing.jpg".to_string(), b"keep".to_vec());
    let before = tree.clone();
    run_once(&mut tree, &files, true);
    assert_eq!(tree, before);
}
