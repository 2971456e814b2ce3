use mecla::filesystem::{
    contains_supported_media, is_dir_empty, is_supported, lowercase_extension, mover_next,
    mover_observe, plan_tag_prune, prune_plan, MoverAction, MoverState,
};

fn exts() -> Vec<String> {
    vec!["jpg".to_string(), "mp4".to_string()]
}

#[test]
fn supported_is_case_insensitive() {
    assert!(is_supported("/a/b/photo.jpg", &exts()));
    assert!(is_supported("/a/b/photo.JPG", &exts()));
    assert!(is_supported("/a/b/clip.Mp4", &exts()));
}

#[test]
fn unsupported_extension_or_none() {
    assert!(!is_supported("/a/b/document.pdf", &exts()));
    assert!(!is_supported("/a/b/README", &exts()));
    assert!(!is_supported("/a/.hidden", &exts()));
}

#[test]
fn lowercase_extension_lowers() {
    assert_eq!(lowercase_extension("/a/IMG.JPG"), Some("jpg".to_string()));
    assert_eq!(lowercase_extension("/a/IMG"), None);
}

#[test]
fn media_detection_over_listing() {
    let files = vec!["/t/a/notes.txt".to_string(), "/t/b/x.JPG".to_string()];
    assert!(contains_supported_media(&files, &exts()));
    let files2 = vec!["/t/a/notes.txt".to_string()];
    assert!(!contains_supported_media(&files2, &exts()));
    assert!(!contains_supported_media(&Vec::new(), &exts()));
}

#[test]
fn empty_listing_means_removable() {
    assert!(is_dir_empty(&Vec::new()));
    assert!(!is_dir_empty(&vec!["entry".to_string()]));
}

#[test]
fn mover_dry_run_does_nothing() {
    let (st, action) = mover_next(MoverState::Start, true);
    assert_eq!(action, MoverAction::Stop);
    assert_eq!(st, MoverState::Complete);
}

#[test]
fn mover_rename_then_done() {
    let (st, action) = mover_next(MoverState::Start, false);
    assert_eq!(action, MoverAction::EnsureDirsAndRename);
    let st = mover_observe(st, action, true);
    assert_eq!(st, MoverState::Complete);
    let (_, next) = mover_next(st, false);
    assert_eq!(next, MoverAction::Stop);
}

#[test]
fn mover_falls_back_to_copy_then_delete() {
    let (st, action) = mover_next(MoverState::Start, false);
    let st = mover_observe(st, action, false);
    assert_eq!(st, MoverState::RenameFailed);
    let (st, action) = mover_next(st, false);
    assert_eq!(action, MoverAction::CopyFallback);
    let st = mover_observe(st, action, true);
    assert_eq!(st, MoverState::Copied);
    let (st, action) = mover_next(st, false);
    assert_eq!(action, MoverAction::RemoveSource);
    let st = mover_observe(st, action, true);
    assert_eq!(st, MoverState::Complete);
}

#[test]
fn mover_reports_failures() {
    let st = mover_observe(MoverState::RenameFailed, MoverAction::CopyFallback, false);
    assert_eq!(st, MoverState::FailedBoth);
    let st = mover_observe(MoverState::Copied, MoverAction::RemoveSource, false);
    assert_eq!(st, MoverState::FailedDelete);
}

#[test]
fn prune_keeps_dirs_with_files() {
    // contents-first order: children before parents
    let root = "/in/t".to_string();
    let dirs = vec![
        "/in/t/empty/inner".to_string(),
        "/in/t/empty".to_string(),
        "/in/t/full".to_string(),
        "/in/t".to_string(),
    ];
    let files = vec!["/in/t/full/notes.txt".to_string()];
    let plan = prune_plan(&root, &dirs, &files);
    assert_eq!(
        plan,
        vec!["/in/t/empty/inner".to_string(), "/in/t/empty".to_string()]
    );
}

#[test]
fn prune_never_includes_root() {
    let root = "/in/t".to_string();
    let dirs = vec!["/in/t".to_string()];
    let files: Vec<String> = Vec::new();
    let plan = prune_plan(&root, &dirs, &files);
    assert!(plan.is_empty());
}

#[test]
fn tag_with_media_is_left_alone() {
    let tag = "/in/t".to_string();
    let dirs = vec!["/in/t/sub".to_string(), "/in/t".to_string()];
    let files = vec!["/in/t/sub/keep.jpg".to_string()];
    assert_eq!(plan_tag_prune(&tag, &dirs, &files, &exts()), None);
}

#[test]
fn tag_with_media_at_any_depth_is_left_alone() {
    let tag = "/in/t".to_string();
    let dirs = vec![
        "/in/t/a/b/c".to_string(),
        "/in/t/a/b".to_string(),
        "/in/t/a".to_string(),
        "/in/t".to_string(),
    ];
    let files = vec!["/in/t/a/b/c/deep.MP4".to_string()];
    assert_eq!(plan_tag_prune(&tag, &dirs, &files, &exts()), None);
}

#[test]
fn tag_without_media_loses_empty_subdirs_and_itself() {
    let tag = "/in/t".to_string();
    let dirs = vec![
        "/in/t/a/b".to_string(),
        "/in/t/a".to_string(),
        "/in/t".to_string(),
    ];
    let files: Vec<String> = Vec::new();
    let plan = plan_tag_prune(&tag, &dirs, &files, &exts()).unwrap();
    assert_eq!(
        plan,
        vec![
            "/in/t/a/b".to_string(),
            "/in/t/a".to_string(),
            "/in/t".to_string()
        ]
    );
}

#[test]
fn tag_with_leftover_file_keeps_its_directory() {
    // no media left, but a stray non-media file: empty subdirs go, the
    // directories above the stray file stay, and so does the tag dir
    let tag = "/in/t".to_string();
    let dirs = vec![
        "/in/t/empty".to_string(),
        "/in/t/full".to_string(),
        "/in/t".to_string(),
    ];
    let files = vec!["/in/t/full/notes.txt".to_string()];
    let plan = plan_tag_prune(&tag, &dirs, &files, &exts()).unwrap();
    assert_eq!(plan, vec!["/in/t/empty".to_string()]);
}
