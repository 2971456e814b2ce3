use mecla::metadata::Timestamp;
use mecla::naming::{
    build_target_dir, extension_of, format_filename, format_filename_with_suffix, infer_tag,
    join_path,
};

fn ts(year: u32, month: u32, day: u32, hour: u32, minute: u32, second: u32) -> Timestamp {
    Timestamp { year, month, day, hour, minute, second }
}

#[test]
fn filename_is_zero_padded() {
    let t = ts(2025, 7, 23, 8, 54, 4);
    assert_eq!(format_filename(&t, "jpg"), "2025-07-23 08.54.04.jpg");
}

#[test]
fn filename_example_scenario() {
    let t = ts(2024, 7, 1, 10, 0, 0);
    assert_eq!(format_filename(&t, "jpg"), "2024-07-01 10.00.00.jpg");
}

#[test]
fn suffixed_filename_inserts_token_before_extension() {
    let t = ts(2024, 7, 1, 10, 0, 0);
    assert_eq!(
        format_filename_with_suffix(&t, "A1B2C3D4", "jpg"),
        "2024-07-01 10.00.00 A1B2C3D4.jpg"
    );
}

#[test]
fn target_dir_with_tag() {
    let t = ts(2024, 7, 1, 10, 0, 0);
    assert_eq!(
        build_target_dir("/out", &t, Some("Vacation")),
        "/out/2024/07 Vacation"
    );
}

#[test]
fn target_dir_without_tag() {
    let t = ts(2024, 7, 1, 10, 0, 0);
    assert_eq!(build_target_dir("/out", &t, None), "/out/2024/07");
}

#[test]
fn target_dir_blank_tag_is_dropped() {
    let t = ts(2024, 12, 31, 23, 59, 59);
    assert_eq!(build_target_dir("/out", &t, Some("   ")), "/out/2024/12");
}

#[test]
fn target_dir_tag_is_trimmed() {
    let t = ts(2024, 1, 2, 3, 4, 5);
    assert_eq!(
        build_target_dir("/out", &t, Some("  Trip  ")),
        "/out/2024/01 Trip"
    );
}

#[test]
fn small_year_is_zero_padded() {
    let t = ts(50, 3, 9, 7, 8, 9);
    assert_eq!(format_filename(&t, "png"), "0050-03-09 07.08.09.png");
    assert_eq!(build_target_dir("/out", &t, None), "/out/0050/03");
}

#[test]
fn infer_tag_nested_file() {
    assert_eq!(
        infer_tag("/depot", "/depot/Vacation/IMG_0001.jpg"),
        Some("Vacation".to_string())
    );
}

#[test]
fn infer_tag_deeply_nested_file() {
    assert_eq!(
        infer_tag("/depot", "/depot/Trip/2024/a.jpg"),
        Some("Trip".to_string())
    );
}

#[test]
fn infer_tag_file_in_root() {
    assert_eq!(infer_tag("/depot", "/depot/IMG_0001.jpg"), None);
}

#[test]
fn infer_tag_outside_root() {
    assert_eq!(infer_tag("/depot", "/elsewhere/a/b.jpg"), None);
}

#[test]
fn infer_tag_root_with_trailing_slash() {
    assert_eq!(
        infer_tag("/depot/", "/depot/Vacation/IMG.jpg"),
        Some("Vacation".to_string())
    );
}

#[test]
fn infer_tag_rejects_dot_segments() {
    assert_eq!(infer_tag("/depot", "/depot/./a.jpg"), None);
    assert_eq!(infer_tag("/depot", "/depot/../a/b.jpg"), None);
}

#[test]
fn infer_tag_does_not_match_name_prefix() {
    assert_eq!(infer_tag("/depot", "/depots/Vacation/a.jpg"), None);
}

#[test]
fn extension_of_simple() {
    assert_eq!(extension_of("/a/b/photo.JPG"), Some("JPG".to_string()));
}

#[test]
fn extension_of_multiple_dots() {
    assert_eq!(extension_of("archive.tar.gz"), Some("gz".to_string()));
}

#[test]
fn extension_of_hidden_file() {
    assert_eq!(extension_of("/home/.bashrc"), None);
}

#[test]
fn extension_of_no_extension() {
    assert_eq!(extension_of("/a/b/README"), None);
}

#[test]
fn extension_of_dot_in_directory_only() {
    assert_eq!(extension_of("/a.b/file"), None);
}

#[test]
fn join_path_inserts_separator() {
    assert_eq!(join_path("/out/2024/07", "a.jpg"), "/out/2024/07/a.jpg");
}
