use mecla::config::{
    cfg_log_all, cfg_log_conflict, default_extensions, normalize_exts, Args, Config, ConfigError,
    LogMode,
};

fn args(input: &str, output: &str) -> Args {
    Args {
        input: input.to_string(),
        output: output.to_string(),
        dry_run: false,
        log: LogMode::Conflicts,
        exts: Vec::new(),
    }
}

#[test]
fn missing_paths_are_refused() {
    assert_eq!(
        Config::from_args(args("", "/out")).err(),
        Some(ConfigError::MissingPaths)
    );
    assert_eq!(
        Config::from_args(args("/in", "")).err(),
        Some(ConfigError::MissingPaths)
    );
}

#[test]
fn output_inside_input_is_refused() {
    assert_eq!(
        Config::from_args(args("/data", "/data/out")).err(),
        Some(ConfigError::OutputInsideInput)
    );
    assert_eq!(
        Config::from_args(args("/data", "/data")).err(),
        Some(ConfigError::OutputInsideInput)
    );
}

#[test]
fn sibling_output_with_shared_prefix_is_accepted() {
    assert!(Config::from_args(args("/data", "/database")).is_ok());
}

#[test]
fn defaults_apply_when_no_extension_given() {
    let c = Config::from_args(args("/in", "/out")).unwrap();
    let expected: Vec<String> = vec![
        "jpg", "jpeg", "png", "heic", "gif", "tif", "tiff", "mp4", "mov", "m4v", "avi", "mkv",
        "3gp", "mpo",
    ]
    .into_iter()
    .map(|s| s.to_string())
    .collect();
    assert_eq!(c.exts, expected);
    assert_eq!(default_extensions(), expected);
}

#[test]
fn given_extensions_are_normalized() {
    let mut a = args("/in", "/out");
    a.exts = vec![
        " .JPG ".to_string(),
        "..Mp4".to_string(),
        "  ".to_string(),
        ".".to_string(),
        "heic".to_string(),
    ];
    let c = Config::from_args(a).unwrap();
    assert_eq!(
        c.exts,
        vec!["jpg".to_string(), "mp4".to_string(), "heic".to_string()]
    );
}

#[test]
fn normalize_drops_empties() {
    let r = normalize_exts(&vec!["...".to_string(), "".to_string()]);
    assert!(r.is_empty());
}

#[test]
fn config_carries_fields_through() {
    let mut a = args("/in", "/out");
    a.dry_run = true;
    a.log = LogMode::All;
    let c = Config::from_args(a).unwrap();
    assert!(c.dry_run);
    assert_eq!(c.log, LogMode::All);
    assert_eq!(c.input, "/in");
    assert_eq!(c.output, "/out");
}

#[test]
fn verbosity_gates() {
    assert!(cfg_log_all(LogMode::All));
    assert!(!cfg_log_all(LogMode::Conflicts));
    assert!(!cfg_log_all(LogMode::Errors));
    assert!(cfg_log_conflict(LogMode::All));
    assert!(cfg_log_conflict(LogMode::Conflicts));
    assert!(!cfg_log_conflict(LogMode::Errors));
}
