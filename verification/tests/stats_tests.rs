use mecla::Stats;

#[test]
fn stats_start_at_zero() {
    let s = Stats::new();
    assert_eq!(s.processed, 0);
    assert_eq!(s.duplicates, 0);
    assert_eq!(s.errors, 0);
    assert_eq!(s.renamed, 0);
}

#[test]
fn default_stats_are_zero() {
    let s = Stats::default();
    assert_eq!(s.processed, 0);
    assert_eq!(s.duplicates, 0);
    assert_eq!(s.errors, 0);
    assert_eq!(s.renamed, 0);
}

#[test]
fn stats_count_each_outcome_independently() {
    let mut s = Stats::new();
    s.inc_processed();
    s.inc_processed();
    s.inc_duplicates();
    s.inc_errors();
    s.inc_renamed();
    s.inc_renamed();
    s.inc_renamed();
    assert_eq!(s.processed, 2);
    assert_eq!(s.duplicates, 1);
    assert_eq!(s.errors, 1);
    assert_eq!(s.renamed, 3);
}
