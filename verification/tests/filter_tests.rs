use directory_spider::filter::FilterSpec;

fn strings(v: &[&str]) -> Vec<String> {
    v.iter().map(|s| s.to_string()).collect()
}

#[test]
fn empty_sets_keep_everything() {
    let f = FilterSpec::new(Vec::new(), Vec::new());
    assert!(f.keep(&Some("txt".to_string())));
    assert!(f.keep(&None));
}

#[test]
fn included_set_restricts() {
    let f = FilterSpec::new(strings(&["txt"]), Vec::new());
    assert!(f.keep(&Some("txt".to_string())));
    assert!(!f.keep(&Some("log".to_string())));
    assert!(!f.keep(&None));
}

#[test]
fn excluded_set_drops() {
    let f = FilterSpec::new(Vec::new(), strings(&["iso"]));
    assert!(!f.keep(&Some("iso".to_string())));
    assert!(f.keep(&Some("txt".to_string())));
    assert!(f.keep(&None));
}

#[test]
fn excluded_wins_over_included() {
    let f = FilterSpec::new(strings(&["txt"]), strings(&["txt"]));
    assert!(!f.keep(&Some("txt".to_string())));
}

#[test]
fn keep_is_repeatable() {
    let f = FilterSpec::new(strings(&["txt", "exe"]), strings(&["iso"]));
    let ext = Some("exe".to_string());
    let first = f.keep(&ext);
    for _ in 0..10 {
        assert_eq!(f.keep(&ext), first);
    }
    assert!(first);
}

#[test]
fn comparison_is_case_sensitive() {
    let f = FilterSpec::new(strings(&["txt"]), Vec::new());
    assert!(!f.keep(&Some("TXT".to_string())));
}
