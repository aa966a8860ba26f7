use fast_file::config::Config;
use fast_file::filter::{exceeds_size_ceiling, is_hidden, should_visit, warrants_warning};

#[test]
fn a_cancelled_search_admits_nothing() {
    let config = Config::default();
    assert!(should_visit(Some("main.rs"), Some(1), false, false, &config));
    assert!(!should_visit(Some("main.rs"), Some(1), true, false, &config));
    assert!(!should_visit(None, None, true, true, &config));
}

#[test]
fn hidden_names_are_left_out_unless_asked_for() {
    let mut config = Config::default();
    config.ignore_directories = Vec::new();
    config.ignore_file_patterns = Vec::new();
    assert!(!should_visit(Some(".env"), None, false, false, &config));
    assert!(should_visit(Some(".env"), None, false, true, &config));
    config.include_hidden = true;
    assert!(should_visit(Some(".env"), None, false, false, &config));
}

#[test]
fn a_single_dot_is_not_hidden() {
    assert!(!is_hidden("."));
    assert!(!is_hidden(""));
    assert!(is_hidden(".."));
    assert!(is_hidden(".a"));
    assert!(!is_hidden("a.b"));
    let config = Config::default();
    assert!(should_visit(Some("."), None, false, false, &config));
    assert!(!should_visit(Some(".."), None, false, false, &config));
}

#[test]
fn ignored_names_are_left_out_even_with_hidden_entries() {
    let config = Config::default();
    assert!(!should_visit(Some("node_modules"), None, false, true, &config));
    assert!(!should_visit(Some(".git"), None, false, true, &config));
    assert!(!should_visit(Some("debug.log"), Some(10), false, true, &config));
    assert!(should_visit(Some("src"), None, false, false, &config));
}

#[test]
fn files_above_the_ceiling_are_left_out() {
    let config = Config::default();
    let ceiling = 10 * 1024 * 1024;
    assert!(should_visit(Some("big.bin"), Some(ceiling), false, false, &config));
    assert!(!should_visit(Some("big.bin"), Some(ceiling + 1), false, false, &config));
    assert!(should_visit(Some("big"), None, false, false, &config));
    assert!(!exceeds_size_ceiling(ceiling, &config));
    assert!(exceeds_size_ceiling(ceiling + 1, &config));
}

#[test]
fn a_ceiling_beyond_the_largest_size_leaves_nothing_out() {
    let mut config = Config::default();
    config.max_file_size_mb = u64::MAX;
    assert!(!exceeds_size_ceiling(u64::MAX, &config));
    config.max_file_size_mb = 0;
    assert!(exceeds_size_ceiling(1, &config));
    assert!(!exceeds_size_ceiling(0, &config));
}

#[test]
fn an_entry_without_a_readable_name_is_held_to_the_size_only() {
    let config = Config::default();
    assert!(should_visit(None, Some(5), false, false, &config));
    assert!(!should_visit(None, Some(u64::MAX), false, false, &config));
}

#[test]
fn denied_permissions_are_passed_over_in_silence() {
    assert!(!warrants_warning("IO error for operation on /root: Permission denied (os error 13)"));
    assert!(warrants_warning("File system loop found: a points to an ancestor b"));
    assert!(warrants_warning("permission denied"));
    assert!(warrants_warning(""));
}
