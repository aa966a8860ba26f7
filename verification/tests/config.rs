use fast_file::config::{effective_thread_count, find_last, Config};
use fast_file::text::same_chars;

#[test]
fn default_settings() {
    let config = Config::default();
    assert_eq!(
        config.ignore_directories,
        vec![
            "node_modules", "target", "build", ".git", "AppData", "Windows", "System32", "Cache",
            "Temp", ".cache"
        ]
    );
    assert_eq!(
        config.ignore_file_patterns,
        vec!["*.tmp", "*.log", "*.bak", "*.swp", "thumbs.db", ".DS_Store"]
    );
    assert_eq!(config.max_memory_mb, 1024);
    assert_eq!(config.max_files_per_search, 50000);
    assert_eq!(config.max_parallel_threads, None);
    assert_eq!(config.max_file_size_mb, 10);
    assert!(!config.include_hidden);
    assert!(!config.follow_symlinks);
    assert_eq!(
        config.content_search_extensions,
        vec![
            ".rs", ".py", ".js", ".ts", ".java", ".cpp", ".c", ".h", ".txt", ".md", ".json",
            ".yaml", ".yml", ".toml", ".cfg"
        ]
    );
    assert_eq!(config.default_search_options.match_mode, "fuzzy");
    assert!(!config.default_search_options.case_sensitive);
    assert!(config.output_options.show_details);
    assert_eq!(config.output_options.color_theme, "default");
    assert_eq!(config.output_options.max_content_matches, 3);
    assert_eq!(config.output_options.max_line_length, 100);
}

#[test]
fn directories_are_ignored_by_fragment() {
    let config = Config::default();
    assert!(config.should_ignore_directory("node_modules"));
    assert!(config.should_ignore_directory("my_target_dir"));
    assert!(config.should_ignore_directory(".git"));
    assert!(config.should_ignore_directory("Templates"));
    assert!(!config.should_ignore_directory("src"));
    assert!(!config.should_ignore_directory("TARGET"));
    assert!(!config.should_ignore_directory(""));
}

#[test]
fn an_empty_fragment_ignores_everything() {
    let mut config = Config::default();
    config.ignore_directories = vec![String::new()];
    assert!(config.should_ignore_directory("src"));
    assert!(config.should_ignore_directory(""));
    config.ignore_directories = Vec::new();
    assert!(!config.should_ignore_directory("node_modules"));
}

#[test]
fn files_are_ignored_by_suffix_or_fragment() {
    let config = Config::default();
    assert!(config.should_ignore_file("a.tmp"));
    assert!(config.should_ignore_file("debug.log"));
    assert!(config.should_ignore_file("x.swp"));
    assert!(config.should_ignore_file("old_thumbs.db.txt"));
    assert!(config.should_ignore_file(".DS_Store"));
    assert!(!config.should_ignore_file("notes.txt"));
    assert!(!config.should_ignore_file("a.tmp.rs"));
}

#[test]
fn a_star_pattern_tests_the_end_without_the_dot() {
    let mut config = Config::default();
    config.ignore_file_patterns = vec!["*.log".to_string()];
    assert!(config.should_ignore_file("catalog"));
    assert!(config.should_ignore_file("log"));
    assert!(!config.should_ignore_file("log.txt"));
    config.ignore_file_patterns = vec!["*.".to_string()];
    assert!(config.should_ignore_file("anything"));
    config.ignore_file_patterns = vec!["*".to_string()];
    assert!(config.should_ignore_file("a*b"));
    assert!(!config.should_ignore_file("ab"));
}

#[test]
fn content_is_searched_by_extension() {
    let config = Config::default();
    assert!(config.is_content_searchable("main.rs"));
    assert!(config.is_content_searchable("notes.md"));
    assert!(config.is_content_searchable("archive.tar.json"));
    assert!(!config.is_content_searchable("debug.log"));
    assert!(!config.is_content_searchable("archive.tar.gz"));
    assert!(!config.is_content_searchable("main.RS"));
    assert!(!config.is_content_searchable("rs"));
    assert!(!config.is_content_searchable("main."));
}

#[test]
fn names_without_extension_are_searched_by_name() {
    let config = Config::default();
    assert!(config.is_content_searchable("README"));
    assert!(config.is_content_searchable("Makefile"));
    assert!(config.is_content_searchable("Dockerfile"));
    assert!(config.is_content_searchable("LICENSE"));
    assert!(!config.is_content_searchable("readme"));
    assert!(!config.is_content_searchable("NOTICE"));
    assert!(!config.is_content_searchable(""));
}

#[test]
fn a_leading_dot_starts_no_extension() {
    let config = Config::default();
    assert!(!config.is_content_searchable(".rs"));
    assert!(!config.is_content_searchable(".."));
    assert!(!config.is_content_searchable("."));
    assert!(config.is_content_searchable(".hidden.rs"));
    assert!(config.is_content_searchable("..rs"));
}

#[test]
fn thread_count_by_precedence() {
    assert_eq!(effective_thread_count(Some(3), Some(5), true, 8), 3);
    assert_eq!(effective_thread_count(None, Some(5), true, 8), 5);
    assert_eq!(effective_thread_count(None, None, true, 8), 16);
    assert_eq!(effective_thread_count(None, None, false, 8), 8);
    assert_eq!(effective_thread_count(Some(0), None, false, 8), 0);
    assert_eq!(effective_thread_count(None, None, true, usize::MAX), usize::MAX);
    assert_eq!(effective_thread_count(None, None, true, usize::MAX / 2), usize::MAX - 1);
}

#[test]
fn thread_count_on_this_machine() {
    let mut config = Config::default();
    assert_eq!(config.get_effective_thread_count(Some(3), true), 3);
    let cores = config.get_effective_thread_count(None, false);
    assert!(cores >= 1);
    assert_eq!(config.get_effective_thread_count(None, true), cores * 2);
    config.max_parallel_threads = Some(7);
    assert_eq!(config.get_effective_thread_count(None, true), 7);
    assert_eq!(config.get_effective_thread_count(Some(2), false), 2);
}

#[test]
fn find_last_finds_the_last() {
    let text: Vec<char> = "a.b.c".chars().collect();
    assert_eq!(find_last(&text, '.'), Some(3));
    assert_eq!(find_last(&text, 'a'), Some(0));
    assert_eq!(find_last(&text, 'x'), None);
    assert_eq!(find_last(&Vec::new(), '.'), None);
}

#[test]
fn same_chars_compares_characters() {
    let a: Vec<char> = "abc".chars().collect();
    let b: Vec<char> = "abd".chars().collect();
    assert!(same_chars(&a, &a.clone()));
    assert!(!same_chars(&a, &b));
    assert!(!same_chars(&a, &Vec::new()));
    assert!(same_chars(&Vec::new(), &Vec::new()));
}
