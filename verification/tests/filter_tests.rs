use vgrep::filter::{FileFilter, GlobPattern};

#[test]
fn filter_test_filter_extension() {
    let filter = FileFilter::new(vec!["rs".to_string(), "toml".to_string()], vec![], vec![]);

    assert!(filter.matches("src/main.rs"));
    assert!(filter.matches("Cargo.toml"));
    assert!(!filter.matches("README.md"));
    assert!(!filter.matches("src/main"));
}

#[test]
fn filter_test_filter_include_glob() {
    let filter = FileFilter::new(vec![], vec!["src/**/*.rs".to_string()], vec![]);

    assert!(filter.matches("src/main.rs"));
    assert!(filter.matches("src/core/mod.rs"));
    assert!(!filter.matches("tests/main.rs"));
    assert!(!filter.matches("README.md"));
}

#[test]
fn filter_test_filter_exclude_glob() {
    let filter = FileFilter::new(
        vec![],
        vec![],
        vec!["target/**".to_string(), "node_modules/**".to_string()],
    );

    assert!(filter.matches("src/main.rs"));
    assert!(!filter.matches("target/debug/vgrep"));
    assert!(!filter.matches("node_modules/react/index.js"));
}

#[test]
fn filter_test_filter_combined() {
    let filter = FileFilter::new(
        vec!["rs".to_string()],
        vec!["src/**".to_string()],
        vec!["**/*_test.rs".to_string()],
    );

    assert!(filter.matches("src/main.rs"));
    assert!(!filter.matches("src/main.py"));
    assert!(!filter.matches("tests/main.rs"));
    assert!(!filter.matches("src/my_test.rs"));
}

#[test]
fn filter_test_test_filter_extension() {
    let filter = FileFilter::new(vec!["rs".to_string(), "toml".to_string()], vec![], vec![]);

    assert!(filter.matches("src/main.rs"));
    assert!(filter.matches("Cargo.toml"));
    assert!(!filter.matches("README.md"));
    assert!(!filter.matches("src/main"));
}

#[test]
fn filter_test_test_filter_include_glob() {
    let filter = FileFilter::new(vec![], vec!["src/**/*.rs".to_string()], vec![]);

    assert!(filter.matches("src/main.rs"));
    assert!(filter.matches("src/core/mod.rs"));
    assert!(!filter.matches("tests/main.rs"));
    assert!(!filter.matches("README.md"));
}

#[test]
fn filter_test_test_filter_exclude_glob() {
    let filter = FileFilter::new(
        vec![],
        vec![],
        vec!["target/**".to_string(), "node_modules/**".to_string()],
    );

    assert!(filter.matches("src/main.rs"));
    assert!(!filter.matches("target/debug/vgrep"));
    assert!(!filter.matches("node_modules/react/index.js"));
}

#[test]
fn filter_test_test_filter_combined() {
    let filter = FileFilter::new(
        vec!["rs".to_string()],
        vec!["src/**".to_string()],
        vec!["**/*_test.rs".to_string()],
    );

    assert!(filter.matches("src/main.rs"));
    assert!(!filter.matches("src/main.py"));
    assert!(!filter.matches("tests/main.rs"));
    assert!(!filter.matches("src/unit_test.rs"));
}

#[test]
fn default_filter_keeps_everything() {
    let filter = FileFilter::default();
    assert!(filter.matches("src/main.rs"));
    assert!(filter.matches(""));
    assert!(filter.matches("/etc/passwd"));
}

#[test]
fn extensions_ignore_ascii_case() {
    let filter = FileFilter::new(vec!["RS".to_string()], vec![], vec![]);
    assert!(filter.matches("src/Main.rs"));
    assert!(filter.matches("lib.Rs"));
    assert!(!filter.matches(".rs"));
    assert!(!filter.matches("archive.rs.gz"));
}

#[test]
fn invalid_patterns_are_left_out() {
    assert!(GlobPattern::new("a***").is_none());
    assert!(GlobPattern::new("[").is_none());
    let p = GlobPattern::new("*.md").unwrap();
    assert_eq!(p.as_str(), "*.md");
    assert!(p.matches_path("README.md"));
    assert!(!p.matches_path("main.rs"));
    let filter = FileFilter::new(vec![], vec!["a***".to_string(), "*.md".to_string()], vec![]);
    assert_eq!(filter.include_globs.len(), 1);
    assert_eq!(filter.include_globs[0].as_str(), "*.md");
    assert!(filter.matches("README.md"));
    assert!(!filter.matches("main.rs"));
}

#[test]
fn exclusion_wins_over_inclusion() {
    let filter = FileFilter::new(vec![], vec!["**".to_string()], vec!["secret/**".to_string()]);
    assert!(filter.matches("src/lib.rs"));
    assert!(!filter.matches("secret/key.pem"));
}
