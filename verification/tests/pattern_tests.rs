use friday::pattern::{glob_to_regex, Matcher};

fn matches(glob: &str, name: &str) -> bool {
    Matcher::compile(glob).expect("glob compiles").matches(name)
}

#[test]
fn star_becomes_dot_star_and_the_result_is_anchored() {
    assert_eq!(glob_to_regex("*.log"), "^.*\\.log$");
}

#[test]
fn empty_glob_is_the_empty_anchored_expression() {
    assert_eq!(glob_to_regex(""), "^$");
}

#[test]
fn every_metacharacter_is_escaped() {
    assert_eq!(
        glob_to_regex(".()+|[]^$?{}\\"),
        "^\\.\\(\\)\\+\\|\\[\\]\\^\\$\\?\\{\\}\\\\$"
    );
}

#[test]
fn other_characters_are_kept() {
    assert_eq!(glob_to_regex("a-b_c d#e"), "^a-b_c d#e$");
}

#[test]
fn star_log_matches_run_log() {
    assert!(matches("*.log", "run.log"));
}

#[test]
fn star_log_does_not_match_a_longer_name() {
    assert!(!matches("*.log", "run.log.bak"));
}

#[test]
fn dot_is_literal() {
    assert!(!matches("a.b", "aXb"));
    assert!(matches("a.b", "a.b"));
}

#[test]
fn star_matches_the_empty_run() {
    assert!(matches("*.log", ".log"));
    assert!(matches("*", ""));
}

#[test]
fn the_whole_name_must_match() {
    assert!(!matches("run", "rerun"));
    assert!(!matches("run", "runner"));
    assert!(matches("run", "run"));
}

#[test]
fn question_mark_is_literal() {
    assert!(matches("a?", "a?"));
    assert!(!matches("a?", "ab"));
    assert!(!matches("a?", "a"));
}

#[test]
fn brackets_and_braces_are_literal() {
    assert!(matches("[ab].txt", "[ab].txt"));
    assert!(!matches("[ab].txt", "a.txt"));
    assert!(matches("x{1}", "x{1}"));
    assert!(!matches("x{1}", "x"));
}

#[test]
fn double_star_is_two_stars() {
    assert!(matches("**.rs", "lib.rs"));
    assert!(matches("a*b*c", "abc"));
    assert!(matches("a*b*c", "aXXbYYc"));
    assert!(!matches("a*b*c", "acb"));
}

#[test]
fn empty_glob_matches_only_the_empty_name() {
    assert!(matches("", ""));
    assert!(!matches("", "a"));
}

#[test]
fn matcher_keeps_its_glob() {
    let m = Matcher::compile("*.tar.gz").expect("glob compiles");
    assert_eq!(m.pattern(), "*.tar.gz");
    assert!(m.matches("a.tar.gz"));
    assert!(!m.matches("a.tar"));
}

#[test]
fn a_glob_too_large_for_the_engine_is_refused() {
    let glob = "*".repeat(400_000);
    assert!(Matcher::compile(&glob).is_none());
}

#[test]
fn a_long_literal_glob_compiles() {
    let glob = "a".repeat(1_000);
    let m = Matcher::compile(&glob).expect("glob compiles");
    assert!(m.matches(&glob));
    assert!(!m.matches(&glob[1..]));
}
