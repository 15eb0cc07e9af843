//! Which sessions are left out, seen from the list.

use ccsessions_core::ignore::{IgnorePattern, IgnoreRules};
use ccsessions_core::session::{Session, SessionState};

fn home() -> &'static str {
    "/Users/tester"
}

fn session(cwd: &str) -> Session {
    Session {
        id: "s1".into(),
        name: Session::name_from_cwd(cwd),
        title: None,
        cwd: cwd.into(),
        state: SessionState::Working,
        since: 0,
        updated: 0,
        agents: vec![],
        main_stopped: false,
        error_kind: None,
        pid: None,
    }
}

fn hits(pattern: &str, cwd: &str) -> bool {
    IgnorePattern::parse_in(pattern, home())
        .unwrap_or_else(|e| panic!("{pattern:?} が読めない: {e}"))
        .matches(&session(cwd))
}

#[test]
fn an_absolute_path_matches_itself_and_everything_below() {
    assert!(hits("/a/foo", "/a/foo"));
    assert!(hits("/a/foo", "/a/foo/b/c"));
}

#[test]
fn an_absolute_path_does_not_match_a_longer_sibling_name() {
    assert!(!hits("/a/foo", "/a/foobar"));
    assert!(!hits("/a/foo", "/a/fo"));
    assert!(!hits("/a/foo", "/b/a/foo"));
}

#[test]
fn a_trailing_slash_does_not_change_an_absolute_path() {
    assert!(hits("/a/foo/", "/a/foo"));
    assert!(hits("/a/foo", "/a/foo/"));
}

#[test]
fn ignore_a_tilde_expands_to_the_home_directory() {
    assert!(hits("~/work/tmp", "/Users/tester/work/tmp/x"));
    assert!(!hits("~/work/tmp", "/other/work/tmp"));
}

#[test]
fn ignore_a_bare_tilde_matches_everything_under_home() {
    assert!(hits("~", "/Users/tester/anything"));
    assert!(!hits("~", "/opt/elsewhere"));
}

#[test]
fn ignore_a_named_tilde_is_refused() {
    let err = IgnorePattern::parse_in("~alice/work", home()).unwrap_err();
    assert!(err.contains('~'), "理由が分からない: {err}");
}

#[test]
fn ignore_a_home_with_a_trailing_slash_does_not_double_the_separator() {
    let p = IgnorePattern::parse_in("~/work", "/Users/tester/").unwrap();
    assert!(p.matches(&session("/Users/tester/work/x")));
}

#[test]
fn ignore_a_double_star_crosses_separators_in_both_directions() {
    assert!(hits("**/cron-jobs/**", "/Users/x/cron-jobs/a"));
    assert!(hits("**/cron-jobs/**", "/Users/x/cron-jobs/a/b/c"));
}

#[test]
fn ignore_a_trailing_double_star_also_matches_the_directory_itself() {
    assert!(hits("**/cron-jobs/**", "/Users/x/cron-jobs"));
}

#[test]
fn ignore_a_single_star_does_not_cross_separators() {
    assert!(hits("~/work/tmp/*", "/Users/tester/work/tmp/a"));
    assert!(!hits("~/work/tmp/*", "/Users/tester/work/tmp/a/b"));
    assert!(!hits("~/work/tmp/*", "/Users/tester/work/tmp"));
}

#[test]
fn ignore_a_star_matches_a_whole_segment() {
    assert!(hits("/a/*/tmp", "/a/b/tmp"));
    assert!(!hits("/a/*/tmp", "/a/b/c/tmp"));
    assert!(!hits("/a/*/tmp", "/a/tmp"));
}

#[test]
fn ignore_a_star_in_the_path_itself_does_not_confuse_the_matcher() {
    assert!(hits("/a/x*", "/a/x*y"));
    assert!(hits("/a/x*", "/a/x*"));
    assert!(hits("/a/*", "/a/*"));
    assert!(!hits("/a/x*", "/a/y*z"));
}

#[test]
fn ignore_a_question_mark_matches_exactly_one_character() {
    assert!(hits("/a/?", "/a/b"));
    assert!(!hits("/a/?", "/a/bc"));
    assert!(!hits("/a/?", "/a"));
}

#[test]
fn ignore_an_empty_pattern_is_refused() {
    for src in ["", "   ", "\t", "name:", "title:   ", "cwd:"] {
        assert!(
            IgnorePattern::parse_in(src, home()).is_err(),
            "{src:?} が通ってしまった"
        );
    }
}

#[test]
fn ignore_a_pattern_containing_a_control_character_is_refused() {
    for c in ['\u{1B}', '\u{00}', '\u{0B}', '\u{7F}', '\n'] {
        let src = format!("/tmp/a{c}b");
        let err = IgnorePattern::parse_in(&src, home())
            .expect_err(&format!("U+{:04X} が通ってしまった", c as u32));
        assert!(err.contains("control character"), "理由が分からない: {err}");
    }
}

#[test]
fn ignore_a_dot_segment_is_refused_instead_of_silently_never_matching() {
    for src in ["./cron-jobs", "../x", "/a/./b", "~/x/../y"] {
        assert!(
            IgnorePattern::parse_in(src, home()).is_err(),
            "{src:?} が通ってしまった（黙って何にも当たらなくなる）"
        );
    }
}

#[test]
fn ignore_a_doubled_separator_in_the_cwd_does_not_break_a_prefix() {
    assert!(hits("/a/foo", "/a//foo/b"));
    assert!(hits("/a/foo", "//a/foo"));
    assert!(!hits("/a/foo", "/a//foobar"));
}

#[test]
fn ignore_a_tilde_still_works_when_home_is_the_root() {
    let p = IgnorePattern::parse_in("~", "/").unwrap();
    assert!(p.matches(&session("/anywhere/at/all")));
}

#[test]
fn ignore_surrounding_whitespace_is_trimmed() {
    let p = IgnorePattern::parse_in("  /a/foo  ", home()).unwrap();
    assert_eq!(p.as_str(), "/a/foo");
    assert!(p.matches(&session("/a/foo/b")));
}

#[test]
fn ignore_any_matching_pattern_hides_the_session() {
    let (rules, errors) =
        IgnoreRules::parse_lines_in(&["/nope", "**/cron-jobs/**", "/also-nope"], home());
    assert!(errors.is_empty());
    assert_eq!(rules.len(), 3);
    assert!(rules.matches(&session("/Users/x/cron-jobs/a")));
    assert!(!rules.matches(&session("/Users/x/proj")));
}

#[test]
fn ignore_a_broken_pattern_is_dropped_and_the_rest_still_applies() {
    let (rules, errors) = IgnoreRules::parse_lines_in(&["~alice/x", "/a/foo", ""], home());
    assert_eq!(errors.len(), 2, "壊れた 2 件の理由が返ること: {errors:?}");
    assert_eq!(rules.len(), 1);
    assert!(rules.matches(&session("/a/foo")));
}

#[test]
fn ignore_an_empty_rule_set_matches_nothing() {
    let rules = IgnoreRules::default();
    assert!(rules.is_empty());
    assert!(!rules.matches(&session("/anywhere/at/all")));
}

#[test]
fn ignore_a_pathological_glob_still_returns_quickly() {
    let start = std::time::Instant::now();
    let p = IgnorePattern::parse_in("/a*a*a*a*a*a*a*a*a*b", home()).unwrap();
    assert!(!p.matches(&session(&format!("/{}", "a".repeat(64)))));
    let deep = IgnorePattern::parse_in("**/a/**/a/**/a/**/a/**/b", home()).unwrap();
    let long_path: String = std::iter::repeat_n("/a", 64).collect();
    assert!(!deep.matches(&session(&long_path)));
    assert!(
        start.elapsed() < std::time::Duration::from_millis(500),
        "glob の照合に {:?} かかった（バックトラックが爆発している）",
        start.elapsed()
    );
}
