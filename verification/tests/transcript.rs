//! What a transcript tells.

use ccsessions_core::transcript::{
    clean_title, complete_lines, last_turn_errored, session_title, tail_lines, tail_of, Tail, TitleLine,
    MAX_TITLE_CHARS, TAIL_BYTES, TITLE_TAIL_BYTES,
};
use serde_json::Value;

fn tail(content: &str, max_bytes: u64) -> Option<String> {
    let tail = tail_of(content.len() as u64, max_bytes)?;
    let bytes = &content.as_bytes()[tail.position as usize..];
    tail_lines(&bytes.to_vec(), tail.whole)
}

fn text(v: &Value, key: &str) -> Option<String> {
    v.get(key)?.as_str().map(String::from)
}

fn errored(content: &str) -> bool {
    let kind_of = |line: &String| {
        let v: Value = serde_json::from_str(line).ok()?;
        text(&v, "type")
    };
    match tail(content, TAIL_BYTES) {
        Some(lines) => last_turn_errored(&lines, kind_of),
        None => false,
    }
}

fn title(content: &str, session_id: &str) -> Option<String> {
    let parse = |line: &String| {
        let v: Value = serde_json::from_str(line).ok()?;
        Some(TitleLine {
            kind: text(&v, "type"),
            session_id: text(&v, "sessionId"),
            custom_title: text(&v, "customTitle"),
            ai_title: text(&v, "aiTitle"),
        })
    };
    session_title(&tail(content, TITLE_TAIL_BYTES)?, session_id, parse)
}

#[test]
fn normal_completion_returns_false() {
    let content = "{\"type\":\"user\",\"message\":\"hi\"}\n\
         {\"type\":\"assistant\",\"message\":{\"content\":\"done\"}}\n";
    let p = content;
    assert!(!errored(p));
}

#[test]
fn api_error_message_returns_true() {
    let content = "{\"type\":\"user\"}\n\
         {\"type\":\"assistant\",\"isApiErrorMessage\":true}\n";
    let p = content;
    assert!(errored(p));
}

#[test]
fn is_error_field_returns_true() {
    let content = "{\"type\":\"assistant\",\"is_error\":true}\n";
    let p = content;
    assert!(errored(p));
}

#[test]
fn empty_file_returns_false() {
    let p = "";
    assert!(!errored(p));
}

#[test]
fn missing_file_returns_false() {
    let p = "";
    assert!(!errored(p));
}

#[test]
fn skips_non_assistant_trailing_lines() {
    let content = "{\"type\":\"assistant\",\"isApiErrorMessage\":true}\n\
         {\"type\":\"user\",\"message\":\"ok, retrying\"}\n";
    let p = content;
    assert!(errored(p));
}

#[test]
fn large_file_reads_tail_only() {
    let mut content = String::new();
    for i in 0..3000 {
        content.push_str(&format!(
            "{{\"type\":\"user\",\"message\":\"filler line number {i} padding padding\"}}\n"
        ));
    }
    assert!(
        content.len() as u64 > TAIL_BYTES,
        "fixture must exceed TAIL_BYTES to exercise the tail-read path"
    );
    content.push_str("{\"type\":\"assistant\",\"isApiErrorMessage\":true}\n");
    let p = &content;
    assert!(
        errored(p),
        "must detect error in tail of large file"
    );
}

#[test]
fn large_file_normal_completion_returns_false() {
    let mut content = String::new();
    for i in 0..3000 {
        content.push_str(&format!(
            "{{\"type\":\"user\",\"message\":\"filler line number {i} padding padding\"}}\n"
        ));
    }
    content.push_str("{\"type\":\"assistant\",\"message\":\"all good\"}\n");
    let p = &content;
    assert!(!errored(p));
}

fn ai_title_line(title: &str, sid: &str) -> String {
    format!("{{\"type\":\"ai-title\",\"aiTitle\":\"{title}\",\"sessionId\":\"{sid}\"}}\n")
}

fn custom_title_line(title: &str, sid: &str) -> String {
    format!(
        "{{\"type\":\"custom-title\",\"customTitle\":\"{title}\",\"sessionId\":\"{sid}\"}}\n"
    )
}

#[test]
fn a_transcript_without_any_title_line_has_no_title() {
    let p = "{\"type\":\"user\",\"message\":\"hi\"}\n";
    assert_eq!(title(p, "s1"), None);
}

#[test]
fn a_missing_transcript_has_no_title() {
    let p = "";
    assert_eq!(title(p, "s1"), None);
}

#[test]
fn the_ai_title_is_read_from_the_transcript() {
    let content = format!(
        "{{\"type\":\"user\"}}\n{}",
        ai_title_line("同一ディレクトリでの複数セッションの区別", "s1")
    );
    let p = &content;
    assert_eq!(
        title(p, "s1").as_deref(),
        Some("同一ディレクトリでの複数セッションの区別")
    );
}

#[test]
fn the_latest_ai_title_wins_over_earlier_ones() {
    let content = format!(
        "{}{}",
        ai_title_line("old subject", "s1"),
        ai_title_line("new subject", "s1")
    );
    let p = &content;
    assert_eq!(title(p, "s1").as_deref(), Some("new subject"));
}

#[test]
fn a_user_set_title_outranks_a_newer_generated_one() {
    let content = format!(
        "{}{}",
        custom_title_line("my name for it", "s1"),
        ai_title_line("generated later", "s1")
    );
    let p = &content;
    assert_eq!(title(p, "s1").as_deref(), Some("my name for it"));
}

#[test]
fn a_title_belonging_to_another_session_is_ignored() {
    let content = format!(
        "{}{}",
        ai_title_line("mine", "s1"),
        ai_title_line("someone elses", "s2")
    );
    let p = &content;
    assert_eq!(title(p, "s1").as_deref(), Some("mine"));
}

#[test]
fn an_empty_title_is_treated_as_absent() {
    let content = format!(
        "{}{}",
        ai_title_line("", "s1"),
        custom_title_line("   ", "s1")
    );
    let p = &content;
    assert_eq!(title(p, "s1"), None);
}

#[test]
fn newlines_inside_a_title_are_flattened() {
    let content =
        "{\"type\":\"ai-title\",\"aiTitle\":\"first\\nsecond\",\"sessionId\":\"s1\"}\n";
    let p = content;
    assert_eq!(title(p, "s1").as_deref(), Some("first second"));
}

#[test]
fn an_overlong_title_is_capped() {
    let long = "あ".repeat(500);
    let p = &ai_title_line(&long, "s1");
    let title = title(p, "s1").unwrap();
    assert_eq!(title.chars().count(), MAX_TITLE_CHARS);
}

#[test]
fn a_broken_line_does_not_hide_an_earlier_title() {
    let content = format!(
        "{}{}",
        ai_title_line("still readable", "s1"),
        "{\"type\":\"ai-title\", broken json \"sessionId\":\"s1\"}\n"
    );
    let p = &content;
    assert_eq!(title(p, "s1").as_deref(), Some("still readable"));
}

#[test]
fn a_title_far_beyond_the_tail_window_is_given_up_on() {
    let mut content = ai_title_line("too far back", "s1");
    for i in 0..8000 {
        content.push_str(&format!(
            "{{\"type\":\"user\",\"message\":\"filler line number {i} padding padding padding padding\"}}\n"
        ));
    }
    assert!(
        content.len() as u64 > TITLE_TAIL_BYTES,
        "fixture must exceed TITLE_TAIL_BYTES to exercise the tail-read path"
    );
    let p = &content;
    assert_eq!(title(p, "s1"), None);
}

#[test]
fn a_title_near_the_end_of_a_large_transcript_is_found() {
    let mut content = String::new();
    for i in 0..8000 {
        content.push_str(&format!(
            "{{\"type\":\"user\",\"message\":\"filler line number {i} padding padding padding padding\"}}\n"
        ));
    }
    content.push_str(&ai_title_line("recent enough", "s1"));
    let p = &content;
    assert_eq!(title(p, "s1").as_deref(), Some("recent enough"));
}

#[test]
fn only_the_end_of_a_long_file_is_read() {
    assert_eq!(tail_of(0, 10), None);
    assert_eq!(tail_of(10, 10), Some(Tail { position: 0, whole: true }));
    assert_eq!(tail_of(11, 10), Some(Tail { position: 1, whole: false }));
}

#[test]
fn a_line_that_may_be_cut_is_left_out() {
    assert_eq!(complete_lines("ab\ncd\n", true).as_deref(), Some("ab\ncd\n"));
    assert_eq!(complete_lines("ab\ncd\n", false).as_deref(), Some("cd\n"));
    assert_eq!(complete_lines("ab", false), None);
}

#[test]
fn only_the_last_entry_of_the_assistant_counts() {
    let content = "{\"type\":\"assistant\",\"is_error\":true}\n\
         {\"type\":\"assistant\"}\n   \n";
    assert!(!errored(content));
}

#[test]
fn white_space_in_a_title_is_flattened() {
    assert_eq!(clean_title(&Some(" a \t\n b ".into())).as_deref(), Some("a b"));
    assert_eq!(clean_title(&Some(" \u{3000} ".into())), None);
    assert_eq!(clean_title(&None), None);
}

#[test]
fn bytes_that_are_no_text_are_replaced() {
    assert_eq!(tail_lines(&vec![b'a', 0xff, b'b'], true).as_deref(), Some("a\u{fffd}b"));
    assert_eq!(tail_lines(&"x\nあ\n".as_bytes().to_vec(), false).as_deref(), Some("あ\n"));
    assert_eq!(tail_lines(&vec![0x82, b'\n', b'c'], false).as_deref(), Some("c"));
}
