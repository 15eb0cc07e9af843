//! Sessions and their states.

use ccsessions_core::lang::Lang;
use ccsessions_core::process::{self, SignalReply, StatusReply};
use ccsessions_core::session::{Agent, DeadReason, Session, SessionState};

#[test]
fn as_str_round_trips_through_from_str() {
    for s in SessionState::ORDER {
        assert_eq!(SessionState::from_str(s.as_str()), Some(s));
    }
}

#[test]
fn every_state_is_named_in_both_languages() {
    for s in SessionState::ORDER {
        for lang in [Lang::Ja, Lang::En] {
            assert!(!s.label(lang).is_empty(), "{s:?} に {lang:?} の名前が無い");
        }
    }
}

#[test]
fn no_state_name_overflows_the_list_column() {
    const LIST_COLUMN: usize = 14;
    for s in SessionState::ORDER {
        for lang in [Lang::Ja, Lang::En] {
            let n = s.label(lang).chars().count();
            assert!(
                n <= LIST_COLUMN,
                "{:?} は {n} 文字で、list の {LIST_COLUMN} 桁に収まらない",
                s.label(lang)
            );
        }
    }
}

#[test]
fn from_str_rejects_unknown() {
    assert_eq!(SessionState::from_str("bogus"), None);
}

#[test]
fn unknown_json_string_deserializes_to_idle() {
    let name: String = serde_json::from_str("\"future_state\"").unwrap();
    let v = SessionState::stored(&name);
    assert_eq!(v, SessionState::Idle);
}

#[test]
fn known_json_strings_deserialize_correctly() {
    for s in SessionState::ORDER {
        let json = format!("\"{}\"", s.as_str());
        let name: String = serde_json::from_str(&json).unwrap();
        let v = SessionState::stored(&name);
        assert_eq!(v, s);
    }
}

fn session(state: SessionState, since: u64, updated: u64) -> Session {
    Session {
        id: "s1".into(),
        name: "proj".into(),
        title: None,
        cwd: "/tmp/proj".into(),
        state,
        since,
        updated,
        agents: vec![],
        main_stopped: false,
        error_kind: None,
        pid: None,
    }
}

#[test]
fn set_state_updates_since_on_transition() {
    let mut s = session(SessionState::Working, 1000, 1000);
    s.set_state(SessionState::WaitUser, 5000);
    assert_eq!(s.state, SessionState::WaitUser);
    assert_eq!(s.since, 5000);
    assert_eq!(s.updated, 5000);
}

#[test]
fn set_state_clears_error_kind_when_leaving_error() {
    let mut s = session(SessionState::Error, 1000, 1000);
    s.error_kind = Some("rate_limit".into());
    s.set_state(SessionState::Working, 5000);
    assert_eq!(
        s.error_kind, None,
        "error_kind only means anything in Error"
    );
}

#[test]
fn set_error_records_the_kind() {
    let mut s = session(SessionState::Working, 1000, 1000);
    s.set_error(Some("overloaded".into()), 5000);
    assert_eq!(s.state, SessionState::Error);
    assert_eq!(s.error_kind.as_deref(), Some("overloaded"));
    assert_eq!(s.since, 5000);
}

#[test]
fn set_error_twice_keeps_since_but_updates_kind() {
    let mut s = session(SessionState::Working, 1000, 1000);
    s.set_error(Some("rate_limit".into()), 5000);
    s.set_error(Some("overloaded".into()), 9000);
    assert_eq!(s.since, 5000, "same-state renotify must not reset since");
    assert_eq!(s.error_kind.as_deref(), Some("overloaded"));
    assert_eq!(s.updated, 9000);
}

#[test]
fn set_state_same_state_keeps_since_but_bumps_updated() {
    let mut s = session(SessionState::Working, 1000, 1000);
    s.set_state(SessionState::Working, 9000);
    assert_eq!(s.since, 1000, "same-state renotify must not reset since");
    assert_eq!(s.updated, 9000, "updated must always advance");
}

#[test]
fn a_session_without_a_pid_is_judged_by_ttl_alone() {
    let s = session(SessionState::Working, 0, 1000);
    assert!(s.is_live(2000, 5000, |_| panic!("pid が無ければ生存確認は呼ばない")));
    assert_eq!(
        s.dead_reason(6001, 5000, |_| panic!("同上")),
        Some(DeadReason::Expired)
    );
}

#[test]
fn a_session_whose_process_is_gone_is_dead_even_if_freshly_updated() {
    let mut s = session(SessionState::Working, 0, 1000);
    s.pid = Some(4242);
    assert_eq!(
        s.dead_reason(2000, 8 * 3600 * 1000, |_| false),
        Some(DeadReason::ProcessGone(4242))
    );
}

#[test]
fn a_session_whose_process_is_alive_survives_long_silence_until_ttl() {
    let mut s = session(SessionState::Idle, 0, 1000);
    s.pid = Some(4242);
    assert!(s.is_live(1000 + 4999, 5000, |_| true));
    assert_eq!(
        s.dead_reason(1000 + 5000, 5000, |_| true),
        Some(DeadReason::Expired)
    );
}

#[test]
fn an_unverifiable_process_is_kept() {
    let mut s = session(SessionState::Working, 0, 1000);
    s.pid = Some(1);
    assert!(s.is_live(2000, 5000, |pid| {
        process::is_alive(pid, |_| SignalReply::Refused, |_| StatusReply::Unknown)
    }));
}

#[test]
fn display_state_shows_done_before_ttl() {
    let s = session(SessionState::Done, 1000, 1000);
    assert_eq!(s.display_state(1000 + 179_000, 180_000), SessionState::Done);
}

#[test]
fn display_state_falls_back_to_idle_after_ttl() {
    let s = session(SessionState::Done, 1000, 1000);
    assert_eq!(s.display_state(1000 + 180_000, 180_000), SessionState::Idle);
}

#[test]
fn display_state_non_done_is_unaffected_by_ttl() {
    let s = session(SessionState::Working, 1000, 1000);
    assert_eq!(
        s.display_state(1000 + 999_999_999, 180_000),
        SessionState::Working
    );
}

#[test]
fn short_name_splits_on_first_hyphen() {
    let mut s = session(SessionState::Idle, 0, 0);
    s.name = "ccsessions-core".into();
    assert_eq!(s.short_name(), "ccsessions");
}

#[test]
fn short_name_no_hyphen_returns_whole_name() {
    let mut s = session(SessionState::Idle, 0, 0);
    s.name = "overlay".into();
    assert_eq!(s.short_name(), "overlay");
}

#[test]
fn fmt_dur_matches_design_spec_fixtures() {
    assert_eq!(Session::fmt_dur(0), "0m");
    assert_eq!(Session::fmt_dur(59_999), "0m");
    assert_eq!(Session::fmt_dur(60_000), "1m");
    assert_eq!(Session::fmt_dur(3_599_999), "59m");
    assert_eq!(Session::fmt_dur(3_600_000), "1h00m");
    assert_eq!(Session::fmt_dur(4_500_000), "1h15m");
}

#[test]
fn name_from_cwd_basename() {
    assert_eq!(Session::name_from_cwd("/Users/x/ghq/proj"), "proj");
}

#[test]
fn name_from_cwd_trailing_slash() {
    assert_eq!(Session::name_from_cwd("/Users/x/proj/"), "proj");
}

#[test]
fn name_from_cwd_empty_is_question_mark() {
    assert_eq!(Session::name_from_cwd(""), "?");
    assert_eq!(Session::name_from_cwd("/"), "?");
}

#[test]
fn every_state_has_its_own_sign() {
    let signs: Vec<&str> = SessionState::ORDER.iter().map(|s| s.glyph()).collect();
    assert_eq!(signs, vec!["›", "!", "⋯", "z", "✓", "×"]);
}

#[test]
fn a_name_of_capitals_is_no_state() {
    assert_eq!(SessionState::from_str("Working"), None);
    assert_eq!(SessionState::stored("Working"), SessionState::Idle);
}

#[test]
fn a_clock_that_goes_back_expires_nothing() {
    let s = session(SessionState::Done, 10_000, 10_000);
    assert_eq!(s.display_state(0, 1), SessionState::Done);
    assert_eq!(s.dead_reason(0, 1, |_| true), None);
}

#[test]
fn a_lost_process_outweighs_an_expired_session() {
    let mut s = session(SessionState::Working, 0, 0);
    s.pid = Some(7);
    assert_eq!(
        s.dead_reason(u64::MAX, 1, |_| false),
        Some(DeadReason::ProcessGone(7))
    );
    assert!(!s.is_live(u64::MAX, 1, |_| false));
}

#[test]
fn once_expired_a_session_stays_expired() {
    let s = session(SessionState::Working, 0, 1000);
    assert_eq!(s.dead_reason(6000, 5000, |_| true), Some(DeadReason::Expired));
    assert_eq!(s.dead_reason(7000, 5000, |_| true), Some(DeadReason::Expired));
}

#[test]
fn entering_an_error_without_a_kind_forgets_the_last_kind() {
    let mut s = session(SessionState::Working, 0, 0);
    s.set_error(Some("rate_limit".into()), 1);
    s.set_error(None, 2);
    assert_eq!(s.state, SessionState::Error);
    assert_eq!(s.error_kind, None);
    assert_eq!(s.since, 1);
}

#[test]
fn a_clone_is_the_same_session() {
    let mut s = session(SessionState::WaitAgent, 1, 2);
    s.agents.push(Agent {
        name: "general-purpose".into(),
        role: "reads".into(),
        state: SessionState::Working,
        id: "a1".into(),
    });
    s.pid = Some(9);
    s.title = Some("t".into());
    assert_eq!(s.clone(), s);
}

#[test]
fn a_long_duration_keeps_its_hours() {
    assert_eq!(Session::fmt_dur(36_000_000), "10h00m");
    assert_eq!(Session::fmt_dur(u64::MAX), "5124095576030h25m");
}
