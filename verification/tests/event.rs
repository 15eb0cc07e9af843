//! What events do to a session.

use ccsessions_core::event::{reduce, BackgroundTask, HookPayload, Outcome, MAX_AGENTS};
use ccsessions_core::session::{Agent, Session, SessionState};

fn payload(event: &str) -> HookPayload {
    HookPayload {
        session_id: Some("sess-1".into()),
        hook_event_name: Some(event.into()),
        cwd: Some("/Users/x/proj".into()),
        ..Default::default()
    }
}

fn existing(state: SessionState, since: u64, updated: u64, agents: Vec<Agent>) -> Session {
    Session {
        id: "sess-1".into(),
        name: "proj".into(),
        title: None,
        cwd: "/Users/x/proj".into(),
        state,
        since,
        updated,
        agents,
        main_stopped: false,
        error_kind: None,
        pid: Some(4242),
    }
}

fn agent(name: &str, id: &str) -> Agent {
    Agent {
        name: name.into(),
        role: String::new(),
        state: SessionState::Working,
        id: id.into(),
    }
}

fn task(id: &str, kind: &str, description: &str) -> BackgroundTask {
    BackgroundTask {
        id: Some(id.into()),
        kind: Some(kind.into()),
        status: Some("running".into()),
        description: Some(description.into()),
        agent_type: None,
    }
}

fn unwrap_upsert(o: Outcome) -> Session {
    match o {
        Outcome::Upsert(s) => s,
        Outcome::Remove(_) => panic!("expected Upsert, got Remove"),
        Outcome::Ignore => panic!("expected Upsert, got Ignore"),
    }
}

fn assert_ignored(o: Outcome) {
    match o {
        Outcome::Ignore => {}
        Outcome::Upsert(s) => panic!("expected Ignore, got Upsert({:?})", s.state),
        Outcome::Remove(_) => panic!("expected Ignore, got Remove"),
    }
}

#[test]
fn missing_session_id_is_ignored() {
    let mut p = payload("UserPromptSubmit");
    p.session_id = None;
    assert_ignored(reduce(None, &p, 1000, false));
}

#[test]
fn empty_session_id_is_ignored() {
    let mut p = payload("UserPromptSubmit");
    p.session_id = Some("".into());
    assert_ignored(reduce(None, &p, 1000, false));
}

#[test]
fn unknown_event_is_ignored() {
    let p = payload("SomeFutureEvent");
    assert_ignored(reduce(None, &p, 1000, false));
}

#[test]
fn session_start_creates_new_session_idle() {
    let p = payload("SessionStart");
    let s = unwrap_upsert(reduce(None, &p, 1000, false));
    assert_eq!(s.state, SessionState::Idle);
    assert_eq!(s.since, 1000);
    assert_eq!(s.updated, 1000);
    assert!(s.agents.is_empty());
    assert_eq!(s.name, "proj");
    assert_eq!(s.error_kind, None);
}

#[test]
fn session_start_existing_keeps_state_updates_updated() {
    let prev = existing(SessionState::Working, 500, 500, vec![]);
    let p = payload("SessionStart");
    let s = unwrap_upsert(reduce(Some(prev), &p, 2000, false));
    assert_eq!(s.state, SessionState::Working);
    assert_eq!(
        s.since, 500,
        "since must not change on SessionStart re-notify"
    );
    assert_eq!(s.updated, 2000);
}

#[test]
fn user_prompt_submit_sets_working_no_prev() {
    let p = payload("UserPromptSubmit");
    let s = unwrap_upsert(reduce(None, &p, 1000, false));
    assert_eq!(s.state, SessionState::Working);
    assert_eq!(s.since, 1000);
}

#[test]
fn user_prompt_submit_clears_leftover_agents() {
    let prev = existing(
        SessionState::WaitAgent,
        500,
        500,
        vec![agent("greta", "ag-1")],
    );
    let p = payload("UserPromptSubmit");
    let s = unwrap_upsert(reduce(Some(prev), &p, 2000, false));
    assert_eq!(s.state, SessionState::Working);
    assert!(
        s.agents.is_empty(),
        "leftover agents from the previous turn must be cleared"
    );
}

#[test]
fn notification_without_type_sets_wait_user() {
    let p = payload("Notification");
    let s = unwrap_upsert(reduce(None, &p, 1000, false));
    assert_eq!(s.state, SessionState::WaitUser);
}

#[test]
fn notification_wait_user_types_set_wait_user() {
    for t in [
        "permission_prompt",
        "idle_prompt",
        "elicitation_dialog",
        "agent_needs_input",
    ] {
        let mut p = payload("Notification");
        p.notification_type = Some(t.into());
        let s = unwrap_upsert(reduce(None, &p, 1000, false));
        assert_eq!(s.state, SessionState::WaitUser, "{t} must mean wait_user");
    }
}

#[test]
fn notification_completion_types_are_ignored() {
    for t in [
        "auth_success",
        "elicitation_complete",
        "elicitation_response",
        "agent_completed",
    ] {
        let prev = existing(SessionState::Working, 500, 500, vec![]);
        let mut p = payload("Notification");
        p.notification_type = Some(t.into());
        assert_ignored(reduce(Some(prev), &p, 2000, false));
    }
}

#[test]
fn idle_prompt_leaves_a_session_whose_subagents_are_still_working_alone() {
    let prev = existing(
        SessionState::WaitAgent,
        500,
        500,
        vec![agent("greta", "ag-1")],
    );
    let mut p = payload("Notification");
    p.notification_type = Some("idle_prompt".into());
    assert_ignored(reduce(Some(prev), &p, 2000, false));
}

#[test]
fn idle_prompt_still_means_wait_user_once_no_subagent_is_left() {
    let prev = existing(SessionState::Done, 500, 500, vec![]);
    let mut p = payload("Notification");
    p.notification_type = Some("idle_prompt".into());
    let s = unwrap_upsert(reduce(Some(prev), &p, 2000, false));
    assert_eq!(s.state, SessionState::WaitUser);
}

#[test]
fn a_prompt_that_really_needs_the_user_wins_over_running_subagents() {
    for t in [
        "permission_prompt",
        "agent_needs_input",
        "elicitation_dialog",
    ] {
        let prev = existing(
            SessionState::WaitAgent,
            500,
            500,
            vec![agent("greta", "ag-1")],
        );
        let mut p = payload("Notification");
        p.notification_type = Some(t.into());
        let s = unwrap_upsert(reduce(Some(prev), &p, 2000, false));
        assert_eq!(s.state, SessionState::WaitUser, "{t} はユーザの操作が要る");
    }
}

#[test]
fn unknown_notification_type_falls_back_to_wait_user() {
    let mut p = payload("Notification");
    p.notification_type = Some("some_future_notification".into());
    let s = unwrap_upsert(reduce(None, &p, 1000, false));
    assert_eq!(s.state, SessionState::WaitUser);
}

#[test]
fn permission_request_sets_wait_user() {
    let p = payload("PermissionRequest");
    let s = unwrap_upsert(reduce(None, &p, 1000, false));
    assert_eq!(s.state, SessionState::WaitUser);
}

#[test]
fn subagent_start_pushes_agent_and_sets_wait_agent() {
    let mut p = payload("SubagentStart");
    p.agent_id = Some("ag-1".into());
    p.agent_type = Some("general-purpose".into());
    let s = unwrap_upsert(reduce(None, &p, 1000, false));
    assert_eq!(s.state, SessionState::WaitAgent);
    assert_eq!(s.agents.len(), 1);
    assert_eq!(s.agents[0].name, "general-purpose");
    assert_eq!(s.agents[0].id, "ag-1");
    assert_eq!(
        s.agents[0].role, "",
        "role cannot be recovered from SubagentStart"
    );
}

#[test]
fn subagent_start_without_agent_type_falls_back_to_agent() {
    let mut p = payload("SubagentStart");
    p.agent_id = Some("ag-1".into());
    let s = unwrap_upsert(reduce(None, &p, 1000, false));
    assert_eq!(s.agents[0].name, "agent");
}

#[test]
fn subagent_start_is_idempotent_for_the_same_agent_id() {
    let prev = existing(
        SessionState::WaitAgent,
        500,
        500,
        vec![agent("general-purpose", "ag-1")],
    );
    let mut p = payload("SubagentStart");
    p.agent_id = Some("ag-1".into());
    p.agent_type = Some("general-purpose".into());
    let s = unwrap_upsert(reduce(Some(prev), &p, 2000, false));
    assert_eq!(s.agents.len(), 1, "same agent_id must not be pushed twice");
}

#[test]
fn subagent_start_tracks_distinct_ids_separately() {
    let prev = existing(SessionState::WaitAgent, 500, 500, vec![agent("a", "ag-1")]);
    let mut p = payload("SubagentStart");
    p.agent_id = Some("ag-2".into());
    p.agent_type = Some("b".into());
    let s = unwrap_upsert(reduce(Some(prev), &p, 2000, false));
    assert_eq!(s.agents.len(), 2);
}

#[test]
fn agents_capped_at_32() {
    let agents: Vec<Agent> = (0..32).map(|i| agent("a", &format!("ag-{i}"))).collect();
    let prev = existing(SessionState::WaitAgent, 500, 500, agents);
    let mut p = payload("SubagentStart");
    p.agent_id = Some("overflow".into());
    let s = unwrap_upsert(reduce(Some(prev), &p, 1000, false));
    assert_eq!(s.agents.len(), 32, "must not exceed MAX_AGENTS");
}

#[test]
fn subagent_stop_removes_the_matching_agent_id_not_the_first() {
    let prev = existing(
        SessionState::WaitAgent,
        500,
        500,
        vec![agent("greta", "ag-1"), agent("izzy", "ag-2")],
    );
    let mut p = payload("SubagentStop");
    p.agent_id = Some("ag-2".into());
    let s = unwrap_upsert(reduce(Some(prev), &p, 2000, false));
    assert_eq!(s.agents.len(), 1);
    assert_eq!(
        s.agents[0].name, "greta",
        "the agent whose id matched must be the one removed"
    );
}

#[test]
fn subagent_stop_with_unknown_id_removes_nothing() {
    let prev = existing(
        SessionState::WaitAgent,
        500,
        500,
        vec![agent("greta", "ag-1"), agent("izzy", "ag-2")],
    );
    let mut p = payload("SubagentStop");
    p.agent_id = Some("no-such-id".into());
    let s = unwrap_upsert(reduce(Some(prev), &p, 2000, false));
    assert_eq!(s.agents.len(), 2, "must not remove an unrelated agent");
    assert_eq!(s.state, SessionState::WaitAgent);
}

#[test]
fn subagent_stop_emptying_agents_sets_working() {
    let prev = existing(
        SessionState::WaitAgent,
        500,
        500,
        vec![agent("greta", "ag-1")],
    );
    let mut p = payload("SubagentStop");
    p.agent_id = Some("ag-1".into());
    let s = unwrap_upsert(reduce(Some(prev), &p, 2000, false));
    assert!(s.agents.is_empty());
    assert_eq!(s.state, SessionState::Working);
}

#[test]
fn the_last_subagent_stop_after_the_main_thread_stopped_means_done() {
    let mut prev = existing(
        SessionState::WaitAgent,
        500,
        500,
        vec![agent("greta", "ag-1")],
    );
    prev.main_stopped = true;
    let mut p = payload("SubagentStop");
    p.agent_id = Some("ag-1".into());
    let s = unwrap_upsert(reduce(Some(prev), &p, 2000, false));
    assert!(s.agents.is_empty());
    assert_eq!(s.state, SessionState::Done);
}

#[test]
fn subagent_stop_does_not_clobber_wait_user() {
    let prev = existing(
        SessionState::WaitUser,
        500,
        500,
        vec![agent("greta", "ag-1")],
    );
    let mut p = payload("SubagentStop");
    p.agent_id = Some("ag-1".into());
    let s = unwrap_upsert(reduce(Some(prev), &p, 2000, false));
    assert!(s.agents.is_empty());
    assert_eq!(s.state, SessionState::WaitUser);
    assert_eq!(s.since, 500, "since must not move");
    assert_eq!(s.updated, 2000);
}

#[test]
fn subagent_stop_remaining_agents_keeps_wait_agent() {
    let prev = existing(
        SessionState::WaitAgent,
        500,
        500,
        vec![agent("greta", "ag-1"), agent("izzy", "ag-2")],
    );
    let mut p = payload("SubagentStop");
    p.agent_id = Some("ag-1".into());
    let s = unwrap_upsert(reduce(Some(prev), &p, 2000, false));
    assert_eq!(s.state, SessionState::WaitAgent);
    assert_eq!(s.since, 500);
}

#[test]
fn post_tool_batch_reverts_wait_user_to_working() {
    let prev = existing(SessionState::WaitUser, 500, 500, vec![]);
    let p = payload("PostToolBatch");
    let s = unwrap_upsert(reduce(Some(prev), &p, 2000, false));
    assert_eq!(s.state, SessionState::Working);
    assert_eq!(s.since, 2000);
}

#[test]
fn post_tool_batch_leaves_wait_agent_untouched() {
    let prev = existing(
        SessionState::WaitAgent,
        500,
        500,
        vec![agent("greta", "ag-1")],
    );
    let p = payload("PostToolBatch");
    let s = unwrap_upsert(reduce(Some(prev), &p, 2000, false));
    assert_eq!(s.state, SessionState::WaitAgent);
    assert_eq!(s.since, 500, "since must not change; only updated advances");
    assert_eq!(s.updated, 2000);
    assert_eq!(s.agents.len(), 1);
}

#[test]
fn post_tool_batch_leaves_working_since_alone() {
    let prev = existing(SessionState::Working, 500, 500, vec![]);
    let p = payload("PostToolBatch");
    let s = unwrap_upsert(reduce(Some(prev), &p, 2000, false));
    assert_eq!(s.state, SessionState::Working);
    assert_eq!(s.since, 500);
    assert_eq!(s.updated, 2000);
}

#[test]
fn event_fired_inside_a_subagent_is_ignored_entirely() {
    let prev = existing(SessionState::WaitUser, 500, 500, vec![]);
    let mut p = payload("PostToolBatch");
    p.agent_id = Some("ag-1".into());
    assert_ignored(reduce(Some(prev), &p, 2000, false));
}

#[test]
fn stop_fired_inside_a_subagent_does_not_finish_the_parent() {
    let prev = existing(SessionState::Working, 500, 500, vec![]);
    let mut p = payload("Stop");
    p.agent_id = Some("ag-1".into());
    assert_ignored(reduce(Some(prev), &p, 2000, false));
}

#[test]
fn notification_never_carries_agent_id_so_the_filter_cannot_hide_it() {
    let mut p = payload("Notification");
    p.notification_type = Some("agent_needs_input".into());
    let s = unwrap_upsert(reduce(None, &p, 1000, false));
    assert_eq!(s.state, SessionState::WaitUser);
}

#[test]
fn subagent_lifecycle_events_are_exempt_from_the_agent_id_filter() {
    let mut p = payload("SubagentStart");
    p.agent_id = Some("ag-1".into());
    p.agent_type = Some("general-purpose".into());
    let s = unwrap_upsert(reduce(None, &p, 1000, false));
    assert_eq!(s.state, SessionState::WaitAgent);
    assert_eq!(s.agents.len(), 1);
}

#[test]
fn agent_type_alone_does_not_mark_an_event_as_subagent_fired() {
    let prev = existing(SessionState::WaitUser, 500, 500, vec![]);
    let mut p = payload("PostToolBatch");
    p.agent_type = Some("general-purpose".into());
    let s = unwrap_upsert(reduce(Some(prev), &p, 2000, false));
    assert_eq!(
        s.state,
        SessionState::Working,
        "main thread must be handled"
    );
}

#[test]
fn stop_clears_agents_and_sets_done() {
    let prev = existing(
        SessionState::WaitAgent,
        500,
        500,
        vec![agent("greta", "ag-1")],
    );
    let p = payload("Stop");
    let s = unwrap_upsert(reduce(Some(prev), &p, 2000, false));
    assert!(s.agents.is_empty(), "Stop must clear agents");
    assert_eq!(s.state, SessionState::Done);
    assert_eq!(s.error_kind, None);
}

#[test]
fn stop_with_transcript_error_sets_error_without_a_kind() {
    let prev = existing(SessionState::Working, 500, 500, vec![]);
    let p = payload("Stop");
    let s = unwrap_upsert(reduce(Some(prev), &p, 2000, true));
    assert_eq!(s.state, SessionState::Error);
    assert_eq!(
        s.error_kind, None,
        "transcript detection cannot tell the API error kind"
    );
}

#[test]
fn stop_failure_sets_error_with_kind() {
    let prev = existing(SessionState::WaitAgent, 500, 500, vec![]);
    let mut p = payload("StopFailure");
    p.error = Some("rate_limit".into());
    let s = unwrap_upsert(reduce(Some(prev), &p, 2000, false));
    assert_eq!(s.state, SessionState::Error);
    assert_eq!(s.error_kind.as_deref(), Some("rate_limit"));
    assert_eq!(s.since, 2000);
}

#[test]
fn stop_failure_without_error_field_still_sets_error() {
    let p = payload("StopFailure");
    let s = unwrap_upsert(reduce(None, &p, 1000, false));
    assert_eq!(s.state, SessionState::Error);
    assert_eq!(s.error_kind, None);
}

#[test]
fn error_kind_is_cleared_when_leaving_the_error_state() {
    let mut prev = existing(SessionState::Error, 500, 500, vec![]);
    prev.error_kind = Some("rate_limit".into());
    let p = payload("UserPromptSubmit");
    let s = unwrap_upsert(reduce(Some(prev), &p, 2000, false));
    assert_eq!(s.state, SessionState::Working);
    assert_eq!(s.error_kind, None, "stale error kind must not survive");
}

#[test]
fn error_kind_survives_a_state_neutral_event() {
    let mut prev = existing(SessionState::Error, 500, 500, vec![]);
    prev.error_kind = Some("overloaded".into());
    let p = payload("PostToolBatch");
    let s = unwrap_upsert(reduce(Some(prev), &p, 2000, false));
    assert_eq!(s.state, SessionState::Error);
    assert_eq!(s.error_kind.as_deref(), Some("overloaded"));
}

#[test]
fn stop_keeps_waiting_while_a_subagent_is_still_running() {
    let prev = existing(
        SessionState::WaitAgent,
        500,
        500,
        vec![agent("greta", "ag-1")],
    );
    let mut p = payload("Stop");
    p.background_tasks = Some(vec![task("ag-1", "teammate", "CGWindowList の接地")]);
    let s = unwrap_upsert(reduce(Some(prev), &p, 2000, false));
    assert_eq!(s.state, SessionState::WaitAgent);
    assert_eq!(s.agents.len(), 1);
    assert_eq!(s.agents[0].name, "greta", "起動時に付いた名前を保つ");
    assert!(s.main_stopped, "メインのターンは終わっている");
}

#[test]
fn stop_drops_the_agents_that_are_no_longer_in_the_task_list() {
    let prev = existing(
        SessionState::WaitAgent,
        500,
        500,
        vec![agent("greta", "ag-1"), agent("izzy", "ag-2")],
    );
    let mut p = payload("Stop");
    p.background_tasks = Some(vec![task("ag-2", "subagent", "調査")]);
    let s = unwrap_upsert(reduce(Some(prev), &p, 2000, false));
    assert_eq!(s.agents.len(), 1);
    assert_eq!(s.agents[0].name, "izzy");
    assert_eq!(s.state, SessionState::WaitAgent);
}

#[test]
fn stop_adopts_a_subagent_whose_start_was_never_seen() {
    let prev = existing(SessionState::Working, 500, 500, vec![]);
    let mut p = payload("Stop");
    let mut t = task("ag-9", "subagent", "probe agent");
    t.agent_type = Some("general-purpose".into());
    p.background_tasks = Some(vec![t]);
    let s = unwrap_upsert(reduce(Some(prev), &p, 2000, false));
    assert_eq!(s.state, SessionState::WaitAgent);
    assert_eq!(s.agents.len(), 1);
    assert_eq!(s.agents[0].name, "general-purpose");
    assert_eq!(s.agents[0].id, "ag-9");
}

#[test]
fn stop_recovers_the_role_label_that_subagent_start_cannot_carry() {
    let prev = existing(
        SessionState::WaitAgent,
        500,
        500,
        vec![agent("greta", "ag-1")],
    );
    assert_eq!(prev.agents[0].role, "");
    let mut p = payload("Stop");
    p.background_tasks = Some(vec![task("ag-1", "teammate", "CGWindowList の接地")]);
    let s = unwrap_upsert(reduce(Some(prev), &p, 2000, false));
    assert_eq!(s.agents[0].role, "CGWindowList の接地");
}

#[test]
fn background_shell_work_does_not_keep_the_session_out_of_done() {
    let prev = existing(SessionState::Working, 500, 500, vec![]);
    let mut p = payload("Stop");
    p.background_tasks = Some(vec![
        task("sh-1", "shell", "sleep 300"),
        task("mon-1", "monitor", "watch the log"),
    ]);
    let s = unwrap_upsert(reduce(Some(prev), &p, 2000, false));
    assert_eq!(s.state, SessionState::Done);
    assert!(s.agents.is_empty());
}

#[test]
fn a_task_that_is_no_longer_running_is_not_counted() {
    let prev = existing(SessionState::Working, 500, 500, vec![]);
    let mut p = payload("Stop");
    let mut t = task("ag-1", "subagent", "終わったやつ");
    t.status = Some("completed".into());
    p.background_tasks = Some(vec![t]);
    let s = unwrap_upsert(reduce(Some(prev), &p, 2000, false));
    assert_eq!(s.state, SessionState::Done);
    assert!(s.agents.is_empty());
}

#[test]
fn a_stop_that_lists_nothing_is_plain_done() {
    let prev = existing(
        SessionState::WaitAgent,
        500,
        500,
        vec![agent("greta", "ag-1")],
    );
    let mut p = payload("Stop");
    p.background_tasks = Some(vec![]);
    let s = unwrap_upsert(reduce(Some(prev), &p, 2000, false));
    assert_eq!(s.state, SessionState::Done);
    assert!(s.agents.is_empty());
}

#[test]
fn a_stop_without_the_field_at_all_behaves_like_before() {
    let prev = existing(
        SessionState::WaitAgent,
        500,
        500,
        vec![agent("greta", "ag-1")],
    );
    let p = payload("Stop");
    assert!(p.background_tasks.is_none());
    let s = unwrap_upsert(reduce(Some(prev), &p, 2000, false));
    assert_eq!(s.state, SessionState::Done);
    assert!(s.agents.is_empty());
}

#[test]
fn a_task_without_an_id_cannot_be_tracked_and_is_skipped() {
    let prev = existing(SessionState::Working, 500, 500, vec![]);
    let mut p = payload("Stop");
    let mut t = task("x", "subagent", "id なし");
    t.id = None;
    p.background_tasks = Some(vec![t]);
    let s = unwrap_upsert(reduce(Some(prev), &p, 2000, false));
    assert!(s.agents.is_empty());
    assert_eq!(s.state, SessionState::Done);
}

#[test]
fn reconciled_agents_are_capped_at_32() {
    let prev = existing(SessionState::Working, 500, 500, vec![]);
    let mut p = payload("Stop");
    p.background_tasks = Some(
        (0..40)
            .map(|i| task(&format!("ag-{i}"), "subagent", "x"))
            .collect(),
    );
    let s = unwrap_upsert(reduce(Some(prev), &p, 2000, false));
    assert_eq!(s.agents.len(), MAX_AGENTS);
}

#[test]
fn stop_failure_keeps_the_subagents_that_the_lead_left_running() {
    let prev = existing(
        SessionState::WaitAgent,
        500,
        500,
        vec![agent("greta", "ag-1")],
    );
    let mut p = payload("StopFailure");
    p.error = Some("rate_limit".into());
    let s = unwrap_upsert(reduce(Some(prev), &p, 2000, false));
    assert_eq!(s.state, SessionState::Error);
    assert_eq!(s.agents.len(), 1, "生死不明の agent を消さない");
    assert!(s.main_stopped);
}

#[test]
fn a_new_prompt_puts_the_main_thread_back_in_its_turn() {
    let mut prev = existing(SessionState::Done, 500, 500, vec![]);
    prev.main_stopped = true;
    let s = unwrap_upsert(reduce(
        Some(prev),
        &payload("UserPromptSubmit"),
        2000,
        false,
    ));
    assert!(!s.main_stopped);
}

#[test]
fn a_tool_running_puts_the_main_thread_back_in_its_turn() {
    let mut prev = existing(SessionState::WaitAgent, 500, 500, vec![]);
    prev.main_stopped = true;
    let s = unwrap_upsert(reduce(Some(prev), &payload("PostToolBatch"), 2000, false));
    assert!(!s.main_stopped);
}

#[test]
fn a_recorded_stop_payload_is_understood_end_to_end() {
    let raw = r#"{"session_id":"1f7c9a04-3b62-4d18-9e55-6a0c2d47f8b1",
      "transcript_path":"/Users/x/projects/p/1f7c9a04.jsonl",
      "cwd":"/Users/x/proj","prompt_id":"8d3e5b21-0c74-4af9-b6d2-19e7c4a05f36",
      "permission_mode":"default","hook_event_name":"Stop","stop_hook_active":false,
      "last_assistant_message":"DONE",
      "background_tasks":[{"id":"a6b95b3843cb27b86","type":"subagent","status":"running",
        "description":"probe agent","agent_type":"general-purpose"}],
      "session_crons":[]}"#;
    let v: serde_json::Value = serde_json::from_str(raw).unwrap();
    let text = |v: &serde_json::Value, key: &str| v[key].as_str().map(String::from);
    let tasks = v["background_tasks"].as_array().map(|all| {
        all.iter()
            .map(|t| BackgroundTask {
                id: text(t, "id"),
                kind: text(t, "type"),
                status: text(t, "status"),
                description: text(t, "description"),
                agent_type: text(t, "agent_type"),
            })
            .collect()
    });
    let p = HookPayload {
        session_id: text(&v, "session_id"),
        transcript_path: text(&v, "transcript_path"),
        cwd: text(&v, "cwd"),
        hook_event_name: text(&v, "hook_event_name"),
        background_tasks: tasks,
        ..Default::default()
    };

    let s = unwrap_upsert(reduce(None, &p, 2000, false));
    assert_eq!(s.state, SessionState::WaitAgent);
    assert_eq!(s.agents.len(), 1);
    assert_eq!(s.agents[0].id, "a6b95b3843cb27b86");
    assert_eq!(s.agents[0].name, "general-purpose");
    assert_eq!(s.agents[0].role, "probe agent");
    assert!(s.main_stopped);
}

#[test]
fn session_end_removes_session() {
    let p = payload("SessionEnd");
    match reduce(None, &p, 1000, false) {
        Outcome::Remove(id) => assert_eq!(id, "sess-1"),
        _ => panic!("expected Remove"),
    }
}

#[test]
fn reduce_carries_the_existing_pid_through() {
    let prev = existing(SessionState::Working, 500, 500, vec![]);
    assert_eq!(prev.pid, Some(4242));
    for event in ["SessionStart", "UserPromptSubmit", "Notification", "Stop"] {
        let s = unwrap_upsert(reduce(Some(prev.clone()), &payload(event), 2000, false));
        assert_eq!(s.pid, Some(4242), "{event} が pid を落としている");
    }
}

#[test]
fn a_brand_new_session_has_no_pid_yet() {
    let s = unwrap_upsert(reduce(None, &payload("SessionStart"), 1000, false));
    assert_eq!(s.pid, None);
}

#[test]
fn missing_cwd_keeps_existing_name_and_cwd() {
    let prev = existing(SessionState::Working, 500, 500, vec![]);
    let mut p = payload("UserPromptSubmit");
    p.cwd = None;
    let s = unwrap_upsert(reduce(Some(prev), &p, 2000, false));
    assert_eq!(s.name, "proj");
    assert_eq!(s.cwd, "/Users/x/proj");
}

#[test]
fn an_event_without_a_name_is_ignored() {
    let mut p = payload("Stop");
    p.hook_event_name = None;
    assert_ignored(reduce(None, &p, 1000, false));
}

#[test]
fn starting_and_stopping_a_subagent_leaves_no_trace_of_it() {
    let prev = existing(SessionState::WaitAgent, 500, 500, vec![agent("a", "ag-1")]);
    let mut start = payload("SubagentStart");
    start.agent_id = Some("ag-2".into());
    let mut stop = payload("SubagentStop");
    stop.agent_id = Some("ag-2".into());
    let between = unwrap_upsert(reduce(Some(prev.clone()), &start, 1000, false));
    assert_eq!(between.agents.len(), 2);
    let after = unwrap_upsert(reduce(Some(between), &stop, 2000, false));
    assert_eq!(after.agents, prev.agents);
}

#[test]
fn a_stop_lists_at_most_as_many_agents_as_a_session_holds() {
    let tasks: Vec<BackgroundTask> = (0..MAX_AGENTS + 8)
        .map(|i| task(&format!("ag-{i}"), "subagent", "work"))
        .collect();
    let mut p = payload("Stop");
    p.background_tasks = Some(tasks);
    let s = unwrap_upsert(reduce(None, &p, 1000, false));
    assert_eq!(s.agents.len(), MAX_AGENTS);
    assert_eq!(s.state, SessionState::WaitAgent);
    assert_eq!(s.agents[0].id, "ag-0");
}

#[test]
fn every_event_moves_the_time_of_the_last_event() {
    for event in [
        "SessionStart",
        "UserPromptSubmit",
        "Notification",
        "PermissionRequest",
        "PostToolBatch",
        "Stop",
        "StopFailure",
    ] {
        let prev = existing(SessionState::Working, 500, 500, vec![]);
        let s = unwrap_upsert(reduce(Some(prev), &payload(event), 7000, false));
        assert_eq!(s.updated, 7000, "{event}");
        assert_eq!(s.id, "sess-1");
    }
}

#[test]
fn a_transcript_error_matters_at_a_stop_only() {
    for event in ["SessionStart", "UserPromptSubmit", "PostToolBatch"] {
        let s = unwrap_upsert(reduce(None, &payload(event), 1000, true));
        assert_ne!(s.state, SessionState::Error, "{event}");
    }
}

#[test]
fn tool_input_is_carried_untouched() {
    let mut p = payload("PostToolBatch");
    p.tool_input = Some(serde_json::Value::from(3));
    let s = unwrap_upsert(reduce(None, &p, 1000, false));
    assert_eq!(s.state, SessionState::Working);
    assert_eq!(p.clone().tool_input, Some(serde_json::Value::from(3)));
}
