//! From hook payloads to state transitions.
//!
//! `reduce` looks at the session so far and at one payload and says what becomes of the
//! session. It does no input or output.
//!
//! - `StopFailure` comes in place of `Stop` when an API error ends a turn.
//! - `SubagentStop` identifies the agent by `agent_id`.
//! - `PostToolBatch` comes once per batch and ends the state in which the user is waited for.
//! - `Stop` ends the main thread's turn, not the subagents. Those that run on stand in its
//!   `background_tasks`, so the agents are reconciled with that list.

use vstd::prelude::*;

use crate::session::{
    agent_views, base_name, error_kind_fits, with_error, with_state, Agent, AgentView, Session,
    SessionState, SessionView,
};
use crate::text::{opt_text, same};

verus! {

/// A JSON value; it is carried along and not looked into.
#[verifier::external_type_specification]
#[verifier::external_body]
pub struct ExJsonValue(serde_json::Value);

/// The JSON that a hook receives. Every field may be missing.
#[derive(Debug, Clone)]
pub struct HookPayload {
    pub session_id: Option<String>,
    pub transcript_path: Option<String>,
    pub cwd: Option<String>,
    pub hook_event_name: Option<String>,
    /// Present where the event fired inside a subagent. In `SubagentStart` and `SubagentStop`
    /// it names the agent that the event is about.
    pub agent_id: Option<String>,
    /// The kind of agent, such as `general-purpose`. The main thread can have one too.
    pub agent_type: Option<String>,
    /// What a `Notification` is about. Unknown values occur.
    pub notification_type: Option<String>,
    /// The kind of API error of a `StopFailure`.
    pub error: Option<String>,
    pub tool_name: Option<String>,
    pub tool_input: Option<serde_json::Value>,
    pub tool_use_id: Option<String>,
    pub reason: Option<String>,
    pub source: Option<String>,
    /// The work that still runs in the background at a `Stop`. `None` means that the sender
    /// does not tell, an empty list that nothing runs.
    pub background_tasks: Option<Vec<BackgroundTask>>,
}

/// One entry of `background_tasks`.
#[derive(Debug, Clone)]
pub struct BackgroundTask {
    /// The same value as the `agent_id` of the events, for tasks that are agents.
    pub id: Option<String>,
    /// `subagent`, `teammate`, `shell`, `workflow` and others.
    pub kind: Option<String>,
    /// `running` or `pending`.
    pub status: Option<String>,
    /// What the task does, for display.
    pub description: Option<String>,
    pub agent_type: Option<String>,
}

/// What to do with the session's file.
#[derive(Debug)]
pub enum Outcome {
    /// Write it.
    Upsert(Session),
    /// Delete it.
    Remove(String),
    /// Leave it.
    Ignore,
}

/// How many agents a session holds at most.
pub const MAX_AGENTS: usize = 32;

// ---- views ----------------------------------------------------------------------------------

/// What a `BackgroundTask` holds.
pub struct TaskView {
    pub id: Option<Seq<char>>,
    pub kind: Option<Seq<char>>,
    pub status: Option<Seq<char>>,
    pub description: Option<Seq<char>>,
    pub agent_type: Option<Seq<char>>,
}

/// What a `HookPayload` holds.
pub struct PayloadView {
    pub session_id: Option<Seq<char>>,
    pub transcript_path: Option<Seq<char>>,
    pub cwd: Option<Seq<char>>,
    pub hook_event_name: Option<Seq<char>>,
    pub agent_id: Option<Seq<char>>,
    pub agent_type: Option<Seq<char>>,
    pub notification_type: Option<Seq<char>>,
    pub error: Option<Seq<char>>,
    pub tool_name: Option<Seq<char>>,
    pub tool_input: Option<serde_json::Value>,
    pub tool_use_id: Option<Seq<char>>,
    pub reason: Option<Seq<char>>,
    pub source: Option<Seq<char>>,
    pub background_tasks: Option<Seq<TaskView>>,
}

/// What an `Outcome` holds.
#[verifier::ext_equal]
pub enum OutcomeView {
    Upsert(SessionView),
    Remove(Seq<char>),
    Ignore,
}

impl View for BackgroundTask {
    type V = TaskView;

    open spec fn view(&self) -> TaskView {
        TaskView {
            id: opt_text(self.id),
            kind: opt_text(self.kind),
            status: opt_text(self.status),
            description: opt_text(self.description),
            agent_type: opt_text(self.agent_type),
        }
    }
}

/// What the tasks of a list hold.
pub open spec fn task_views(v: Seq<BackgroundTask>) -> Seq<TaskView> {
    Seq::new(v.len(), |i: int| v[i]@)
}

impl View for HookPayload {
    type V = PayloadView;

    open spec fn view(&self) -> PayloadView {
        PayloadView {
            session_id: opt_text(self.session_id),
            transcript_path: opt_text(self.transcript_path),
            cwd: opt_text(self.cwd),
            hook_event_name: opt_text(self.hook_event_name),
            agent_id: opt_text(self.agent_id),
            agent_type: opt_text(self.agent_type),
            notification_type: opt_text(self.notification_type),
            error: opt_text(self.error),
            tool_name: opt_text(self.tool_name),
            tool_input: self.tool_input,
            tool_use_id: opt_text(self.tool_use_id),
            reason: opt_text(self.reason),
            source: opt_text(self.source),
            background_tasks: match self.background_tasks {
                Some(v) => Some(task_views(v@)),
                None => None,
            },
        }
    }
}

impl View for Outcome {
    type V = OutcomeView;

    open spec fn view(&self) -> OutcomeView {
        match *self {
            Outcome::Upsert(s) => OutcomeView::Upsert(s@),
            Outcome::Remove(id) => OutcomeView::Remove(id@),
            Outcome::Ignore => OutcomeView::Ignore,
        }
    }
}

/// What an optional session holds.
pub open spec fn opt_session(s: Option<Session>) -> Option<SessionView> {
    match s {
        Some(s) => Some(s@),
        None => None,
    }
}

impl Default for HookPayload {
    /// A payload without any field.
    fn default() -> (r: Self)
        ensures
            r@ == (PayloadView {
                session_id: None,
                transcript_path: None,
                cwd: None,
                hook_event_name: None,
                agent_id: None,
                agent_type: None,
                notification_type: None,
                error: None,
                tool_name: None,
                tool_input: None,
                tool_use_id: None,
                reason: None,
                source: None,
                background_tasks: None,
            }),
    {
        HookPayload {
            session_id: None,
            transcript_path: None,
            cwd: None,
            hook_event_name: None,
            agent_id: None,
            agent_type: None,
            notification_type: None,
            error: None,
            tool_name: None,
            tool_input: None,
            tool_use_id: None,
            reason: None,
            source: None,
            background_tasks: None,
        }
    }
}

impl Default for BackgroundTask {
    /// A task without any field.
    fn default() -> (r: Self)
        ensures
            r@ == (TaskView {
                id: None,
                kind: None,
                status: None,
                description: None,
                agent_type: None,
            }),
    {
        BackgroundTask { id: None, kind: None, status: None, description: None, agent_type: None }
    }
}

// ---- what a payload means -------------------------------------------------------------------

/// The text, unless it is empty.
pub open spec fn filled(s: Option<Seq<char>>) -> Option<Seq<char>> {
    match s {
        Some(t) => if t.len() == 0 {
            None
        } else {
            s
        },
        None => None,
    }
}

/// The events that have a meaning.
#[derive(Clone, Copy, PartialEq, Eq, Structural)]
pub enum HookEvent {
    SessionStart,
    UserPromptSubmit,
    PermissionRequest,
    Notification,
    SubagentStart,
    SubagentStop,
    PostToolBatch,
    Stop,
    StopFailure,
    SessionEnd,
    Other,
}

/// The event with this name.
pub open spec fn event_named(name: Seq<char>) -> HookEvent {
    if name == "SessionStart"@ {
        HookEvent::SessionStart
    } else if name == "UserPromptSubmit"@ {
        HookEvent::UserPromptSubmit
    } else if name == "PermissionRequest"@ {
        HookEvent::PermissionRequest
    } else if name == "Notification"@ {
        HookEvent::Notification
    } else if name == "SubagentStart"@ {
        HookEvent::SubagentStart
    } else if name == "SubagentStop"@ {
        HookEvent::SubagentStop
    } else if name == "PostToolBatch"@ {
        HookEvent::PostToolBatch
    } else if name == "Stop"@ {
        HookEvent::Stop
    } else if name == "StopFailure"@ {
        HookEvent::StopFailure
    } else if name == "SessionEnd"@ {
        HookEvent::SessionEnd
    } else {
        HookEvent::Other
    }
}

/// Whether the event fired inside a subagent.
pub open spec fn inside_subagent(p: PayloadView) -> bool {
    filled(p.agent_id) is Some
}

/// Whether a notification means that the user is waited for. Only the kinds known to mean
/// something else do not.
pub open spec fn waits_for_user(kind: Option<Seq<char>>) -> bool {
    !(kind == Some("auth_success"@) || kind == Some("elicitation_complete"@) || kind == Some(
        "elicitation_response"@,
    ) || kind == Some("agent_completed"@))
}

/// Whether a notification is the timer for a user who does nothing.
pub open spec fn is_idle_prompt(kind: Option<Seq<char>>) -> bool {
    kind == Some("idle_prompt"@)
}

/// A session that begins now.
pub open spec fn fresh(id: Seq<char>, cwd: Seq<char>, now: u64) -> SessionView {
    SessionView {
        id,
        name: base_name(cwd),
        title: None,
        cwd,
        state: SessionState::Idle,
        since: now,
        updated: now,
        agents: Seq::empty(),
        main_stopped: false,
        error_kind: None,
        pid: None,
    }
}

/// The session that an event starts from: the one so far, moved to the payload's directory if
/// it names one.
pub open spec fn base(
    prev: Option<SessionView>,
    id: Seq<char>,
    cwd: Option<Seq<char>>,
    now: u64,
) -> SessionView {
    match (cwd, prev) {
        (Some(dir), Some(s)) => SessionView { cwd: dir, name: base_name(dir), ..s },
        (Some(dir), None) => fresh(id, dir, now),
        (None, Some(s)) => s,
        (None, None) => fresh(id, Seq::empty(), now),
    }
}

/// The index of the first agent with this id, or the number of agents if there is none.
pub open spec fn agent_index(agents: Seq<AgentView>, id: Seq<char>) -> int
    decreases agents.len(),
{
    if agents.len() == 0 || agents[0].id == id {
        0
    } else {
        1 + agent_index(agents.drop_first(), id)
    }
}

/// The agent that a `SubagentStart` announces.
pub open spec fn announced(p: PayloadView) -> AgentView {
    AgentView {
        name: match filled(p.agent_type) {
            Some(kind) => kind,
            None => "agent"@,
        },
        role: Seq::empty(),
        state: SessionState::Working,
        id: match filled(p.agent_id) {
            Some(id) => id,
            None => Seq::empty(),
        },
    }
}

/// The agents after a `SubagentStart`: one more, unless it is there already or the limit is
/// reached.
pub open spec fn agents_after_start(agents: Seq<AgentView>, p: PayloadView) -> Seq<AgentView> {
    let known = filled(p.agent_id) matches Some(id) && agent_index(agents, id) < agents.len();
    if !known && agents.len() < MAX_AGENTS {
        agents.push(announced(p))
    } else {
        agents
    }
}

/// The agents after a `SubagentStop`: without the first one that has the id, if any has.
pub open spec fn agents_after_stop(agents: Seq<AgentView>, id: Option<Seq<char>>) -> Seq<
    AgentView,
> {
    match filled(id) {
        Some(id) => if agent_index(agents, id) < agents.len() {
            agents.remove(agent_index(agents, id))
        } else {
            agents
        },
        None => agents,
    }
}

/// Whether a background task is an agent that still runs.
pub open spec fn is_running_agent(t: TaskView) -> bool {
    &&& t.kind == Some("subagent"@) || t.kind == Some("teammate"@)
    &&& t.status is None || t.status == Some("running"@) || t.status == Some("pending"@)
}

/// The agent that a background task stands for. What is known of it from before goes first,
/// but for its role.
pub open spec fn task_agent(t: TaskView, id: Seq<char>, known: Seq<AgentView>) -> AgentView {
    let i = agent_index(known, id);
    let found = i < known.len();
    AgentView {
        name: if found {
            known[i].name
        } else if filled(t.agent_type) is Some {
            filled(t.agent_type)->0
        } else if filled(t.kind) is Some {
            filled(t.kind)->0
        } else {
            "agent"@
        },
        role: if filled(t.description) is Some {
            filled(t.description)->0
        } else if found {
            known[i].role
        } else {
            Seq::empty()
        },
        state: if found {
            known[i].state
        } else {
            SessionState::Working
        },
        id,
    }
}

/// The agents that the background tasks stand for, up to the limit. A task without an id
/// cannot be followed and is left out.
pub open spec fn task_agents(tasks: Seq<TaskView>, known: Seq<AgentView>) -> Seq<AgentView>
    decreases tasks.len(),
{
    if tasks.len() == 0 {
        Seq::empty()
    } else {
        let before = task_agents(tasks.drop_last(), known);
        let t = tasks.last();
        if is_running_agent(t) && filled(t.id) is Some && before.len() < MAX_AGENTS {
            before.push(task_agent(t, filled(t.id)->0, known))
        } else {
            before
        }
    }
}

/// The agents that still run at a `Stop`. A sender that does not tell leaves none.
pub open spec fn agents_left(agents: Seq<AgentView>, tasks: Option<Seq<TaskView>>) -> Seq<
    AgentView,
> {
    match tasks {
        Some(tasks) => task_agents(tasks, agents),
        None => Seq::empty(),
    }
}

/// The session after a `SubagentStop`.
pub open spec fn after_subagent_stop(s: SessionView, id: Option<Seq<char>>, now: u64) -> SessionView {
    let left = SessionView { agents: agents_after_stop(s.agents, id), ..s };
    if left.agents.len() == 0 && left.state == SessionState::WaitAgent {
        with_state(
            left,
            if left.main_stopped {
                SessionState::Done
            } else {
                SessionState::Working
            },
            now,
        )
    } else {
        SessionView { updated: now, ..left }
    }
}

/// The session after a `Stop`.
pub open spec fn after_stop(
    s: SessionView,
    tasks: Option<Seq<TaskView>>,
    now: u64,
    error: bool,
) -> SessionView {
    let left = SessionView { main_stopped: true, agents: agents_left(s.agents, tasks), ..s };
    if error {
        with_error(left, None, now)
    } else if left.agents.len() > 0 {
        with_state(left, SessionState::WaitAgent, now)
    } else {
        with_state(left, SessionState::Done, now)
    }
}

/// The session after a `PostToolBatch`.
pub open spec fn after_tools(s: SessionView, now: u64) -> SessionView {
    let going = SessionView { main_stopped: false, ..s };
    if going.state == SessionState::WaitUser {
        with_state(going, SessionState::Working, now)
    } else {
        SessionView { updated: now, ..going }
    }
}

/// What becomes of a session, given the session the event starts from.
pub open spec fn outcome(
    event: HookEvent,
    s: SessionView,
    id: Seq<char>,
    p: PayloadView,
    now: u64,
    error: bool,
) -> OutcomeView {
    match event {
        HookEvent::SessionStart => OutcomeView::Upsert(SessionView { updated: now, ..s }),
        HookEvent::UserPromptSubmit => OutcomeView::Upsert(
            with_state(
                SessionView { agents: Seq::empty(), main_stopped: false, ..s },
                SessionState::Working,
                now,
            ),
        ),
        HookEvent::PermissionRequest => OutcomeView::Upsert(
            with_state(s, SessionState::WaitUser, now),
        ),
        HookEvent::Notification => if !waits_for_user(p.notification_type) || (is_idle_prompt(
            p.notification_type,
        ) && s.agents.len() > 0) {
            OutcomeView::Ignore
        } else {
            OutcomeView::Upsert(with_state(s, SessionState::WaitUser, now))
        },
        HookEvent::SubagentStart => OutcomeView::Upsert(
            with_state(
                SessionView { agents: agents_after_start(s.agents, p), ..s },
                SessionState::WaitAgent,
                now,
            ),
        ),
        HookEvent::SubagentStop => OutcomeView::Upsert(after_subagent_stop(s, p.agent_id, now)),
        HookEvent::PostToolBatch => OutcomeView::Upsert(after_tools(s, now)),
        HookEvent::Stop => OutcomeView::Upsert(after_stop(s, p.background_tasks, now, error)),
        HookEvent::StopFailure => OutcomeView::Upsert(
            with_error(SessionView { main_stopped: true, ..s }, filled(p.error), now),
        ),
        HookEvent::SessionEnd => OutcomeView::Remove(id),
        HookEvent::Other => OutcomeView::Ignore,
    }
}

/// What becomes of a session. A payload without a session or an event means nothing, and so
/// does an event from inside a subagent, unless it is about a subagent.
pub open spec fn reduced(
    prev: Option<SessionView>,
    p: PayloadView,
    now: u64,
    error: bool,
) -> OutcomeView {
    if filled(p.session_id) is None || p.hook_event_name is None {
        OutcomeView::Ignore
    } else {
        let id = filled(p.session_id)->0;
        let event = event_named(p.hook_event_name->0);
        if inside_subagent(p) && event != HookEvent::SubagentStart && event
            != HookEvent::SubagentStop {
            OutcomeView::Ignore
        } else {
            outcome(event, base(prev, id, p.cwd, now), id, p, now, error)
        }
    }
}

// ---- the transitions ------------------------------------------------------------------------

fn non_empty(s: &Option<String>) -> (r: Option<String>)
    ensures
        opt_text(r) == filled(opt_text(*s)),
{
    match s {
        Some(t) => if t.as_str().is_empty() {
            None
        } else {
            Some(t.clone())
        },
        None => None,
    }
}

fn is_text(s: &Option<String>, t: &str) -> (r: bool)
    ensures
        r == (opt_text(*s) == Some(t@)),
{
    match s {
        Some(s) => same(s.as_str(), t),
        None => false,
    }
}

fn event_of(name: &str) -> (r: HookEvent)
    ensures
        r == event_named(name@),
{
    if same(name, "SessionStart") {
        HookEvent::SessionStart
    } else if same(name, "UserPromptSubmit") {
        HookEvent::UserPromptSubmit
    } else if same(name, "PermissionRequest") {
        HookEvent::PermissionRequest
    } else if same(name, "Notification") {
        HookEvent::Notification
    } else if same(name, "SubagentStart") {
        HookEvent::SubagentStart
    } else if same(name, "SubagentStop") {
        HookEvent::SubagentStop
    } else if same(name, "PostToolBatch") {
        HookEvent::PostToolBatch
    } else if same(name, "Stop") {
        HookEvent::Stop
    } else if same(name, "StopFailure") {
        HookEvent::StopFailure
    } else if same(name, "SessionEnd") {
        HookEvent::SessionEnd
    } else {
        HookEvent::Other
    }
}

/// Whether the payload fired inside a subagent. The kind of agent does not tell: the main
/// thread can have one too.
fn fired_inside_subagent(p: &HookPayload) -> (r: bool)
    ensures
        r == inside_subagent(p@),
{
    non_empty(&p.agent_id).is_some()
}

/// Whether a notification means that the user is waited for.
fn notification_means_wait_user(notification_type: &Option<String>) -> (r: bool)
    ensures
        r == waits_for_user(opt_text(*notification_type)),
{
    !(is_text(notification_type, "auth_success") || is_text(
        notification_type,
        "elicitation_complete",
    ) || is_text(notification_type, "elicitation_response") || is_text(
        notification_type,
        "agent_completed",
    ))
}

fn new_session(session_id: &str, cwd: &str, now: u64) -> (r: Session)
    ensures
        r@ == fresh(session_id@, cwd@, now),
{
    Session {
        id: session_id.to_owned(),
        name: Session::name_from_cwd(cwd),
        title: None,
        cwd: cwd.to_owned(),
        state: SessionState::Idle,
        since: now,
        updated: now,
        agents: Vec::new(),
        main_stopped: false,
        error_kind: None,
        pid: None,
    }
}

/// The session that an event starts from. The owning process is not decided here.
fn base_session(prev: Option<Session>, session_id: &str, p: &HookPayload, now: u64) -> (r: Session)
    ensures
        r@ == base(opt_session(prev), session_id@, p@.cwd, now),
{
    match (&p.cwd, prev) {
        (Some(cwd), Some(prev)) => {
            let mut s = prev;
            s.cwd = cwd.clone();
            s.name = Session::name_from_cwd(cwd.as_str());
            s
        },
        (Some(cwd), None) => new_session(session_id, cwd.as_str(), now),
        (None, Some(prev)) => prev,
        (None, None) => {
            proof {
                reveal_strlit("");
                assert(""@ =~= Seq::<char>::empty());
            }
            new_session(session_id, "", now)
        },
    }
}

fn find_agent(agents: &Vec<Agent>, id: &str) -> (r: usize)
    ensures
        r == agent_index(agent_views(agents@), id@),
        r <= agents@.len(),
{
    let ghost views = agent_views(agents@);
    let mut i: usize = 0;
    assert(views.skip(0) == views);
    while i < agents.len()
        invariant
            i <= agents@.len(),
            views == agent_views(agents@),
            i + agent_index(views.skip(i as int), id@) == agent_index(views, id@),
        decreases agents@.len() - i,
    {
        assert(views.skip(i as int)[0] == agents@[i as int]@);
        if same(agents[i].id.as_str(), id) {
            return i;
        }
        assert(views.skip(i as int).drop_first() == views.skip(i + 1));
        i += 1;
    }
    i
}

fn reduce_subagent_start(base: Session, p: &HookPayload, now: u64) -> (r: Session)
    ensures
        r@ == with_state(
            (SessionView { agents: agents_after_start(base@.agents, p@), ..base@ }),
            SessionState::WaitAgent,
            now,
        ),
{
    let mut s = base;
    let id = non_empty(&p.agent_id);
    let known = match &id {
        Some(id) => find_agent(&s.agents, id.as_str()) < s.agents.len(),
        None => false,
    };
    if !known && s.agents.len() < MAX_AGENTS {
        let name = match non_empty(&p.agent_type) {
            Some(kind) => kind,
            None => "agent".to_owned(),
        };
        let id = match id {
            Some(id) => id,
            None => String::new(),
        };
        let ghost before = s.agents@;
        let agent = Agent { name, role: String::new(), state: SessionState::Working, id };
        s.agents.push(agent);
        assert(agent_views(s.agents@) =~= agent_views(before).push(announced(p@)));
    }
    s.set_state(SessionState::WaitAgent, now);
    s
}

fn remove_agent_by_id(agents: &mut Vec<Agent>, agent_id: &Option<String>)
    ensures
        agent_views(final(agents)@) == agents_after_stop(
            agent_views(old(agents)@),
            opt_text(*agent_id),
        ),
{
    if let Some(id) = non_empty(agent_id) {
        let pos = find_agent(agents, id.as_str());
        if pos < agents.len() {
            let ghost before = agents@;
            agents.remove(pos);
            assert(agent_views(agents@) =~= agent_views(before).remove(pos as int));
        }
    }
}

fn reduce_subagent_stop(base: Session, p: &HookPayload, now: u64) -> (r: Session)
    ensures
        r@ == after_subagent_stop(base@, p@.agent_id, now),
{
    let mut s = base;
    remove_agent_by_id(&mut s.agents, &p.agent_id);
    if s.agents.len() == 0 && s.state == SessionState::WaitAgent {
        let next = if s.main_stopped {
            SessionState::Done
        } else {
            SessionState::Working
        };
        s.set_state(next, now);
    } else {
        s.updated = now;
    }
    s
}

/// Whether a background task is an agent that still runs.
fn is_running_agent_task(t: &BackgroundTask) -> (r: bool)
    ensures
        r == is_running_agent(t@),
{
    let kind_is_agent = is_text(&t.kind, "subagent") || is_text(&t.kind, "teammate");
    let running = match &t.status {
        Some(s) => same(s.as_str(), "running") || same(s.as_str(), "pending"),
        None => true,
    };
    kind_is_agent && running
}

fn agent_of_task(t: &BackgroundTask, id: String, agents: &Vec<Agent>) -> (r: Agent)
    ensures
        r@ == task_agent(t@, id@, agent_views(agents@)),
{
    let i = find_agent(agents, id.as_str());
    let found = i < agents.len();
    assert(found ==> agent_views(agents@)[i as int] == agents@[i as int]@);
    let name = if found {
        agents[i].name.clone()
    } else {
        match non_empty(&t.agent_type) {
            Some(kind) => kind,
            None => match non_empty(&t.kind) {
                Some(kind) => kind,
                None => "agent".to_owned(),
            },
        }
    };
    let role = match non_empty(&t.description) {
        Some(role) => role,
        None => if found {
            agents[i].role.clone()
        } else {
            String::new()
        },
    };
    let state = if found {
        agents[i].state
    } else {
        SessionState::Working
    };
    Agent { name, role, state, id }
}

/// Rebuilds the agents from the background tasks of a `Stop` and says whether any still runs.
fn reconcile_agents(agents: &mut Vec<Agent>, tasks: &Option<Vec<BackgroundTask>>) -> (r: bool)
    ensures
        agent_views(final(agents)@) == agents_left(
            agent_views(old(agents)@),
            match *tasks {
                Some(v) => Some(task_views(v@)),
                None => None,
            },
        ),
        r == (final(agents)@.len() > 0),
{
    let mut next: Vec<Agent> = Vec::new();
    if let Some(tasks) = tasks {
        let ghost known = agent_views(agents@);
        let ghost all = task_views(tasks@);
        let mut i: usize = 0;
        assert(agent_views(next@) =~= task_agents(all.take(0), known));
        while i < tasks.len()
            invariant
                i <= tasks@.len(),
                known == agent_views(agents@),
                all == task_views(tasks@),
                agent_views(next@) == task_agents(all.take(i as int), known),
            decreases tasks@.len() - i,
        {
            let t = &tasks[i];
            assert(all.take(i + 1).drop_last() == all.take(i as int));
            assert(all.take(i + 1).last() == t@);
            if is_running_agent_task(t) {
                if let Some(id) = non_empty(&t.id) {
                    if next.len() < MAX_AGENTS {
                        let ghost before = next@;
                        let agent = agent_of_task(t, id, agents);
                        let ghost added = agent@;
                        next.push(agent);
                        assert(agent_views(next@) =~= agent_views(before).push(added));
                    }
                }
            }
            i += 1;
        }
        assert(all.take(all.len() as int) == all);
    } else {
        assert(agent_views(next@) =~= Seq::<AgentView>::empty());
    }
    *agents = next;
    agents.len() > 0
}

/// Decides what becomes of a session. `now` is in milliseconds since the epoch. `error` says
/// whether the transcript's last turn ended in an error; it matters for `Stop` only.
pub fn reduce(prev: Option<Session>, p: &HookPayload, now: u64, error: bool) -> (r: Outcome)
    ensures
        r@ == reduced(opt_session(prev), p@, now, error),
{
    let session_id = match non_empty(&p.session_id) {
        Some(id) => id,
        None => {
            return Outcome::Ignore;
        },
    };
    let event = match &p.hook_event_name {
        Some(e) => event_of(e.as_str()),
        None => {
            return Outcome::Ignore;
        },
    };
    if fired_inside_subagent(p) && event != HookEvent::SubagentStart && event
        != HookEvent::SubagentStop {
        return Outcome::Ignore;
    }
    let mut s = base_session(prev, session_id.as_str(), p, now);
    match event {
        HookEvent::SessionStart => {
            s.updated = now;
            Outcome::Upsert(s)
        },
        HookEvent::UserPromptSubmit => {
            s.agents = Vec::new();
            assert(agent_views(s.agents@) =~= Seq::<AgentView>::empty());
            s.main_stopped = false;
            s.set_state(SessionState::Working, now);
            Outcome::Upsert(s)
        },
        HookEvent::PermissionRequest => {
            s.set_state(SessionState::WaitUser, now);
            Outcome::Upsert(s)
        },
        HookEvent::Notification => {
            if !notification_means_wait_user(&p.notification_type) {
                return Outcome::Ignore;
            }
            if is_text(&p.notification_type, "idle_prompt") && s.agents.len() > 0 {
                return Outcome::Ignore;
            }
            s.set_state(SessionState::WaitUser, now);
            Outcome::Upsert(s)
        },
        HookEvent::SubagentStart => Outcome::Upsert(reduce_subagent_start(s, p, now)),
        HookEvent::SubagentStop => Outcome::Upsert(reduce_subagent_stop(s, p, now)),
        HookEvent::PostToolBatch => {
            s.main_stopped = false;
            if s.state == SessionState::WaitUser {
                s.set_state(SessionState::Working, now);
            } else {
                s.updated = now;
            }
            Outcome::Upsert(s)
        },
        HookEvent::Stop => {
            s.main_stopped = true;
            let still_running = reconcile_agents(&mut s.agents, &p.background_tasks);
            if error {
                s.set_error(None, now);
            } else if still_running {
                s.set_state(SessionState::WaitAgent, now);
            } else {
                s.set_state(SessionState::Done, now);
            }
            Outcome::Upsert(s)
        },
        HookEvent::StopFailure => {
            s.main_stopped = true;
            s.set_error(non_empty(&p.error), now);
            Outcome::Upsert(s)
        },
        HookEvent::SessionEnd => Outcome::Remove(session_id),
        HookEvent::Other => Outcome::Ignore,
    }
}

// ---- laws -----------------------------------------------------------------------------------

/// A payload that names a session and an event.
pub open spec fn is_about(p: PayloadView, event: HookEvent) -> bool {
    filled(p.session_id) is Some && p.hook_event_name is Some && event_named(
        p.hook_event_name->0,
    ) == event
}

/// The names of the events are read as the events.
pub proof fn law_event_names()
    ensures
        event_named("SessionStart"@) == HookEvent::SessionStart,
        event_named("UserPromptSubmit"@) == HookEvent::UserPromptSubmit,
        event_named("PermissionRequest"@) == HookEvent::PermissionRequest,
        event_named("Notification"@) == HookEvent::Notification,
        event_named("SubagentStart"@) == HookEvent::SubagentStart,
        event_named("SubagentStop"@) == HookEvent::SubagentStop,
        event_named("PostToolBatch"@) == HookEvent::PostToolBatch,
        event_named("Stop"@) == HookEvent::Stop,
        event_named("StopFailure"@) == HookEvent::StopFailure,
        event_named("SessionEnd"@) == HookEvent::SessionEnd,
{
    reveal_strlit("SessionStart");
    reveal_strlit("UserPromptSubmit");
    reveal_strlit("PermissionRequest");
    reveal_strlit("Notification");
    reveal_strlit("SubagentStart");
    reveal_strlit("SubagentStop");
    reveal_strlit("PostToolBatch");
    reveal_strlit("Stop");
    reveal_strlit("StopFailure");
    reveal_strlit("SessionEnd");
    assert("SessionStart"@.len() == 12 && "Notification"@.len() == 12 && "SubagentStop"@.len()
        == 12);
    assert("SessionStart"@[1] == 'e' && "Notification"@[0] == 'N' && "SubagentStop"@[1] == 'u');
    assert("SubagentStart"@.len() == 13 && "PostToolBatch"@.len() == 13);
    assert("SubagentStart"@[0] == 'S' && "PostToolBatch"@[0] == 'P');
    assert("UserPromptSubmit"@.len() == 16 && "PermissionRequest"@.len() == 17);
    assert("Stop"@.len() == 4 && "StopFailure"@.len() == 11 && "SessionEnd"@.len() == 10);
}

/// Events from inside a subagent leave the session alone, unless they are about a subagent.
pub proof fn law_subagent_events_do_not_touch_the_parent(
    prev: Option<SessionView>,
    p: PayloadView,
    now: u64,
    error: bool,
)
    requires
        inside_subagent(p),
        !is_about(p, HookEvent::SubagentStart),
        !is_about(p, HookEvent::SubagentStop),
    ensures
        reduced(prev, p, now, error) is Ignore,
{
}

/// An event never changes whose session it is: the id, the title and the owning process stay.
/// A new session takes the payload's id and has no title and no process.
pub proof fn law_identity_is_kept(
    prev: Option<SessionView>,
    p: PayloadView,
    now: u64,
    error: bool,
)
    ensures
        reduced(prev, p, now, error) matches OutcomeView::Upsert(s) ==> match prev {
            Some(before) => s.id == before.id && s.title == before.title && s.pid == before.pid,
            None => Some(s.id) == p.session_id && s.title is None && s.pid is None,
        },
{
}

/// Whatever is written was updated now.
pub proof fn law_updated_is_now(
    prev: Option<SessionView>,
    p: PayloadView,
    now: u64,
    error: bool,
)
    ensures
        reduced(prev, p, now, error) matches OutcomeView::Upsert(s) ==> s.updated == now,
{
}

/// The time of a state moves only with the state.
pub proof fn law_since_moves_only_with_the_state(
    before: SessionView,
    p: PayloadView,
    now: u64,
    error: bool,
)
    ensures
        reduced(Some(before), p, now, error) matches OutcomeView::Upsert(s) ==> if s.state
            == before.state {
            s.since == before.since
        } else {
            s.since == now
        },
{
}

/// Only the state `Error` has a kind of error, after every event.
pub proof fn law_error_kind_fits_after_every_event(
    prev: Option<SessionView>,
    p: PayloadView,
    now: u64,
    error: bool,
)
    requires
        prev matches Some(before) ==> error_kind_fits(before),
    ensures
        reduced(prev, p, now, error) matches OutcomeView::Upsert(s) ==> error_kind_fits(s),
{
}

proof fn lemma_task_agents_bounded(tasks: Seq<TaskView>, known: Seq<AgentView>)
    ensures
        task_agents(tasks, known).len() <= MAX_AGENTS,
    decreases tasks.len(),
{
    if tasks.len() > 0 {
        lemma_task_agents_bounded(tasks.drop_last(), known);
    }
}

/// No session ever holds more agents than the limit.
pub proof fn law_agents_stay_within_the_limit(
    prev: Option<SessionView>,
    p: PayloadView,
    now: u64,
    error: bool,
)
    requires
        prev matches Some(before) ==> before.agents.len() <= MAX_AGENTS,
    ensures
        reduced(prev, p, now, error) matches OutcomeView::Upsert(s) ==> s.agents.len()
            <= MAX_AGENTS,
{
    if p.hook_event_name is Some && filled(p.session_id) is Some {
        let s = base(prev, filled(p.session_id)->0, p.cwd, now);
        match p.background_tasks {
            Some(tasks) => lemma_task_agents_bounded(tasks, s.agents),
            None => {},
        }
        assert(agents_after_stop(s.agents, p.agent_id).len() <= s.agents.len()) by {
            if filled(p.agent_id) is Some {
                lemma_agent_index(s.agents, filled(p.agent_id)->0);
            }
        }
    }
}

proof fn lemma_agent_index(agents: Seq<AgentView>, id: Seq<char>)
    ensures
        0 <= agent_index(agents, id) <= agents.len(),
        agent_index(agents, id) < agents.len() ==> agents[agent_index(agents, id)].id == id,
        forall|k: int| 0 <= k < agent_index(agents, id) ==> (#[trigger] agents[k]).id != id,
    decreases agents.len(),
{
    if agents.len() > 0 && agents[0].id != id {
        let rest = agents.drop_first();
        lemma_agent_index(rest, id);
        assert forall|k: int| 0 <= k < agent_index(agents, id) implies (#[trigger] agents[k]).id
            != id by {
            if k > 0 {
                assert(agents[k] == rest[k - 1]);
            }
        }
    }
}

proof fn lemma_agent_index_of_last(agents: Seq<AgentView>, added: AgentView)
    requires
        agent_index(agents, added.id) == agents.len(),
    ensures
        agent_index(agents.push(added), added.id) == agents.len(),
{
    let more = agents.push(added);
    lemma_agent_index(agents, added.id);
    lemma_agent_index(more, added.id);
    let i = agent_index(more, added.id);
    if i < agents.len() {
        assert(more[i] == agents[i]);
    }
    assert(more[agents.len() as int].id == added.id);
}

/// A `SubagentStart` that comes twice counts once, as long as it names the agent.
pub proof fn law_subagent_start_is_idempotent(agents: Seq<AgentView>, p: PayloadView)
    requires
        filled(p.agent_id) is Some,
    ensures
        agents_after_start(agents_after_start(agents, p), p) == agents_after_start(agents, p),
{
    let id = filled(p.agent_id)->0;
    lemma_agent_index(agents, id);
    if agent_index(agents, id) == agents.len() && agents.len() < MAX_AGENTS {
        lemma_agent_index_of_last(agents, announced(p));
    }
}

/// Stopping the agent that was just started gives back the agents from before.
pub proof fn law_stop_undoes_start(agents: Seq<AgentView>, p: PayloadView)
    requires
        filled(p.agent_id) is Some,
        agents.len() < MAX_AGENTS,
        agent_index(agents, filled(p.agent_id)->0) == agents.len(),
    ensures
        agents_after_stop(agents_after_start(agents, p), p.agent_id) == agents,
{
    lemma_agent_index_of_last(agents, announced(p));
    assert(agents.push(announced(p)).remove(agents.len() as int) =~= agents);
}

/// A stop removes one agent with the id if there is one, and otherwise none. The others stay
/// in their order.
pub proof fn law_a_stop_removes_only_its_own_agent(agents: Seq<AgentView>, id: Option<Seq<char>>)
    ensures
        ({
            let left = agents_after_stop(agents, id);
            ||| left == agents && (filled(id) matches Some(id) ==> forall|k: int|
                0 <= k < agents.len() ==> (#[trigger] agents[k]).id != id)
            ||| exists|i: int|
                0 <= i < agents.len() && filled(id) == Some((#[trigger] agents[i]).id) && left
                    == agents.remove(i)
        }),
{
    if filled(id) is Some {
        lemma_agent_index(agents, filled(id)->0);
        let i = agent_index(agents, filled(id)->0);
        if i < agents.len() {
            assert(agents[i].id == filled(id)->0);
        }
    }
}

/// Every agent that is left after a `Stop` stands for a running background task with its id.
pub proof fn law_reconciled_agents_are_running(
    tasks: Seq<TaskView>,
    known: Seq<AgentView>,
    i: int,
)
    requires
        0 <= i < task_agents(tasks, known).len(),
    ensures
        exists|k: int|
            0 <= k < tasks.len() && is_running_agent(#[trigger] tasks[k]) && filled(tasks[k].id)
                == Some(task_agents(tasks, known)[i].id),
    decreases tasks.len(),
{
    let shorter = tasks.drop_last();
    let before = task_agents(shorter, known);
    if i < before.len() {
        law_reconciled_agents_are_running(shorter, known, i);
        let k = choose|k: int|
            0 <= k < shorter.len() && is_running_agent(#[trigger] shorter[k]) && filled(
                shorter[k].id,
            ) == Some(before[i].id);
        assert(tasks[k] == shorter[k]);
    } else {
        assert(tasks.last() == tasks[tasks.len() - 1]);
    }
}

/// Below the limit no running background task that has an id is missed.
pub proof fn law_no_running_task_is_missed(
    tasks: Seq<TaskView>,
    known: Seq<AgentView>,
    k: int,
)
    requires
        0 <= k < tasks.len(),
        is_running_agent(tasks[k]),
        filled(tasks[k].id) is Some,
        task_agents(tasks, known).len() < MAX_AGENTS,
    ensures
        exists|i: int|
            0 <= i < task_agents(tasks, known).len() && filled(tasks[k].id) == Some(
                (#[trigger] task_agents(tasks, known)[i]).id,
            ),
    decreases tasks.len(),
{
    let shorter = tasks.drop_last();
    let before = task_agents(shorter, known);
    let after = task_agents(tasks, known);
    if k < shorter.len() {
        assert(shorter[k] == tasks[k]);
        law_no_running_task_is_missed(shorter, known, k);
        let i = choose|i: int|
            0 <= i < before.len() && filled(shorter[k].id) == Some((#[trigger] before[i]).id);
        assert(after[i] == before[i]);
    } else {
        assert(after[before.len() as int].id == filled(tasks[k].id)->0);
    }
}

/// After a `Stop` without an error the session waits for its agents exactly if any still runs,
/// and is done otherwise.
pub proof fn law_a_stop_is_done_only_without_agents(
    prev: Option<SessionView>,
    p: PayloadView,
    now: u64,
)
    requires
        is_about(p, HookEvent::Stop),
        !inside_subagent(p),
    ensures
        reduced(prev, p, now, false) matches OutcomeView::Upsert(s) && s.main_stopped && s.state
            == if s.agents.len() > 0 {
            SessionState::WaitAgent
        } else {
            SessionState::Done
        },
{
}

/// A failed turn is an error with its kind and keeps the agents.
pub proof fn law_a_failed_turn_keeps_the_agents(
    before: SessionView,
    p: PayloadView,
    now: u64,
    error: bool,
)
    requires
        is_about(p, HookEvent::StopFailure),
        !inside_subagent(p),
    ensures
        reduced(Some(before), p, now, error) matches OutcomeView::Upsert(s) && s.agents
            == before.agents && s.state == SessionState::Error && s.error_kind == filled(p.error),
{
}

/// The timer for a user who does nothing does not hide agents that run.
pub proof fn law_an_idle_prompt_does_not_hide_running_agents(
    before: SessionView,
    p: PayloadView,
    now: u64,
    error: bool,
)
    requires
        is_about(p, HookEvent::Notification),
        is_idle_prompt(p.notification_type),
        before.agents.len() > 0,
    ensures
        reduced(Some(before), p, now, error) is Ignore,
{
}

/// A new turn starts without agents, as work in progress.
pub proof fn law_a_new_turn_starts_clean(
    prev: Option<SessionView>,
    p: PayloadView,
    now: u64,
    error: bool,
)
    requires
        is_about(p, HookEvent::UserPromptSubmit),
        !inside_subagent(p),
    ensures
        reduced(prev, p, now, error) matches OutcomeView::Upsert(s) && s.agents.len() == 0
            && s.state == SessionState::Working && !s.main_stopped && s.error_kind is None,
{
}

/// What the transcript says matters at a `Stop` and nowhere else.
pub proof fn law_the_transcript_matters_at_a_stop_only(
    prev: Option<SessionView>,
    p: PayloadView,
    now: u64,
)
    requires
        !is_about(p, HookEvent::Stop),
    ensures
        reduced(prev, p, now, true) == reduced(prev, p, now, false),
{
}

/// The end of a session removes its file, whatever came before.
pub proof fn law_the_end_removes_the_session(
    prev: Option<SessionView>,
    p: PayloadView,
    now: u64,
    error: bool,
)
    requires
        is_about(p, HookEvent::SessionEnd),
        !inside_subagent(p),
    ensures
        reduced(prev, p, now, error) == OutcomeView::Remove(p.session_id->0),
{
}

// ---- what each event does -------------------------------------------------------------------

/// Whether a payload reports an event of this name for a session, from the session itself and
/// not from inside a subagent.
pub open spec fn reports(p: PayloadView, name: Seq<char>) -> bool {
    &&& p.session_id matches Some(id) && id.len() > 0
    &&& p.hook_event_name == Some(name)
    &&& p.agent_id matches Some(agent) ==> agent.len() == 0
}

/// Whether a payload reports an event of this name about an agent of a session.
pub open spec fn reports_agent(p: PayloadView, name: Seq<char>) -> bool {
    &&& p.session_id matches Some(id) && id.len() > 0
    &&& p.hook_event_name == Some(name)
}

/// The agents of the session so far; a new session has none.
pub open spec fn agents_so_far(prev: Option<SessionView>) -> Seq<AgentView> {
    match prev {
        Some(before) => before.agents,
        None => Seq::empty(),
    }
}

/// Whether the main thread of the session so far has stopped; that of a new session has not.
pub open spec fn stopped_so_far(prev: Option<SessionView>) -> bool {
    prev matches Some(before) && before.main_stopped
}

/// The state of the session so far; a new session is idle.
pub open spec fn state_so_far(prev: Option<SessionView>) -> SessionState {
    match prev {
        Some(before) => before.state,
        None => SessionState::Idle,
    }
}

/// A payload without a session, or without an event, means nothing.
pub proof fn law_an_incomplete_payload_means_nothing(
    prev: Option<SessionView>,
    p: PayloadView,
    now: u64,
    error: bool,
)
    requires
        p.session_id is None || p.session_id->0.len() == 0 || p.hook_event_name is None,
    ensures
        reduced(prev, p, now, error) is Ignore,
{
}

/// An event of any other name means nothing.
pub proof fn law_other_events_mean_nothing(
    prev: Option<SessionView>,
    p: PayloadView,
    now: u64,
    error: bool,
)
    requires
        p.hook_event_name matches Some(name) && name != "SessionStart"@ && name
            != "UserPromptSubmit"@ && name != "PermissionRequest"@ && name != "Notification"@
            && name != "SubagentStart"@ && name != "SubagentStop"@ && name != "PostToolBatch"@
            && name != "Stop"@ && name != "StopFailure"@ && name != "SessionEnd"@,
    ensures
        reduced(prev, p, now, error) is Ignore,
{
}

/// An event from inside a subagent means nothing, whatever it is, unless it is about an agent.
pub proof fn law_a_subagent_speaks_only_of_agents(
    prev: Option<SessionView>,
    p: PayloadView,
    now: u64,
    error: bool,
)
    requires
        p.agent_id matches Some(agent) && agent.len() > 0,
        p.hook_event_name != Some("SubagentStart"@),
        p.hook_event_name != Some("SubagentStop"@),
    ensures
        reduced(prev, p, now, error) is Ignore,
{
    law_event_names();
}

/// A session stands in the directory that the payload names, under the name of that directory,
/// and otherwise in the one that it stood in. A new session that is in no directory has an
/// unknown name.
pub proof fn law_the_directory_follows_the_payload(
    prev: Option<SessionView>,
    p: PayloadView,
    now: u64,
    error: bool,
)
    ensures
        reduced(prev, p, now, error) matches OutcomeView::Upsert(s) ==> match p.cwd {
            Some(dir) => s.cwd == dir && s.name == base_name(dir),
            None => match prev {
                Some(before) => s.cwd == before.cwd && s.name == before.name,
                None => s.cwd.len() == 0 && s.name == base_name(Seq::empty()),
            },
        },
{
}

/// The start of a session makes a new one idle, without agents. A session that is there goes on
/// as it was.
pub proof fn law_a_start_changes_no_session(
    prev: Option<SessionView>,
    p: PayloadView,
    now: u64,
    error: bool,
)
    requires
        reports(p, "SessionStart"@),
    ensures
        reduced(prev, p, now, error) matches OutcomeView::Upsert(s) && s.state == state_so_far(prev)
            && s.agents == agents_so_far(prev) && s.main_stopped == stopped_so_far(prev)
            && match prev {
            Some(before) => s.since == before.since && s.error_kind == before.error_kind,
            None => s.since == now && s.error_kind is None,
        },
{
    law_event_names();
}

/// A prompt of the user starts a turn: the session works, and no agent of an earlier turn is
/// left.
pub proof fn law_a_prompt_starts_the_work(
    prev: Option<SessionView>,
    p: PayloadView,
    now: u64,
    error: bool,
)
    requires
        reports(p, "UserPromptSubmit"@),
    ensures
        reduced(prev, p, now, error) matches OutcomeView::Upsert(s) && s.state
            == SessionState::Working && s.agents.len() == 0 && !s.main_stopped && s.error_kind is
            None && s.since == if state_so_far(prev) == SessionState::Working {
            prev->0.since
        } else {
            now
        },
{
    law_event_names();
}

/// A request for permission needs the user, whatever the session did and whether or not agents
/// run. The agents and the end of the main thread stay as they were.
pub proof fn law_a_permission_request_needs_the_user(
    prev: Option<SessionView>,
    p: PayloadView,
    now: u64,
    error: bool,
)
    requires
        reports(p, "PermissionRequest"@),
    ensures
        reduced(prev, p, now, error) matches OutcomeView::Upsert(s) && s.state
            == SessionState::WaitUser && s.agents == agents_so_far(prev) && s.main_stopped
            == stopped_so_far(prev) && s.error_kind is None && s.since == if state_so_far(prev)
            == SessionState::WaitUser {
            prev->0.since
        } else {
            now
        },
{
    law_event_names();
}

/// A notification needs the user, unless it is known to mean something else; a kind that nobody
/// knows, or none, does too. The timer for a user who does nothing counts only while no agent
/// runs. The agents and the end of the main thread stay as they were.
pub proof fn law_a_notification_needs_the_user(
    prev: Option<SessionView>,
    p: PayloadView,
    now: u64,
    error: bool,
)
    requires
        reports(p, "Notification"@),
        p.notification_type != Some("auth_success"@),
        p.notification_type != Some("elicitation_complete"@),
        p.notification_type != Some("elicitation_response"@),
        p.notification_type != Some("agent_completed"@),
        p.notification_type != Some("idle_prompt"@) || agents_so_far(prev).len() == 0,
    ensures
        reduced(prev, p, now, error) matches OutcomeView::Upsert(s) && s.state
            == SessionState::WaitUser && s.agents == agents_so_far(prev) && s.main_stopped
            == stopped_so_far(prev) && s.error_kind is None,
{
    law_event_names();
}

/// A notification that only brings news changes nothing, and neither does the timer for a user
/// who does nothing while agents run.
pub proof fn law_news_changes_nothing(
    prev: Option<SessionView>,
    p: PayloadView,
    now: u64,
    error: bool,
)
    requires
        p.hook_event_name == Some("Notification"@),
        p.notification_type == Some("auth_success"@) || p.notification_type == Some(
            "elicitation_complete"@,
        ) || p.notification_type == Some("elicitation_response"@) || p.notification_type == Some(
            "agent_completed"@,
        ) || (p.notification_type == Some("idle_prompt"@) && agents_so_far(prev).len() > 0),
    ensures
        reduced(prev, p, now, error) is Ignore,
{
    law_event_names();
}

/// An agent that starts is waited for. It comes last, at work, under its kind and with its id.
/// One that is there already, or that would be one too many, changes no agent. The end of the
/// main thread stays as it was.
pub proof fn law_an_agent_that_starts_is_waited_for(
    prev: Option<SessionView>,
    p: PayloadView,
    now: u64,
    error: bool,
)
    requires
        reports_agent(p, "SubagentStart"@),
    ensures
        reduced(prev, p, now, error) matches OutcomeView::Upsert(s) && s.state
            == SessionState::WaitAgent && s.error_kind is None && s.main_stopped == stopped_so_far(
            prev,
        ) && if agents_so_far(prev).len() >= 32 || (p.agent_id matches Some(id) && id.len() > 0
            && exists|k: int|
            0 <= k < agents_so_far(prev).len() && (#[trigger] agents_so_far(prev)[k]).id == id) {
            s.agents == agents_so_far(prev)
        } else {
            &&& s.agents.len() == agents_so_far(prev).len() + 1
            &&& s.agents.drop_last() == agents_so_far(prev)
            &&& s.agents.last().state == SessionState::Working
            &&& s.agents.last().role.len() == 0
            &&& s.agents.last().id == match p.agent_id {
                Some(id) => id,
                None => Seq::empty(),
            }
            &&& s.agents.last().name == if p.agent_type is Some && p.agent_type->0.len() > 0 {
                p.agent_type->0
            } else {
                "agent"@
            }
        },
{
    law_event_names();
    let agents = agents_so_far(prev);
    if p.agent_id is Some && p.agent_id->0.len() > 0 {
        let id = p.agent_id->0;
        lemma_agent_index(agents, id);
        if agent_index(agents, id) < agents.len() {
            assert(agents[agent_index(agents, id)].id == id);
        }
    }
    assert(agents.push(announced(p)).drop_last() =~= agents);
    if p.agent_id is Some && p.agent_id->0.len() == 0 {
        assert(p.agent_id->0 =~= Seq::<char>::empty());
    }
}

/// An agent that stops leaves the session; the others stay. Once the last one that was waited
/// for is gone, the session is done if its main thread has stopped, and works otherwise. In any
/// other case the state stays.
pub proof fn law_an_agent_that_stops_leaves(
    prev: Option<SessionView>,
    p: PayloadView,
    now: u64,
    error: bool,
    k: int,
)
    requires
        reports_agent(p, "SubagentStop"@),
        p.agent_id matches Some(id) && id.len() > 0,
        0 <= k < agents_so_far(prev).len(),
        agents_so_far(prev)[k].id == p.agent_id->0,
        forall|i: int| 0 <= i < k ==> (#[trigger] agents_so_far(prev)[i]).id != p.agent_id->0,
    ensures
        reduced(prev, p, now, error) matches OutcomeView::Upsert(s) && s.agents == agents_so_far(
            prev,
        ).remove(k) && s.main_stopped == stopped_so_far(prev) && s.state == if state_so_far(prev)
            == SessionState::WaitAgent && agents_so_far(prev).len() == 1 {
            if stopped_so_far(prev) {
                SessionState::Done
            } else {
                SessionState::Working
            }
        } else {
            state_so_far(prev)
        },
{
    law_event_names();
    lemma_agent_index(agents_so_far(prev), p.agent_id->0);
}

/// The stop of an agent that the session does not have, or that is not named, removes no agent.
/// A session that waits for agents without having one goes on, or is done if its main thread has
/// stopped.
pub proof fn law_an_unknown_agent_cannot_leave(
    prev: Option<SessionView>,
    p: PayloadView,
    now: u64,
    error: bool,
)
    requires
        reports_agent(p, "SubagentStop"@),
        p.agent_id matches Some(id) ==> id.len() == 0 || forall|i: int|
            0 <= i < agents_so_far(prev).len() ==> (#[trigger] agents_so_far(prev)[i]).id != id,
    ensures
        reduced(prev, p, now, error) matches OutcomeView::Upsert(s) && s.agents == agents_so_far(
            prev,
        ) && s.main_stopped == stopped_so_far(prev) && s.state == if state_so_far(prev)
            == SessionState::WaitAgent && agents_so_far(prev).len() == 0 {
            if stopped_so_far(prev) {
                SessionState::Done
            } else {
                SessionState::Working
            }
        } else {
            state_so_far(prev)
        },
{
    law_event_names();
    if p.agent_id is Some {
        lemma_agent_index(agents_so_far(prev), p.agent_id->0);
    }
}

/// Tools that ran show that the turn goes on: a session that needed the user works again, any
/// other keeps its state, and the agents stay.
pub proof fn law_tools_that_ran_end_the_wait_for_the_user(
    prev: Option<SessionView>,
    p: PayloadView,
    now: u64,
    error: bool,
)
    requires
        reports(p, "PostToolBatch"@),
    ensures
        reduced(prev, p, now, error) matches OutcomeView::Upsert(s) && !s.main_stopped && s.agents
            == agents_so_far(prev) && s.state == if state_so_far(prev) == SessionState::WaitUser {
            SessionState::Working
        } else {
            state_so_far(prev)
        },
{
    law_event_names();
}

/// The end of a turn: an error if the transcript says so, without a kind; otherwise the session
/// waits for the agents that still run, and is done if there are none. A sender that does not
/// tell which agents run leaves none, and neither does one that lists nothing.
pub proof fn law_the_end_of_a_turn(
    prev: Option<SessionView>,
    p: PayloadView,
    now: u64,
    error: bool,
)
    requires
        reports(p, "Stop"@),
    ensures
        reduced(prev, p, now, error) matches OutcomeView::Upsert(s) && s.main_stopped
            && s.error_kind is None && s.state == if error {
            SessionState::Error
        } else if s.agents.len() > 0 {
            SessionState::WaitAgent
        } else {
            SessionState::Done
        } && match p.background_tasks {
            Some(tasks) => s.agents == task_agents(tasks, agents_so_far(prev)),
            None => s.agents.len() == 0,
        },
        p.background_tasks matches Some(tasks) && tasks.len() == 0 ==> (reduced(
            prev,
            p,
            now,
            error,
        ) matches OutcomeView::Upsert(s) && s.agents.len() == 0),
{
    law_event_names();
}

/// A turn that failed: an error of the kind that the payload gives, unless it is empty. The
/// agents stay, since nothing is said of them.
pub proof fn law_the_failure_of_a_turn(
    prev: Option<SessionView>,
    p: PayloadView,
    now: u64,
    error: bool,
)
    requires
        reports(p, "StopFailure"@),
    ensures
        reduced(prev, p, now, error) matches OutcomeView::Upsert(s) && s.state
            == SessionState::Error && s.main_stopped && s.agents == agents_so_far(prev)
            && s.error_kind == if p.error is Some && p.error->0.len() > 0 {
            p.error
        } else {
            None
        },
{
    law_event_names();
}

/// The end of a session removes it under the id of the payload.
pub proof fn law_the_end_of_a_session(
    prev: Option<SessionView>,
    p: PayloadView,
    now: u64,
    error: bool,
)
    requires
        reports(p, "SessionEnd"@),
    ensures
        reduced(prev, p, now, error) == OutcomeView::Remove(p.session_id->0),
{
    law_event_names();
}

/// Whether a text is there and says something.
pub open spec fn has_words(t: Option<Seq<char>>) -> bool {
    t is Some && t->0.len() > 0
}

/// Whether a task is one that a session waits for: an agent with an id that runs or is about to.
/// A task that does not say so counts as running.
pub open spec fn is_awaited(t: TaskView) -> bool {
    &&& t.id matches Some(id) && id.len() > 0
    &&& t.kind == Some("subagent"@) || t.kind == Some("teammate"@)
    &&& t.status is None || t.status == Some("running"@) || t.status == Some("pending"@)
}

/// A task that is awaited gives one agent, and any other none. The agent has the id of the task.
/// Its role is the description of the task, or else the role it had. Its name and its state are
/// those that it had; otherwise it is at work, under its kind of agent, or its kind of task.
pub proof fn law_one_task_gives_one_agent(t: TaskView, known: Seq<AgentView>)
    ensures
        !is_awaited(t) ==> task_agents(seq![t], known).len() == 0,
        is_awaited(t) ==> {
            let agents = task_agents(seq![t], known);
            let a = agents[0];
            &&& agents.len() == 1
            &&& a.id == t.id->0
            &&& has_words(t.description) ==> a.role == t.description->0
            &&& (forall|i: int| 0 <= i < known.len() ==> (#[trigger] known[i]).id != a.id) ==> {
                &&& a.state == SessionState::Working
                &&& !has_words(t.description) ==> a.role.len() == 0
                &&& a.name == if t.agent_type is Some && t.agent_type->0.len() > 0 {
                    t.agent_type->0
                } else {
                    t.kind->0
                }
            }
            &&& forall|k: int|
                0 <= k < known.len() && (#[trigger] known[k]).id == a.id && (forall|i: int|
                    0 <= i < k ==> (#[trigger] known[i]).id != a.id) ==> {
                    &&& a.state == known[k].state
                    &&& a.name == known[k].name
                    &&& !has_words(t.description) ==> a.role
                        == known[k].role
                }
        },
{
    let one = seq![t];
    assert(one.drop_last() =~= Seq::<TaskView>::empty());
    assert(one.last() == t);
    reveal_strlit("subagent");
    reveal_strlit("teammate");
    assert("subagent"@.len() == 8 && "teammate"@.len() == 8);
    assert(task_agents(one.drop_last(), known) =~= Seq::<AgentView>::empty());
    if is_awaited(t) {
        lemma_agent_index(known, t.id->0);
        let i = agent_index(known, t.id->0);
        if i < known.len() {
            assert(known[i].id == t.id->0);
        }
    }
}

/// The agents of two lists of tasks, one behind the other, are those of the first and then those
/// of the second, up to the limit.
pub proof fn law_tasks_give_agents_in_their_order(
    one: Seq<TaskView>,
    two: Seq<TaskView>,
    known: Seq<AgentView>,
)
    ensures
        ({
            let all = task_agents(one, known) + task_agents(two, known);
            task_agents(one + two, known) == all.take(
                if all.len() < 32 {
                    all.len() as int
                } else {
                    32
                },
            )
        }),
    decreases two.len(),
{
    lemma_task_agents_bounded(one, known);
    lemma_task_agents_bounded(two, known);
    if two.len() == 0 {
        assert(one + two =~= one);
        assert(task_agents(one, known) + task_agents(two, known) =~= task_agents(one, known));
        assert(task_agents(one, known) =~= task_agents(one, known).take(
            task_agents(one, known).len() as int,
        ));
    } else {
        let shorter = two.drop_last();
        law_tasks_give_agents_in_their_order(one, shorter, known);
        assert((one + two).drop_last() =~= one + shorter);
        assert((one + two).last() == two.last());
        lemma_task_agents_bounded(shorter, known);
        let before = task_agents(one, known) + task_agents(shorter, known);
        let all = task_agents(one, known) + task_agents(two, known);
        if before.len() < 32 {
            assert(before.take(before.len() as int) =~= before);
            assert(task_agents(one + two, known) =~= all.take(
                if all.len() < 32 {
                    all.len() as int
                } else {
                    32
                },
            ));
        } else {
            assert(all.take(32) =~= before.take(32));
        }
    }
}

/// A session that an event makes begins with it, under the id of the payload.
pub proof fn law_a_new_session_begins_now(p: PayloadView, now: u64, error: bool)
    ensures
        reduced(None, p, now, error) matches OutcomeView::Upsert(s) ==> s.since == now && s.updated
            == now && Some(s.id) == p.session_id && s.pid is None && s.title is None,
{
}

} // verus!
