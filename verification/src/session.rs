//! The state of one session, and what is derived from it.
//!
//! Reading and writing session files is the business of `store`, the transitions caused by
//! hook events that of `event`.

use vstd::prelude::*;

use crate::lang::{l, Lang, L};
use crate::text::{
    after_last, before, decimal, decimal_text, digit, digit_char, find, first_index, from_chars,
    lemma_first_index, opt_text, same, strip_slashes, tail_after, to_chars, two_digits,
    without_trailing_slashes,
};

verus! {

/// What a session looks like on the display.
#[derive(Debug, Clone, Copy, PartialEq, Eq, Structural)]
pub enum SessionState {
    Working,
    WaitUser,
    WaitAgent,
    Done,
    Error,
    Idle,
}

/// The name of a state on the command line and in session files.
pub open spec fn state_name(s: SessionState) -> Seq<char> {
    match s {
        SessionState::Working => "working"@,
        SessionState::WaitUser => "wait_user"@,
        SessionState::WaitAgent => "wait_agent"@,
        SessionState::Idle => "idle"@,
        SessionState::Done => "done"@,
        SessionState::Error => "error"@,
    }
}

/// The label of a state on the screen.
pub open spec fn state_label(s: SessionState) -> L {
    match s {
        SessionState::Working => L { ja: "作業中", en: "Working" },
        SessionState::WaitUser => L { ja: "判断待ち", en: "Needs you" },
        SessionState::WaitAgent => L { ja: "エージェント待ち", en: "Agents running" },
        SessionState::Idle => L { ja: "アイドル", en: "Idle" },
        SessionState::Done => L { ja: "完了", en: "Done" },
        SessionState::Error => L { ja: "エラー", en: "Error" },
    }
}

/// The sign of a state.
pub open spec fn state_glyph(s: SessionState) -> Seq<char> {
    match s {
        SessionState::Working => "›"@,
        SessionState::WaitUser => "!"@,
        SessionState::WaitAgent => "⋯"@,
        SessionState::Idle => "z"@,
        SessionState::Done => "✓"@,
        SessionState::Error => "×"@,
    }
}

/// The state with this name, if there is one.
pub open spec fn state_named(name: Seq<char>) -> Option<SessionState> {
    if name == "working"@ {
        Some(SessionState::Working)
    } else if name == "wait_user"@ {
        Some(SessionState::WaitUser)
    } else if name == "wait_agent"@ {
        Some(SessionState::WaitAgent)
    } else if name == "idle"@ {
        Some(SessionState::Idle)
    } else if name == "done"@ {
        Some(SessionState::Done)
    } else if name == "error"@ {
        Some(SessionState::Error)
    } else {
        None
    }
}

impl SessionState {
    /// All states, in the order in which menus show them.
    pub const ORDER: [SessionState; 6] = [
        SessionState::Working,
        SessionState::WaitUser,
        SessionState::WaitAgent,
        SessionState::Idle,
        SessionState::Done,
        SessionState::Error,
    ];

    /// The name on the command line and in session files.
    pub fn as_str(&self) -> (r: &'static str)
        ensures
            r@ == state_name(*self),
    {
        match self {
            SessionState::Working => "working",
            SessionState::WaitUser => "wait_user",
            SessionState::WaitAgent => "wait_agent",
            SessionState::Idle => "idle",
            SessionState::Done => "done",
            SessionState::Error => "error",
        }
    }

    /// The state with this name. An unknown name is the caller's error, not `Idle`.
    pub fn from_str(s: &str) -> (r: Option<Self>)
        ensures
            r == state_named(s@),
    {
        if same(s, "working") {
            Some(SessionState::Working)
        } else if same(s, "wait_user") {
            Some(SessionState::WaitUser)
        } else if same(s, "wait_agent") {
            Some(SessionState::WaitAgent)
        } else if same(s, "idle") {
            Some(SessionState::Idle)
        } else if same(s, "done") {
            Some(SessionState::Done)
        } else if same(s, "error") {
            Some(SessionState::Error)
        } else {
            None
        }
    }

    /// The state that a stored session has under this name. A name that is not known yet, from a
    /// later version, counts as idle.
    pub fn stored(s: &str) -> (r: Self)
        ensures
            r == match state_named(s@) {
                Some(state) => state,
                None => SessionState::Idle,
            },
    {
        match SessionState::from_str(s) {
            Some(state) => state,
            None => SessionState::Idle,
        }
    }

    /// The name on the screen.
    pub fn label(&self, lang: Lang) -> (r: &'static str)
        ensures
            r == match lang {
                Lang::Ja => state_label(*self).ja,
                Lang::En => state_label(*self).en,
            },
    {
        let pair = match self {
            SessionState::Working => l("作業中", "Working"),
            SessionState::WaitUser => l("判断待ち", "Needs you"),
            SessionState::WaitAgent => l("エージェント待ち", "Agents running"),
            SessionState::Idle => l("アイドル", "Idle"),
            SessionState::Done => l("完了", "Done"),
            SessionState::Error => l("エラー", "Error"),
        };
        pair.get(lang)
    }

    /// The sign in the upper right corner.
    pub fn glyph(&self) -> (r: &'static str)
        ensures
            r@ == state_glyph(*self),
    {
        match self {
            SessionState::Working => "›",
            SessionState::WaitUser => "!",
            SessionState::WaitAgent => "⋯",
            SessionState::Idle => "z",
            SessionState::Done => "✓",
            SessionState::Error => "×",
        }
    }
}

/// One running subagent.
#[derive(Debug, PartialEq, Eq)]
pub struct Agent {
    /// What it is called, such as `general-purpose`.
    pub name: String,
    /// What it does, for display. Known only once a finished turn has reported it.
    pub role: String,
    pub state: SessionState,
    /// What identifies it in the events that start and stop it; empty if unknown.
    pub id: String,
}

/// One session.
#[derive(Debug, PartialEq, Eq)]
pub struct Session {
    pub id: String,
    /// The display name, the last part of the working directory.
    pub name: String,
    /// The title, where the transcript has one. It tells sessions in one directory apart.
    pub title: Option<String>,
    pub cwd: String,
    pub state: SessionState,
    /// When the state was entered, in milliseconds since the epoch.
    pub since: u64,
    /// When the last event came, in milliseconds since the epoch.
    pub updated: u64,
    pub agents: Vec<Agent>,
    /// Whether the main thread's turn is over. Subagents may run on after it.
    pub main_stopped: bool,
    /// What kind of API error ended the turn. Only the state `Error` has one.
    pub error_kind: Option<String>,
    /// The process that owns the session. `None` means that it is not known, not that it is
    /// gone.
    pub pid: Option<u32>,
}

/// Why a session counts as dead.
#[derive(Debug, Clone, Copy, PartialEq, Eq, Structural)]
pub enum DeadReason {
    /// No event came for as long as a session may stay silent.
    Expired,
    /// The process that owned it is gone.
    ProcessGone(u32),
}

/// What an `Agent` holds.
#[verifier::ext_equal]
pub struct AgentView {
    pub name: Seq<char>,
    pub role: Seq<char>,
    pub state: SessionState,
    pub id: Seq<char>,
}

/// What a `Session` holds.
#[verifier::ext_equal]
pub struct SessionView {
    pub id: Seq<char>,
    pub name: Seq<char>,
    pub title: Option<Seq<char>>,
    pub cwd: Seq<char>,
    pub state: SessionState,
    pub since: u64,
    pub updated: u64,
    pub agents: Seq<AgentView>,
    pub main_stopped: bool,
    pub error_kind: Option<Seq<char>>,
    pub pid: Option<u32>,
}

impl View for Agent {
    type V = AgentView;

    open spec fn view(&self) -> AgentView {
        AgentView { name: self.name@, role: self.role@, state: self.state, id: self.id@ }
    }
}

/// What the agents of a list hold.
pub open spec fn agent_views(v: Seq<Agent>) -> Seq<AgentView> {
    Seq::new(v.len(), |i: int| v[i]@)
}

impl View for Session {
    type V = SessionView;

    open spec fn view(&self) -> SessionView {
        SessionView {
            id: self.id@,
            name: self.name@,
            title: opt_text(self.title),
            cwd: self.cwd@,
            state: self.state,
            since: self.since,
            updated: self.updated,
            agents: agent_views(self.agents@),
            main_stopped: self.main_stopped,
            error_kind: opt_text(self.error_kind),
            pid: self.pid,
        }
    }
}

/// What the sessions of a list hold.
pub open spec fn session_views(v: Seq<Session>) -> Seq<SessionView> {
    Seq::new(v.len(), |i: int| v[i]@)
}

impl Clone for Agent {
    fn clone(&self) -> (r: Self)
        ensures
            r@ == self@,
    {
        Agent {
            name: self.name.clone(),
            role: self.role.clone(),
            state: self.state,
            id: self.id.clone(),
        }
    }
}

/// A copy of a list of agents.
pub fn clone_agents(v: &Vec<Agent>) -> (r: Vec<Agent>)
    ensures
        agent_views(r@) == agent_views(v@),
{
    let mut out: Vec<Agent> = Vec::new();
    let mut i: usize = 0;
    while i < v.len()
        invariant
            i <= v@.len(),
            out@.len() == i,
            forall|k: int| 0 <= k < i ==> (#[trigger] out@[k])@ == v@[k]@,
        decreases v@.len() - i,
    {
        out.push(v[i].clone());
        i += 1;
    }
    assert(agent_views(out@) =~= agent_views(v@));
    out
}

impl Clone for Session {
    fn clone(&self) -> (r: Self)
        ensures
            r@ == self@,
    {
        Session {
            id: self.id.clone(),
            name: self.name.clone(),
            title: self.title.clone(),
            cwd: self.cwd.clone(),
            state: self.state,
            since: self.since,
            updated: self.updated,
            agents: clone_agents(&self.agents),
            main_stopped: self.main_stopped,
            error_kind: self.error_kind.clone(),
            pid: self.pid,
        }
    }
}

// ---- transitions ----------------------------------------------------------------------------

/// The session once it has been told its state.
pub open spec fn with_state(v: SessionView, s: SessionState, now: u64) -> SessionView {
    SessionView {
        state: s,
        since: if v.state == s {
            v.since
        } else {
            now
        },
        updated: now,
        error_kind: if s == SessionState::Error {
            v.error_kind
        } else {
            None
        },
        ..v
    }
}

/// The session once it has been told of an error.
pub open spec fn with_error(v: SessionView, kind: Option<Seq<char>>, now: u64) -> SessionView {
    SessionView { error_kind: kind, ..with_state(v, SessionState::Error, now) }
}

/// Only the state `Error` has a kind of error.
pub open spec fn error_kind_fits(v: SessionView) -> bool {
    v.error_kind is Some ==> v.state == SessionState::Error
}

// ---- liveness -------------------------------------------------------------------------------

/// Whether `now` is at least `ttl` past `t`; a `t` in the future has just been.
pub open spec fn elapsed(t: u64, now: u64, ttl: u64) -> bool {
    (if now >= t {
        now - t
    } else {
        0
    }) >= ttl
}

/// The verdict on a session, given what the check of its process said.
pub open spec fn verdict(v: SessionView, now: u64, ttl: u64, running: bool) -> Option<DeadReason> {
    if v.pid is Some && !running {
        Some(DeadReason::ProcessGone(v.pid->0))
    } else if elapsed(v.updated, now, ttl) {
        Some(DeadReason::Expired)
    } else {
        None
    }
}

/// Whether `running` is an answer that `alive` gives for the session's process. A session
/// without a process is not asked about.
pub open spec fn answers<F: Fn(u32) -> bool>(alive: F, v: SessionView, running: bool) -> bool {
    v.pid matches Some(pid) ==> call_ensures(alive, (pid,), running)
}

/// Whether `alive` answers the same whenever it is asked: that the process `pid` is running
/// just if `up(pid)`.
pub open spec fn knows<F: Fn(u32) -> bool>(alive: F, up: spec_fn(u32) -> bool) -> bool {
    forall|pid: u32, running: bool| #[trigger]
        call_ensures(alive, (pid,), running) ==> running == up(pid)
}

/// The state that the display shows.
pub open spec fn shown_state(v: SessionView, now: u64, done_ttl: u64) -> SessionState {
    if v.state == SessionState::Done && elapsed(v.since, now, done_ttl) {
        SessionState::Idle
    } else {
        v.state
    }
}

// ---- texts ----------------------------------------------------------------------------------

/// A duration in minutes, or in hours and minutes.
pub open spec fn duration_text(ms: u64) -> Seq<char> {
    let minutes = ms as nat / 60_000;
    if minutes < 60 {
        decimal(minutes) + "m"@
    } else {
        decimal(minutes / 60) + "h"@ + two_digits(minutes % 60) + "m"@
    }
}

/// The display name for a working directory.
pub open spec fn base_name(cwd: Seq<char>) -> Seq<char> {
    let base = after_last(without_trailing_slashes(cwd), '/');
    if base.len() == 0 {
        "?"@
    } else {
        base
    }
}

impl Session {
    /// Sets the state. Being told the same state again leaves `since` alone, so the elapsed
    /// time shown does not start over; `updated` always moves. Leaving `Error` drops the kind
    /// of error.
    pub fn set_state(&mut self, s: SessionState, now: u64)
        ensures
            final(self)@ == with_state(old(self)@, s, now),
    {
        if s != SessionState::Error {
            self.error_kind = None;
        }
        if self.state != s {
            self.state = s;
            self.since = now;
        }
        self.updated = now;
    }

    /// Sets the state `Error` with a kind, or with none if the kind is not known.
    pub fn set_error(&mut self, kind: Option<String>, now: u64)
        ensures
            final(self)@ == with_error(old(self)@, opt_text(kind), now),
    {
        self.set_state(SessionState::Error, now);
        self.error_kind = kind;
    }

    /// Why the session is dead, or `None` if it lives. A process that is gone weighs more
    /// than a recent event.
    pub fn dead_reason(&self, now: u64, session_ttl_ms: u64, alive: impl Fn(u32) -> bool) -> (r:
        Option<DeadReason>)
        requires
            self.pid matches Some(pid) ==> call_requires(alive, (pid,)),
        ensures
            exists|running: bool| #[trigger]
                answers(alive, self@, running) && r == verdict(
                    self@,
                    now,
                    session_ttl_ms,
                    running,
                ),
    {
        let mut running = true;
        if let Some(pid) = self.pid {
            running = alive(pid);
            if !running {
                assert(answers(alive, self@, running));
                return Some(DeadReason::ProcessGone(pid));
            }
        }
        assert(answers(alive, self@, running));
        if now.saturating_sub(self.updated) >= session_ttl_ms {
            return Some(DeadReason::Expired);
        }
        None
    }

    /// Whether nothing speaks for the session being dead.
    pub fn is_live(&self, now: u64, session_ttl_ms: u64, alive: impl Fn(u32) -> bool) -> (r: bool)
        requires
            self.pid matches Some(pid) ==> call_requires(alive, (pid,)),
        ensures
            exists|running: bool| #[trigger]
                answers(alive, self@, running) && r == (verdict(
                    self@,
                    now,
                    session_ttl_ms,
                    running,
                ) is None),
    {
        self.dead_reason(now, session_ttl_ms, alive).is_none()
    }

    /// The state to show: a session that has been `Done` for long enough shows as `Idle`.
    pub fn display_state(&self, now: u64, done_ttl_ms: u64) -> (r: SessionState)
        ensures
            r == shown_state(self@, now, done_ttl_ms),
    {
        if self.state == SessionState::Done && now.saturating_sub(self.since) >= done_ttl_ms {
            SessionState::Idle
        } else {
            self.state
        }
    }

    /// The name up to its first hyphen.
    pub fn short_name(&self) -> (r: &str)
        ensures
            r@ == before(self.name@, '-'),
    {
        let n: usize = find(&to_chars(self.name.as_str()), '-');
        assert(self.name@.subrange(0, n as int) == self.name@.take(n as int));
        self.name.as_str().substring_char(0, n)
    }

    /// A duration for display: `0m`, `59m`, `1h00m`.
    pub fn fmt_dur(ms: u64) -> (r: String)
        ensures
            r@ == duration_text(ms),
    {
        let total_min: u64 = ms / 60_000;
        if total_min < 60 {
            let mut out = decimal_text(total_min);
            out.append("m");
            out
        } else {
            let m: u64 = total_min % 60;
            let mut out = decimal_text(total_min / 60);
            out.append("h");
            let ghost upto = out@;
            out.push(digit_char(m / 10));
            out.push(digit_char(m % 10));
            assert(out@ == upto + two_digits(m as nat));
            out.append("m");
            out
        }
    }

    /// The display name for a working directory: its last part, or `?` if it has none.
    pub fn name_from_cwd(cwd: &str) -> (r: String)
        ensures
            r@ == base_name(cwd@),
    {
        let base = tail_after(&strip_slashes(cwd), '/');
        if base.len() == 0 {
            "?".to_owned()
        } else {
            from_chars(&base)
        }
    }
}

// ---- laws -----------------------------------------------------------------------------------

/// Every state is read back from its own name, and no other name is read as a state.
pub proof fn law_state_names_round_trip(s: SessionState, name: Seq<char>)
    ensures
        state_named(state_name(s)) == Some(s),
        state_named(name) == Some(s) ==> name == state_name(s),
{
    reveal_strlit("working");
    reveal_strlit("wait_user");
    reveal_strlit("wait_agent");
    reveal_strlit("idle");
    reveal_strlit("done");
    reveal_strlit("error");
    assert("working"@.len() == 7 && "wait_user"@.len() == 9 && "wait_agent"@.len() == 10);
    assert("idle"@.len() == 4 && "done"@.len() == 4 && "error"@.len() == 5);
    assert("idle"@[0] == 'i' && "done"@[0] == 'd');
}

/// Setting a state keeps the rule that only `Error` has a kind of error, whatever held before
/// the call unless the state is `Error`.
pub proof fn law_error_kind_only_in_error(v: SessionView, s: SessionState, now: u64)
    ensures
        s != SessionState::Error ==> error_kind_fits(with_state(v, s, now)),
        error_kind_fits(v) ==> error_kind_fits(with_state(v, s, now)),
        forall|kind: Option<Seq<char>>| error_kind_fits(#[trigger] with_error(v, kind, now)),
{
}

/// Being told the same state twice is the same as being told the second time only, but for the
/// time since when: that is the first.
pub proof fn law_renotify_keeps_since(v: SessionView, s: SessionState, first: u64, second: u64)
    ensures
        with_state(with_state(v, s, first), s, second).since == with_state(v, s, first).since,
        with_state(with_state(v, s, first), s, second).updated == second,
{
}

/// A session lives just if there is no reason for it to be dead, where `alive` answers the same
/// whenever it is asked. `live` is what `is_live` gives, and `reason` what `dead_reason` gives.
pub proof fn law_the_living_have_no_reason_to_be_dead<F: Fn(u32) -> bool>(
    v: SessionView,
    now: u64,
    ttl: u64,
    alive: F,
    up: spec_fn(u32) -> bool,
    live: bool,
    reason: Option<DeadReason>,
)
    requires
        knows(alive, up),
        exists|running: bool| #[trigger]
            answers(alive, v, running) && live == (verdict(v, now, ttl, running) is None),
        exists|running: bool| #[trigger]
            answers(alive, v, running) && reason == verdict(v, now, ttl, running),
    ensures
        live == (reason is None),
{
}

/// A session whose process is gone is dead, however recent its last event.
pub proof fn law_process_outweighs_ttl(v: SessionView, now: u64, ttl: u64)
    requires
        v.pid is Some,
    ensures
        verdict(v, now, ttl, false) == Some(DeadReason::ProcessGone(v.pid->0)),
{
}

/// Of a session without a process only the time of its last event decides.
pub proof fn law_no_pid_only_ttl(v: SessionView, now: u64, ttl: u64, one: bool, other: bool)
    requires
        v.pid is None,
    ensures
        verdict(v, now, ttl, one) == verdict(v, now, ttl, other),
        verdict(v, now, ttl, one) is None <==> !elapsed(v.updated, now, ttl),
{
}

/// A dead session stays dead while nothing changes but the clock.
pub proof fn law_death_is_final(v: SessionView, now: u64, later: u64, ttl: u64, running: bool)
    requires
        now <= later,
        verdict(v, now, ttl, running) is Some,
    ensures
        verdict(v, later, ttl, running) is Some,
{
}

/// Only `Done` ever shows as something else, and then as `Idle`.
pub proof fn law_only_done_fades(v: SessionView, now: u64, done_ttl: u64)
    ensures
        v.state != SessionState::Done ==> shown_state(v, now, done_ttl) == v.state,
        shown_state(v, now, done_ttl) == v.state || shown_state(v, now, done_ttl)
            == SessionState::Idle,
{
}

// ---- what sessions are for ------------------------------------------------------------------

/// What the states are called, and what they show: a sign and a word for each.
pub proof fn law_what_the_states_show()
    ensures
        state_name(SessionState::Working) == "working"@,
        state_name(SessionState::WaitUser) == "wait_user"@,
        state_name(SessionState::WaitAgent) == "wait_agent"@,
        state_name(SessionState::Idle) == "idle"@,
        state_name(SessionState::Done) == "done"@,
        state_name(SessionState::Error) == "error"@,
        state_glyph(SessionState::Working) == "›"@,
        state_glyph(SessionState::WaitUser) == "!"@,
        state_glyph(SessionState::WaitAgent) == "⋯"@,
        state_glyph(SessionState::Idle) == "z"@,
        state_glyph(SessionState::Done) == "✓"@,
        state_glyph(SessionState::Error) == "×"@,
        state_label(SessionState::Working).en@ == "Working"@,
        state_label(SessionState::WaitUser).en@ == "Needs you"@,
        state_label(SessionState::WaitAgent).en@ == "Agents running"@,
        state_label(SessionState::Idle).en@ == "Idle"@,
        state_label(SessionState::Done).en@ == "Done"@,
        state_label(SessionState::Error).en@ == "Error"@,
        state_label(SessionState::Working).ja@ == "作業中"@,
        state_label(SessionState::WaitUser).ja@ == "判断待ち"@,
        state_label(SessionState::WaitAgent).ja@ == "エージェント待ち"@,
        state_label(SessionState::Idle).ja@ == "アイドル"@,
        state_label(SessionState::Done).ja@ == "完了"@,
        state_label(SessionState::Error).ja@ == "エラー"@,
{
}

/// No two states have the same sign.
pub proof fn law_signs_tell_states_apart(one: SessionState, other: SessionState)
    requires
        one != other,
    ensures
        state_glyph(one) != state_glyph(other),
{
    reveal_strlit("›");
    reveal_strlit("!");
    reveal_strlit("⋯");
    reveal_strlit("z");
    reveal_strlit("✓");
    reveal_strlit("×");
    assert(state_glyph(one).len() == 1 && state_glyph(other).len() == 1);
    assert(state_glyph(one)[0] != state_glyph(other)[0]);
}

/// Setting a state sets it, moves the time of the last event, and moves the time of the state
/// only if it is another one. The kind of an error goes with the error. All else stays.
pub proof fn law_a_state_is_set(v: SessionView, s: SessionState, now: u64)
    ensures
        ({
            let w = with_state(v, s, now);
            &&& w.state == s
            &&& w.updated == now
            &&& v.state == s ==> w.since == v.since
            &&& v.state != s ==> w.since == now
            &&& s != SessionState::Error ==> w.error_kind is None
            &&& s == SessionState::Error ==> w.error_kind == v.error_kind
            &&& w.id == v.id && w.name == v.name && w.title == v.title && w.cwd == v.cwd
            &&& w.agents == v.agents && w.main_stopped == v.main_stopped && w.pid == v.pid
        }),
{
}

/// Setting an error sets its kind as well.
pub proof fn law_an_error_is_set(v: SessionView, kind: Option<Seq<char>>, now: u64)
    ensures
        ({
            let w = with_error(v, kind, now);
            &&& w.state == SessionState::Error
            &&& w.error_kind == kind
            &&& w.updated == now
            &&& w.since == if v.state == SessionState::Error {
                v.since
            } else {
                now
            }
            &&& w.agents == v.agents && w.main_stopped == v.main_stopped && w.pid == v.pid
            &&& w.id == v.id && w.name == v.name && w.title == v.title && w.cwd == v.cwd
        }),
{
}

/// A session lives while its process, if it is known, runs and the last event is less than the
/// lifetime ago. An event in the future is as good as one right now.
pub proof fn law_when_a_session_lives(v: SessionView, now: u64, ttl: u64, running: bool)
    ensures
        verdict(v, now, ttl, running) is None <==> (v.pid is None || running) && ttl > 0 && now
            < v.updated + ttl,
        verdict(v, now, ttl, running) == Some(DeadReason::Expired) <==> (v.pid is None || running)
            && (ttl == 0 || now >= v.updated + ttl),
        verdict(v, now, ttl, running) matches Some(DeadReason::ProcessGone(pid)) ==> v.pid == Some(
            pid,
        ) && !running,
{
}

/// A session that is done shows as idle once it has been done for as long as that is shown, and
/// not before; every other one shows its state.
pub proof fn law_when_done_shows_as_idle(v: SessionView, now: u64, done_ttl: u64)
    ensures
        v.state == SessionState::Done && done_ttl > 0 && now < v.since + done_ttl ==> shown_state(
            v,
            now,
            done_ttl,
        ) == SessionState::Done,
        v.state == SessionState::Done && now >= v.since + done_ttl ==> shown_state(v, now, done_ttl)
            == SessionState::Idle,
        v.state != SessionState::Done ==> shown_state(v, now, done_ttl) == v.state,
{
}

/// A duration of under an hour shows as its minutes, a longer one as its hours and two digits for
/// the minutes. What is less than a minute does not show.
pub proof fn law_how_a_duration_shows(hours: nat, minutes: nat, rest: nat)
    requires
        minutes < 60,
        rest < 60_000,
        hours * 3_600_000 + minutes * 60_000 + rest <= u64::MAX,
    ensures
        ({
            let text = duration_text((hours * 3_600_000 + minutes * 60_000 + rest) as u64);
            &&& hours == 0 ==> text == decimal(minutes) + "m"@
            &&& hours > 0 && minutes < 10 ==> text == decimal(hours) + "h0"@ + decimal(minutes)
                + "m"@
            &&& hours > 0 && minutes >= 10 ==> text == decimal(hours) + "h"@ + decimal(minutes)
                + "m"@
        }),
{
    let ms = hours * 3_600_000 + minutes * 60_000 + rest;
    assert(ms / 60_000 == hours * 60 + minutes) by (nonlinear_arith)
        requires
            ms == hours * 3_600_000 + minutes * 60_000 + rest,
            rest < 60_000,
    ;
    assert((hours * 60 + minutes) / 60 == hours && (hours * 60 + minutes) % 60 == minutes)
        by (nonlinear_arith)
        requires
            minutes < 60,
    ;
    reveal_strlit("h");
    reveal_strlit("h0");
    assert("h0"@ =~= "h"@ + seq!['0']);
    let text = duration_text(ms as u64);
    if hours > 0 && minutes < 10 {
        assert(decimal(minutes) =~= seq![digit(minutes)]);
        assert(digit(0) == '0');
        assert(two_digits(minutes) =~= seq!['0'] + decimal(minutes));
        assert(text =~= decimal(hours) + "h0"@ + decimal(minutes) + "m"@);
    }
    if hours > 0 && minutes >= 10 {
        assert(decimal(minutes / 10) =~= seq![digit(minutes / 10)]);
        assert(two_digits(minutes) =~= decimal(minutes));
    }
}

/// A session is called after the last part of its directory, whatever stands before it and
/// however many slashes end the path. A path without a part has no name.
pub proof fn law_a_session_is_called_after_its_directory(
    before: Seq<char>,
    last: Seq<char>,
    slashes: nat,
)
    requires
        last.len() > 0,
        !last.contains('/'),
    ensures
        base_name(last + repeated('/', slashes)) == last,
        base_name(before + seq!['/'] + last + repeated('/', slashes)) == last,
        base_name(repeated('/', slashes)) == "?"@,
{
    lemma_slashes_are_stripped(last, slashes);
    lemma_slashes_are_stripped(before + seq!['/'] + last, slashes);
    lemma_slashes_are_stripped(Seq::empty(), slashes);
    assert(Seq::<char>::empty() + repeated('/', slashes) =~= repeated('/', slashes));
    assert(last.contains(last[last.len() - 1]));
    assert((before + seq!['/'] + last).last() == last.last());
    assert(without_trailing_slashes(last) == last);
    lemma_after_last(before, last);
    lemma_nothing_before(last);
}

/// A character so many times.
pub open spec fn repeated(c: char, n: nat) -> Seq<char> {
    Seq::new(n, |i: int| c)
}

proof fn lemma_slashes_are_stripped(s: Seq<char>, n: nat)
    ensures
        without_trailing_slashes(s + repeated('/', n)) == without_trailing_slashes(s),
    decreases n,
{
    let t = s + repeated('/', n);
    if n == 0 {
        assert(t =~= s);
    } else {
        lemma_slashes_are_stripped(s, (n - 1) as nat);
        assert(t.last() == '/');
        assert(t.drop_last() =~= s + repeated('/', (n - 1) as nat));
    }
}

proof fn lemma_after_last(before: Seq<char>, last: Seq<char>)
    requires
        !last.contains('/'),
    ensures
        after_last(before + seq!['/'] + last, '/') == last,
    decreases last.len(),
{
    let s = before + seq!['/'] + last;
    if last.len() == 0 {
        assert(s.last() == '/');
        assert(last =~= Seq::<char>::empty());
    } else {
        let shorter = last.drop_last();
        assert(last.contains(last[last.len() - 1]));
        assert forall|c: char| #[trigger] shorter.contains(c) implies last.contains(c) by {
            let i = choose|i: int| 0 <= i < shorter.len() && shorter[i] == c;
            assert(last[i] == c);
        }
        lemma_after_last(before, shorter);
        assert(s.drop_last() =~= before + seq!['/'] + shorter);
        assert(shorter.push(last.last()) =~= last);
    }
}

proof fn lemma_nothing_before(last: Seq<char>)
    requires
        !last.contains('/'),
    ensures
        after_last(last, '/') == last,
    decreases last.len(),
{
    if last.len() > 0 {
        let shorter = last.drop_last();
        assert(last.contains(last[last.len() - 1]));
        assert forall|c: char| #[trigger] shorter.contains(c) implies last.contains(c) by {
            let i = choose|i: int| 0 <= i < shorter.len() && shorter[i] == c;
            assert(last[i] == c);
        }
        lemma_nothing_before(shorter);
        assert(shorter.push(last.last()) =~= last);
    }
}

/// The short form of a name is what stands before its first hyphen, all of it if it has none.
pub proof fn law_the_short_name_ends_at_a_hyphen(first: Seq<char>, rest: Seq<char>)
    requires
        !first.contains('-'),
    ensures
        before(first, '-') == first,
        before(first + seq!['-'] + rest, '-') == first,
{
    let s = first + seq!['-'] + rest;
    lemma_first_index(first, '-');
    lemma_first_index(s, '-');
    let i = first_index(s, '-');
    let k = first_index(first, '-');
    if k < first.len() {
        assert(first.contains(first[k]));
    }
    assert(first.take(first.len() as int) =~= first);
    assert(s[first.len() as int] == '-');
    if i < first.len() {
        assert(first.contains(first[i]));
        assert(s[i] == first[i]);
    }
    assert(s.take(i) =~= first);
}

} // verus!
