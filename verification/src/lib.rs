//! Session state, hook events, settings and faces for a status display.
//!
//! The display shows one small figure per session. This library decides what a session's state
//! is, which sessions are listed, what the settings mean and what a figure looks like. It does
//! no input or output, except that it asks the clock.

use vstd::prelude::*;

use text::{decimal, decimal_text, opt_text, to_chars};

pub mod config;
pub mod event;
pub mod face;
pub mod ignore;
pub mod lang;
pub mod lock;
pub mod num;
pub mod process;
pub mod session;
pub mod store;
pub mod text;
pub mod transcript;

verus! {

// ---- paths ----------------------------------------------------------------------------------

/// The path of `name` in the directory `dir`.
pub open spec fn joined(dir: Seq<char>, name: Seq<char>) -> Seq<char> {
    if dir.len() == 0 || dir.last() == '/' {
        dir + name
    } else {
        dir + "/"@ + name
    }
}

/// The path of `name` in the directory `dir`. The name is relative.
pub fn join_path(dir: &str, name: &str) -> (r: String)
    requires
        name@.len() > 0 ==> name@[0] != '/',
    ensures
        r@ == joined(dir@, name@),
{
    let v = to_chars(dir);
    let mut out = dir.to_owned();
    if v.len() > 0 && v[v.len() - 1] != '/' {
        out.append("/");
    }
    out.append(name);
    out
}

/// The directory that `Path::parent` gives for a path, if it gives one.
pub uninterp spec fn path_parent(path: Seq<char>) -> Option<Seq<char>>;

/// `Path::parent`, on a path that is text: the path without its last component. The result
/// depends on the path alone.
#[verifier::external_body]
fn parent(path: &str) -> (r: Option<String>)
    ensures
        opt_text(r) == path_parent(path@),
{
    std::path::Path::new(path).parent().and_then(|d| d.to_str()).map(|d| d.to_owned())
}

/// The directory for runtime state: the value of `CCSESSIONS_STATE_DIR`, or a directory in the
/// home directory, which is looked up only then.
pub fn state_dir(env: Option<String>, home: impl Fn() -> String) -> (r: String)
    requires
        env is None ==> call_requires(home, ()),
    ensures
        env matches Some(dir) ==> r@ == dir@,
        env is None ==> exists|h: String| #[trigger]
            call_ensures(home, (), h) && r@ == joined(h@, ".local/state/ccsessions"@),
{
    match env {
        Some(dir) => dir,
        None => {
            proof {
                reveal_strlit(".local/state/ccsessions");
            }
            join_path(home().as_str(), ".local/state/ccsessions")
        },
    }
}

/// The directory for session files, in the directory for runtime state.
pub fn sessions_dir(env: Option<String>, home: impl Fn() -> String) -> (r: String)
    requires
        env is None ==> call_requires(home, ()),
    ensures
        env matches Some(dir) ==> r@ == joined(dir@, "sessions"@),
        env is None ==> exists|h: String| #[trigger]
            call_ensures(home, (), h) && r@ == joined(
                joined(h@, ".local/state/ccsessions"@),
                "sessions"@,
            ),
{
    proof {
        reveal_strlit("sessions");
    }
    join_path(state_dir(env, home).as_str(), "sessions")
}

/// The path of the settings file: the value of `CCSESSIONS_CONFIG`, or a file in the home
/// directory, which is looked up only then.
pub fn config_path(env: Option<String>, home: impl Fn() -> String) -> (r: String)
    requires
        env is None ==> call_requires(home, ()),
    ensures
        env matches Some(path) ==> r@ == path@,
        env is None ==> exists|h: String| #[trigger]
            call_ensures(home, (), h) && r@ == joined(h@, ".config/ccsessions/config.toml"@),
{
    match env {
        Some(path) => path,
        None => {
            proof {
                reveal_strlit(".config/ccsessions/config.toml");
            }
            join_path(home().as_str(), ".config/ccsessions/config.toml")
        },
    }
}

/// The directory for the user's own faces: beside the settings file, wherever that is. A
/// settings path without a parent leaves the directory in the home directory.
pub fn faces_dir(config: &str, home: impl Fn() -> String) -> (r: String)
    requires
        path_parent(config@) is None ==> call_requires(home, ()),
    ensures
        path_parent(config@) matches Some(dir) ==> r@ == joined(dir, "faces"@),
        path_parent(config@) is None ==> exists|h: String| #[trigger]
            call_ensures(home, (), h) && r@ == joined(h@, ".config/ccsessions/faces"@),
{
    match parent(config) {
        Some(dir) => {
            proof {
                reveal_strlit("faces");
            }
            join_path(dir.as_str(), "faces")
        },
        None => {
            proof {
                reveal_strlit(".config/ccsessions/faces");
            }
            join_path(home().as_str(), ".config/ccsessions/faces")
        },
    }
}

/// As `faces_dir`, where the home directory is known already.
pub fn faces_dir_with(config: &str, home: &str) -> (r: String)
    ensures
        r@ == match path_parent(config@) {
            Some(dir) => joined(dir, "faces"@),
            None => joined(home@, ".config/ccsessions/faces"@),
        },
{
    let known = || -> (h: String)
        ensures
            h@ == home@,
        { home.to_owned() };
    faces_dir(config, known)
}

/// The name of a writer's temporary file: hidden, and different for every process and every
/// write.
pub open spec fn temp_name(base: Seq<char>, pid: nat, seq: nat) -> Seq<char> {
    "."@ + base + "."@ + decimal(pid) + "."@ + decimal(seq) + ".tmp"@
}

/// The name of the temporary file for the write number `seq` of the process `pid` to the file
/// `base`.
pub fn temp_file_name(base: &str, pid: u32, seq: u64) -> (r: String)
    ensures
        r@ == temp_name(base@, pid as nat, seq as nat),
{
    let mut out = ".".to_owned();
    out.append(base);
    out.append(".");
    out.append(decimal_text(pid as u64).as_str());
    out.append(".");
    out.append(decimal_text(seq).as_str());
    out.append(".tmp");
    out
}

// ---- time -----------------------------------------------------------------------------------

/// `SystemTime::elapsed` of the epoch, in milliseconds; `None` if the clock is before the
/// epoch. What the clock says is not known.
#[verifier::external_body]
fn since_epoch() -> (r: Option<u128>) {
    std::time::UNIX_EPOCH.elapsed().ok().map(|d| d.as_millis())
}

/// Whether the clock may answer `elapsed` when it is asked for the milliseconds since the epoch.
pub closed spec fn clock_answers(elapsed: Option<u128>) -> bool {
    call_ensures(since_epoch, (), elapsed)
}

/// The time for a session file, given the clock's answer: its low 64 bits, and zero for a clock
/// before the epoch.
pub open spec fn file_time(elapsed: Option<u128>) -> int {
    match elapsed {
        Some(ms) => (ms as int) % 0x1_0000_0000_0000_0000,
        None => 0,
    }
}

/// The time for a session file, given the milliseconds since the epoch. A clock before the
/// epoch counts as the epoch.
pub fn epoch_ms(elapsed: Option<u128>) -> (r: u64)
    ensures
        r == file_time(elapsed),
{
    match elapsed {
        Some(ms) => {
            assert(ms as u64 == ms % 0x1_0000_0000_0000_0000) by (bit_vector);
            #[verifier::truncate]
            (ms as u64)
        },
        None => 0,
    }
}

/// The current time in milliseconds since the epoch, as the clock answers. Nothing is said of
/// which answer the clock gives.
pub fn now_ms() -> (r: u64)
    ensures
        exists|elapsed: Option<u128>| #[trigger]
            clock_answers(elapsed) && r == file_time(elapsed),
{
    let elapsed = since_epoch();
    assert(clock_answers(elapsed));
    epoch_ms(elapsed)
}

// ---- laws -----------------------------------------------------------------------------------

/// The time for a session file is what the clock says, in milliseconds; a clock before the epoch
/// says nothing.
pub proof fn law_the_time_is_that_of_the_clock(ms: u128)
    ensures
        ms <= u64::MAX ==> file_time(Some(ms)) == ms,
        file_time(None) == 0,
{
}

/// A path in a directory has one slash between the two, none if the directory is empty.
pub proof fn law_one_slash_joins_a_path(dir: Seq<char>, name: Seq<char>)
    ensures
        dir.len() == 0 ==> joined(dir, name) == name,
        dir.len() > 0 && dir.last() == '/' ==> joined(dir, name) == dir + name,
        dir.len() > 0 && dir.last() != '/' ==> joined(dir, name) == dir + seq!['/'] + name,
{
    reveal_strlit("/");
    assert("/"@ =~= seq!['/']);
    assert(joined(dir, name) =~= if dir.len() == 0 {
        name
    } else if dir.last() == '/' {
        dir + name
    } else {
        dir + seq!['/'] + name
    });
}

proof fn lemma_no_dot(n: nat)
    ensures
        !decimal(n).contains('.'),
    decreases n,
{
    let t = decimal(n);
    if n >= 10 {
        lemma_no_dot(n / 10);
        let u = decimal(n / 10);
        assert forall|i: int| 0 <= i < t.len() implies #[trigger] t[i] != '.' by {
            if i < u.len() {
                assert(t[i] == u[i]);
                assert(u.contains(u[i]));
            } else {
                assert(t[i] == text::digit(n % 10));
            }
        }
    } else {
        assert(t[0] == text::digit(n));
    }
}

proof fn lemma_before_the_dot(a: Seq<char>, b: Seq<char>, c: Seq<char>, d: Seq<char>)
    requires
        !a.contains('.'),
        !c.contains('.'),
        a + seq!['.'] + b == c + seq!['.'] + d,
    ensures
        a == c,
        b == d,
{
    let s = a + seq!['.'] + b;
    assert(s[a.len() as int] == '.');
    assert(s[c.len() as int] == '.');
    if a.len() < c.len() {
        assert(c[a.len() as int] == s[a.len() as int]);
        assert(c.contains(c[a.len() as int]));
    } else if c.len() < a.len() {
        assert(a[c.len() as int] == s[c.len() as int]);
        assert(a.contains(a[c.len() as int]));
    }
    assert(a =~= s.take(a.len() as int));
    assert(c =~= s.take(c.len() as int));
    assert(b =~= s.skip(a.len() as int + 1));
    assert(d =~= s.skip(c.len() as int + 1));
}

/// No two writes to a file share a temporary file: every process has its own, and every write of
/// a process.
pub proof fn law_every_write_has_its_own_file(
    base: Seq<char>,
    pid: u64,
    write: u64,
    other_pid: u64,
    other_write: u64,
)
    requires
        temp_name(base, pid as nat, write as nat) == temp_name(
            base,
            other_pid as nat,
            other_write as nat,
        ),
    ensures
        pid == other_pid,
        write == other_write,
{
    reveal_strlit(".");
    reveal_strlit(".tmp");
    let dot = seq!['.'];
    assert("."@ =~= dot);
    assert(".tmp"@ =~= dot + seq!['t', 'm', 'p']);
    let front = dot + base + dot;
    let tmp = seq!['t', 'm', 'p'];
    let (p, s) = (decimal(pid as nat), decimal(write as nat));
    let (q, t) = (decimal(other_pid as nat), decimal(other_write as nat));
    let one = temp_name(base, pid as nat, write as nat);
    assert(one =~= front + (p + dot + (s + dot + tmp)));
    assert(one =~= front + (q + dot + (t + dot + tmp)));
    assert(one.skip(front.len() as int) =~= p + dot + (s + dot + tmp));
    assert(one.skip(front.len() as int) =~= q + dot + (t + dot + tmp));
    lemma_no_dot(pid as nat);
    lemma_no_dot(write as nat);
    lemma_no_dot(other_pid as nat);
    lemma_no_dot(other_write as nat);
    lemma_before_the_dot(p, s + dot + tmp, q, t + dot + tmp);
    lemma_before_the_dot(s, tmp, t, tmp);
    config::law_integers_round_trip(pid);
    config::law_integers_round_trip(other_pid);
    config::law_integers_round_trip(write);
    config::law_integers_round_trip(other_write);
}

} // verus!
