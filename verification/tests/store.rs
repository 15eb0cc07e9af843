//! The sessions in the store.

use std::cell::RefCell;
use std::collections::BTreeMap;

use ccsessions_core::lock::{next_step, Attempt, Step, ACQUIRE_TIMEOUT_MS, LOCK_FILE_NAME};
use ccsessions_core::session::{DeadReason, Session, SessionState};
use ccsessions_core::store::{
    holds_session, list, list_live, load, remove, save, session_path, sweep, validate_session_id,
    FileRead, FileRemoval, StoreError, StoredFile,
};
use ccsessions_core::temp_file_name;

/// A directory in memory: each file with the session in it, if its content is one.
struct Dir {
    files: RefCell<BTreeMap<String, Option<Session>>>,
}

impl Dir {
    fn new() -> Dir {
        Dir {
            files: RefCell::new(BTreeMap::new()),
        }
    }

    fn write(&self, name: &str, session: Option<Session>) {
        self.files.borrow_mut().insert(name.to_string(), session);
    }

    fn files(&self) -> Vec<StoredFile> {
        self.files
            .borrow()
            .iter()
            .map(|(name, session)| StoredFile {
                name: name.clone(),
                session: session.clone(),
            })
            .collect()
    }
}

fn save_in(dir: &Dir, s: &Session) -> Result<(), StoreError<String>> {
    save(s, |name, session| {
        dir.write(&name, Some(session.clone()));
        Ok(())
    })
}

fn load_in(dir: &Dir, id: &str) -> Result<Option<Session>, StoreError<String>> {
    load(id, |name| match dir.files.borrow().get(&name) {
        Some(Some(s)) => FileRead::Session(s.clone()),
        Some(None) => FileRead::Broken,
        None => FileRead::Missing,
    })
}

fn remove_in(dir: &Dir, id: &str) -> Result<(), StoreError<String>> {
    remove(id, |name| match dir.files.borrow_mut().remove(&name) {
        Some(_) => FileRemoval::Removed,
        None => FileRemoval::Missing,
    })
}

fn list_in(dir: &Dir) -> Vec<Session> {
    list(dir.files())
}

fn list_live_in(
    dir: &Dir,
    now: u64,
    ttl: u64,
    max: usize,
    alive: &impl Fn(u32) -> bool,
) -> Vec<Session> {
    list_live(dir.files(), now, ttl, max, alive)
}

fn sweep_in(
    dir: &Dir,
    now: u64,
    ttl: u64,
    alive: &impl Fn(u32) -> bool,
) -> Vec<(Session, DeadReason)> {
    sweep(dir.files(), now, ttl, alive, |name| {
        dir.files.borrow_mut().remove(name).is_some()
    })
}

fn session(id: &str, updated: u64) -> Session {
    Session {
        id: id.into(),
        name: "proj".into(),
        title: None,
        cwd: "/tmp/proj".into(),
        state: SessionState::Working,
        since: updated,
        updated,
        agents: vec![],
        main_stopped: false,
        error_kind: None,
        pid: None,
    }
}

fn session_in(id: &str, cwd: &str, updated: u64, pid: Option<u32>) -> Session {
    Session {
        cwd: cwd.into(),
        name: Session::name_from_cwd(cwd),
        pid,
        ..session(id, updated)
    }
}

fn only_alive(pids: &[u32]) -> impl Fn(u32) -> bool + '_ {
    move |pid| pids.contains(&pid)
}

fn all_alive(_: u32) -> bool {
    true
}

#[test]
fn store_save_then_load_round_trips() {
    let dir = Dir::new();
    let s = session("abc-123", 1000);
    save_in(&dir, &s).unwrap();
    let loaded = load_in(&dir, "abc-123").unwrap().unwrap();
    assert_eq!(loaded, s);
}

#[test]
fn load_missing_returns_none() {
    let dir = Dir::new();
    assert!(load_in(&dir, "no-such-id").unwrap().is_none());
}

#[test]
fn remove_deletes_file() {
    let dir = Dir::new();
    let s = session("abc", 1000);
    save_in(&dir, &s).unwrap();
    remove_in(&dir, "abc").unwrap();
    assert!(load_in(&dir, "abc").unwrap().is_none());
}

#[test]
fn remove_missing_is_not_an_error() {
    let dir = Dir::new();
    remove_in(&dir, "never-existed").unwrap();
}

#[test]
fn invalid_id_rejected_by_load_and_save() {
    let dir = Dir::new();
    assert!(load_in(&dir, "../escape").is_err());
    assert!(load_in(&dir, "").is_err());
    assert!(load_in(&dir, ".hidden").is_err());
    assert!(load_in(&dir, "a/b").is_err());

    let mut s = session("ok", 1000);
    s.id = "../escape".into();
    assert!(save_in(&dir, &s).is_err());
}

#[test]
fn malformed_json_load_returns_none() {
    let dir = Dir::new();
    dir.write("broken.json", None);
    assert!(load_in(&dir, "broken").unwrap().is_none());
}

#[test]
fn malformed_json_skipped_in_list() {
    let dir = Dir::new();
    dir.write("broken.json", None);
    save_in(&dir, &session("ok", 1000)).unwrap();
    let sessions = list_in(&dir);
    assert_eq!(sessions.len(), 1);
    assert_eq!(sessions[0].id, "ok");
}

#[test]
fn list_skips_dotfiles_and_tmp() {
    let dir = Dir::new();
    save_in(&dir, &session("real", 1000)).unwrap();
    dir.write(".real.123.0.tmp", None);
    dir.write(".hidden.json", None);
    let sessions = list_in(&dir);
    assert_eq!(sessions.len(), 1);
    assert_eq!(sessions[0].id, "real");
}

#[test]
fn list_sorts_by_updated_descending() {
    let dir = Dir::new();
    save_in(&dir, &session("old", 1000)).unwrap();
    save_in(&dir, &session("newest", 3000)).unwrap();
    save_in(&dir, &session("mid", 2000)).unwrap();
    let sessions = list_in(&dir);
    let ids: Vec<&str> = sessions.iter().map(|s| s.id.as_str()).collect();
    assert_eq!(ids, vec!["newest", "mid", "old"]);
}

#[test]
fn list_on_missing_dir_returns_empty() {
    assert!(list(Vec::new()).is_empty());
}

#[test]
fn list_live_excludes_stale_sessions() {
    let dir = Dir::new();
    save_in(&dir, &session("fresh", 9000)).unwrap();
    save_in(&dir, &session("stale", 0)).unwrap();
    let now = 10_000;
    let ttl = 5_000;
    let live = list_live_in(&dir, now, ttl, 100, &all_alive);
    let ids: Vec<&str> = live.iter().map(|s| s.id.as_str()).collect();
    assert_eq!(ids, vec!["fresh"]);
}

#[test]
fn list_live_respects_max() {
    let dir = Dir::new();
    for i in 0..5 {
        save_in(&dir, &session(&format!("s{i}"), 1000 + i)).unwrap();
    }
    let live = list_live_in(&dir, 2000, 10_000, 3, &all_alive);
    assert_eq!(live.len(), 3);
}

#[test]
fn dead_sessions_from_the_same_workdir_are_not_listed() {
    let dir = Dir::new();
    let wd = "/Users/x/.claudep/clean-workdir";
    save_in(&dir, &session_in("zombie-1", wd, 9_000, Some(101))).unwrap();
    save_in(&dir, &session_in("zombie-2", wd, 9_100, Some(102))).unwrap();
    save_in(&dir, &session_in("zombie-3", wd, 9_200, Some(103))).unwrap();
    save_in(&dir, &session_in("running", wd, 9_300, Some(999))).unwrap();

    let live = list_live_in(&dir, 10_000, 8 * 3600 * 1000, 12, &only_alive(&[999]));
    let ids: Vec<&str> = live.iter().map(|s| s.id.as_str()).collect();
    assert_eq!(
        ids,
        vec!["running"],
        "同じ workdir の死んだセッションは 1 件も残ってはいけない"
    );
}

#[test]
fn live_sessions_sharing_a_workdir_are_all_kept() {
    let dir = Dir::new();
    let wd = "/Users/x/proj";
    save_in(&dir, &session_in("live-a", wd, 9_000, Some(11))).unwrap();
    save_in(&dir, &session_in("live-b", wd, 9_100, Some(22))).unwrap();
    save_in(&dir, &session_in("dead", wd, 9_200, Some(33))).unwrap();
    save_in(&dir, &session_in("legacy", wd, 9_300, None)).unwrap();

    let live = list_live_in(
        &dir,
        10_000,
        8 * 3600 * 1000,
        12,
        &only_alive(&[11, 22]),
    );
    let mut ids: Vec<&str> = live.iter().map(|s| s.id.as_str()).collect();
    ids.sort_unstable();
    assert_eq!(ids, vec!["legacy", "live-a", "live-b"]);
}

#[test]
fn dead_sessions_do_not_consume_the_max_slots() {
    let dir = Dir::new();
    for i in 0..5u32 {
        save_in(
            &dir,
            &session_in(
                &format!("dead-{i}"),
                "/w",
                9_000 + u64::from(i),
                Some(i + 10),
            ),
        )
        .unwrap();
    }
    save_in(&dir, &session_in("alive", "/w", 8_000, Some(777))).unwrap();

    let live = list_live_in(&dir, 10_000, 8 * 3600 * 1000, 3, &only_alive(&[777]));
    let ids: Vec<&str> = live.iter().map(|s| s.id.as_str()).collect();
    assert_eq!(ids, vec!["alive"]);
}

#[test]
fn sweep_removes_expired_and_reports_them() {
    let dir = Dir::new();
    save_in(&dir, &session("fresh", 9000)).unwrap();
    save_in(&dir, &session("stale-1", 0)).unwrap();
    save_in(&dir, &session("stale-2", 100)).unwrap();
    let removed = sweep_in(&dir, 10_000, 5_000, &all_alive);
    assert_eq!(removed.len(), 2);
    assert!(removed
        .iter()
        .all(|(_, reason)| *reason == DeadReason::Expired));
    let remaining = list_in(&dir);
    assert_eq!(remaining.len(), 1);
    assert_eq!(remaining[0].id, "fresh");
}

#[test]
fn sweep_removes_sessions_whose_process_is_gone() {
    let dir = Dir::new();
    save_in(&dir, &session_in("gone", "/w", 9_500, Some(4242))).unwrap();
    save_in(&dir, &session_in("running", "/w", 9_500, Some(777))).unwrap();
    save_in(&dir, &session_in("legacy", "/w", 9_500, None)).unwrap();

    let removed = sweep_in(&dir, 10_000, 8 * 3600 * 1000, &only_alive(&[777]));
    assert_eq!(removed.len(), 1);
    assert_eq!(removed[0].0.id, "gone");
    assert_eq!(removed[0].1, DeadReason::ProcessGone(4242));

    let mut remaining: Vec<String> = list_in(&dir).into_iter().map(|s| s.id).collect();
    remaining.sort();
    assert_eq!(
        remaining,
        vec!["legacy", "running"],
        "生きているセッションと持ち主不明のセッションは消してはいけない"
    );
}

#[test]
fn sweep_is_idempotent() {
    let dir = Dir::new();
    save_in(&dir, &session_in("gone", "/w", 9_500, Some(4242))).unwrap();
    let alive = only_alive(&[]);
    assert_eq!(sweep_in(&dir, 10_000, 5_000, &alive).len(), 1);
    assert!(sweep_in(&dir, 10_000, 5_000, &alive).is_empty());
}

#[test]
fn the_lock_file_is_hidden_from_the_session_listing() {
    let dir = Dir::new();
    dir.write(LOCK_FILE_NAME, Some(session("x", 1)));
    assert!(
        list_in(&dir).is_empty(),
        "ロックファイルはセッション一覧に現れてはいけない"
    );
}

#[test]
fn an_id_is_refused_with_a_reason() {
    let why = |id: &str| validate_session_id(id).unwrap_err();
    assert_eq!(why(""), "session id must not be empty");
    assert_eq!(why(".x"), "session id must not start with '.': \".x\"");
    assert!(why("a/b").contains("'/'"), "{}", why("a/b"));
    assert!(why("a b").contains("' '"), "{}", why("a b"));
    assert_eq!(validate_session_id("A-z_0.9"), Ok(()));
}

#[test]
fn a_refused_id_touches_no_file() {
    let touched = |_: String| -> FileRead<String> { panic!("a file was asked for") };
    assert!(matches!(load("../x", touched), Err(StoreError::InvalidId(_))));
    let deleted = |_: String| -> FileRemoval<String> { panic!("a file was asked for") };
    assert!(matches!(remove("", deleted), Err(StoreError::InvalidId(_))));
}

#[test]
fn a_failing_disk_is_reported() {
    let read = load("a", |_| FileRead::Failed("no".to_string()));
    assert!(matches!(read, Err(StoreError::Io(e)) if e == "no"));
    let written = save(&session("a", 1), |_, _| Err("full".to_string()));
    assert!(matches!(written, Err(StoreError::Io(e)) if e == "full"));
    let gone = remove("a", |_| FileRemoval::Failed("no".to_string()));
    assert!(matches!(gone, Err(StoreError::Io(e)) if e == "no"));
}

#[test]
fn a_session_has_its_own_file_in_the_directory() {
    assert_eq!(session_path("/s", "a"), Ok("/s/a.json".to_string()));
    assert_eq!(session_path("/s/", "b"), Ok("/s/b.json".to_string()));
    assert!(session_path("/s", "../a").is_err());
    assert!(holds_session("a.json"));
    assert!(!holds_session("a.txt"));
    assert!(!holds_session(&temp_file_name("a.json", 12, 3)));
}

#[test]
fn what_cannot_be_deleted_is_not_reported_as_swept() {
    let dir = Dir::new();
    save_in(&dir, &session("stale", 0)).unwrap();
    assert!(sweep(dir.files(), 10_000, 5_000, all_alive, |_| false).is_empty());
    assert_eq!(list_in(&dir).len(), 1);
}

#[test]
fn a_sweep_takes_the_file_that_the_session_was_read_from() {
    let dir = Dir::new();
    dir.write("copy.json", Some(session("gone", 0)));
    dir.write("odd.json", Some(session("../odd", 0)));
    save_in(&dir, &session("fresh", 9_000)).unwrap();
    dir.write("notes.txt", Some(session("stale", 0)));
    dir.write("broken.json", None);
    let swept = sweep_in(&dir, 10_000, 5_000, &all_alive);
    let ids: Vec<&str> = swept.iter().map(|(s, _)| s.id.as_str()).collect();
    assert_eq!(ids, vec!["gone", "../odd"]);
    let left: Vec<String> = dir.files.borrow().keys().cloned().collect();
    assert_eq!(left, vec!["broken.json", "fresh.json", "notes.txt"]);
    assert!(sweep_in(&dir, 10_000, 5_000, &all_alive).is_empty());
}

#[test]
fn a_sweep_asks_only_for_dead_files() {
    let dir = Dir::new();
    save_in(&dir, &session("fresh", 9_000)).unwrap();
    save_in(&dir, &session_in("running", "/w", 9_500, Some(7))).unwrap();
    let nothing = |_: &str| -> bool { panic!("a file was asked for") };
    assert!(sweep(dir.files(), 10_000, 5_000, only_alive(&[7]), nothing).is_empty());
}

#[test]
fn removing_touches_one_session() {
    let dir = Dir::new();
    save_in(&dir, &session("a", 1)).unwrap();
    save_in(&dir, &session("b", 2)).unwrap();
    remove_in(&dir, "a").unwrap();
    remove_in(&dir, "a").unwrap();
    assert!(load_in(&dir, "a").unwrap().is_none());
    assert_eq!(load_in(&dir, "b").unwrap(), Some(session("b", 2)));
}

#[test]
fn a_refused_session_is_not_written() {
    let write = |_: String, _: &Session| -> Result<(), String> { panic!("a file was written") };
    assert!(matches!(save(&session("../x", 1), write), Err(StoreError::InvalidId(_))));
}

#[test]
fn a_lock_is_waited_for_but_not_for_ever() {
    assert_eq!(next_step(Attempt::Taken, 0), Step::Proceed);
    assert_eq!(next_step(Attempt::Interrupted, u64::MAX), Step::TryAgain);
    assert_eq!(next_step(Attempt::Held, 0), Step::WaitAndTryAgain);
    assert_eq!(next_step(Attempt::Held, ACQUIRE_TIMEOUT_MS - 1), Step::WaitAndTryAgain);
    assert_eq!(next_step(Attempt::Held, ACQUIRE_TIMEOUT_MS), Step::GiveUp);
    assert_eq!(next_step(Attempt::Failed, 0), Step::Fail);
}
