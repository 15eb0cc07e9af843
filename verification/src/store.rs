//! The session store: one file per session, named after its id.
//!
//! What is decided here is which ids and files count, in what order sessions are listed, and
//! which of them are dead. Reading, writing and deleting files is done by the functions that
//! the caller hands in.
//!
//! A writer holds the store's lock from its `load` to its `save` or `remove`. A reader needs
//! no lock, since files are replaced in one step.

use vstd::prelude::*;

use crate::join_path;
use crate::joined;
use crate::session::{
    answers, knows, session_views, verdict, DeadReason, Session, SessionView,
};
use crate::text::{
    debug_char, debug_text, ends_with, has_suffix, join2, quoted, quoted_char, to_chars,
};

verus! {

// ---- ids and file names ---------------------------------------------------------------------

/// Whether a character may stand in a session id.
pub open spec fn id_char(c: char) -> bool {
    ||| 'A' <= c <= 'Z'
    ||| 'a' <= c <= 'z'
    ||| '0' <= c <= '9'
    ||| c == '.'
    ||| c == '_'
    ||| c == '-'
}

/// The first character that may not stand in a session id.
pub open spec fn first_bad_char(id: Seq<char>) -> Option<char>
    decreases id.len(),
{
    if id.len() == 0 {
        None
    } else if !id_char(id[0]) {
        Some(id[0])
    } else {
        first_bad_char(id.drop_first())
    }
}

/// Why a session id cannot be part of a file name, if it cannot.
pub open spec fn id_problem(id: Seq<char>) -> Option<Seq<char>> {
    if id.len() == 0 {
        Some("session id must not be empty"@)
    } else if id[0] == '.' {
        Some("session id must not start with '.': "@ + debug_text(id))
    } else if first_bad_char(id) is Some {
        Some(
            "session id contains invalid character "@ + debug_char(first_bad_char(id)->0)
                + " (only [A-Za-z0-9._-] allowed): "@ + debug_text(id),
        )
    } else {
        None
    }
}

/// The name of a session's file.
pub open spec fn file_name(id: Seq<char>) -> Seq<char> {
    id + ".json"@
}

/// Whether a file of this name holds a session.
pub open spec fn is_session_file(name: Seq<char>) -> bool {
    &&& !(name.len() > 0 && name[0] == '.')
    &&& !has_suffix(name, ".tmp"@)
    &&& has_suffix(name, ".json"@)
}

/// Whether a session id can be part of a file name: it is not empty, does not start with a dot
/// and holds nothing but letters, digits, `.`, `_` and `-`.
pub fn validate_session_id(id: &str) -> (r: Result<(), String>)
    ensures
        r is Ok == id_problem(id@) is None,
        r matches Err(e) ==> Some(e@) == id_problem(id@),
{
    let v = to_chars(id);
    if v.len() == 0 {
        return Err("session id must not be empty".to_owned());
    }
    if v[0] == '.' {
        let mut e = "session id must not start with '.': ".to_owned();
        e.append(quoted(id).as_str());
        return Err(e);
    }
    let mut i: usize = 0;
    assert(v@.skip(0) == v@);
    while i < v.len()
        invariant
            i <= v@.len(),
            v@ == id@,
            v@.len() > 0,
            v@[0] != '.',
            first_bad_char(v@.skip(i as int)) == first_bad_char(id@),
        decreases v@.len() - i,
    {
        let c = v[i];
        let good = ('A' <= c && c <= 'Z') || ('a' <= c && c <= 'z') || ('0' <= c && c <= '9') || c
            == '.' || c == '_' || c == '-';
        if !good {
            let mut e = "session id contains invalid character ".to_owned();
            e.append(quoted_char(c).as_str());
            e.append(" (only [A-Za-z0-9._-] allowed): ");
            e.append(quoted(id).as_str());
            return Err(e);
        }
        assert(v@.skip(i as int).drop_first() == v@.skip(i + 1));
        i += 1;
    }
    Ok(())
}

fn session_file(id: &str) -> (r: String)
    ensures
        r@ == file_name(id@),
{
    join2(id, ".json")
}

/// The path of a session's file in the directory `dir`.
pub fn session_path(dir: &str, id: &str) -> (r: Result<String, String>)
    ensures
        r is Ok == id_problem(id@) is None,
        r matches Ok(path) ==> path@ == joined(dir@, file_name(id@)),
        r matches Err(e) ==> Some(e@) == id_problem(id@),
{
    match validate_session_id(id) {
        Ok(_) => Ok(join_path(dir, session_file(id).as_str())),
        Err(e) => Err(e),
    }
}

/// Whether a file of this name holds a session: dot files, the lock file and the temporary
/// files of writers do not.
pub fn holds_session(name: &str) -> (r: bool)
    ensures
        r == is_session_file(name@),
{
    let v = to_chars(name);
    let hidden = v.len() > 0 && v[0] == '.';
    !hidden && !ends_with(&v, ".tmp") && ends_with(&v, ".json")
}

// ---- reading, writing, deleting one session -------------------------------------------------

/// Why an operation on the store failed.
#[derive(Debug)]
pub enum StoreError<E> {
    /// The id cannot be part of a file name.
    InvalidId(String),
    /// The file system said no.
    Io(E),
}

/// What reading a session file gave.
#[derive(Debug)]
pub enum FileRead<E> {
    /// The session in it.
    Session(Session),
    /// Its content could not be read as a session.
    Broken,
    /// There is no such file.
    Missing,
    /// It could not be read.
    Failed(E),
}

/// What deleting a file gave.
#[derive(Debug)]
pub enum FileRemoval<E> {
    Removed,
    /// There was no such file.
    Missing,
    Failed(E),
}

/// Whether the answer is that the store refuses the id, with the reason.
pub open spec fn refuses<T, E>(id: Seq<char>, r: Result<T, StoreError<E>>) -> bool {
    r matches Err(StoreError::InvalidId(e)) && Some(e@) == id_problem(id)
}

/// What a read means: a missing or broken file is no session, not an error.
pub open spec fn loaded<E>(read: FileRead<E>) -> Result<Option<Session>, StoreError<E>> {
    match read {
        FileRead::Session(s) => Ok(Some(s)),
        FileRead::Broken => Ok(None),
        FileRead::Missing => Ok(None),
        FileRead::Failed(e) => Err(StoreError::Io(e)),
    }
}

/// What a deletion means: that there was nothing to delete is no error.
pub open spec fn removed<E>(removal: FileRemoval<E>) -> Result<(), StoreError<E>> {
    match removal {
        FileRemoval::Removed => Ok(()),
        FileRemoval::Missing => Ok(()),
        FileRemoval::Failed(e) => Err(StoreError::Io(e)),
    }
}

/// What a write means.
pub open spec fn written<E>(got: Result<(), E>) -> Result<(), StoreError<E>> {
    match got {
        Ok(_) => Ok(()),
        Err(e) => Err(StoreError::Io(e)),
    }
}

/// Whether a read of the file `name` that gave `got` is how a session is loaded.
pub open spec fn loads_by<E, R: FnOnce(String) -> FileRead<E>>(
    id: Seq<char>,
    read: R,
    name: String,
    got: FileRead<E>,
    r: Result<Option<Session>, StoreError<E>>,
) -> bool {
    &&& id_problem(id) is None
    &&& name@ == file_name(id)
    &&& call_ensures(read, (name,), got)
    &&& r == loaded(got)
}

/// Whether a write of the file `name` that gave `got` is how a session is saved.
pub open spec fn saves_by<E, W: FnOnce(String, &Session) -> Result<(), E>>(
    s: &Session,
    write: W,
    name: String,
    got: Result<(), E>,
    r: Result<(), StoreError<E>>,
) -> bool {
    &&& id_problem(s.id@) is None
    &&& name@ == file_name(s.id@)
    &&& call_ensures(write, (name, s), got)
    &&& r == written(got)
}

/// Whether a deletion of the file `name` that gave `got` is how a session is removed.
pub open spec fn removes_by<E, D: FnOnce(String) -> FileRemoval<E>>(
    id: Seq<char>,
    delete: D,
    name: String,
    got: FileRemoval<E>,
    r: Result<(), StoreError<E>>,
) -> bool {
    &&& id_problem(id) is None
    &&& name@ == file_name(id)
    &&& call_ensures(delete, (name,), got)
    &&& r == removed(got)
}

/// Reads a session. `read` is given the name of its file, and only if the id is valid.
pub fn load<E>(id: &str, read: impl FnOnce(String) -> FileRead<E>) -> (r: Result<
    Option<Session>,
    StoreError<E>,
>)
    requires
        forall|name: String|
            id_problem(id@) is None && name@ == file_name(id@) ==> #[trigger] call_requires(
                read,
                (name,),
            ),
    ensures
        id_problem(id@) is Some ==> refuses(id@, r),
        id_problem(id@) is None ==> exists|name: String, got: FileRead<E>| #[trigger]
            loads_by(id@, read, name, got, r),
{
    match validate_session_id(id) {
        Ok(_) => {},
        Err(e) => {
            return Err(StoreError::InvalidId(e));
        },
    }
    let name = session_file(id);
    let ghost asked_for = name;
    let got = read(name);
    let ghost answer = got;
    let r = match got {
        FileRead::Session(s) => Ok(Some(s)),
        FileRead::Broken => Ok(None),
        FileRead::Missing => Ok(None),
        FileRead::Failed(e) => Err(StoreError::Io(e)),
    };
    assert(loads_by(id@, read, asked_for, answer, r));
    r
}

/// Writes a session. `write` is given the name of its file and the session, and only if the id
/// is valid.
pub fn save<E>(s: &Session, write: impl FnOnce(String, &Session) -> Result<(), E>) -> (r: Result<
    (),
    StoreError<E>,
>)
    requires
        forall|name: String|
            id_problem(s.id@) is None && name@ == file_name(s.id@) ==> #[trigger] call_requires(
                write,
                (name, s),
            ),
    ensures
        id_problem(s.id@) is Some ==> refuses(s.id@, r),
        id_problem(s.id@) is None ==> exists|name: String, got: Result<(), E>| #[trigger]
            saves_by(s, write, name, got, r),
{
    match validate_session_id(s.id.as_str()) {
        Ok(_) => {},
        Err(e) => {
            return Err(StoreError::InvalidId(e));
        },
    }
    let name = session_file(s.id.as_str());
    let ghost asked_for = name;
    let got = write(name, s);
    let ghost answer = got;
    let r = match got {
        Ok(_) => Ok(()),
        Err(e) => Err(StoreError::Io(e)),
    };
    assert(saves_by(s, write, asked_for, answer, r));
    r
}

/// Deletes a session. `delete` is given the name of its file, and only if the id is valid.
pub fn remove<E>(id: &str, delete: impl FnOnce(String) -> FileRemoval<E>) -> (r: Result<
    (),
    StoreError<E>,
>)
    requires
        forall|name: String|
            id_problem(id@) is None && name@ == file_name(id@) ==> #[trigger] call_requires(
                delete,
                (name,),
            ),
    ensures
        id_problem(id@) is Some ==> refuses(id@, r),
        id_problem(id@) is None ==> exists|name: String, got: FileRemoval<E>| #[trigger]
            removes_by(id@, delete, name, got, r),
{
    match validate_session_id(id) {
        Ok(_) => {},
        Err(e) => {
            return Err(StoreError::InvalidId(e));
        },
    }
    let name = session_file(id);
    let ghost asked_for = name;
    let got = delete(name);
    let ghost answer = got;
    let r = match got {
        FileRemoval::Removed => Ok(()),
        FileRemoval::Missing => Ok(()),
        FileRemoval::Failed(e) => Err(StoreError::Io(e)),
    };
    assert(removes_by(id@, delete, asked_for, answer, r));
    r
}

// ---- listing --------------------------------------------------------------------------------

/// A file of the store's directory: its name, and the session in it if it can be read as one.
#[derive(Debug)]
pub struct StoredFile {
    pub name: String,
    pub session: Option<Session>,
}

/// What a `StoredFile` holds.
pub struct StoredView {
    pub name: Seq<char>,
    pub session: Option<SessionView>,
}

impl View for StoredFile {
    type V = StoredView;

    open spec fn view(&self) -> StoredView {
        StoredView {
            name: self.name@,
            session: match self.session {
                Some(s) => Some(s@),
                None => None,
            },
        }
    }
}

/// What the files of a list hold.
pub open spec fn stored_views(v: Seq<StoredFile>) -> Seq<StoredView> {
    Seq::new(v.len(), |i: int| v[i]@)
}

/// A session and the name of the file it was found in.
pub struct FoundView {
    pub name: Seq<char>,
    pub session: SessionView,
}

/// The sessions of the files that count, each with its file, in the order of the files.
pub open spec fn found(files: Seq<StoredView>) -> Seq<FoundView>
    decreases files.len(),
{
    if files.len() == 0 {
        Seq::empty()
    } else {
        let before = found(files.drop_last());
        let f = files.last();
        match f.session {
            Some(s) => if is_session_file(f.name) {
                before.push(FoundView { name: f.name, session: s })
            } else {
                before
            },
            None => before,
        }
    }
}

/// The sessions, without the files they were found in.
pub open spec fn sessions_of(v: Seq<FoundView>) -> Seq<SessionView> {
    Seq::new(v.len(), |i: int| v[i].session)
}

struct Found {
    name: String,
    session: Session,
}

impl View for Found {
    type V = FoundView;

    closed spec fn view(&self) -> FoundView {
        FoundView { name: self.name@, session: self.session@ }
    }
}

spec fn found_views(v: Seq<Found>) -> Seq<FoundView> {
    Seq::new(v.len(), |i: int| v[i]@)
}

/// Whether `order` lists every index below `n` once.
pub open spec fn is_order(order: Seq<int>, n: nat) -> bool {
    &&& order.len() == n
    &&& forall|i: int| 0 <= i < n ==> 0 <= #[trigger] order[i] < n
    &&& forall|i: int, j: int| 0 <= i < j < n ==> #[trigger] order[i] != #[trigger] order[j]
}

/// Whether `listing` is `sessions` with the last updated first, those updated at the same time
/// in the order in which they were.
pub open spec fn is_listing(
    listing: Seq<FoundView>,
    sessions: Seq<FoundView>,
    order: Seq<int>,
) -> bool {
    &&& is_order(order, sessions.len())
    &&& listing.len() == sessions.len()
    &&& forall|i: int| 0 <= i < listing.len() ==> #[trigger] listing[i] == sessions[order[i]]
    &&& forall|i: int, j: int|
        0 <= i < j < listing.len() ==> (#[trigger] listing[i]).session.updated > (
        #[trigger] listing[j]).session.updated || (listing[i].session.updated == listing[j].session.updated && order[i]
            < order[j])
}

proof fn lemma_listing_insert(
    listing: Seq<FoundView>,
    sessions: Seq<FoundView>,
    order: Seq<int>,
    s: FoundView,
    at: int,
) -> (new_order: Seq<int>)
    requires
        is_listing(listing, sessions, order),
        0 <= at <= listing.len(),
        forall|i: int| 0 <= i < at ==> (#[trigger] listing[i]).session.updated >= s.session.updated,
        forall|i: int| at <= i < listing.len() ==> (#[trigger] listing[i]).session.updated < s.session.updated,
    ensures
        is_listing(listing.insert(at, s), sessions.push(s), new_order),
{
    let n = sessions.len() as int;
    let new_order = order.insert(at, n);
    let more = listing.insert(at, s);
    let all = sessions.push(s);
    assert forall|i: int| 0 <= i < more.len() implies #[trigger] more[i] == all[new_order[i]]
        && 0 <= new_order[i] < all.len() by {
        if i < at {
            assert(more[i] == listing[i] && new_order[i] == order[i]);
        } else if i > at {
            assert(more[i] == listing[i - 1] && new_order[i] == order[i - 1]);
        }
    }
    assert forall|i: int, j: int| 0 <= i < j < more.len() implies #[trigger] new_order[i]
        != #[trigger] new_order[j] by {
        let a = if i < at {
            i
        } else {
            i - 1
        };
        let b = if j < at {
            j
        } else {
            j - 1
        };
        if i != at {
            assert(new_order[i] == order[a]);
        }
        if j != at {
            assert(new_order[j] == order[b]);
        }
    }
    assert forall|i: int, j: int| 0 <= i < j < more.len() implies (#[trigger] more[i]).session.updated > (
    #[trigger] more[j]).session.updated || (more[i].session.updated == more[j].session.updated && new_order[i]
        < new_order[j]) by {
        let a = if i < at {
            i
        } else {
            i - 1
        };
        let b = if j < at {
            j
        } else {
            j - 1
        };
        if i != at {
            assert(more[i] == listing[a] && new_order[i] == order[a]);
        }
        if j != at {
            assert(more[j] == listing[b] && new_order[j] == order[b]);
        }
    }
    new_order
}

fn insert_by_updated(listing: &mut Vec<Found>, s: Found)
    requires
        exists|order: Seq<int>, sessions: Seq<FoundView>| #[trigger]
            is_listing(found_views(old(listing)@), sessions, order),
    ensures
        forall|order: Seq<int>, sessions: Seq<FoundView>| #[trigger]
            is_listing(found_views(old(listing)@), sessions, order) ==> exists|more: Seq<int>|
                #[trigger] is_listing(found_views(final(listing)@), sessions.push(s@), more),
{
    let ghost before = found_views(listing@);
    let mut at: usize = listing.len();
    while at > 0 && listing[at - 1].session.updated < s.session.updated
        invariant
            at <= listing@.len(),
            before == found_views(listing@),
            forall|i: int| at <= i < before.len() ==> (#[trigger] before[i]).session.updated < s.session.updated,
        decreases at,
    {
        assert(before[at - 1] == listing@[at - 1]@);
        at -= 1;
    }
    proof {
        let (order, sessions) = choose|order: Seq<int>, sessions: Seq<FoundView>| #[trigger]
            is_listing(before, sessions, order);
        assert forall|i: int| 0 <= i < at implies (#[trigger] before[i]).session.updated >= s.session.updated by {
            assert(before[at - 1] == listing@[at - 1]@);
            if i < at - 1 {
                assert(before[i].session.updated >= before[at - 1].session.updated);
            }
        }
    }
    let ghost added = s@;
    listing.insert(at, s);
    proof {
        assert(found_views(listing@) =~= before.insert(at as int, added));
        assert forall|order: Seq<int>, sessions: Seq<FoundView>| #[trigger]
            is_listing(before, sessions, order) implies exists|more: Seq<int>| #[trigger]
            is_listing(found_views(listing@), sessions.push(added), more) by {
            let more = lemma_listing_insert(before, sessions, order, added, at as int);
            assert(is_listing(found_views(listing@), sessions.push(added), more));
        }
    }
}

fn list_found(files: Vec<StoredFile>) -> (r: Vec<Found>)
    ensures
        exists|order: Seq<int>| #[trigger]
            is_listing(found_views(r@), found(stored_views(files@)), order),
{
    let ghost all = stored_views(files@);
    let mut rest = files;
    let mut out: Vec<Found> = Vec::new();
    let mut i: usize = 0;
    let n: usize = rest.len();
    proof {
        assert(found_views(out@) =~= Seq::<FoundView>::empty());
        assert(all.take(0) =~= Seq::<StoredView>::empty());
        assert(is_listing(found_views(out@), found(all.take(0)), Seq::<int>::empty()));
    }
    while i < n
        invariant
            i <= n,
            n == all.len(),
            stored_views(rest@) == all.skip(i as int),
            exists|order: Seq<int>| #[trigger]
                is_listing(found_views(out@), found(all.take(i as int)), order),
        decreases n - i,
    {
        let ghost remaining = rest@;
        assert(stored_views(remaining).len() == n - i);
        let f = rest.remove(0);
        proof {
            assert(stored_views(remaining)[0] == f@);
            assert(all.take(i + 1).drop_last() =~= all.take(i as int));
            assert(all.take(i + 1).last() == all[i as int]);
            assert(all.skip(i as int)[0] == all[i as int]);
            assert(stored_views(rest@) =~= all.skip(i + 1)) by {
                assert forall|k: int| 0 <= k < rest@.len() implies #[trigger] rest@[k]@
                    == all.skip(i + 1)[k] by {
                    assert(stored_views(remaining)[k + 1] == all.skip(i as int)[k + 1]);
                }
            }
        }
        let counts = holds_session(f.name.as_str());
        let ghost so_far = found(all.take(i as int));
        let ghost order = choose|order: Seq<int>| #[trigger]
            is_listing(found_views(out@), so_far, order);
        assert(is_listing(found_views(out@), so_far, order));
        match f.session {
            Some(s) => if counts {
                let f = Found { name: f.name, session: s };
                let ghost added = f@;
                insert_by_updated(&mut out, f);
                assert(found(all.take(i + 1)) == so_far.push(added));
            } else {
                assert(found(all.take(i + 1)) == so_far);
            },
            None => {
                assert(found(all.take(i + 1)) == so_far);
            },
        }
        i += 1;
    }
    assert(all.take(n as int) =~= all);
    out
}

/// The sessions of the store, the last updated first. Files that are not session files, or
/// cannot be read as a session, are passed over.
pub fn list(files: Vec<StoredFile>) -> (r: Vec<Session>)
    ensures
        exists|listing: Seq<FoundView>, order: Seq<int>| #[trigger]
            is_listing(listing, found(stored_views(files@)), order) && session_views(r@)
                == sessions_of(listing),
{
    let mut rest = list_found(files);
    let ghost listing = found_views(rest@);
    let n: usize = rest.len();
    let mut i: usize = 0;
    let mut out: Vec<Session> = Vec::new();
    assert(found_views(rest@) =~= listing.skip(0));
    while i < n
        invariant
            i <= n,
            n == listing.len(),
            found_views(rest@) == listing.skip(i as int),
            session_views(out@) == sessions_of(listing).take(i as int),
        decreases n - i,
    {
        let ghost remaining = rest@;
        let ghost before = out@;
        assert(found_views(remaining).len() == n - i);
        let f = rest.remove(0);
        proof {
            lemma_first_found(listing, remaining, rest@, i as int);
        }
        out.push(f.session);
        assert(session_views(out@) =~= session_views(before).push(f.session@));
        i += 1;
        assert(sessions_of(listing).take(i as int) =~= sessions_of(listing).take(i - 1).push(
            listing[i - 1].session,
        ));
    }
    assert(sessions_of(listing).take(n as int) =~= sessions_of(listing));
    out
}

proof fn lemma_first_found(
    listing: Seq<FoundView>,
    remaining: Seq<Found>,
    rest: Seq<Found>,
    i: int,
)
    requires
        0 <= i < listing.len(),
        found_views(remaining) == listing.skip(i),
        rest == remaining.remove(0),
    ensures
        remaining.len() == listing.len() - i,
        remaining[0]@ == listing[i],
        found_views(rest) == listing.skip(i + 1),
{
    assert(found_views(remaining).len() == listing.len() - i);
    assert(found_views(remaining)[0] == listing.skip(i)[0]);
    assert(found_views(rest) =~= listing.skip(i + 1)) by {
        assert forall|k: int| 0 <= k < rest.len() implies #[trigger] rest[k]@ == listing.skip(
            i + 1,
        )[k] by {
            assert(found_views(remaining)[k + 1] == listing.skip(i)[k + 1]);
        }
    }
}

// ---- the living and the dead ----------------------------------------------------------------

/// Whether the answers are what `alive` gives for the first sessions of the listing, one each.
pub open spec fn asked<F: Fn(u32) -> bool>(
    alive: F,
    listing: Seq<FoundView>,
    running: Seq<bool>,
) -> bool {
    running.len() <= listing.len() && forall|i: int|
        0 <= i < running.len() ==> answers(alive, listing[i].session, #[trigger] running[i])
}

/// The live ones among the sessions asked about, in order.
pub open spec fn living(
    listing: Seq<FoundView>,
    running: Seq<bool>,
    now: u64,
    ttl: u64,
) -> Seq<SessionView>
    decreases running.len(),
{
    if running.len() == 0 {
        Seq::empty()
    } else {
        let i = running.len() - 1;
        let before = living(listing, running.drop_last(), now, ttl);
        if verdict(listing[i].session, now, ttl, running[i]) is None {
            before.push(listing[i].session)
        } else {
            before
        }
    }
}

/// The dead ones among the sessions asked about, in order, each with the reason.
pub open spec fn condemned(
    listing: Seq<FoundView>,
    running: Seq<bool>,
    now: u64,
    ttl: u64,
) -> Seq<(FoundView, DeadReason)>
    decreases running.len(),
{
    if running.len() == 0 {
        Seq::empty()
    } else {
        let i = running.len() - 1;
        let before = condemned(listing, running.drop_last(), now, ttl);
        match verdict(listing[i].session, now, ttl, running[i]) {
            Some(reason) => before.push((listing[i], reason)),
            None => before,
        }
    }
}

/// Whether `r` are the live sessions of the files, at most `max` of them.
pub open spec fn lists_live<F: Fn(u32) -> bool>(
    files: Seq<StoredView>,
    now: u64,
    ttl: u64,
    max: usize,
    alive: F,
    r: Seq<SessionView>,
) -> bool {
    exists|listing: Seq<FoundView>, order: Seq<int>, running: Seq<bool>|
        {
            &&& #[trigger] is_listing(listing, found(files), order)
            &&& #[trigger] asked(alive, listing, running)
            &&& r == living(listing, running, now, ttl)
            &&& r.len() <= max
            &&& r.len() == max || running.len() == listing.len()
        }
}

/// The live sessions, the last updated first, at most `max` of them. Dead sessions take up no
/// place.
pub fn list_live(
    files: Vec<StoredFile>,
    now: u64,
    session_ttl_ms: u64,
    max: usize,
    alive: impl Fn(u32) -> bool,
) -> (r: Vec<Session>)
    requires
        forall|pid: u32| call_requires(alive, (pid,)),
    ensures
        lists_live(stored_views(files@), now, session_ttl_ms, max, alive, session_views(r@)),
{
    let ghost views = stored_views(files@);
    let mut rest = list_found(files);
    let ghost listing = found_views(rest@);
    let ghost order = choose|order: Seq<int>| #[trigger] is_listing(listing, found(views), order);
    let ghost mut running: Seq<bool> = Seq::empty();
    let n: usize = rest.len();
    let mut i: usize = 0;
    let mut out: Vec<Session> = Vec::new();
    assert(session_views(out@) =~= Seq::<SessionView>::empty());
    assert(found_views(rest@) =~= listing.skip(0));
    while i < n && out.len() < max
        invariant
            forall|pid: u32| call_requires(alive, (pid,)),
            i <= n,
            n == listing.len(),
            running.len() == i,
            found_views(rest@) == listing.skip(i as int),
            asked(alive, listing, running),
            session_views(out@) == living(listing, running, now, session_ttl_ms),
            out@.len() <= max,
        decreases n - i,
    {
        let ghost remaining = rest@;
        assert(found_views(remaining).len() == n - i);
        let f = rest.remove(0);
        proof {
            lemma_first_found(listing, remaining, rest@, i as int);
        }
        let s = f.session;
        let live = s.is_live(now, session_ttl_ms, &alive);
        proof {
            let answer = choose|answer: bool| #[trigger]
                answers(&alive, s@, answer) && live == (verdict(s@, now, session_ttl_ms, answer) is
                None);
            let more = running.push(answer);
            assert(more.drop_last() =~= running);
            assert(answers(alive, listing[i as int].session, more[i as int]));
            assert forall|k: int| 0 <= k < more.len() implies answers(
                alive,
                listing[k].session,
                #[trigger] more[k],
            ) by {
                if k < i {
                    assert(more[k] == running[k]);
                }
            }
            running = more;
        }
        if live {
            let ghost before = out@;
            let ghost added = s@;
            out.push(s);
            assert(session_views(out@) =~= session_views(before).push(added));
        }
        i += 1;
    }
    assert(is_listing(listing, found(views), order));
    out
}

/// What was deleted among the condemned, in order.
pub open spec fn deleted(
    dead: Seq<(FoundView, DeadReason)>,
    done: Seq<bool>,
) -> Seq<(FoundView, DeadReason)>
    decreases done.len(),
{
    if done.len() == 0 {
        Seq::empty()
    } else {
        let i = done.len() - 1;
        let before = deleted(dead, done.drop_last());
        if done[i] {
            before.push(dead[i])
        } else {
            before
        }
    }
}

/// The sessions with the reasons, without the files they were found in.
pub open spec fn reported(v: Seq<(FoundView, DeadReason)>) -> Seq<(SessionView, DeadReason)> {
    Seq::new(v.len(), |i: int| (v[i].0.session, v[i].1))
}

/// What a list of sessions with reasons holds.
pub open spec fn dead_views(v: Seq<(Session, DeadReason)>) -> Seq<(SessionView, DeadReason)> {
    Seq::new(v.len(), |i: int| (v[i].0@, v[i].1))
}

/// Whether a sweep may delete the file `name`: it holds a session that is dead by an answer of
/// `alive`.
pub open spec fn may_sweep<F: Fn(u32) -> bool>(
    files: Seq<StoredView>,
    now: u64,
    ttl: u64,
    alive: F,
    name: Seq<char>,
) -> bool {
    exists|f: FoundView, running: bool|
        {
            &&& found(files).contains(f)
            &&& f.name == name
            &&& #[trigger] answers(alive, f.session, running)
            &&& verdict(f.session, now, ttl, running) is Some
        }
}

/// Whether `gone` is what `delete` gives for a file.
pub open spec fn deletes<G: Fn(&str) -> bool>(delete: G, name: Seq<char>, gone: bool) -> bool {
    exists|n: &str| n@ == name && #[trigger] call_ensures(delete, (n,), gone)
}

/// Whether the outcomes are what `delete` gives for the files of the condemned, one each.
pub open spec fn tried<G: Fn(&str) -> bool>(
    delete: G,
    dead: Seq<(FoundView, DeadReason)>,
    done: Seq<bool>,
) -> bool {
    done.len() == dead.len() && forall|i: int|
        0 <= i < done.len() ==> deletes(delete, dead[i].0.name, #[trigger] done[i])
}

/// Whether a sweep goes through the files in the order of `listing`, with these answers about
/// processes and these outcomes of deletions, and reports `r`.
pub open spec fn sweeps_by<F: Fn(u32) -> bool, G: Fn(&str) -> bool>(
    files: Seq<StoredView>,
    now: u64,
    ttl: u64,
    alive: F,
    delete: G,
    listing: Seq<FoundView>,
    order: Seq<int>,
    running: Seq<bool>,
    done: Seq<bool>,
    r: Seq<(SessionView, DeadReason)>,
) -> bool {
    &&& is_listing(listing, found(files), order)
    &&& asked(alive, listing, running)
    &&& running.len() == listing.len()
    &&& tried(delete, condemned(listing, running, now, ttl), done)
    &&& r == reported(deleted(condemned(listing, running, now, ttl), done))
}

/// Deletes the files of the dead sessions, and no others. Gives back the sessions whose file was
/// deleted, each with the reason, so that the caller can account for them. `delete` is given the
/// name of a file and says whether it succeeded; what could not be deleted is not reported.
pub fn sweep(
    files: Vec<StoredFile>,
    now: u64,
    session_ttl_ms: u64,
    alive: impl Fn(u32) -> bool,
    delete: impl Fn(&str) -> bool,
) -> (r: Vec<(Session, DeadReason)>)
    requires
        forall|pid: u32| call_requires(alive, (pid,)),
        forall|name: &str|
            may_sweep(stored_views(files@), now, session_ttl_ms, alive, name@) ==> #[trigger]
            call_requires(delete, (name,)),
    ensures
        exists|
            listing: Seq<FoundView>,
            order: Seq<int>,
            running: Seq<bool>,
            done: Seq<bool>,
        | #[trigger]
            sweeps_by(
                stored_views(files@),
                now,
                session_ttl_ms,
                alive,
                delete,
                listing,
                order,
                running,
                done,
                dead_views(r@),
            ),
{
    let ghost views = stored_views(files@);
    let mut rest = list_found(files);
    let ghost listing = found_views(rest@);
    let ghost order = choose|order: Seq<int>| #[trigger] is_listing(listing, found(views), order);
    let ghost mut running: Seq<bool> = Seq::empty();
    let ghost mut done: Seq<bool> = Seq::empty();
    let n: usize = rest.len();
    let mut i: usize = 0;
    let mut out: Vec<(Session, DeadReason)> = Vec::new();
    assert(dead_views(out@) =~= reported(Seq::empty()));
    assert(found_views(rest@) =~= listing.skip(0));
    while i < n
        invariant
            forall|pid: u32| call_requires(alive, (pid,)),
            forall|name: &str|
                may_sweep(views, now, session_ttl_ms, alive, name@) ==> #[trigger] call_requires(
                    delete,
                    (name,),
                ),
            i <= n,
            n == listing.len(),
            running.len() == i,
            is_listing(listing, found(views), order),
            found_views(rest@) == listing.skip(i as int),
            asked(alive, listing, running),
            tried(delete, condemned(listing, running, now, session_ttl_ms), done),
            dead_views(out@) == reported(
                deleted(condemned(listing, running, now, session_ttl_ms), done),
            ),
        decreases n - i,
    {
        let ghost remaining = rest@;
        let ghost dead = condemned(listing, running, now, session_ttl_ms);
        assert(found_views(remaining).len() == n - i);
        let f = rest.remove(0);
        proof {
            lemma_first_found(listing, remaining, rest@, i as int);
        }
        let reason = f.session.dead_reason(now, session_ttl_ms, &alive);
        proof {
            let answer = choose|answer: bool| #[trigger]
                answers(&alive, f.session@, answer) && reason == verdict(
                    f.session@,
                    now,
                    session_ttl_ms,
                    answer,
                );
            let more = running.push(answer);
            assert(more.drop_last() =~= running);
            assert(answers(alive, listing[i as int].session, more[i as int]));
            assert forall|k: int| 0 <= k < more.len() implies answers(
                alive,
                listing[k].session,
                #[trigger] more[k],
            ) by {
                if k < i {
                    assert(more[k] == running[k]);
                }
            }
            running = more;
        }
        if let Some(reason) = reason {
            proof {
                assert(listing[i as int] == found(views)[order[i as int]]);
                assert(found(views).contains(f@));
                assert(answers(alive, f@.session, running[i as int]));
                assert(may_sweep(views, now, session_ttl_ms, alive, f.name@));
            }
            let gone = delete(f.name.as_str());
            proof {
                let more_dead = condemned(listing, running, now, session_ttl_ms);
                assert(more_dead == dead.push((f@, reason)));
                let more_done = done.push(gone);
                assert(deletes(delete, f@.name, gone));
                assert forall|k: int| 0 <= k < more_done.len() implies deletes(
                    delete,
                    more_dead[k].0.name,
                    #[trigger] more_done[k],
                ) by {
                    if k < done.len() {
                        assert(more_done[k] == done[k]);
                        assert(more_dead[k] == dead[k]);
                    }
                }
                assert(more_done.drop_last() =~= done);
                lemma_deleted_prefix(dead, (f@, reason), done);
                done = more_done;
            }
            if gone {
                let ghost before = out@;
                let ghost added = (f@, reason);
                let ghost so_far = deleted(dead, done.drop_last());
                out.push((f.session, reason));
                assert(dead_views(out@) =~= dead_views(before).push((added.0.session, reason)));
                assert(reported(so_far.push(added)) =~= reported(so_far).push(
                    (added.0.session, reason),
                ));
            }
        }
        i += 1;
    }
    assert(sweeps_by(
        views,
        now,
        session_ttl_ms,
        alive,
        delete,
        listing,
        order,
        running,
        done,
        dead_views(out@),
    ));
    out
}

proof fn lemma_deleted_prefix(
    dead: Seq<(FoundView, DeadReason)>,
    extra: (FoundView, DeadReason),
    done: Seq<bool>,
)
    requires
        done.len() <= dead.len(),
    ensures
        deleted(dead.push(extra), done) == deleted(dead, done),
    decreases done.len(),
{
    if done.len() > 0 {
        lemma_deleted_prefix(dead, extra, done.drop_last());
    }
}

// ---- laws -----------------------------------------------------------------------------------

proof fn lemma_no_bad_char(id: Seq<char>)
    requires
        first_bad_char(id) is None,
    ensures
        forall|i: int| 0 <= i < id.len() ==> id_char(#[trigger] id[i]),
    decreases id.len(),
{
    if id.len() > 0 {
        let rest = id.drop_first();
        lemma_no_bad_char(rest);
        assert forall|i: int| 0 <= i < id.len() implies id_char(#[trigger] id[i]) by {
            if i > 0 {
                assert(id[i] == rest[i - 1]);
            }
        }
    }
}

/// The file of a session with a valid id stays in the store's directory: its name has no
/// slash.
pub proof fn law_a_valid_id_stays_in_the_directory(id: Seq<char>)
    requires
        id_problem(id) is None,
    ensures
        !file_name(id).contains('/'),
{
    lemma_no_bad_char(id);
    reveal_strlit(".json");
    let name = file_name(id);
    assert forall|i: int| 0 <= i < name.len() implies #[trigger] name[i] != '/' by {
        if i < id.len() {
            assert(name[i] == id[i]);
            assert(id_char(id[i]));
        } else {
            assert(name[i] == ".json"@[i - id.len()]);
        }
    }
}

/// Whatever can be saved is found by `list`.
pub proof fn law_a_saved_session_is_listed(id: Seq<char>)
    requires
        id_problem(id) is None,
    ensures
        is_session_file(file_name(id)),
{
    reveal_strlit(".json");
    reveal_strlit(".tmp");
    let name = file_name(id);
    assert(name[0] == id[0]);
    assert(name.skip(name.len() - 5) =~= ".json"@);
    assert(name.last() == 'n');
    if has_suffix(name, ".tmp"@) {
        assert(name.skip(name.len() - 4).last() == 'p');
    }
}

/// Different sessions have different files.
pub proof fn law_different_ids_have_different_files(one: Seq<char>, other: Seq<char>)
    requires
        file_name(one) == file_name(other),
    ensures
        one == other,
{
    assert(file_name(one).len() == one.len() + ".json"@.len());
    assert(file_name(other).len() == other.len() + ".json"@.len());
    assert(one =~= file_name(one).take(one.len() as int));
    assert(other =~= file_name(other).take(other.len() as int));
}

/// Neither a writer's temporary file nor the lock file is ever taken for a session.
pub proof fn law_working_files_are_not_listed(base: Seq<char>, pid: nat, seq: nat)
    ensures
        !is_session_file(crate::temp_name(base, pid, seq)),
        !is_session_file(crate::lock::LOCK_FILE_NAME@),
{
    reveal_strlit(".");
    reveal_strlit(".lock");
    let name = crate::temp_name(base, pid, seq);
    assert(name[0] == '.');
}

/// A session that was asked about is either listed as live or condemned, and not both.
pub proof fn law_living_and_condemned_are_all(
    listing: Seq<FoundView>,
    running: Seq<bool>,
    now: u64,
    ttl: u64,
)
    ensures
        living(listing, running, now, ttl).len() + condemned(listing, running, now, ttl).len()
            == running.len(),
    decreases running.len(),
{
    if running.len() > 0 {
        law_living_and_condemned_are_all(listing, running.drop_last(), now, ttl);
    }
}

/// Every session that is listed as live is alive by the answer given for it.
pub proof fn law_only_the_living_are_listed(
    listing: Seq<FoundView>,
    running: Seq<bool>,
    now: u64,
    ttl: u64,
    k: int,
)
    requires
        0 <= k < living(listing, running, now, ttl).len(),
    ensures
        exists|i: int|
            0 <= i < running.len() && living(listing, running, now, ttl)[k] == listing[i].session
                && verdict(listing[i].session, now, ttl, #[trigger] running[i]) is None,
    decreases running.len(),
{
    let shorter = running.drop_last();
    let before = living(listing, shorter, now, ttl);
    if k < before.len() {
        law_only_the_living_are_listed(listing, shorter, now, ttl, k);
        let i = choose|i: int|
            0 <= i < shorter.len() && before[k] == listing[i].session && verdict(
                listing[i].session,
                now,
                ttl,
                #[trigger] shorter[i],
            ) is None;
        assert(running[i] == shorter[i]);
    } else {
        let i = running.len() - 1;
        assert(verdict(listing[i].session, now, ttl, running[i]) is None);
    }
}

/// A live session is never left out for the dead ones before it: with every session asked
/// about, each that lives by the answer given for it is listed.
pub proof fn law_every_living_session_is_listed(
    listing: Seq<FoundView>,
    running: Seq<bool>,
    now: u64,
    ttl: u64,
    i: int,
)
    requires
        0 <= i < running.len(),
        verdict(listing[i].session, now, ttl, running[i]) is None,
    ensures
        living(listing, running, now, ttl).contains(listing[i].session),
    decreases running.len(),
{
    let shorter = running.drop_last();
    let before = living(listing, shorter, now, ttl);
    let all = living(listing, running, now, ttl);
    if i < shorter.len() {
        assert(shorter[i] == running[i]);
        law_every_living_session_is_listed(listing, shorter, now, ttl, i);
        let k = choose|k: int| 0 <= k < before.len() && before[k] == listing[i].session;
        assert(all[k] == before[k]);
    } else {
        assert(all[before.len() as int] == listing[i].session);
    }
}

// ---- laws over the files of a directory -----------------------------------------------------

/// The files of a directory: for each name the session in the file, or none if its content
/// cannot be read as one.
pub type Files = Map<Seq<char>, Option<SessionView>>;

/// Whether `read` gives back what the files hold, without failing.
pub open spec fn reads_from<E, R: FnOnce(String) -> FileRead<E>>(read: R, files: Files) -> bool {
    forall|name: String, got: FileRead<E>| #[trigger]
        call_ensures(read, (name,), got) ==> match got {
            FileRead::Session(s) => files.contains_key(name@) && files[name@] == Some(s@),
            FileRead::Broken => files.contains_key(name@) && files[name@] is None,
            FileRead::Missing => !files.contains_key(name@),
            FileRead::Failed(_) => false,
        }
}

/// Whether `load` gives `r` for an id.
pub open spec fn loads<E, R: FnOnce(String) -> FileRead<E>>(
    id: Seq<char>,
    read: R,
    r: Result<Option<Session>, StoreError<E>>,
) -> bool {
    if id_problem(id) is Some {
        refuses(id, r)
    } else {
        exists|name: String, got: FileRead<E>| #[trigger] loads_by(id, read, name, got, r)
    }
}

/// Whether `save` gives `r` and turns the files `before` into `after`, where a write that
/// succeeds puts the session into the file that it is asked for and does nothing else, and one
/// that fails does nothing.
pub open spec fn saves_into<E, W: FnOnce(String, &Session) -> Result<(), E>>(
    s: &Session,
    write: W,
    r: Result<(), StoreError<E>>,
    before: Files,
    after: Files,
) -> bool {
    if id_problem(s.id@) is Some {
        refuses(s.id@, r) && after == before
    } else {
        exists|name: String, got: Result<(), E>|
            {
                &&& #[trigger] saves_by(s, write, name, got, r)
                &&& after == if got is Ok {
                    before.insert(name@, Some(s@))
                } else {
                    before
                }
            }
    }
}

/// Whether `remove` gives `r` and turns the files `before` into `after`, where a deletion takes
/// away the file that it is asked for, says so if there is none, and does nothing else.
pub open spec fn removes_from<E, D: FnOnce(String) -> FileRemoval<E>>(
    id: Seq<char>,
    delete: D,
    r: Result<(), StoreError<E>>,
    before: Files,
    after: Files,
) -> bool {
    if id_problem(id) is Some {
        refuses(id, r) && after == before
    } else {
        exists|name: String, got: FileRemoval<E>|
            {
                &&& #[trigger] removes_by(id, delete, name, got, r)
                &&& match got {
                    FileRemoval::Removed => after == before.remove(name@),
                    FileRemoval::Missing => !before.contains_key(name@) && after == before,
                    FileRemoval::Failed(_) => after == before,
                }
            }
    }
}

/// Whether deletions are permitted: `delete` never fails.
pub open spec fn may_delete<E, D: FnOnce(String) -> FileRemoval<E>>(delete: D) -> bool {
    forall|name: String, got: FileRemoval<E>| #[trigger]
        call_ensures(delete, (name,), got) ==> !(got is Failed)
}

/// What a load found, if it did not fail.
pub open spec fn session_found<E>(r: Result<Option<Session>, StoreError<E>>) -> Option<
    Option<SessionView>,
> {
    match r {
        Ok(Some(s)) => Some(Some(s@)),
        Ok(None) => Some(None),
        Err(_) => None,
    }
}

/// What the files hold of a session.
pub open spec fn session_in(files: Files, id: Seq<char>) -> Option<SessionView> {
    if files.contains_key(file_name(id)) {
        files[file_name(id)]
    } else {
        None
    }
}

/// A session with a valid id is loaded as the files hold it.
pub proof fn law_loading_finds_what_is_stored<E, R: FnOnce(String) -> FileRead<E>>(
    id: Seq<char>,
    read: R,
    r: Result<Option<Session>, StoreError<E>>,
    files: Files,
)
    requires
        id_problem(id) is None,
        reads_from(read, files),
        loads(id, read, r),
    ensures
        session_found(r) == Some(session_in(files, id)),
{
    let (name, got) = choose|name: String, got: FileRead<E>| #[trigger]
        loads_by(id, read, name, got, r);
    assert(call_ensures(read, (name,), got));
}

/// A session that was saved is loaded again whole.
pub proof fn law_a_saved_session_is_loaded<
    E,
    W: FnOnce(String, &Session) -> Result<(), E>,
    R: FnOnce(String) -> FileRead<E>,
>(
    s: &Session,
    write: W,
    saved: Result<(), StoreError<E>>,
    before: Files,
    after: Files,
    read: R,
    r: Result<Option<Session>, StoreError<E>>,
)
    requires
        saves_into(s, write, saved, before, after),
        saved is Ok,
        reads_from(read, after),
        loads(s.id@, read, r),
    ensures
        r matches Ok(Some(t)) && t@ == s@,
{
    law_loading_finds_what_is_stored(s.id@, read, r, after);
}

/// Saving a session leaves the other sessions as they were, and saving that fails leaves all of
/// them.
pub proof fn law_saving_touches_one_session<E, W: FnOnce(String, &Session) -> Result<(), E>>(
    s: &Session,
    write: W,
    saved: Result<(), StoreError<E>>,
    before: Files,
    after: Files,
    other: Seq<char>,
)
    requires
        saves_into(s, write, saved, before, after),
    ensures
        saved is Err ==> after == before,
        other != s.id@ ==> session_in(after, other) == session_in(before, other),
{
    if file_name(other) == file_name(s.id@) {
        law_different_ids_have_different_files(other, s.id@);
    }
}

/// Removing a session succeeds whether or not it has a file, if deletions are permitted. It is
/// gone then, and the other sessions are as they were.
pub proof fn law_a_removed_session_is_gone<
    E,
    D: FnOnce(String) -> FileRemoval<E>,
    R: FnOnce(String) -> FileRead<E>,
>(
    id: Seq<char>,
    delete: D,
    r: Result<(), StoreError<E>>,
    before: Files,
    after: Files,
    read: R,
    found: Result<Option<Session>, StoreError<E>>,
    other: Seq<char>,
)
    requires
        id_problem(id) is None,
        may_delete(delete),
        removes_from(id, delete, r, before, after),
        reads_from(read, after),
        loads(id, read, found),
    ensures
        r is Ok,
        found matches Ok(None),
        other != id ==> session_in(after, other) == session_in(before, other),
{
    let (name, got) = choose|name: String, got: FileRemoval<E>|
        {
            &&& #[trigger] removes_by(id, delete, name, got, r)
            &&& match got {
                FileRemoval::Removed => after == before.remove(name@),
                FileRemoval::Missing => !before.contains_key(name@) && after == before,
                FileRemoval::Failed(_) => after == before,
            }
        };
    assert(call_ensures(delete, (name,), got));
    law_loading_finds_what_is_stored(id, read, found, after);
    if file_name(other) == file_name(id) {
        law_different_ids_have_different_files(other, id);
    }
}

/// Removing a session twice is no error, and the second time nothing happens.
pub proof fn law_removing_is_idempotent<
    E,
    D1: FnOnce(String) -> FileRemoval<E>,
    D2: FnOnce(String) -> FileRemoval<E>,
>(
    id: Seq<char>,
    delete: D1,
    r: Result<(), StoreError<E>>,
    before: Files,
    after: Files,
    delete_again: D2,
    again: Result<(), StoreError<E>>,
    at_last: Files,
)
    requires
        id_problem(id) is None,
        may_delete(delete),
        removes_from(id, delete, r, before, after),
        may_delete(delete_again),
        removes_from(id, delete_again, again, after, at_last),
    ensures
        r is Ok,
        again is Ok,
        at_last == after,
{
    let (name, got) = choose|name: String, got: FileRemoval<E>|
        {
            &&& #[trigger] removes_by(id, delete, name, got, r)
            &&& match got {
                FileRemoval::Removed => after == before.remove(name@),
                FileRemoval::Missing => !before.contains_key(name@) && after == before,
                FileRemoval::Failed(_) => after == before,
            }
        };
    assert(call_ensures(delete, (name,), got));
    let (name2, got2) = choose|name: String, got: FileRemoval<E>|
        {
            &&& #[trigger] removes_by(id, delete_again, name, got, again)
            &&& match got {
                FileRemoval::Removed => at_last == after.remove(name@),
                FileRemoval::Missing => !after.contains_key(name@) && at_last == after,
                FileRemoval::Failed(_) => at_last == after,
            }
        };
    assert(call_ensures(delete_again, (name2,), got2));
    assert(at_last =~= after);
}

/// Whether `files` lists a directory: every session file once, with what it holds.
pub open spec fn lists(files: Seq<StoredView>, dir: Files) -> bool {
    &&& forall|i: int|
        0 <= i < files.len() ==> dir.contains_key((#[trigger] files[i]).name)
            && dir[files[i].name] == files[i].session
    &&& forall|i: int, j: int|
        0 <= i < j < files.len() ==> (#[trigger] files[i]).name != (#[trigger] files[j]).name
    &&& forall|name: Seq<char>| #[trigger]
        dir.contains_key(name) && is_session_file(name) ==> exists|i: int|
            0 <= i < files.len() && (#[trigger] files[i]).name == name
}

/// The verdict on a session where `up` says which processes are running.
pub open spec fn fate(v: SessionView, now: u64, ttl: u64, up: spec_fn(u32) -> bool) -> Option<
    DeadReason,
> {
    verdict(v, now, ttl, v.pid matches Some(pid) && up(pid))
}

/// Whether a file of a directory holds a dead session.
pub open spec fn holds_dead(
    dir: Files,
    name: Seq<char>,
    now: u64,
    ttl: u64,
    up: spec_fn(u32) -> bool,
) -> bool {
    &&& dir.contains_key(name)
    &&& is_session_file(name)
    &&& dir[name] matches Some(v) && fate(v, now, ttl, up) is Some
}

/// The dead among the sessions of a listing, in order, each with the reason.
pub open spec fn dead_of(
    listing: Seq<FoundView>,
    now: u64,
    ttl: u64,
    up: spec_fn(u32) -> bool,
) -> Seq<(SessionView, DeadReason)>
    decreases listing.len(),
{
    if listing.len() == 0 {
        Seq::empty()
    } else {
        let before = dead_of(listing.drop_last(), now, ttl, up);
        match fate(listing.last().session, now, ttl, up) {
            Some(reason) => before.push((listing.last().session, reason)),
            None => before,
        }
    }
}

/// The names of the files of a list.
pub open spec fn names_of(v: Seq<(FoundView, DeadReason)>) -> Set<Seq<char>> {
    Set::new(|name: Seq<char>| exists|i: int| 0 <= i < v.len() && (#[trigger] v[i]).0.name == name)
}

/// Whether `sweep` reports `r` and turns the directory `before` into `after`, where a deletion
/// that succeeds takes away the file that it is asked for, and a deletion does nothing else.
pub open spec fn sweeps_from<F: Fn(u32) -> bool, G: Fn(&str) -> bool>(
    files: Seq<StoredView>,
    now: u64,
    ttl: u64,
    alive: F,
    delete: G,
    r: Seq<(SessionView, DeadReason)>,
    before: Files,
    after: Files,
) -> bool {
    exists|listing: Seq<FoundView>, order: Seq<int>, running: Seq<bool>, done: Seq<bool>|
        {
            &&& #[trigger] sweeps_by(
                files,
                now,
                ttl,
                alive,
                delete,
                listing,
                order,
                running,
                done,
                r,
            )
            &&& after == before.remove_keys(
                names_of(deleted(condemned(listing, running, now, ttl), done)),
            )
        }
}

/// Whether every deletion succeeds.
pub open spec fn can_delete<G: Fn(&str) -> bool>(delete: G) -> bool {
    forall|name: &str, gone: bool| #[trigger] call_ensures(delete, (name,), gone) ==> gone
}

proof fn lemma_found_in_files(files: Seq<StoredView>, f: FoundView)
    ensures
        found(files).contains(f) <==> exists|i: int|
            {
                &&& 0 <= i < files.len()
                &&& (#[trigger] files[i]).name == f.name
                &&& files[i].session == Some(f.session)
                &&& is_session_file(f.name)
            },
    decreases files.len(),
{
    if files.len() > 0 {
        let shorter = files.drop_last();
        let before = found(shorter);
        let last = files.last();
        lemma_found_in_files(shorter, f);
        if found(files).contains(f) {
            let k = choose|k: int| 0 <= k < found(files).len() && found(files)[k] == f;
            if k < before.len() {
                assert(before[k] == f);
                let i = choose|i: int|
                    {
                        &&& 0 <= i < shorter.len()
                        &&& (#[trigger] shorter[i]).name == f.name
                        &&& shorter[i].session == Some(f.session)
                        &&& is_session_file(f.name)
                    };
                assert(files[i] == shorter[i]);
            } else {
                assert(files[files.len() - 1].name == f.name);
            }
        }
        if exists|i: int|
            {
                &&& 0 <= i < files.len()
                &&& (#[trigger] files[i]).name == f.name
                &&& files[i].session == Some(f.session)
                &&& is_session_file(f.name)
            } {
            let i = choose|i: int|
                {
                    &&& 0 <= i < files.len()
                    &&& (#[trigger] files[i]).name == f.name
                    &&& files[i].session == Some(f.session)
                    &&& is_session_file(f.name)
                };
            if i < shorter.len() {
                assert(shorter[i] == files[i]);
                let k = choose|k: int| 0 <= k < before.len() && before[k] == f;
                assert(found(files)[k] == f);
            } else {
                assert(found(files)[before.len() as int] == f);
            }
        }
    }
}

proof fn lemma_listing_holds_the_same(
    listing: Seq<FoundView>,
    all: Seq<FoundView>,
    order: Seq<int>,
    f: FoundView,
)
    requires
        is_listing(listing, all, order),
    ensures
        listing.contains(f) == all.contains(f),
{
    if listing.contains(f) {
        let i = choose|i: int| 0 <= i < listing.len() && listing[i] == f;
        assert(all[order[i]] == f);
    }
    if all.contains(f) {
        let k = choose|k: int| 0 <= k < all.len() && all[k] == f;
        lemma_order_is_onto(order, all.len(), k);
        let i = choose|i: int| 0 <= i < order.len() && #[trigger] order[i] == k;
        assert(listing[i] == f);
    }
}

proof fn lemma_order_is_onto(order: Seq<int>, n: nat, k: int)
    requires
        is_order(order, n),
        0 <= k < n,
    ensures
        exists|i: int| 0 <= i < order.len() && #[trigger] order[i] == k,
{
    if !order.contains(k) {
        let values = order.to_set();
        let others = vstd::set_lib::set_int_range(0, n as int).remove(k);
        vstd::set_lib::lemma_int_range(0, n as int);
        assert(order.no_duplicates());
        order.unique_seq_to_set();
        assert(values.subset_of(others));
        vstd::set_lib::lemma_len_subset(values, others);
        assert(false);
    }
    let i = choose|i: int| 0 <= i < order.len() && order[i] == k;
    assert(order[i] == k);
}

proof fn lemma_condemned_by_fate<F: Fn(u32) -> bool>(
    alive: F,
    up: spec_fn(u32) -> bool,
    listing: Seq<FoundView>,
    running: Seq<bool>,
    now: u64,
    ttl: u64,
)
    requires
        knows(alive, up),
        asked(alive, listing, running),
    ensures
        reported(condemned(listing, running, now, ttl)) == dead_of(
            listing.take(running.len() as int),
            now,
            ttl,
            up,
        ),
        forall|name: Seq<char>| #[trigger]
            names_of(condemned(listing, running, now, ttl)).contains(name) <==> exists|i: int|
                {
                    &&& 0 <= i < running.len()
                    &&& (#[trigger] listing[i]).name == name
                    &&& fate(listing[i].session, now, ttl, up) is Some
                },
    decreases running.len(),
{
    let dead = condemned(listing, running, now, ttl);
    if running.len() == 0 {
        assert(reported(dead) =~= dead_of(listing.take(0), now, ttl, up));
    } else {
        let i = running.len() - 1;
        let shorter = running.drop_last();
        let before = condemned(listing, shorter, now, ttl);
        assert forall|k: int| 0 <= k < shorter.len() implies answers(
            alive,
            listing[k].session,
            #[trigger] shorter[k],
        ) by {
            assert(shorter[k] == running[k]);
        }
        lemma_condemned_by_fate(alive, up, listing, shorter, now, ttl);
        assert(answers(alive, listing[i].session, running[i]));
        let v = listing[i].session;
        assert(verdict(v, now, ttl, running[i]) == fate(v, now, ttl, up));
        assert(listing.take(i + 1).drop_last() =~= listing.take(i));
        assert(listing.take(i + 1).last() == listing[i]);
        if let Some(reason) = fate(v, now, ttl, up) {
            assert(reported(dead) =~= reported(before).push((v, reason)));
        }
        assert forall|name: Seq<char>| #[trigger] names_of(dead).contains(name) <==> exists|k: int|
            {
                &&& 0 <= k < running.len()
                &&& (#[trigger] listing[k]).name == name
                &&& fate(listing[k].session, now, ttl, up) is Some
            } by {
            assert(names_of(before).contains(name) <==> exists|k: int|
                {
                    &&& 0 <= k < shorter.len()
                    &&& (#[trigger] listing[k]).name == name
                    &&& fate(listing[k].session, now, ttl, up) is Some
                });
            if names_of(dead).contains(name) {
                let k = choose|k: int| 0 <= k < dead.len() && (#[trigger] dead[k]).0.name == name;
                if k < before.len() {
                    assert(before[k] == dead[k]);
                    assert(names_of(before).contains(name));
                } else {
                    assert(listing[i].name == name);
                }
            }
            if exists|k: int|
                {
                    &&& 0 <= k < running.len()
                    &&& (#[trigger] listing[k]).name == name
                    &&& fate(listing[k].session, now, ttl, up) is Some
                } {
                let k = choose|k: int|
                    {
                        &&& 0 <= k < running.len()
                        &&& (#[trigger] listing[k]).name == name
                        &&& fate(listing[k].session, now, ttl, up) is Some
                    };
                if k < i {
                    assert(names_of(before).contains(name));
                    let m = choose|m: int|
                        0 <= m < before.len() && (#[trigger] before[m]).0.name == name;
                    assert(dead[m] == before[m]);
                } else {
                    assert(dead[before.len() as int].0.name == name);
                }
            }
        }
    }
}

proof fn lemma_all_deleted(dead: Seq<(FoundView, DeadReason)>, done: Seq<bool>)
    requires
        done.len() <= dead.len(),
        forall|i: int| 0 <= i < done.len() ==> #[trigger] done[i],
    ensures
        deleted(dead, done) == dead.take(done.len() as int),
    decreases done.len(),
{
    if done.len() > 0 {
        let shorter = done.drop_last();
        assert forall|i: int| 0 <= i < shorter.len() implies #[trigger] shorter[i] by {
            assert(shorter[i] == done[i]);
        }
        lemma_all_deleted(dead, shorter);
        assert(done[done.len() - 1]);
        assert(dead.take(done.len() as int) =~= dead.take(shorter.len() as int).push(
            dead[done.len() - 1],
        ));
    } else {
        assert(deleted(dead, done) =~= dead.take(0));
    }
}

/// A sweep of a directory where every file can be deleted reports all the dead sessions, the
/// last updated first. The files that they were read from are gone, and every other file is as
/// it was.
pub proof fn law_a_sweep_deletes_the_dead_and_nothing_else<
    F: Fn(u32) -> bool,
    G: Fn(&str) -> bool,
>(
    files: Seq<StoredView>,
    now: u64,
    ttl: u64,
    alive: F,
    up: spec_fn(u32) -> bool,
    delete: G,
    r: Seq<(SessionView, DeadReason)>,
    before: Files,
    after: Files,
)
    requires
        lists(files, before),
        knows(alive, up),
        can_delete(delete),
        sweeps_from(files, now, ttl, alive, delete, r, before, after),
    ensures
        exists|listing: Seq<FoundView>, order: Seq<int>| #[trigger]
            is_listing(listing, found(files), order) && r == dead_of(listing, now, ttl, up),
        forall|name: Seq<char>| #[trigger]
            after.contains_key(name) <==> before.contains_key(name) && !holds_dead(
                before,
                name,
                now,
                ttl,
                up,
            ),
        forall|name: Seq<char>|
            after.contains_key(name) ==> #[trigger] after[name] == before[name],
{
    let (listing, order, running, done) = choose|
        listing: Seq<FoundView>,
        order: Seq<int>,
        running: Seq<bool>,
        done: Seq<bool>,
    |
        {
            &&& #[trigger] sweeps_by(
                files,
                now,
                ttl,
                alive,
                delete,
                listing,
                order,
                running,
                done,
                r,
            )
            &&& after == before.remove_keys(
                names_of(deleted(condemned(listing, running, now, ttl), done)),
            )
        };
    let dead = condemned(listing, running, now, ttl);
    assert forall|i: int| 0 <= i < done.len() implies #[trigger] done[i] by {
        assert(deletes(delete, dead[i].0.name, done[i]));
    }
    lemma_all_deleted(dead, done);
    assert(dead.take(done.len() as int) =~= dead);
    lemma_condemned_by_fate(alive, up, listing, running, now, ttl);
    assert(listing.take(running.len() as int) =~= listing);
    assert(is_listing(listing, found(files), order) && r == dead_of(listing, now, ttl, up));
    assert forall|name: Seq<char>| before.contains_key(name) implies #[trigger] names_of(
        dead,
    ).contains(name) == holds_dead(before, name, now, ttl, up) by {
        if names_of(dead).contains(name) {
            let i = choose|i: int|
                {
                    &&& 0 <= i < running.len()
                    &&& (#[trigger] listing[i]).name == name
                    &&& fate(listing[i].session, now, ttl, up) is Some
                };
            lemma_listing_holds_the_same(listing, found(files), order, listing[i]);
            assert(listing.contains(listing[i]));
            lemma_found_in_files(files, listing[i]);
        }
        if holds_dead(before, name, now, ttl, up) {
            let f = FoundView { name, session: before[name]->0 };
            lemma_found_in_files(files, f);
            let i = choose|i: int| 0 <= i < files.len() && (#[trigger] files[i]).name == name;
            assert(files[i].session == Some(f.session));
            lemma_listing_holds_the_same(listing, found(files), order, f);
            let k = choose|k: int| 0 <= k < listing.len() && listing[k] == f;
            assert(listing[k].name == name);
        }
    }
    assert forall|name: Seq<char>| #[trigger] after.contains_key(name) <==> before.contains_key(
        name,
    ) && !holds_dead(before, name, now, ttl, up) by {
        if before.contains_key(name) {
            assert(names_of(dead).contains(name) == holds_dead(before, name, now, ttl, up));
        }
    }
}

/// Sweeping twice deletes nothing the second time, and nothing is reported twice: the second
/// sweep finds no dead session among the files that are left.
pub proof fn law_sweeping_is_idempotent<
    F: Fn(u32) -> bool,
    G1: Fn(&str) -> bool,
    G2: Fn(&str) -> bool,
>(
    files: Seq<StoredView>,
    now: u64,
    ttl: u64,
    alive: F,
    up: spec_fn(u32) -> bool,
    delete: G1,
    r: Seq<(SessionView, DeadReason)>,
    before: Files,
    after: Files,
    files_left: Seq<StoredView>,
    delete_again: G2,
    again: Seq<(SessionView, DeadReason)>,
    at_last: Files,
)
    requires
        lists(files, before),
        knows(alive, up),
        can_delete(delete),
        sweeps_from(files, now, ttl, alive, delete, r, before, after),
        lists(files_left, after),
        sweeps_from(files_left, now, ttl, alive, delete_again, again, after, at_last),
    ensures
        again.len() == 0,
        at_last == after,
{
    law_a_sweep_deletes_the_dead_and_nothing_else(
        files,
        now,
        ttl,
        alive,
        up,
        delete,
        r,
        before,
        after,
    );
    let (listing, order, running, done) = choose|
        listing: Seq<FoundView>,
        order: Seq<int>,
        running: Seq<bool>,
        done: Seq<bool>,
    |
        {
            &&& #[trigger] sweeps_by(
                files_left,
                now,
                ttl,
                alive,
                delete_again,
                listing,
                order,
                running,
                done,
                again,
            )
            &&& at_last == after.remove_keys(
                names_of(deleted(condemned(listing, running, now, ttl), done)),
            )
        };
    let dead = condemned(listing, running, now, ttl);
    lemma_condemned_by_fate(alive, up, listing, running, now, ttl);
    if dead.len() > 0 {
        let name = dead[0].0.name;
        assert(names_of(dead).contains(name));
        let i = choose|i: int|
            {
                &&& 0 <= i < running.len()
                &&& (#[trigger] listing[i]).name == name
                &&& fate(listing[i].session, now, ttl, up) is Some
            };
        assert(listing.contains(listing[i]));
        lemma_listing_holds_the_same(listing, found(files_left), order, listing[i]);
        lemma_found_in_files(files_left, listing[i]);
        assert(after.contains_key(name));
        assert(after[name] == before[name]);
        assert(holds_dead(before, name, now, ttl, up));
        assert(false);
    }
    assert(at_last =~= after);
}

// ---- what is listed -------------------------------------------------------------------------

/// Which ids can be part of a file name: those of letters, digits, dots, underscores and hyphens
/// that do not begin with a dot; an empty one cannot.
pub proof fn law_which_ids_are_accepted(id: Seq<char>)
    ensures
        id_problem(id) is None <==> id.len() > 0 && id[0] != '.' && forall|i: int|
            0 <= i < id.len() ==> {
                ||| 'A' <= #[trigger] id[i] <= 'Z'
                ||| 'a' <= id[i] <= 'z'
                ||| '0' <= id[i] <= '9'
                ||| id[i] == '.'
                ||| id[i] == '_'
                ||| id[i] == '-'
            },
{
    lemma_bad_char(id);
}

proof fn lemma_bad_char(id: Seq<char>)
    ensures
        first_bad_char(id) is None <==> forall|i: int|
            0 <= i < id.len() ==> {
                ||| 'A' <= #[trigger] id[i] <= 'Z'
                ||| 'a' <= id[i] <= 'z'
                ||| '0' <= id[i] <= '9'
                ||| id[i] == '.'
                ||| id[i] == '_'
                ||| id[i] == '-'
            },
    decreases id.len(),
{
    if id.len() > 0 {
        let rest = id.drop_first();
        lemma_bad_char(rest);
        if first_bad_char(id) is None {
            lemma_no_bad_char(id);
            assert forall|i: int| 0 <= i < id.len() implies {
                ||| 'A' <= #[trigger] id[i] <= 'Z'
                ||| 'a' <= id[i] <= 'z'
                ||| '0' <= id[i] <= '9'
                ||| id[i] == '.'
                ||| id[i] == '_'
                ||| id[i] == '-'
            } by {
                assert(id_char(id[i]));
            }
        } else if forall|i: int|
            0 <= i < id.len() ==> {
                ||| 'A' <= #[trigger] id[i] <= 'Z'
                ||| 'a' <= id[i] <= 'z'
                ||| '0' <= id[i] <= '9'
                ||| id[i] == '.'
                ||| id[i] == '_'
                ||| id[i] == '-'
            } {
            assert(id_char(id[0]));
            assert forall|i: int| 0 <= i < rest.len() implies {
                ||| 'A' <= #[trigger] rest[i] <= 'Z'
                ||| 'a' <= rest[i] <= 'z'
                ||| '0' <= rest[i] <= '9'
                ||| rest[i] == '.'
                ||| rest[i] == '_'
                ||| rest[i] == '-'
            } by {
                assert(rest[i] == id[i + 1]);
            }
        }
    }
}

/// The file of a session is named after its id, and is a session file. Hidden files, the
/// temporary files of writers and files that are no JSON are none.
pub proof fn law_which_files_are_session_files(id: Seq<char>, name: Seq<char>)
    ensures
        file_name(id) == id + ".json"@,
        is_session_file(name) <==> !(name.len() > 0 && name[0] == '.') && !has_suffix(
            name,
            ".tmp"@,
        ) && has_suffix(name, ".json"@),
{
}

/// The sessions that are found are those of the session files that can be read, each with the
/// name of its file.
pub proof fn law_which_sessions_are_found(files: Seq<StoredView>, f: FoundView)
    ensures
        found(files).contains(f) <==> exists|i: int|
            {
                &&& 0 <= i < files.len()
                &&& (#[trigger] files[i]).name == f.name
                &&& files[i].session == Some(f.session)
                &&& is_session_file(f.name)
            },
{
    lemma_found_in_files(files, f);
}

/// A listing holds what was found, each as often as it was found, the last updated first; what
/// was updated at the same time stays in its order.
pub proof fn law_the_last_updated_comes_first(
    listing: Seq<FoundView>,
    all: Seq<FoundView>,
    order: Seq<int>,
    i: int,
    j: int,
)
    requires
        is_listing(listing, all, order),
        0 <= i < j < listing.len(),
    ensures
        listing.len() == all.len(),
        listing[i].session.updated >= listing[j].session.updated,
        0 <= order[i] < all.len() && 0 <= order[j] < all.len(),
        order[i] != order[j],
        listing[i] == all[order[i]] && listing[j] == all[order[j]],
        listing[i].session.updated == listing[j].session.updated ==> order[i] < order[j],
{
}

/// The live sessions of a listing, in order, where `up` says which processes run.
pub open spec fn live_of(
    listing: Seq<FoundView>,
    now: u64,
    ttl: u64,
    up: spec_fn(u32) -> bool,
) -> Seq<SessionView>
    decreases listing.len(),
{
    if listing.len() == 0 {
        Seq::empty()
    } else {
        let before = live_of(listing.drop_last(), now, ttl, up);
        if fate(listing.last().session, now, ttl, up) is None {
            before.push(listing.last().session)
        } else {
            before
        }
    }
}

proof fn lemma_living_by_fate<F: Fn(u32) -> bool>(
    alive: F,
    up: spec_fn(u32) -> bool,
    listing: Seq<FoundView>,
    running: Seq<bool>,
    now: u64,
    ttl: u64,
)
    requires
        knows(alive, up),
        asked(alive, listing, running),
    ensures
        living(listing, running, now, ttl) == live_of(
            listing.take(running.len() as int),
            now,
            ttl,
            up,
        ),
    decreases running.len(),
{
    if running.len() > 0 {
        let i = running.len() - 1;
        let shorter = running.drop_last();
        assert forall|k: int| 0 <= k < shorter.len() implies answers(
            alive,
            listing[k].session,
            #[trigger] shorter[k],
        ) by {
            assert(shorter[k] == running[k]);
        }
        lemma_living_by_fate(alive, up, listing, shorter, now, ttl);
        assert(answers(alive, listing[i].session, running[i]));
        assert(listing.take(i + 1).drop_last() =~= listing.take(i));
        assert(listing.take(i + 1).last() == listing[i]);
    }
}

proof fn lemma_live_prefix(
    listing: Seq<FoundView>,
    n: int,
    now: u64,
    ttl: u64,
    up: spec_fn(u32) -> bool,
)
    requires
        0 <= n <= listing.len(),
    ensures
        live_of(listing.take(n), now, ttl, up).len() <= live_of(listing, now, ttl, up).len(),
        live_of(listing.take(n), now, ttl, up) == live_of(listing, now, ttl, up).take(
            live_of(listing.take(n), now, ttl, up).len() as int,
        ),
    decreases listing.len() - n,
{
    if n == listing.len() {
        assert(listing.take(n) =~= listing);
        assert(live_of(listing, now, ttl, up) =~= live_of(listing, now, ttl, up).take(
            live_of(listing, now, ttl, up).len() as int,
        ));
    } else {
        lemma_live_prefix(listing, n + 1, now, ttl, up);
        let a = live_of(listing.take(n), now, ttl, up);
        let b = live_of(listing.take(n + 1), now, ttl, up);
        assert(listing.take(n + 1).drop_last() =~= listing.take(n));
        assert(a =~= live_of(listing, now, ttl, up).take(a.len() as int));
    }
}

/// The live sessions are listed, the last updated first, up to the number that is wanted: the
/// dead take up no place, and no session is left out for another that was updated before it.
pub proof fn law_the_live_sessions_are_listed<F: Fn(u32) -> bool>(
    files: Seq<StoredView>,
    now: u64,
    ttl: u64,
    max: usize,
    alive: F,
    up: spec_fn(u32) -> bool,
    r: Seq<SessionView>,
)
    requires
        lists_live(files, now, ttl, max, alive, r),
        knows(alive, up),
    ensures
        exists|listing: Seq<FoundView>, order: Seq<int>|
            {
                &&& #[trigger] is_listing(listing, found(files), order)
                &&& r == live_of(listing, now, ttl, up).take(
                    if live_of(listing, now, ttl, up).len() < max {
                        live_of(listing, now, ttl, up).len() as int
                    } else {
                        max as int
                    },
                )
            },
{
    let (listing, order, running) = choose|
        listing: Seq<FoundView>,
        order: Seq<int>,
        running: Seq<bool>,
    |
        {
            &&& #[trigger] is_listing(listing, found(files), order)
            &&& #[trigger] asked(alive, listing, running)
            &&& r == living(listing, running, now, ttl)
            &&& r.len() <= max
            &&& r.len() == max || running.len() == listing.len()
        };
    lemma_living_by_fate(alive, up, listing, running, now, ttl);
    lemma_live_prefix(listing, running.len() as int, now, ttl, up);
    let all = live_of(listing, now, ttl, up);
    if running.len() == listing.len() {
        assert(listing.take(running.len() as int) =~= listing);
    }
    assert(r =~= all.take(
        if all.len() < max {
            all.len() as int
        } else {
            max as int
        },
    ));
}

/// A session that is listed as live lives, and each that lives is among the live ones.
pub proof fn law_only_and_all_that_live(
    listing: Seq<FoundView>,
    now: u64,
    ttl: u64,
    up: spec_fn(u32) -> bool,
    s: SessionView,
)
    ensures
        live_of(listing, now, ttl, up).contains(s) <==> exists|i: int|
            {
                &&& 0 <= i < listing.len()
                &&& (#[trigger] listing[i]).session == s
                &&& s.pid is None || up(s.pid->0)
                &&& ttl > 0 && now < s.updated + ttl
            },
    decreases listing.len(),
{
    if listing.len() > 0 {
        let shorter = listing.drop_last();
        let before = live_of(shorter, now, ttl, up);
        let all = live_of(listing, now, ttl, up);
        law_only_and_all_that_live(shorter, now, ttl, up, s);
        if all.contains(s) {
            let k = choose|k: int| 0 <= k < all.len() && all[k] == s;
            if k < before.len() {
                assert(before[k] == s);
                let i = choose|i: int|
                    {
                        &&& 0 <= i < shorter.len()
                        &&& (#[trigger] shorter[i]).session == s
                        &&& s.pid is None || up(s.pid->0)
                        &&& ttl > 0 && now < s.updated + ttl
                    };
                assert(listing[i].session == s);
            } else {
                assert(listing[listing.len() - 1].session == s);
            }
        }
        if exists|i: int|
            {
                &&& 0 <= i < listing.len()
                &&& (#[trigger] listing[i]).session == s
                &&& s.pid is None || up(s.pid->0)
                &&& ttl > 0 && now < s.updated + ttl
            } {
            let i = choose|i: int|
                {
                    &&& 0 <= i < listing.len()
                    &&& (#[trigger] listing[i]).session == s
                    &&& s.pid is None || up(s.pid->0)
                    &&& ttl > 0 && now < s.updated + ttl
                };
            if i < shorter.len() {
                assert(shorter[i].session == s);
                let k = choose|k: int| 0 <= k < before.len() && before[k] == s;
                assert(all[k] == s);
            } else {
                assert(all[before.len() as int] == s);
            }
        }
    }
}

/// What a read, a write and a deletion mean: a session that is missing or cannot be read is none,
/// what is not there need not be deleted, and only the file system can fail.
pub proof fn law_what_the_file_system_says<E>(
    read: FileRead<E>,
    got: Result<(), E>,
    removal: FileRemoval<E>,
)
    ensures
        read matches FileRead::Session(s) ==> loaded(read) == Ok::<Option<Session>, StoreError<E>>(
            Some(s),
        ),
        read is Broken || read is Missing ==> loaded(read) == Ok::<
            Option<Session>,
            StoreError<E>,
        >(None),
        read matches FileRead::Failed(e) ==> loaded(read) == Err::<
            Option<Session>,
            StoreError<E>,
        >(StoreError::Io(e)),
        got is Ok ==> written(got) == Ok::<(), StoreError<E>>(()),
        got matches Err(e) ==> written(got) == Err::<(), StoreError<E>>(StoreError::Io(e)),
        removal is Removed || removal is Missing ==> removed(removal) == Ok::<(), StoreError<E>>(
            (),
        ),
        removal matches FileRemoval::Failed(e) ==> removed(removal) == Err::<(), StoreError<E>>(
            StoreError::Io(e),
        ),
{
}

/// The sessions of a listing stand in its order.
pub proof fn law_sessions_stand_in_the_order_of_the_listing(v: Seq<FoundView>, i: int)
    requires
        0 <= i < v.len(),
    ensures
        sessions_of(v).len() == v.len(),
        sessions_of(v)[i] == v[i].session,
{
}

} // verus!
