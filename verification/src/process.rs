//! Whether a process is alive, judged from what the operating system answers.
//!
//! Every doubt counts as alive: a dead session that stays a little longer does no harm, a live
//! one that vanishes does.

use vstd::prelude::*;

verus! {

/// What the system answered when asked whether a signal could be sent to a process.
#[derive(Debug, Clone, Copy, PartialEq, Eq, Structural)]
pub enum SignalReply {
    /// It could.
    Deliverable,
    /// There is no such process.
    NoSuchProcess,
    /// Something else stood in the way, such as the process belonging to another user.
    Refused,
}

/// What the system answered when asked for the status of a process.
#[derive(Debug, Clone, Copy, PartialEq, Eq, Structural)]
pub enum StatusReply {
    /// The status was read; the process is a zombie or not.
    Read { zombie: bool },
    /// The process has no task any more.
    NoSuchProcess,
    /// The status could not be read, or the platform has no way to ask.
    Unknown,
}

/// Whether the process table has an entry; a zombie has one.
pub open spec fn has_entry(reply: SignalReply) -> bool {
    reply != SignalReply::NoSuchProcess
}

/// Whether a process that has an entry is known to be a zombie.
pub open spec fn known_zombie(reply: StatusReply) -> bool {
    match reply {
        StatusReply::Read { zombie } => zombie,
        StatusReply::NoSuchProcess => true,
        StatusReply::Unknown => false,
    }
}

/// Whether the process table has an entry; a zombie has one.
pub fn in_process_table(reply: SignalReply) -> (r: bool)
    ensures
        r == has_entry(reply),
{
    reply != SignalReply::NoSuchProcess
}

/// Whether a process that has an entry is known to be a zombie: one that has ended without its
/// parent having waited for it.
pub fn is_zombie(reply: StatusReply) -> (r: bool)
    ensures
        r == known_zombie(reply),
{
    match reply {
        StatusReply::Read { zombie } => zombie,
        StatusReply::NoSuchProcess => true,
        StatusReply::Unknown => false,
    }
}

/// Whether `alive` is the verdict on a process, given what the system answers.
pub open spec fn judged<S: Fn(u32) -> SignalReply, T: Fn(u32) -> StatusReply>(
    pid: u32,
    signal: S,
    status: T,
    alive: bool,
) -> bool {
    &&& pid <= 1 ==> alive
    &&& pid > 1 ==> exists|entry: SignalReply| #[trigger]
        call_ensures(signal, (pid,), entry) && if has_entry(entry) {
            exists|info: StatusReply| #[trigger]
                call_ensures(status, (pid,), info) && alive == !known_zombie(info)
        } else {
            !alive
        }
}

/// Whether the process exists and is not a zombie. The ids 0 and 1 never own a session and are
/// not asked about.
pub fn is_alive(
    pid: u32,
    signal: impl Fn(u32) -> SignalReply,
    status: impl Fn(u32) -> StatusReply,
) -> (r: bool)
    requires
        pid > 1 ==> call_requires(signal, (pid,)),
        pid > 1 ==> call_requires(status, (pid,)),
    ensures
        judged(pid, signal, status, r),
{
    if pid <= 1 {
        return true;
    }
    if !in_process_table(signal(pid)) {
        return false;
    }
    let info = status(pid);
    assert(call_ensures(status, (pid,), info));
    !is_zombie(info)
}

/// The process that owns a session, given the parent of the hook's process.
pub open spec fn owner_of(parent: u32) -> Option<u32> {
    if parent > 1 {
        Some(parent)
    } else {
        None
    }
}

/// The process that owns a session, given the parent of the hook's process. A parent that is
/// already gone has been replaced by 0 or 1 and is not known.
pub fn owner_pid(parent: u32) -> (r: Option<u32>)
    ensures
        r == owner_of(parent),
{
    if parent > 1 {
        Some(parent)
    } else {
        None
    }
}

// ---- laws -----------------------------------------------------------------------------------

/// A process counts as dead only if the system knows that it is: that there is no such process,
/// that it is a zombie, or that it has no task any more. Every doubt counts as alive, and so do
/// the processes that never own a session. `told` and `seen` are what the system answers.
pub proof fn law_only_certainty_is_death<S: Fn(u32) -> SignalReply, T: Fn(u32) -> StatusReply>(
    pid: u32,
    signal: S,
    status: T,
    told: SignalReply,
    seen: StatusReply,
    alive: bool,
)
    requires
        judged(pid, signal, status, alive),
        forall|r: SignalReply| #[trigger] call_ensures(signal, (pid,), r) ==> r == told,
        forall|r: StatusReply| #[trigger] call_ensures(status, (pid,), r) ==> r == seen,
    ensures
        !alive <==> pid > 1 && (told == SignalReply::NoSuchProcess || seen
            == StatusReply::NoSuchProcess || seen == (StatusReply::Read { zombie: true })),
{
}

/// A session is owned by the parent of the hook, unless that has been replaced by the first
/// processes of the system.
pub proof fn law_the_parent_owns_the_session(parent: u32)
    ensures
        parent >= 2 ==> owner_of(parent) == Some(parent),
        parent < 2 ==> owner_of(parent) is None,
{
}

} // verus!
