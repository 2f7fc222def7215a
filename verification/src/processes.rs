//! Many invocations at once.
//!
//! Processes that are invoked share one lock file. They take turns in any order,
//! one stage at a time, and may crash between any two turns.

use crate::dispatch::{
    first_stage, follows, needs_lock, owner_follows, Event, OwnerEvent, OwnerStage, Stage,
};
use crate::instance::{law_lock_round_trip, lock_text, pid_in_lock, LockEvent, LockOutcome, LockStage};
use crate::Invocation;
use vstd::prelude::*;

verus! {

/// How far a process has come.
pub enum Progress {
    /// It carries out its invocation.
    Invoking(Stage),
    /// It asks for the lock.
    Locking(LockStage),
    /// It is the owner, or has been.
    Owning(OwnerStage),
}

/// A process: how far it has come, and the lock file as it last read it.
pub struct Process {
    pub progress: Progress,
    pub seen: Option<Seq<char>>,
}

/// The text of the lock file, if there is one, the processes that are alive, and
/// those of them, and of the dead, that were invoked.
pub struct World {
    pub lock: Option<Seq<char>>,
    pub live: Set<u32>,
    pub processes: Map<u32, Process>,
}

/// What comes of a turn.
pub enum Turn {
    /// This came of a stage of the invocation.
    Invoked(Event),
    /// The process goes on to become the owner.
    Begun,
    /// This came of a stage of the lock.
    Locked(LockEvent),
    /// This came of a stage of the owner.
    Owned(OwnerEvent),
    /// The process crashed.
    Crashed,
}

/// The process that a lock file names, if there is one and it names one.
pub open spec fn named(lock: Option<Seq<char>>) -> Option<u32> {
    match lock {
        Some(text) => pid_in_lock(text),
        None => None,
    }
}

/// Whether a process has got the lock and not given it back.
pub open spec fn has_lock(progress: Progress) -> bool {
    match progress {
        Progress::Invoking(_) => false,
        Progress::Locking(stage) => stage == LockStage::Done(Ok(LockOutcome::Acquired)) || stage
            == LockStage::Done(Ok(LockOutcome::Recovered)),
        Progress::Owning(stage) => needs_lock(stage),
    }
}

/// Whether a process is about to remove a lock that it takes for stale.
pub open spec fn is_cleaning(progress: Progress) -> bool {
    match progress {
        Progress::Invoking(stage) => stage is Clean,
        Progress::Locking(stage) => stage is Clean,
        Progress::Owning(_) => false,
    }
}

/// Whether a stage of an invocation came to this: what was read is what the lock
/// file says, what was probed is who is alive, and nothing but cleaning up
/// removes the lock.
pub open spec fn is_invoked(
    before: World,
    after: World,
    process: Process,
    now: Process,
    stage: Stage,
    event: Event,
) -> bool {
    &&& now.progress matches Progress::Invoking(next) && follows(stage, event, next)
    &&& match (stage, event) {
        (Stage::ReadOwner(_, _), Event::OwnerRead(_, locked, _)) => {
            &&& locked == named(before.lock)
            &&& now.seen == before.lock
            &&& after.lock == before.lock
        },
        (Stage::Probe(_, _, pid), Event::Probed(Ok(alive))) => {
            &&& alive == before.live.contains(pid)
            &&& now.seen == process.seen
            &&& after.lock == before.lock
        },
        (Stage::Clean(_), Event::Cleaned(cleaned)) => {
            &&& now.seen == process.seen
            &&& after.lock is None || (cleaned is Err && after.lock == before.lock)
        },
        _ => now.seen == process.seen && after.lock == before.lock,
    }
}

/// Whether a stage of the lock came to this: the lock file is created only where
/// there is none, and then names the process.
pub open spec fn is_locked(
    before: World,
    after: World,
    pid: u32,
    process: Process,
    now: Process,
    stage: LockStage,
    event: LockEvent,
) -> bool {
    &&& now.progress == Progress::Locking(stage.after(event))
    &&& match (stage, event) {
        (LockStage::Create, LockEvent::Created) | (LockStage::CreateAgain, LockEvent::Created) => {
            &&& before.lock is None
            &&& after.lock == Some(lock_text(pid))
            &&& now.seen == process.seen
        },
        (LockStage::Create, LockEvent::CreateFailed(_)) | (
            LockStage::CreateAgain,
            LockEvent::CreateFailed(_),
        ) => {
            &&& before.lock is Some ==> after.lock == before.lock
            &&& now.seen == process.seen
        },
        (LockStage::ReadOwner, LockEvent::OwnerRead(locked)) => {
            &&& locked == named(before.lock)
            &&& now.seen == before.lock
            &&& after.lock == before.lock
        },
        (LockStage::Probe(owner), LockEvent::Probed(Ok(alive))) => {
            &&& alive == before.live.contains(owner)
            &&& now.seen == process.seen
            &&& after.lock == before.lock
        },
        (LockStage::Clean, LockEvent::Cleaned(cleaned)) => {
            &&& now.seen == process.seen
            &&& after.lock is None || (cleaned is Err && after.lock == before.lock)
        },
        _ => now.seen == process.seen && after.lock == before.lock,
    }
}

/// Whether a stage of the owner came to this: only at its end does the owner
/// remove the lock.
pub open spec fn is_owned(
    before: World,
    after: World,
    process: Process,
    now: Process,
    stage: OwnerStage,
    event: OwnerEvent,
) -> bool {
    &&& now.seen == process.seen
    &&& now.progress matches Progress::Owning(next) && owner_follows(stage, event, next) && (
    after.lock == before.lock || (after.lock is None && next is Done && (stage is ReleaseLock
        || stage is CleanUp)))
}

/// Whether a process that is alive took a turn, and all others waited.
pub open spec fn is_turn(before: World, after: World, pid: u32, turn: Turn) -> bool {
    let process = before.processes[pid];
    let now = after.processes[pid];
    &&& before.live.contains(pid)
    &&& before.processes.dom().contains(pid)
    &&& after.processes == before.processes.insert(pid, now)
    &&& match (process.progress, turn) {
        (_, Turn::Crashed) => {
            &&& after.live == before.live.remove(pid)
            &&& after.lock == before.lock
            &&& now == process
        },
        (Progress::Invoking(stage), Turn::Invoked(event)) => {
            &&& after.live == before.live
            &&& is_invoked(before, after, process, now, stage, event)
        },
        (Progress::Invoking(stage), Turn::Begun) => {
            &&& after.live == before.live
            &&& after.lock == before.lock
            &&& stage is StartOwner
            &&& now == (Process { progress: Progress::Locking(LockStage::Create), ..process })
        },
        (Progress::Locking(stage), Turn::Locked(event)) => {
            &&& after.live == before.live
            &&& is_locked(before, after, pid, process, now, stage, event)
        },
        (Progress::Locking(stage), Turn::Owned(event)) => {
            &&& after.live == before.live
            &&& after.lock == before.lock
            &&& now.seen == process.seen
            &&& event matches OwnerEvent::LockDecided(outcome) && stage == LockStage::Done(outcome)
            &&& now.progress matches Progress::Owning(next) && owner_follows(
                OwnerStage::AcquireLock,
                event,
                next,
            )
        },
        (Progress::Owning(stage), Turn::Owned(event)) => {
            &&& after.live == before.live
            &&& is_owned(before, after, process, now, stage, event)
        },
        _ => false,
    }
}

/// Whether a lock that a process is about to remove is still the one that it
/// read, if it is there at all: no other process got the lock in between.
pub open spec fn is_undisturbed(world: World, pid: u32) -> bool {
    is_cleaning(world.processes[pid].progress) ==> world.lock is None || world.lock
        == world.processes[pid].seen
}

/// Whether a turn leads from one world to the next, undisturbed.
pub open spec fn step(worlds: Seq<World>, turns: Seq<(u32, Turn)>, at: int) -> bool {
    &&& is_turn(worlds[at], worlds[at + 1], turns[at].0, turns[at].1)
    &&& is_undisturbed(worlds[at], turns[at].0)
}

/// Whether a process is about to begin.
pub open spec fn is_new(process: Process) -> bool {
    exists|invocation: Invocation|
        process.progress == Progress::Invoking(#[trigger] first_stage(invocation))
}

/// Whether worlds follow on each other, turn by turn, where all processes are
/// about to begin in the first one. A lock may have been left from before.
pub open spec fn is_history(worlds: Seq<World>, turns: Seq<(u32, Turn)>) -> bool {
    &&& worlds.len() == turns.len() + 1
    &&& forall|pid: u32| #[trigger]
        worlds[0].processes.dom().contains(pid) ==> is_new(worlds[0].processes[pid])
    &&& forall|i: int| 0 <= i < turns.len() ==> #[trigger] step(worlds, turns, i)
}

/// Whether a process is the owner of the session.
pub open spec fn is_owner(world: World, pid: u32) -> bool {
    &&& world.live.contains(pid)
    &&& world.processes.dom().contains(pid)
    &&& has_lock(world.processes[pid].progress)
}

/// At most one owner runs at a time, whoever is invoked and in whatever order
/// processes take their turns, as long as no lock changes hands between the turn
/// in which a process reads it and the one in which it removes it.
pub proof fn law_at_most_one_owner(
    worlds: Seq<World>,
    turns: Seq<(u32, Turn)>,
    at: int,
    owner: u32,
    other: u32,
)
    requires
        is_history(worlds, turns),
        0 <= at < worlds.len(),
        is_owner(worlds[at], owner),
        is_owner(worlds[at], other),
    ensures
        owner == other,
{
    lemma_ownership_is_kept(worlds, turns, at);
    assert(is_orderly(worlds[at], owner));
    assert(is_orderly(worlds[at], other));
    law_lock_round_trip(owner);
    law_lock_round_trip(other);
}

/// The owner of the session is the process that the lock file names, under the
/// same condition.
pub proof fn law_lock_names_the_owner(
    worlds: Seq<World>,
    turns: Seq<(u32, Turn)>,
    at: int,
    owner: u32,
)
    requires
        is_history(worlds, turns),
        0 <= at < worlds.len(),
        is_owner(worlds[at], owner),
    ensures
        worlds[at].lock == Some(lock_text(owner)),
        named(worlds[at].lock) == Some(owner),
{
    lemma_ownership_is_kept(worlds, turns, at);
    assert(is_orderly(worlds[at], owner));
    law_lock_round_trip(owner);
}

/// Whether a lock file names no process that is alive.
spec fn is_stale(lock: Option<Seq<char>>, live: Set<u32>) -> bool {
    named(lock) matches Some(pid) ==> !live.contains(pid)
}

/// What holds of a process at every turn: the lock is its own where it is the
/// owner, it removes only what was stale when it read it, it probes the process
/// that it read, and as the owner it asks for the lock no more.
spec fn is_orderly(world: World, pid: u32) -> bool {
    let process = world.processes[pid];
    &&& is_owner(world, pid) ==> world.lock == Some(lock_text(pid))
    &&& match process.progress {
        Progress::Invoking(Stage::Probe(_, _, owner)) => named(process.seen) is Some ==> named(
            process.seen,
        ) == Some(owner),
        Progress::Locking(LockStage::Probe(owner)) => named(process.seen) == Some(owner),
        Progress::Owning(stage) => !(stage is AcquireLock),
        _ => is_cleaning(process.progress) ==> is_stale(process.seen, world.live),
    }
}

proof fn lemma_ownership_is_kept(worlds: Seq<World>, turns: Seq<(u32, Turn)>, at: int)
    requires
        is_history(worlds, turns),
        0 <= at < worlds.len(),
    ensures
        forall|pid: u32| #[trigger]
            worlds[at].processes.dom().contains(pid) ==> is_orderly(worlds[at], pid),
    decreases at,
{
    if at > 0 {
        lemma_ownership_is_kept(worlds, turns, at - 1);
        assert(step(worlds, turns, at - 1));
        let (mover, turn) = turns[at - 1];
        assert forall|pid: u32| #[trigger]
            worlds[at].processes.dom().contains(pid) implies is_orderly(worlds[at], pid) by {
            lemma_turn(worlds[at - 1], worlds[at], mover, turn, pid);
        }
    }
}

/// A turn that is not disturbed leaves every process orderly.
proof fn lemma_turn(before: World, after: World, mover: u32, turn: Turn, pid: u32)
    requires
        is_turn(before, after, mover, turn),
        is_undisturbed(before, mover),
        forall|p: u32| #[trigger]
            before.processes.dom().contains(p) ==> is_orderly(before, p),
        after.processes.dom().contains(pid),
    ensures
        is_orderly(after, pid),
{
    law_lock_round_trip(mover);
    law_lock_round_trip(pid);
    assert(before.processes.dom().contains(mover));
    assert(before.processes.dom().contains(pid));
    assert(is_orderly(before, mover));
    assert(is_orderly(before, pid));
    if pid != mover {
        assert(after.processes[pid] == before.processes[pid]);
    }
}

} // verus!
