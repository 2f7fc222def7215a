//! From an invocation to its end: reaching the owner of the session, or
//! becoming it.

use crate::context::AppContext;
use crate::instance::{clean_stale_runtime, LockOutcome, RuntimePaths};
use crate::ipc::{handle_control_connection, ControlCommand, ControlResponse, ControlState};
use crate::session::{wait_for_recording_exit, RecordingStopReason};
use crate::state::{
    fresh_session, read_state_or_default, state_or_fresh, with_phase, write_session_phase,
    SessionPhase, SessionState, StateFile,
};
use crate::text::{decimal, to_decimal};
use crate::Invocation;
use vstd::prelude::*;

verus! {

/// The owner that a session left behind: the process that its lock file names,
/// else the one in the state file.
pub open spec fn owner_pid(locked: Option<u32>, read: Option<StateFile>) -> Option<u32> {
    match locked {
        Some(pid) => Some(pid),
        None => state_or_fresh(read).session.pid,
    }
}

/// The owner that a session left behind: the process that its lock file names,
/// else the one in the state file, which holds `read`.
pub fn stale_owner_pid(locked: Option<u32>, read: Option<StateFile>) -> (pid: Option<u32>)
    ensures
        pid == owner_pid(locked, read),
{
    match locked {
        Some(pid) => Some(pid),
        None => read_state_or_default(read).session.pid,
    }
}

/// The process that is on record as the owner: the one that the lock file names;
/// else, where there is a control socket, the one in the state file. A session
/// that is over leaves its process in the state file, but no socket.
pub open spec fn owner_on_record(
    socket: bool,
    locked: Option<u32>,
    read: Option<StateFile>,
) -> Option<u32> {
    if socket {
        owner_pid(locked, read)
    } else {
        locked
    }
}

/// What to do next for an invocation.
#[derive(Debug, PartialEq, Eq)]
pub enum Stage {
    /// Run the health checks; they end it.
    CheckHealth,
    /// Send a command to the owner.
    Send(Invocation, ControlCommand),
    /// Look whether there is a control socket, and read the lock file and the
    /// state file. The owner did not answer, and this is why.
    ReadOwner(Invocation, String),
    /// Find out whether the process is alive.
    Probe(Invocation, String, u32),
    /// Remove what a stale session left.
    Clean(Invocation),
    /// Take owner and phase out of the state file.
    ClearState(Invocation),
    /// Read the phase from the state file.
    ReadPhase,
    /// Become the owner, and keep the audio in a directory if one is given.
    StartOwner(Option<Vec<u8>>),
    /// Nothing: print the phase, if there is one, or report the error.
    Done(Result<Option<SessionPhase>, String>),
}

/// What came of one of these.
#[derive(Debug, PartialEq, Eq)]
pub enum Event {
    Replied(ControlResponse),
    NoReply(String),
    /// Whether there is a control socket, the process that the lock file names,
    /// and what the state file holds.
    OwnerRead(bool, Option<u32>, Option<StateFile>),
    Probed(Result<bool, String>),
    Cleaned(Result<(), String>),
    StateCleared(Result<(), String>),
    StateRead(Option<StateFile>),
}

/// The command that an invocation sends first. A start asks how things are, a
/// toggle asks to stop.
pub open spec fn first_command(invocation: Invocation) -> ControlCommand {
    match invocation {
        Invocation::Stop | Invocation::Toggle => ControlCommand::StopAndProcess,
        Invocation::Abort => ControlCommand::Abort,
        _ => ControlCommand::Status,
    }
}

/// What to do first for an invocation.
pub open spec fn first_stage(invocation: Invocation) -> Stage {
    match invocation {
        Invocation::Health => Stage::CheckHealth,
        _ => Stage::Send(invocation, first_command(invocation)),
    }
}

/// What to do first for an invocation.
pub fn run(invocation: Invocation) -> (stage: Stage)
    ensures
        stage == first_stage(invocation),
{
    match invocation {
        Invocation::Health => Stage::CheckHealth,
        Invocation::Start { save_to } => Stage::Send(
            Invocation::Start { save_to },
            ControlCommand::Status,
        ),
        Invocation::Stop => Stage::Send(Invocation::Stop, ControlCommand::StopAndProcess),
        Invocation::Toggle => Stage::Send(Invocation::Toggle, ControlCommand::StopAndProcess),
        Invocation::Abort => Stage::Send(Invocation::Abort, ControlCommand::Abort),
        Invocation::Status => Stage::Send(Invocation::Status, ControlCommand::Status),
    }
}

/// What an invocation tells of the owner's answer.
pub open spec fn is_answered(stage: Stage, invocation: Invocation, response: ControlResponse) -> bool {
    match (invocation, response) {
        (_, ControlResponse::Error(reason)) => stage == Stage::Done(Err(reason)),
        (Invocation::Start { .. }, ControlResponse::Status(phase)) => stage matches Stage::Done(
            Err(message),
        ) && message@ == "session already active: "@ + crate::state::phase_name(phase),
        (Invocation::Start { .. }, ControlResponse::Ack) => stage matches Stage::Done(Err(message))
            && message@ == "session already active"@,
        (Invocation::Status, ControlResponse::Ack) => stage == Stage::ReadPhase,
        (_, ControlResponse::Status(phase)) => stage == Stage::Done(Ok(Some(phase))),
        (_, ControlResponse::Ack) => stage == Stage::Done(Ok(None)),
    }
}

/// What to do once nothing of a stale session is left: a start and a toggle
/// become the owner, the others have nothing to do.
pub open spec fn without_owner(invocation: Invocation) -> Stage {
    match invocation {
        Invocation::Start { save_to } => Stage::StartOwner(save_to),
        Invocation::Toggle => Stage::StartOwner(None),
        _ => Stage::Done(Ok(None)),
    }
}

/// Whether an event answers to a stage.
pub open spec fn answers(stage: Stage, event: Event) -> bool {
    match stage {
        Stage::Send(_, _) => event is Replied || event is NoReply,
        Stage::ReadOwner(_, _) => event is OwnerRead,
        Stage::Probe(_, _, _) => event is Probed,
        Stage::Clean(_) => event is Cleaned,
        Stage::ClearState(_) => event is StateCleared,
        Stage::ReadPhase => event is StateRead,
        Stage::CheckHealth | Stage::StartOwner(_) | Stage::Done(_) => false,
    }
}

/// Whether one stage follows on another, where this came of it. What does not
/// answer to the stage leaves it as it is.
pub open spec fn follows(stage: Stage, event: Event, next: Stage) -> bool {
    match (stage, event) {
        (Stage::Send(invocation, _), Event::Replied(response)) => is_answered(
            next,
            invocation,
            response,
        ),
        (Stage::Send(Invocation::Status, _), Event::NoReply(_)) => next == Stage::ReadPhase,
        (Stage::Send(invocation, _), Event::NoReply(reason)) => next == Stage::ReadOwner(
            invocation,
            reason,
        ),
        (Stage::ReadOwner(invocation, reason), Event::OwnerRead(socket, locked, read)) => next == (
        match owner_on_record(socket, locked, read) {
            Some(pid) => Stage::Probe(invocation, reason, pid),
            None => Stage::Clean(invocation),
        }),
        (Stage::Probe(_, reason, _), Event::Probed(Ok(true))) => next == Stage::Done(Err(reason)),
        (Stage::Probe(invocation, _, _), Event::Probed(Ok(false))) => next == Stage::Clean(
            invocation,
        ),
        (Stage::Probe(_, _, _), Event::Probed(Err(error))) => next == Stage::Done(Err(error)),
        (Stage::Clean(invocation), Event::Cleaned(Ok(_))) => next == Stage::ClearState(invocation),
        (Stage::Clean(_), Event::Cleaned(Err(error))) => next == Stage::Done(Err(error)),
        (Stage::ClearState(invocation), Event::StateCleared(Ok(_))) => next == without_owner(
            invocation,
        ),
        (Stage::ClearState(_), Event::StateCleared(Err(error))) => next == Stage::Done(Err(error)),
        (Stage::ReadPhase, Event::StateRead(read)) => next == Stage::Done(
            Ok(Some(state_or_fresh(read).session.phase)),
        ),
        _ => next == stage,
    }
}

/// What an invocation does with the owner's answer.
fn take_answer(invocation: Invocation, response: ControlResponse) -> (stage: Stage)
    ensures
        is_answered(stage, invocation, response),
{
    match response {
        ControlResponse::Error(reason) => Stage::Done(Err(reason)),
        ControlResponse::Status(phase) => match invocation {
            Invocation::Start { .. } => {
                let mut message: String = "session already active: ".to_string();
                message.append(phase.as_str());
                Stage::Done(Err(message))
            },
            _ => Stage::Done(Ok(Some(phase))),
        },
        ControlResponse::Ack => match invocation {
            Invocation::Start { .. } => Stage::Done(Err("session already active".to_string())),
            Invocation::Status => Stage::ReadPhase,
            _ => Stage::Done(Ok(None)),
        },
    }
}

/// What to do next for an invocation, starting with [`run`], where this came of
/// what was done. What does not answer to the stage leaves it as it is.
pub fn advance(stage: Stage, event: Event) -> (next: Stage)
    ensures
        follows(stage, event, next),
{
    match stage {
        Stage::Send(invocation, command) => match event {
            Event::Replied(response) => take_answer(invocation, response),
            Event::NoReply(reason) => match invocation {
                Invocation::Status => Stage::ReadPhase,
                _ => Stage::ReadOwner(invocation, reason),
            },
            _ => Stage::Send(invocation, command),
        },
        Stage::ReadOwner(invocation, reason) => match event {
            Event::OwnerRead(socket, locked, read) => {
                let owner: Option<u32> = if socket {
                    stale_owner_pid(locked, read)
                } else {
                    locked
                };
                match owner {
                    Some(pid) => Stage::Probe(invocation, reason, pid),
                    None => Stage::Clean(invocation),
                }
            },
            _ => Stage::ReadOwner(invocation, reason),
        },
        Stage::Probe(invocation, reason, pid) => match event {
            Event::Probed(Ok(alive)) => if alive {
                Stage::Done(Err(reason))
            } else {
                Stage::Clean(invocation)
            },
            Event::Probed(Err(error)) => Stage::Done(Err(error)),
            _ => Stage::Probe(invocation, reason, pid),
        },
        Stage::Clean(invocation) => match event {
            Event::Cleaned(Ok(_)) => Stage::ClearState(invocation),
            Event::Cleaned(Err(error)) => Stage::Done(Err(error)),
            _ => Stage::Clean(invocation),
        },
        Stage::ClearState(invocation) => match event {
            Event::StateCleared(Ok(_)) => match invocation {
                Invocation::Start { save_to } => Stage::StartOwner(save_to),
                Invocation::Toggle => Stage::StartOwner(None),
                _ => Stage::Done(Ok(None)),
            },
            Event::StateCleared(Err(error)) => Stage::Done(Err(error)),
            _ => Stage::ClearState(invocation),
        },
        Stage::ReadPhase => match event {
            Event::StateRead(read) => Stage::Done(
                Ok(Some(read_state_or_default(read).session.phase)),
            ),
            _ => Stage::ReadPhase,
        },
        Stage::CheckHealth => Stage::CheckHealth,
        Stage::StartOwner(save_to) => Stage::StartOwner(save_to),
        Stage::Done(outcome) => Stage::Done(outcome),
    }
}

/// Whether stages are those of an invocation: the first is its first one, and
/// each of the others follows on the one before it.
pub open spec fn is_run(invocation: Invocation, stages: Seq<Stage>, events: Seq<Event>) -> bool {
    &&& stages.len() == events.len() + 1
    &&& stages[0] == first_stage(invocation)
    &&& forall|i: int| 0 <= i < events.len() ==> #[trigger] step(stages, events, i)
}

/// Whether a stage follows on the one before it.
pub open spec fn step(stages: Seq<Stage>, events: Seq<Event>, at: int) -> bool {
    follows(stages[at], events[at], stages[at + 1])
}

/// The invocation that a stage is about.
pub open spec fn invocation_of(stage: Stage) -> Option<Invocation> {
    match stage {
        Stage::Send(invocation, _) => Some(invocation),
        Stage::ReadOwner(invocation, _) => Some(invocation),
        Stage::Probe(invocation, _, _) => Some(invocation),
        Stage::Clean(invocation) => Some(invocation),
        Stage::ClearState(invocation) => Some(invocation),
        _ => None,
    }
}

/// Whether some event shows that no owner is left: no process is named, or the
/// one that is named is not alive.
pub open spec fn shows_no_owner(event: Event) -> bool {
    match event {
        Event::OwnerRead(socket, locked, read) => owner_on_record(socket, locked, read) is None,
        Event::Probed(Ok(alive)) => !alive,
        _ => false,
    }
}

/// A session is started, and what another one left is removed, only where the
/// owner did not answer and was shown to be gone; and only a start or a toggle
/// starts one.
pub proof fn law_owner_is_never_replaced(
    invocation: Invocation,
    stages: Seq<Stage>,
    events: Seq<Event>,
)
    requires
        is_run(invocation, stages, events),
    ensures
        stages.last() is Clean || stages.last() is ClearState || stages.last() is StartOwner ==> {
            &&& exists|i: int| 0 <= i < events.len() && #[trigger] events[i] is NoReply
            &&& exists|i: int| 0 <= i < events.len() && shows_no_owner(#[trigger] events[i])
        },
        stages.last() matches Stage::StartOwner(save_to) ==> without_owner(invocation)
            == Stage::StartOwner(save_to),
        invocation_of(stages.last()) matches Some(about) ==> about == invocation,
        stages.last() is ReadOwner || stages.last() is Probe ==> exists|i: int| 0 <= i < events.len() && #[trigger] events[i] is NoReply,
    decreases events.len(),
{
    if events.len() > 0 {
        let stages2 = stages.drop_last();
        let events2 = events.drop_last();
        assert forall|i: int| 0 <= i < events2.len() implies #[trigger] step(
            stages2,
            events2,
            i,
        ) by {
            assert(step(stages, events, i));
        }
        law_owner_is_never_replaced(invocation, stages2, events2);
        let at = events.len() - 1;
        assert(step(stages, events, at));
        assert(stages2.last() == stages[at]);
        assert forall|i: int| 0 <= i < events2.len() implies #[trigger] events2[i] == events[i] by {
        }
        if stages.last() is Clean || stages.last() is ClearState || stages.last() is StartOwner
            || stages.last() is ReadOwner || stages.last() is Probe {
            if !(events[at] is NoReply) {
                let i = choose|i: int| 0 <= i < events2.len() && #[trigger] events2[i] is NoReply;
                assert(events[i] is NoReply);
            }
        }
        if stages.last() is Clean || stages.last() is ClearState || stages.last() is StartOwner {
            if !shows_no_owner(events[at]) {
                let i = choose|i: int|
                    0 <= i < events2.len() && shows_no_owner(#[trigger] events2[i]);
                assert(shows_no_owner(events[i]));
            }
        }
    }
}

/// Each answer brings the invocation nearer to its end: after at most five it
/// is decided.
pub proof fn law_invocation_is_decided(stage: Stage, event: Event, next: Stage)
    requires
        answers(stage, event),
        follows(stage, event, next),
    ensures
        answers_left(next) < answers_left(stage),
        answers_left(stage) <= 5,
{
}

/// How many answers are still to come, at most.
pub open spec fn answers_left(stage: Stage) -> nat {
    match stage {
        Stage::Send(_, _) => 5,
        Stage::ReadOwner(_, _) => 4,
        Stage::Probe(_, _, _) => 3,
        Stage::Clean(_) => 2,
        Stage::ClearState(_) => 1,
        Stage::ReadPhase => 1,
        Stage::CheckHealth | Stage::StartOwner(_) | Stage::Done(_) => 0,
    }
}

/// Whether the answers to a run are true of a control socket that is there or
/// not, of a lock file that names `locked`, of a state file that holds `read` and
/// of the processes that are alive.
pub open spec fn is_true_of(
    stages: Seq<Stage>,
    events: Seq<Event>,
    socket: bool,
    locked: Option<u32>,
    read: Option<StateFile>,
    alive: spec_fn(u32) -> bool,
) -> bool {
    forall|i: int|
        0 <= i < events.len() ==> match #[trigger] events[i] {
            Event::OwnerRead(socket2, locked2, read2) => socket2 == socket && locked2 == locked
                && read2 == read,
            Event::Probed(Ok(is_alive)) => stages[i] matches Stage::Probe(_, _, pid) ==> is_alive
                == alive(pid),
            _ => true,
        }
}

/// A process that is on record as the owner, and is alive, is left alone: no
/// invocation removes its files, clears its state or becomes the owner itself.
/// Where the owner does not answer, that is reported as the error.
pub proof fn law_live_owner_is_left_alone(
    invocation: Invocation,
    stages: Seq<Stage>,
    events: Seq<Event>,
    socket: bool,
    locked: Option<u32>,
    read: Option<StateFile>,
    alive: spec_fn(u32) -> bool,
    at: int,
)
    requires
        is_run(invocation, stages, events),
        is_true_of(stages, events, socket, locked, read, alive),
        owner_on_record(socket, locked, read) matches Some(pid) && alive(pid),
        0 <= at < stages.len(),
    ensures
        !(stages[at] is Clean),
        !(stages[at] is ClearState),
        !(stages[at] is StartOwner),
        stages[at] matches Stage::Probe(_, _, pid) ==> owner_on_record(socket, locked, read)
            == Some(pid),
        stages[at] matches Stage::ReadOwner(_, reason) ==> events.contains(Event::NoReply(reason)),
        stages[at] matches Stage::Probe(_, reason, _) ==> events.contains(Event::NoReply(reason)),
        at > 0 && is_probed(stages[at - 1], events[at - 1]) ==> (stages[at] matches Stage::Done(
            Err(reason),
        ) && events.contains(Event::NoReply(reason))),
    decreases at,
{
    if at > 0 {
        law_live_owner_is_left_alone(
            invocation,
            stages,
            events,
            socket,
            locked,
            read,
            alive,
            at - 1,
        );
        assert(step(stages, events, at - 1));
        let event = events[at - 1];
        assert(events.contains(event));
    }
}

/// Whether it was found out whether the process on record is alive.
pub open spec fn is_probed(stage: Stage, event: Event) -> bool {
    stage is Probe && (event matches Event::Probed(outcome) && outcome is Ok)
}

/// Two taps: where an owner acknowledges, a toggle has stopped it and is done;
/// where none answers, and none is on record or the one that is has died, it
/// becomes the owner itself.
pub proof fn law_toggle_stops_or_starts(
    reason: String,
    socket: bool,
    locked: Option<u32>,
    read: Option<StateFile>,
    sent: Stage,
    acknowledged: Stage,
    unanswered: Stage,
    looked: Stage,
    stale: Stage,
    cleaned: Stage,
    started: Stage,
)
    requires
        sent == first_stage(Invocation::Toggle),
        follows(sent, Event::Replied(ControlResponse::Ack), acknowledged),
        follows(sent, Event::NoReply(reason), unanswered),
        follows(unanswered, Event::OwnerRead(socket, locked, read), looked),
        if owner_on_record(socket, locked, read) is None {
            stale == looked
        } else {
            follows(looked, Event::Probed(Ok(false)), stale)
        },
        follows(stale, Event::Cleaned(Ok(())), cleaned),
        follows(cleaned, Event::StateCleared(Ok(())), started),
    ensures
        sent == Stage::Send(Invocation::Toggle, ControlCommand::StopAndProcess),
        acknowledged == Stage::Done(Ok(None)),
        started == Stage::StartOwner(None),
{
}

/// What to write to the state file, which holds `read`, when a process records
/// something of its session: owner and phase, and then what `update` makes of
/// it.
pub fn write_session_metadata<F: FnOnce(SessionState) -> SessionState>(
    read: Option<StateFile>,
    pid: Option<u32>,
    phase: SessionPhase,
    update: F,
) -> (file: StateFile)
    requires
        call_requires(update, (with_phase(state_or_fresh(read), pid, phase).session,)),
    ensures
        file.version == state_or_fresh(read).version,
        call_ensures(
            update,
            (with_phase(state_or_fresh(read), pid, phase).session,),
            file.session,
        ),
{
    let file: StateFile = write_session_phase(read, pid, phase);
    StateFile { version: file.version, session: update(file.session) }
}

/// The state of a session that a process has just started, with the window in
/// which it did so. Nothing of the session before it is left.
pub open spec fn started_state(read: Option<StateFile>, pid: u32, context: AppContext) -> StateFile {
    StateFile {
        version: state_or_fresh(read).version,
        session: SessionState {
            phase: SessionPhase::Recording,
            pid: Some(pid),
            start_context: Some(context),
            ..fresh_session()
        },
    }
}

/// Whether a session has forgotten all but its owner and phase, and begins in a
/// window.
pub open spec fn is_started(
    started: SessionState,
    session: SessionState,
    context: AppContext,
) -> bool {
    &&& started.phase == session.phase
    &&& started.pid == session.pid
    &&& started.start_context == Some(context)
    &&& started.stop_context is None
    &&& started.pre_paste_context is None
    &&& started.last_error is None
}

/// What to write to the state file, which holds `read`, when a process starts a
/// session in a window.
pub fn start_state(read: Option<StateFile>, pid: u32, context: AppContext) -> (file: StateFile)
    ensures
        file == started_state(read, pid, context),
{
    let update = |session: SessionState| -> (started: SessionState)
        ensures
            is_started(started, session, context),
        {
            SessionState {
                phase: session.phase,
                pid: session.pid,
                start_context: Some(context),
                stop_context: None,
                pre_paste_context: None,
                last_error: None,
            }
        };
    write_session_metadata(read, Some(pid), SessionPhase::Recording, update)
}

/// What to do next as the owner of a session.
#[derive(Debug, PartialEq, Eq)]
pub enum OwnerStage {
    /// Get the lock.
    AcquireLock,
    /// Bind the control socket.
    BindSocket,
    /// Give the lock back. The socket could not be bound, and this is why.
    ReleaseLock(String),
    /// Find out which window has the focus.
    CaptureContext,
    /// Write the start of the session to the state file.
    WriteStart(AppContext),
    /// Start the control server and run the session.
    RunSession,
    /// Move the session to the idle phase. It failed, and this is why.
    MarkIdle(String),
    /// Tell the control server to end, and wait for that.
    StopServer(Result<(), String>),
    /// Remove the socket and the lock.
    CleanUp(Result<(), String>, Result<(), String>),
    /// Nothing: this came of it.
    Done(Result<(), String>),
}

/// What came of one of these.
#[derive(Debug, PartialEq, Eq)]
pub enum OwnerEvent {
    LockDecided(Result<LockOutcome, String>),
    SocketBound(Result<(), String>),
    LockReleased,
    ContextCaptured(AppContext),
    StartWritten(Result<(), String>),
    SessionOver(Result<(), String>),
    IdleMarked,
    ServerOver(Result<(), String>),
    CleanedUp(Result<(), String>),
}

/// Whether one stage follows on another, where this came of it. What does not
/// answer to the stage leaves it as it is.
pub open spec fn owner_follows(stage: OwnerStage, event: OwnerEvent, next: OwnerStage) -> bool {
    match (stage, event) {
        (OwnerStage::AcquireLock, OwnerEvent::LockDecided(Ok(LockOutcome::Busy(pid)))) => next matches OwnerStage::Done(
            Err(message),
        ) && message@ == "session already owned by pid "@ + decimal(pid as nat),
        (OwnerStage::AcquireLock, OwnerEvent::LockDecided(Ok(_))) => next == OwnerStage::BindSocket,
        (OwnerStage::AcquireLock, OwnerEvent::LockDecided(Err(error))) => next == OwnerStage::Done(
            Err(error),
        ),
        (OwnerStage::BindSocket, OwnerEvent::SocketBound(Ok(_))) => next
            == OwnerStage::CaptureContext,
        (OwnerStage::BindSocket, OwnerEvent::SocketBound(Err(error))) => next
            == OwnerStage::ReleaseLock(error),
        (OwnerStage::ReleaseLock(error), OwnerEvent::LockReleased) => next == OwnerStage::Done(
            Err(error),
        ),
        (OwnerStage::CaptureContext, OwnerEvent::ContextCaptured(context)) => next
            == OwnerStage::WriteStart(context),
        (OwnerStage::WriteStart(_), OwnerEvent::StartWritten(Ok(_))) => next
            == OwnerStage::RunSession,
        (OwnerStage::WriteStart(_), OwnerEvent::StartWritten(Err(error))) => next
            == OwnerStage::Done(Err(error)),
        (OwnerStage::RunSession, OwnerEvent::SessionOver(Ok(_))) => next == OwnerStage::StopServer(
            Ok(()),
        ),
        (OwnerStage::RunSession, OwnerEvent::SessionOver(Err(error))) => next
            == OwnerStage::MarkIdle(error),
        (OwnerStage::MarkIdle(error), OwnerEvent::IdleMarked) => next == OwnerStage::StopServer(
            Err(error),
        ),
        (OwnerStage::StopServer(session), OwnerEvent::ServerOver(server)) => next
            == OwnerStage::CleanUp(session, server),
        (OwnerStage::CleanUp(session, server), OwnerEvent::CleanedUp(cleanup)) => next
            == OwnerStage::Done(owner_result(cleanup, server, session)),
        _ => next == stage,
    }
}

/// What the owner reports: the first error among cleaning up, the control
/// server and the session.
pub open spec fn owner_result(
    cleanup: Result<(), String>,
    server: Result<(), String>,
    session: Result<(), String>,
) -> Result<(), String> {
    if cleanup is Err {
        cleanup
    } else if server is Err {
        server
    } else {
        session
    }
}

/// What to do next as the owner of a session, starting with
/// [`OwnerStage::AcquireLock`], where this came of what was done. What does not
/// answer to the stage leaves it as it is.
pub fn start_owner_session(stage: OwnerStage, event: OwnerEvent) -> (next: OwnerStage)
    ensures
        owner_follows(stage, event, next),
{
    match stage {
        OwnerStage::AcquireLock => match event {
            OwnerEvent::LockDecided(Ok(LockOutcome::Busy(pid))) => {
                let mut message: String = "session already owned by pid ".to_string();
                message.append(to_decimal(pid as u64).as_str());
                OwnerStage::Done(Err(message))
            },
            OwnerEvent::LockDecided(Ok(_)) => OwnerStage::BindSocket,
            OwnerEvent::LockDecided(Err(error)) => OwnerStage::Done(Err(error)),
            _ => OwnerStage::AcquireLock,
        },
        OwnerStage::BindSocket => match event {
            OwnerEvent::SocketBound(Ok(_)) => OwnerStage::CaptureContext,
            OwnerEvent::SocketBound(Err(error)) => OwnerStage::ReleaseLock(error),
            _ => OwnerStage::BindSocket,
        },
        OwnerStage::ReleaseLock(error) => match event {
            OwnerEvent::LockReleased => OwnerStage::Done(Err(error)),
            _ => OwnerStage::ReleaseLock(error),
        },
        OwnerStage::CaptureContext => match event {
            OwnerEvent::ContextCaptured(context) => OwnerStage::WriteStart(context),
            _ => OwnerStage::CaptureContext,
        },
        OwnerStage::WriteStart(context) => match event {
            OwnerEvent::StartWritten(Ok(_)) => OwnerStage::RunSession,
            OwnerEvent::StartWritten(Err(error)) => OwnerStage::Done(Err(error)),
            _ => OwnerStage::WriteStart(context),
        },
        OwnerStage::RunSession => match event {
            OwnerEvent::SessionOver(Ok(_)) => OwnerStage::StopServer(Ok(())),
            OwnerEvent::SessionOver(Err(error)) => OwnerStage::MarkIdle(error),
            _ => OwnerStage::RunSession,
        },
        OwnerStage::MarkIdle(error) => match event {
            OwnerEvent::IdleMarked => OwnerStage::StopServer(Err(error)),
            _ => OwnerStage::MarkIdle(error),
        },
        OwnerStage::StopServer(session) => match event {
            OwnerEvent::ServerOver(server) => OwnerStage::CleanUp(session, server),
            _ => OwnerStage::StopServer(session),
        },
        OwnerStage::CleanUp(session, server) => match event {
            OwnerEvent::CleanedUp(cleanup) => {
                if cleanup.is_err() {
                    OwnerStage::Done(cleanup)
                } else if server.is_err() {
                    OwnerStage::Done(server)
                } else {
                    OwnerStage::Done(session)
                }
            },
            _ => OwnerStage::CleanUp(session, server),
        },
        OwnerStage::Done(outcome) => OwnerStage::Done(outcome),
    }
}

/// The files that the owner removes at the end, in the order in which they go:
/// its socket and its lock.
pub fn cleanup_owner_runtime(paths: &RuntimePaths) -> (files: Vec<&Vec<u8>>)
    ensures
        files@ == seq![&paths.control_socket, &paths.lock],
{
    clean_stale_runtime(paths)
}

/// Whether stages are those of an owner: it begins with the lock, and each of
/// the others follows on the one before it.
pub open spec fn is_owner_run(stages: Seq<OwnerStage>, events: Seq<OwnerEvent>) -> bool {
    &&& stages.len() == events.len() + 1
    &&& stages[0] == OwnerStage::AcquireLock
    &&& forall|i: int| 0 <= i < events.len() ==> #[trigger] owner_step(stages, events, i)
}

/// Whether a stage follows on the one before it.
pub open spec fn owner_step(stages: Seq<OwnerStage>, events: Seq<OwnerEvent>, at: int) -> bool {
    owner_follows(stages[at], events[at], stages[at + 1])
}

/// Whether the lock is held while this is to be done.
pub open spec fn needs_lock(stage: OwnerStage) -> bool {
    !(stage is AcquireLock) && !(stage is Done)
}

/// Whether a session was run before this is to be done.
pub open spec fn is_after_session(stage: OwnerStage) -> bool {
    stage is MarkIdle || stage is StopServer || stage is CleanUp
}

/// Whether an event says that the lock is ours.
pub open spec fn gives_lock(event: OwnerEvent) -> bool {
    event == OwnerEvent::LockDecided(Ok(LockOutcome::Acquired)) || event == OwnerEvent::LockDecided(
        Ok(LockOutcome::Recovered),
    )
}

/// The run of an owner up to its last step but one is a run as well, and the
/// last stage follows on the one before it.
proof fn lemma_shorter_run(stages: Seq<OwnerStage>, events: Seq<OwnerEvent>)
    requires
        is_owner_run(stages, events),
        events.len() > 0,
    ensures
        is_owner_run(stages.drop_last(), events.drop_last()),
        owner_follows(stages.drop_last().last(), events.last(), stages.last()),
{
    let stages2 = stages.drop_last();
    let events2 = events.drop_last();
    assert forall|i: int| 0 <= i < events2.len() implies #[trigger] owner_step(
        stages2,
        events2,
        i,
    ) by {
        assert(owner_step(stages, events, i));
    }
    assert(owner_step(stages, events, events.len() - 1));
}

/// Nothing is done as the owner before the lock was got.
pub proof fn law_owner_has_the_lock(stages: Seq<OwnerStage>, events: Seq<OwnerEvent>)
    requires
        is_owner_run(stages, events),
        needs_lock(stages.last()),
    ensures
        exists|i: int| 0 <= i < events.len() && gives_lock(#[trigger] events[i]),
    decreases events.len(),
{
    if events.len() > 0 {
        lemma_shorter_run(stages, events);
        let stages2 = stages.drop_last();
        let events2 = events.drop_last();
        let at = events.len() - 1;
        if needs_lock(stages2.last()) {
            law_owner_has_the_lock(stages2, events2);
            let i = choose|i: int| 0 <= i < events2.len() && gives_lock(#[trigger] events2[i]);
            assert(gives_lock(events[i]));
        } else {
            assert(gives_lock(events[at]));
        }
    }
}

/// Where a session was run, its files are removed before the end.
pub proof fn law_owner_cleans_up(stages: Seq<OwnerStage>, events: Seq<OwnerEvent>, at: int)
    requires
        is_owner_run(stages, events),
        0 <= at < stages.len(),
        is_after_session(stages[at]),
        stages.last() is Done,
    ensures
        exists|i: int| at <= i < events.len() && (#[trigger] stages[i]) is CleanUp,
{
    lemma_cleans_up(stages, events, at);
}

proof fn lemma_cleans_up(stages: Seq<OwnerStage>, events: Seq<OwnerEvent>, at: int)
    requires
        is_owner_run(stages, events),
        0 <= at < stages.len(),
        is_after_session(stages[at]),
    ensures
        is_after_session(stages.last()) || (exists|i: int|
            at <= i < events.len() && (#[trigger] stages[i]) is CleanUp),
    decreases events.len(),
{
    if at < events.len() {
        lemma_shorter_run(stages, events);
        let stages2 = stages.drop_last();
        let events2 = events.drop_last();
        lemma_cleans_up(stages2, events2, at);
        let last = events.len() - 1;
        assert(stages2.last() == stages[last]);
        if is_after_session(stages2.last()) {
            if !is_after_session(stages.last()) {
                assert(stages[last] is CleanUp);
            }
        } else {
            let i = choose|i: int|
                at <= i < events2.len() && (#[trigger] stages2[i]) is CleanUp;
            assert(stages[i] is CleanUp);
        }
    }
}

/// The end is a success only where the session, the server and the removal of
/// the files all succeeded.
pub proof fn law_owner_success(stages: Seq<OwnerStage>, events: Seq<OwnerEvent>)
    requires
        is_owner_run(stages, events),
        stages.last() == OwnerStage::Done(Ok(())),
    ensures
        events.contains(OwnerEvent::SessionOver(Ok(()))),
        events.contains(OwnerEvent::ServerOver(Ok(()))),
        events.contains(OwnerEvent::CleanedUp(Ok(()))),
{
    lemma_session_succeeded(stages, events);
    lemma_server_succeeded(stages, events);
    lemma_removal_succeeded(stages, events);
}

/// Whether a stage is one behind a session that succeeded.
spec fn is_behind_session(stage: OwnerStage) -> bool {
    match stage {
        OwnerStage::StopServer(session) => session is Ok,
        OwnerStage::CleanUp(session, _) => session is Ok,
        OwnerStage::Done(result) => result is Ok,
        _ => false,
    }
}

/// Whether a stage is one behind a server that succeeded.
spec fn is_behind_server(stage: OwnerStage) -> bool {
    match stage {
        OwnerStage::CleanUp(_, server) => server is Ok,
        OwnerStage::Done(result) => result is Ok,
        _ => false,
    }
}

/// Whether a stage is a success.
spec fn is_success(stage: OwnerStage) -> bool {
    match stage {
        OwnerStage::Done(result) => result is Ok,
        _ => false,
    }
}

/// A stage behind a session that succeeded has that session behind it.
proof fn lemma_session_succeeded(stages: Seq<OwnerStage>, events: Seq<OwnerEvent>)
    requires
        is_owner_run(stages, events),
        is_behind_session(stages.last()),
    ensures
        events.contains(OwnerEvent::SessionOver(Ok(()))),
    decreases events.len(),
{
    if events.len() > 0 {
        lemma_shorter_run(stages, events);
        let stages2 = stages.drop_last();
        let events2 = events.drop_last();
        if is_behind_session(stages2.last()) {
            lemma_session_succeeded(stages2, events2);
            let i = choose|i: int|
                0 <= i < events2.len() && events2[i] == OwnerEvent::SessionOver(Ok(()));
            assert(events[i] == events2[i]);
        } else {
            let result = events.last()->SessionOver_0;
            assert(result is Ok && result->Ok_0 == ());
            assert(events[events.len() - 1] == OwnerEvent::SessionOver(Ok(())));
        }
    }
}

/// A stage behind a server that succeeded has that server behind it.
proof fn lemma_server_succeeded(stages: Seq<OwnerStage>, events: Seq<OwnerEvent>)
    requires
        is_owner_run(stages, events),
        is_behind_server(stages.last()),
    ensures
        events.contains(OwnerEvent::ServerOver(Ok(()))),
    decreases events.len(),
{
    if events.len() > 0 {
        lemma_shorter_run(stages, events);
        let stages2 = stages.drop_last();
        let events2 = events.drop_last();
        if is_behind_server(stages2.last()) {
            lemma_server_succeeded(stages2, events2);
            let i = choose|i: int|
                0 <= i < events2.len() && events2[i] == OwnerEvent::ServerOver(Ok(()));
            assert(events[i] == events2[i]);
        } else {
            let result = events.last()->ServerOver_0;
            assert(result is Ok && result->Ok_0 == ());
            assert(events[events.len() - 1] == OwnerEvent::ServerOver(Ok(())));
        }
    }
}

/// A success has the removal of the files behind it.
proof fn lemma_removal_succeeded(stages: Seq<OwnerStage>, events: Seq<OwnerEvent>)
    requires
        is_owner_run(stages, events),
        is_success(stages.last()),
    ensures
        events.contains(OwnerEvent::CleanedUp(Ok(()))),
    decreases events.len(),
{
    if events.len() > 0 {
        lemma_shorter_run(stages, events);
        let stages2 = stages.drop_last();
        let events2 = events.drop_last();
        if is_success(stages2.last()) {
            lemma_removal_succeeded(stages2, events2);
            let i = choose|i: int|
                0 <= i < events2.len() && events2[i] == OwnerEvent::CleanedUp(Ok(()));
            assert(events[i] == events2[i]);
        } else {
            let result = events.last()->CleanedUp_0;
            assert(result is Ok && result->Ok_0 == ());
            assert(events[events.len() - 1] == OwnerEvent::CleanedUp(Ok(())));
        }
    }
}

/// An invocation does to the owner what its name says. A stop and a toggle have
/// it stop recording and process what it has; an abort has it abort; a start and
/// a status only ask, and change nothing. Only an abort ever has an abort
/// requested. A health check asks nobody.
pub proof fn law_invocation_does_what_it_says(
    invocation: Invocation,
    stage: Stage,
    command: ControlCommand,
    owner: &mut ControlState,
    read: Option<StateFile>,
    reply: (ControlResponse, Option<StateFile>),
    now: u128,
    deadline: u128,
    reason: Option<RecordingStopReason>,
)
    requires
        call_ensures(run, (invocation,), stage),
        invocation is Health || stage == Stage::Send(invocation, command),
        call_ensures(handle_control_connection, (owner, command, read), reply),
        call_ensures(wait_for_recording_exit, (final(owner), now, deadline), reason),
        !old(owner)@.shutdown,
    ensures
        invocation is Health <==> stage == Stage::CheckHealth,
        (invocation is Stop || invocation is Toggle) && !old(owner)@.abort_requested ==> {
            &&& final(owner)@.stop_requested
            &&& !final(owner)@.abort_requested
            &&& final(owner)@.phase == SessionPhase::Processing
            &&& reason == Some(RecordingStopReason::Stopped)
            &&& reply.0 == ControlResponse::Ack
        },
        invocation is Abort ==> {
            &&& final(owner)@.abort_requested
            &&& final(owner)@.phase == SessionPhase::Idle
            &&& reason == Some(RecordingStopReason::Aborted)
            &&& reply.0 == ControlResponse::Ack
        },
        invocation is Start || invocation is Status ==> {
            &&& final(owner)@ == old(owner)@
            &&& reply.0 == ControlResponse::Status(old(owner)@.phase)
            &&& reply.1 is None
        },
        !(invocation is Abort) && !(invocation is Health) ==> final(owner)@.abort_requested
            == old(owner)@.abort_requested,
{
}

/// Every invocation but the health check first asks the owner, on its own
/// behalf.
pub proof fn law_owner_is_asked_first(invocation: Invocation, stage: Stage)
    requires
        call_ensures(run, (invocation,), stage) || call_ensures(crate::run, (invocation,), stage),
    ensures
        !(invocation is Health) ==> (stage matches Stage::Send(about, _) && about == invocation),
        invocation is Health ==> stage == Stage::CheckHealth,
        invocation is Stop || invocation is Toggle ==> stage == Stage::Send(
            invocation,
            ControlCommand::StopAndProcess,
        ),
        stage == Stage::Send(invocation, ControlCommand::Abort) <==> invocation is Abort,
{
}

/// What the owner answers is what comes of the invocation: an error is reported
/// as it is; a phase is told, but to a start it says that there is a session
/// already, by the name of the phase; and what is acknowledged is done.
pub proof fn law_answer_of_the_owner_counts(
    invocation: Invocation,
    command: ControlCommand,
    response: ControlResponse,
    next: Stage,
)
    requires
        call_ensures(
            advance,
            (Stage::Send(invocation, command), Event::Replied(response)),
            next,
        ),
    ensures
        response matches ControlResponse::Error(why) ==> next == Stage::Done(Err(why)),
        invocation is Start ==> (next matches Stage::Done(outcome) && outcome is Err),
        invocation is Start ==> (response matches ControlResponse::Status(phase) ==> (
        next matches Stage::Done(Err(message)) && crate::state::phase_name(phase).is_suffix_of(
            message@,
        ))),
        !(invocation is Start) ==> (response matches ControlResponse::Status(phase) ==> next
            == Stage::Done(Ok(Some(phase)))),
        (invocation is Stop || invocation is Abort || invocation is Toggle) && response
            == ControlResponse::Ack ==> next == Stage::Done(Ok(None)),
        invocation is Status && response == ControlResponse::Ack ==> next == Stage::ReadPhase,
{
    if invocation is Start {
        if let ControlResponse::Status(phase) = response {
            let name = crate::state::phase_name(phase);
            if let Stage::Done(Err(message)) = next {
                let text = message@;
                assert(text.subrange(text.len() - name.len(), text.len() as int) =~= name);
            }
        }
    }
}

/// Where the owner does not answer, a status tells the phase in the state file,
/// idle where that could not be read, and never touches a thing.
pub proof fn law_status_without_an_answer(
    command: ControlCommand,
    reason: String,
    read: Option<StateFile>,
    asked: Stage,
    told: Stage,
)
    requires
        call_ensures(
            advance,
            (Stage::Send(Invocation::Status, command), Event::NoReply(reason)),
            asked,
        ),
        call_ensures(advance, (asked, Event::StateRead(read)), told),
    ensures
        asked == Stage::ReadPhase,
        read matches Some(state) ==> told == Stage::Done(Ok(Some(state.session.phase))),
        read is None ==> told == Stage::Done(Ok(Some(SessionPhase::Idle))),
{
}

/// Where there is no owner, nobody is commanded: what an old one left is cleaned
/// up, and then a start and a toggle become the owner, a start with the directory
/// that it was given; a stop and an abort are done.
pub proof fn law_without_an_owner(
    invocation: Invocation,
    command: ControlCommand,
    reason: String,
    socket: bool,
    locked: Option<u32>,
    read: Option<StateFile>,
    unanswered: Stage,
    looked: Stage,
    stale: Stage,
    cleaned: Stage,
    ended: Stage,
)
    requires
        invocation is Start || invocation is Toggle || invocation is Stop || invocation is Abort,
        call_ensures(
            advance,
            (Stage::Send(invocation, command), Event::NoReply(reason)),
            unanswered,
        ),
        call_ensures(advance, (unanswered, Event::OwnerRead(socket, locked, read)), looked),
        if locked is None && !(socket && (read matches Some(state) && state.session.pid is Some)) {
            stale == looked
        } else {
            call_ensures(advance, (looked, Event::Probed(Ok(false))), stale)
        },
        call_ensures(advance, (stale, Event::Cleaned(Ok(()))), cleaned),
        call_ensures(advance, (cleaned, Event::StateCleared(Ok(()))), ended),
    ensures
        stale == Stage::Clean(invocation),
        cleaned == Stage::ClearState(invocation),
        invocation matches Invocation::Start { save_to } ==> ended == Stage::StartOwner(save_to),
        invocation is Toggle ==> ended == Stage::StartOwner(None),
        invocation is Stop || invocation is Abort ==> ended == Stage::Done(Ok(None)),
{
}

/// The process that is asked after is the one that the lock file names, whatever
/// the state file says; where it names none, the one in the state file counts
/// only beside a socket. Where that process is alive, or nobody can tell, the
/// invocation ends with an error: with why the owner did not answer, or with why
/// nobody can tell.
pub proof fn law_owner_on_record_is_probed(
    invocation: Invocation,
    reason: String,
    socket: bool,
    locked: Option<u32>,
    read: Option<StateFile>,
    looked: Stage,
    alive: Result<bool, String>,
    found: Stage,
)
    requires
        call_ensures(
            advance,
            (Stage::ReadOwner(invocation, reason), Event::OwnerRead(socket, locked, read)),
            looked,
        ),
        call_ensures(advance, (looked, Event::Probed(alive)), found),
    ensures
        locked matches Some(pid) ==> looked == Stage::Probe(invocation, reason, pid),
        locked is None && !socket ==> looked == Stage::Clean(invocation),
        locked is None && read is None ==> looked == Stage::Clean(invocation),
        locked is None && socket ==> (read matches Some(state) ==> match state.session.pid {
            Some(pid) => looked == Stage::Probe(invocation, reason, pid),
            None => looked == Stage::Clean(invocation),
        }),
        looked is Probe ==> match alive {
            Ok(is_alive) => if is_alive {
                found == Stage::Done(Err(reason))
            } else {
                found == Stage::Clean(invocation)
            },
            Err(error) => found == Stage::Done(Err(error)),
        },
{
}

/// What cannot be cleaned up is reported, and no session is started then.
pub proof fn law_failed_cleaning_is_reported(
    invocation: Invocation,
    why: String,
    cleaned: Stage,
    cleared: Stage,
)
    requires
        call_ensures(advance, (Stage::Clean(invocation), Event::Cleaned(Err(why))), cleaned),
        call_ensures(
            advance,
            (Stage::ClearState(invocation), Event::StateCleared(Err(why))),
            cleared,
        ),
    ensures
        cleaned == Stage::Done(Err(why)),
        cleared == Stage::Done(Err(why)),
{
}

/// The process that a session left behind is the one in its lock file; only
/// where there is none, the one in the state file.
pub proof fn law_lock_counts_before_state(
    locked: Option<u32>,
    read: Option<StateFile>,
    pid: Option<u32>,
)
    requires
        call_ensures(stale_owner_pid, (locked, read), pid),
    ensures
        locked is Some ==> pid == locked,
        locked is None ==> (read matches Some(state) ==> pid == state.session.pid),
        locked is None && read is None ==> pid is None,
{
}

/// A session that starts is written down as recording, as that of its process
/// and as begun in its window. Nothing is left of the one before it but the
/// version of the file.
pub proof fn law_started_session_is_written_down(
    read: Option<StateFile>,
    pid: u32,
    context: AppContext,
    file: StateFile,
)
    requires
        call_ensures(start_state, (read, pid, context), file),
    ensures
        file.session.phase == SessionPhase::Recording,
        file.session.pid == Some(pid),
        file.session.start_context == Some(context),
        file.session.stop_context is None,
        file.session.pre_paste_context is None,
        file.session.last_error is None,
        read matches Some(state) ==> file.version == state.version,
        read is None ==> file.version == 1,
{
}

/// An owner goes from the lock over the socket, its window and its state file to
/// the session, and then stops the server and cleans up: where all goes well, it
/// ends well.
pub proof fn law_owner_runs_a_session(
    outcome: LockOutcome,
    context: AppContext,
    locked: OwnerStage,
    bound: OwnerStage,
    captured: OwnerStage,
    written: OwnerStage,
    over: OwnerStage,
    stopped: OwnerStage,
    ended: OwnerStage,
)
    requires
        outcome == LockOutcome::Acquired || outcome == LockOutcome::Recovered,
        call_ensures(
            start_owner_session,
            (OwnerStage::AcquireLock, OwnerEvent::LockDecided(Ok(outcome))),
            locked,
        ),
        call_ensures(start_owner_session, (locked, OwnerEvent::SocketBound(Ok(()))), bound),
        call_ensures(start_owner_session, (bound, OwnerEvent::ContextCaptured(context)), captured),
        call_ensures(start_owner_session, (captured, OwnerEvent::StartWritten(Ok(()))), written),
        call_ensures(start_owner_session, (written, OwnerEvent::SessionOver(Ok(()))), over),
        call_ensures(start_owner_session, (over, OwnerEvent::ServerOver(Ok(()))), stopped),
        call_ensures(start_owner_session, (stopped, OwnerEvent::CleanedUp(Ok(()))), ended),
    ensures
        locked == OwnerStage::BindSocket,
        bound == OwnerStage::CaptureContext,
        captured == OwnerStage::WriteStart(context),
        written == OwnerStage::RunSession,
        over == OwnerStage::StopServer(Ok(())),
        stopped == OwnerStage::CleanUp(Ok(()), Ok(())),
        ended == OwnerStage::Done(Ok(())),
{
}

/// What fails before a session runs ends the owner with that error, and the lock
/// is given back where the socket could not be bound. A lock that another process
/// has ends it with an error that names the process.
pub proof fn law_owner_gives_up(
    stage: OwnerStage,
    event: OwnerEvent,
    next: OwnerStage,
    released: OwnerStage,
)
    requires
        call_ensures(start_owner_session, (stage, event), next),
        call_ensures(start_owner_session, (next, OwnerEvent::LockReleased), released),
    ensures
        stage is AcquireLock ==> (event matches OwnerEvent::LockDecided(Err(why)) ==> next
            == OwnerStage::Done(Err(why))),
        stage is AcquireLock ==> (event matches OwnerEvent::LockDecided(Ok(LockOutcome::Busy(pid)))
            ==> (next matches OwnerStage::Done(Err(message)) && decimal(pid as nat).is_suffix_of(
            message@,
        ))),
        stage is BindSocket ==> (event matches OwnerEvent::SocketBound(Err(why)) ==> next
            == OwnerStage::ReleaseLock(why) && released == OwnerStage::Done(Err(why))),
        stage is WriteStart ==> (event matches OwnerEvent::StartWritten(Err(why)) ==> next
            == OwnerStage::Done(Err(why))),
{
    if stage is AcquireLock {
        if let OwnerEvent::LockDecided(Ok(LockOutcome::Busy(pid))) = event {
            if let OwnerStage::Done(Err(message)) = next {
                let name = decimal(pid as nat);
                let text = message@;
                assert(text.subrange(text.len() - name.len(), text.len() as int) =~= name);
            }
        }
    }
}

/// A session that failed is marked idle, the server is stopped and the files go
/// all the same, and its error is reported, unless the files could not be removed
/// or the server failed: then that is.
pub proof fn law_owner_reports_what_failed(
    session: Result<(), String>,
    server: Result<(), String>,
    cleanup: Result<(), String>,
    over: OwnerStage,
    marked: OwnerStage,
    stopped: OwnerStage,
    ended: OwnerStage,
)
    requires
        call_ensures(
            start_owner_session,
            (OwnerStage::RunSession, OwnerEvent::SessionOver(session)),
            over,
        ),
        if session is Err {
            call_ensures(start_owner_session, (over, OwnerEvent::IdleMarked), marked)
        } else {
            marked == over
        },
        call_ensures(start_owner_session, (marked, OwnerEvent::ServerOver(server)), stopped),
        call_ensures(start_owner_session, (stopped, OwnerEvent::CleanedUp(cleanup)), ended),
    ensures
        session matches Err(why) ==> over == OwnerStage::MarkIdle(why),
        marked is StopServer,
        stopped is CleanUp,
        cleanup matches Err(why) ==> ended == OwnerStage::Done(Err(why)),
        cleanup is Ok ==> (server matches Err(why) ==> ended == OwnerStage::Done(Err(why))),
        cleanup is Ok && server is Ok ==> (session matches Err(why) ==> ended == OwnerStage::Done(
            Err(why),
        )),
        cleanup is Ok && server is Ok && session is Ok <==> (ended matches OwnerStage::Done(result)
            && result is Ok),
{
}

/// The owner removes its socket and its lock, and nothing else: the state file
/// stays.
pub proof fn law_owner_removes_socket_and_lock(paths: RuntimePaths, files: Vec<&Vec<u8>>)
    requires
        call_ensures(cleanup_owner_runtime, (&paths,), files),
    ensures
        files@.contains(&paths.control_socket),
        files@.contains(&paths.lock),
        forall|i: int|
            0 <= i < files@.len() ==> #[trigger] files@[i] == &paths.control_socket || files@[i]
                == &paths.lock,
{
    assert(files@[0] == &paths.control_socket);
    assert(files@[1] == &paths.lock);
}

/// Where what is written down of a session leaves its phase and its owner alone, the
/// file has the phase and the owner that it is written for, and its version stays.
pub proof fn law_metadata_is_written_with_the_phase<F: FnOnce(SessionState) -> SessionState>(
    read: Option<StateFile>,
    pid: Option<u32>,
    phase: SessionPhase,
    update: F,
    file: StateFile,
)
    requires
        call_ensures(write_session_metadata::<F>, (read, pid, phase, update), file),
        forall|before: SessionState, after: SessionState| #[trigger]
            call_ensures(update, (before,), after) ==> after.phase == before.phase && after.pid
                == before.pid && after.start_context == before.start_context,
    ensures
        file.session.phase == phase,
        file.session.pid == pid,
        read matches Some(state) ==> file.version == state.version && file.session.start_context
            == state.session.start_context,
{
}

/// What does not answer to a stage changes nothing, neither for an invocation nor
/// for an owner; what is over stays over.
pub proof fn law_stray_event_changes_nothing(
    stage: Stage,
    event: Event,
    next: Stage,
    owner: OwnerStage,
    happened: OwnerEvent,
    owner_next: OwnerStage,
)
    requires
        call_ensures(advance, (stage, event), next),
        call_ensures(start_owner_session, (owner, happened), owner_next),
    ensures
        stage is CheckHealth || stage is StartOwner || stage is Done ==> next == stage,
        stage is Send && !(event is Replied) && !(event is NoReply) ==> next == stage,
        stage is ReadOwner && !(event is OwnerRead) ==> next == stage,
        stage is Probe && !(event is Probed) ==> next == stage,
        stage is Clean && !(event is Cleaned) ==> next == stage,
        stage is ClearState && !(event is StateCleared) ==> next == stage,
        stage is ReadPhase && !(event is StateRead) ==> next == stage,
        owner is Done ==> owner_next == owner,
        owner is AcquireLock && !(happened is LockDecided) ==> owner_next == owner,
        owner is BindSocket && !(happened is SocketBound) ==> owner_next == owner,
        owner is ReleaseLock && !(happened is LockReleased) ==> owner_next == owner,
        owner is CaptureContext && !(happened is ContextCaptured) ==> owner_next == owner,
        owner is WriteStart && !(happened is StartWritten) ==> owner_next == owner,
        owner is RunSession && !(happened is SessionOver) ==> owner_next == owner,
        owner is MarkIdle && !(happened is IdleMarked) ==> owner_next == owner,
        owner is StopServer && !(happened is ServerOver) ==> owner_next == owner,
        owner is CleanUp && !(happened is CleanedUp) ==> owner_next == owner,
{
}

} // verus!
