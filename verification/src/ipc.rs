//! The session as its owner and its clients see it: phase, requests, and the
//! commands that reach it over the control socket.
//!
//! A [`ControlState`] is shared between threads behind a lock. A method that
//! changes the phase takes what the state file holds and returns what is to be
//! written there while the lock is held, so that the file follows the memory.

use crate::state::{
    state_or_fresh, with_phase, write_session_phase, SessionPhase, SessionState, StateFile,
};
use crate::text::{is_white_space, trim, trimmed, trimmed_end, trimmed_start};
use vstd::prelude::*;

verus! {

/// What a client can ask of the owner.
#[derive(Debug, Clone, Copy, PartialEq, Eq, Structural)]
pub enum ControlCommand {
    StopAndProcess,
    Abort,
    Status,
}

/// What the owner answers.
#[derive(Debug, Clone, PartialEq, Eq)]
pub enum ControlResponse {
    Ack,
    Status(SessionPhase),
    Error(String),
}

/// The phase of the session that this process owns, and what was asked of it.
#[derive(Debug)]
pub struct ControlState {
    phase: SessionPhase,
    stop_requested: bool,
    abort_requested: bool,
    shutdown: bool,
    state_path: Vec<u8>,
    pid: u32,
}

/// The value of a [`ControlState`].
pub struct ControlView {
    pub phase: SessionPhase,
    pub stop_requested: bool,
    pub abort_requested: bool,
    pub shutdown: bool,
    pub state_path: Seq<u8>,
    pub pid: u32,
}

/// One thing that happens to a [`ControlState`].
pub enum ControlStep {
    Command(ControlCommand),
    Transition(SessionPhase),
    ClearStop,
    Shutdown,
    /// Something of the session is recorded that leaves its phase alone.
    Record,
}

impl ControlView {
    /// An abort leaves no stop behind.
    pub open spec fn is_consistent(self) -> bool {
        self.abort_requested ==> !self.stop_requested
    }

    /// After a change of phase.
    pub open spec fn with_phase(self, phase: SessionPhase) -> ControlView {
        ControlView { phase, ..self }
    }

    /// After a request to stop and process: nothing happens once an abort was
    /// requested.
    pub open spec fn stopped(self) -> ControlView {
        if self.abort_requested {
            self
        } else {
            ControlView { phase: SessionPhase::Processing, stop_requested: true, ..self }
        }
    }

    /// After a request to abort.
    pub open spec fn aborted(self) -> ControlView {
        ControlView {
            phase: SessionPhase::Idle,
            stop_requested: false,
            abort_requested: true,
            ..self
        }
    }

    /// After a command.
    pub open spec fn commanded(self, command: ControlCommand) -> ControlView {
        match command {
            ControlCommand::StopAndProcess => self.stopped(),
            ControlCommand::Abort => self.aborted(),
            ControlCommand::Status => self,
        }
    }

    /// After one thing that happens.
    pub open spec fn after(self, step: ControlStep) -> ControlView {
        match step {
            ControlStep::Command(command) => self.commanded(command),
            ControlStep::Transition(phase) => self.with_phase(phase),
            ControlStep::ClearStop => ControlView { stop_requested: false, ..self },
            ControlStep::Shutdown => ControlView { shutdown: true, ..self },
            ControlStep::Record => self,
        }
    }

    /// The phase that is written to the state file at that, if any is.
    pub open spec fn phase_saved(self, step: ControlStep) -> Option<SessionPhase> {
        match step {
            ControlStep::Command(ControlCommand::StopAndProcess) => if self.abort_requested {
                None
            } else {
                Some(SessionPhase::Processing)
            },
            ControlStep::Command(ControlCommand::Abort) => Some(SessionPhase::Idle),
            ControlStep::Transition(phase) => Some(phase),
            ControlStep::Record => Some(self.phase),
            _ => None,
        }
    }

    /// After all that happens, one thing after the other.
    pub open spec fn after_all(self, steps: Seq<ControlStep>) -> ControlView
        decreases steps.len(),
    {
        if steps.len() == 0 {
            self
        } else {
            self.after_all(steps.drop_last()).after(steps.last())
        }
    }

    /// The phase in the state file after all that happens, where it held one
    /// before.
    pub open spec fn phase_on_disk(self, before: SessionPhase, steps: Seq<ControlStep>) -> SessionPhase
        decreases steps.len(),
    {
        if steps.len() == 0 {
            before
        } else {
            match self.after_all(steps.drop_last()).phase_saved(steps.last()) {
                Some(phase) => phase,
                None => self.phase_on_disk(before, steps.drop_last()),
            }
        }
    }
}

impl View for ControlState {
    type V = ControlView;

    closed spec fn view(&self) -> ControlView {
        ControlView {
            phase: self.phase,
            stop_requested: self.stop_requested,
            abort_requested: self.abort_requested,
            shutdown: self.shutdown,
            state_path: self.state_path@,
            pid: self.pid,
        }
    }
}

impl ControlState {
    #[verifier::type_invariant]
    spec fn well_formed(self) -> bool {
        self@.is_consistent()
    }

    /// A session in the given phase, of which nothing was asked yet.
    pub fn new(state_path: Vec<u8>, pid: u32, initial_phase: SessionPhase) -> (control: Self)
        ensures
            control@ == (ControlView {
                phase: initial_phase,
                stop_requested: false,
                abort_requested: false,
                shutdown: false,
                state_path: state_path@,
                pid,
            }),
    {
        ControlState {
            phase: initial_phase,
            stop_requested: false,
            abort_requested: false,
            shutdown: false,
            state_path,
            pid,
        }
    }

    /// Where the state file is.
    pub fn state_path(&self) -> (path: &Vec<u8>)
        ensures
            path@ == self@.state_path,
    {
        &self.state_path
    }

    /// What to write to the state file for a phase of this session, where it
    /// holds `read`.
    pub fn persist_phase(&self, phase: SessionPhase, read: Option<StateFile>) -> (file: StateFile)
        ensures
            file == with_phase(state_or_fresh(read), Some(self@.pid), phase),
    {
        write_session_phase(read, Some(self.pid), phase)
    }

    /// Moves the session to a phase. Returns what to write to the state file,
    /// which holds `read`.
    pub fn transition(&mut self, phase: SessionPhase, read: Option<StateFile>) -> (file: StateFile)
        ensures
            final(self)@ == old(self)@.with_phase(phase),
            file == with_phase(state_or_fresh(read), Some(old(self)@.pid), phase),
    {
        proof {
            use_type_invariant(&*self);
        }
        self.phase = phase;
        self.persist_phase(phase, read)
    }

    /// What to write to the state file, which holds `read`, when the session
    /// records something of itself: owner and phase as they are, and then what
    /// `update` makes of it.
    pub fn record_metadata<F: FnOnce(SessionState) -> SessionState>(
        &self,
        read: Option<StateFile>,
        update: F,
    ) -> (file: StateFile)
        requires
            call_requires(
                update,
                (with_phase(state_or_fresh(read), Some(self@.pid), self@.phase).session,),
            ),
        ensures
            file.version == state_or_fresh(read).version,
            call_ensures(
                update,
                (with_phase(state_or_fresh(read), Some(self@.pid), self@.phase).session,),
                file.session,
            ),
    {
        let file: StateFile = self.persist_phase(self.phase, read);
        StateFile { version: file.version, session: update(file.session) }
    }

    /// The phase of the session.
    pub fn phase(&self) -> (phase: SessionPhase)
        ensures
            phase == self@.phase,
    {
        self.phase
    }

    /// Asks the session to stop recording and to process what it has. Returns
    /// what to write to the state file, which holds `read`, if anything is.
    pub fn stop_and_process(&mut self, read: Option<StateFile>) -> (file: Option<StateFile>)
        ensures
            final(self)@ == old(self)@.stopped(),
            file == (if old(self)@.abort_requested {
                None
            } else {
                Some(
                    with_phase(
                        state_or_fresh(read),
                        Some(old(self)@.pid),
                        SessionPhase::Processing,
                    ),
                )
            }),
    {
        if self.abort_requested {
            return None;
        }
        self.phase = SessionPhase::Processing;
        self.stop_requested = true;
        Some(self.persist_phase(SessionPhase::Processing, read))
    }

    /// Asks the session to end without a result. Returns what to write to the
    /// state file, which holds `read`.
    pub fn abort(&mut self, read: Option<StateFile>) -> (file: StateFile)
        ensures
            final(self)@ == old(self)@.aborted(),
            file == with_phase(state_or_fresh(read), Some(old(self)@.pid), SessionPhase::Idle),
    {
        self.stop_requested = false;
        self.abort_requested = true;
        self.phase = SessionPhase::Idle;
        self.persist_phase(SessionPhase::Idle, read)
    }

    /// Tells all who wait on the session that it is over.
    pub fn shutdown(&mut self)
        ensures
            final(self)@ == old(self)@.after(ControlStep::Shutdown),
    {
        proof {
            use_type_invariant(&*self);
        }
        self.shutdown = true;
    }

    /// Whether the session is over.
    pub fn should_shutdown(&self) -> (over: bool)
        ensures
            over == self@.shutdown,
    {
        self.shutdown
    }

    /// Whether an abort was requested.
    pub fn has_abort_request(&self) -> (requested: bool)
        ensures
            requested == self@.abort_requested,
    {
        self.abort_requested
    }

    /// Whether a stop was requested.
    pub fn has_stop_request(&self) -> (requested: bool)
        ensures
            requested == self@.stop_requested,
    {
        self.stop_requested
    }

    /// Forgets a request to stop.
    pub fn clear_stop_request(&mut self)
        ensures
            final(self)@ == old(self)@.after(ControlStep::ClearStop),
    {
        proof {
            use_type_invariant(&*self);
        }
        self.stop_requested = false;
    }
}

/// Carries out a command that came in over the socket. Returns the answer, and
/// what to write to the state file, which holds `read`, if anything is.
pub fn handle_control_connection(
    control: &mut ControlState,
    command: ControlCommand,
    read: Option<StateFile>,
) -> (reply: (ControlResponse, Option<StateFile>))
    ensures
        final(control)@ == old(control)@.commanded(command),
        reply.0 == (match command {
            ControlCommand::Status => ControlResponse::Status(old(control)@.phase),
            _ => ControlResponse::Ack,
        }),
        reply.1 == (match old(control)@.phase_saved(ControlStep::Command(command)) {
            Some(phase) => Some(with_phase(state_or_fresh(read), Some(old(control)@.pid), phase)),
            None => None,
        }),
{
    match command {
        ControlCommand::StopAndProcess => {
            let file: Option<StateFile> = control.stop_and_process(read);
            (ControlResponse::Ack, file)
        },
        ControlCommand::Abort => {
            let file: StateFile = control.abort(read);
            (ControlResponse::Ack, Some(file))
        },
        ControlCommand::Status => (ControlResponse::Status(control.phase()), None),
    }
}

/// A message as it goes over the socket: on a line of its own.
pub open spec fn on_a_line(message: Seq<char>) -> Seq<char> {
    message.push('\n')
}

/// A message as it goes over the socket.
pub fn frame(message: &str) -> (line: String)
    ensures
        line@ == on_a_line(message@),
{
    let mut line: String = message.to_string();
    line.push('\n');
    line
}

/// The message in a line that came over the socket: the line without the white
/// space around it.
pub fn unframe(line: &str) -> (message: &str)
    ensures
        message@ == trimmed(line@),
{
    trim(line)
}

/// A message that neither begins nor ends with white space comes through as it
/// was sent.
pub proof fn law_message_comes_through(message: Seq<char>)
    requires
        message.len() > 0 ==> !is_white_space(message[0]) && !is_white_space(message.last()),
    ensures
        trimmed(on_a_line(message)) == message,
{
    let line = on_a_line(message);
    assert(line.drop_last() =~= message);
    assert(trimmed_end(message) == message);
    if message.len() > 0 {
        assert(trimmed_start(line) == line);
    } else {
        assert(line.drop_first() =~= message);
        assert(trimmed_start(message) == message);
    }
}

/// What came of waiting for a client.
#[derive(Debug, Clone, Copy, PartialEq, Eq, Structural)]
pub enum Accepted {
    Connection,
    WouldBlock,
    Interrupted,
    Failed,
}

/// What the control server does next.
#[derive(Debug, Clone, Copy, PartialEq, Eq, Structural)]
pub enum ServerAction {
    /// Look whether a client waits.
    Accept,
    /// Carry out the command of the client that came.
    Handle,
    /// Sleep so many milliseconds.
    Pause(u64),
    /// Report that no client can be waited for.
    Fail,
    /// End.
    Stop,
}

/// How long the server sleeps where no client waits.
pub const SERVER_PAUSE_MS: u64 = 50;

/// What the control server does next, after it looked for a client or, with
/// nothing, before it does so. It ends before it would look for another client
/// once the session is over; a client that came is served, and an error is
/// reported unless it only says that none came.
pub fn run_control_server(control: &ControlState, accepted: Option<Accepted>) -> (action:
    ServerAction)
    ensures
        action == (match accepted {
            Some(Accepted::Connection) => ServerAction::Handle,
            Some(Accepted::Failed) => ServerAction::Fail,
            Some(Accepted::WouldBlock) => ServerAction::Pause(SERVER_PAUSE_MS),
            Some(Accepted::Interrupted) | None => if control@.shutdown {
                ServerAction::Stop
            } else {
                ServerAction::Accept
            },
        }),
{
    match accepted {
        Some(Accepted::Connection) => ServerAction::Handle,
        Some(Accepted::Failed) => ServerAction::Fail,
        Some(Accepted::WouldBlock) => ServerAction::Pause(SERVER_PAUSE_MS),
        Some(Accepted::Interrupted) | None => if control.should_shutdown() {
            ServerAction::Stop
        } else {
            ServerAction::Accept
        },
    }
}

/// An abort wins over a stop, whichever was requested first: there is an abort
/// and no stop, and the session is idle.
pub proof fn law_abort_wins_over_stop(control: ControlView)
    ensures
        control.stopped().aborted() == control.aborted(),
        control.aborted().stopped() == control.aborted(),
        control.aborted().abort_requested,
        !control.aborted().stop_requested,
        control.aborted().phase == SessionPhase::Idle,
{
}

/// Once an abort was requested it stays requested, and no stop is ever pending
/// again, whatever happens.
pub proof fn law_abort_is_final(control: ControlView, steps: Seq<ControlStep>)
    requires
        control.is_consistent(),
        control.abort_requested,
    ensures
        control.after_all(steps).abort_requested,
        !control.after_all(steps).stop_requested,
    decreases steps.len(),
{
    if steps.len() > 0 {
        law_abort_is_final(control, steps.drop_last());
    }
}

/// Whatever happens, the phase in the state file is the one in memory, if it
/// was to begin with.
pub proof fn law_disk_follows_memory(control: ControlView, steps: Seq<ControlStep>)
    ensures
        control.phase_on_disk(control.phase, steps) == control.after_all(steps).phase,
    decreases steps.len(),
{
    if steps.len() > 0 {
        law_disk_follows_memory(control, steps.drop_last());
    }
}

/// Where the session records something that leaves its phase alone, the file
/// that is written then holds the phase in memory.
pub proof fn law_record_writes_the_phase<F: FnOnce(SessionState) -> SessionState>(
    control: ControlView,
    read: Option<StateFile>,
    update: F,
    file: StateFile,
)
    requires
        call_ensures(
            update,
            (with_phase(state_or_fresh(read), Some(control.pid), control.phase).session,),
            file.session,
        ),
        forall|before: SessionState, after: SessionState| #[trigger]
            call_ensures(update, (before,), after) ==> after.phase == before.phase,
    ensures
        file.session.phase == control.phase,
        control.phase_saved(ControlStep::Record) == Some(file.session.phase),
{
}

/// A session stays consistent, keeps its owner and its state file, and once
/// over stays over, whatever happens.
pub proof fn law_control_invariant(control: ControlView, steps: Seq<ControlStep>)
    requires
        control.is_consistent(),
    ensures
        control.after_all(steps).is_consistent(),
        control.after_all(steps).pid == control.pid,
        control.after_all(steps).state_path == control.state_path,
        control.shutdown ==> control.after_all(steps).shutdown,
    decreases steps.len(),
{
    if steps.len() > 0 {
        law_control_invariant(control, steps.drop_last());
    }
}

/// What a command writes to the state file is what it does to the session: the
/// file then holds the phase and the owner in memory, and all else as it was
/// read. A command that changes nothing writes nothing.
pub proof fn law_command_is_written_down(
    control: &mut ControlState,
    command: ControlCommand,
    read: Option<StateFile>,
    reply: (ControlResponse, Option<StateFile>),
)
    requires
        call_ensures(handle_control_connection, (control, command, read), reply),
    ensures
        reply.1 matches Some(file) ==> file.session.phase == final(control)@.phase
            && file.session.pid == Some(old(control)@.pid) && (read matches Some(before)
            ==> file.session.last_error == before.session.last_error && file.session.start_context
            == before.session.start_context && file.version == before.version),
        reply.1 is None ==> final(control)@ == old(control)@,
        command == ControlCommand::Abort ==> reply.1 is Some,
        command == ControlCommand::StopAndProcess && !old(control)@.abort_requested ==> reply.1 is Some,
        final(control)@.pid == old(control)@.pid,
        final(control)@.state_path == old(control)@.state_path,
        final(control)@.shutdown == old(control)@.shutdown,
        command == ControlCommand::Status ==> reply.0 == ControlResponse::Status(old(control)@.phase),
        command != ControlCommand::Status ==> reply.0 == ControlResponse::Ack,
{
}

/// A session that moves to a phase is in it, in memory and in the file; nothing
/// that was asked of it is forgotten.
pub proof fn law_transition_reaches_memory_and_file(
    control: &mut ControlState,
    phase: SessionPhase,
    read: Option<StateFile>,
    file: StateFile,
)
    requires
        call_ensures(ControlState::transition, (control, phase, read), file),
    ensures
        final(control)@.phase == phase,
        file.session.phase == phase,
        file.session.pid == Some(old(control)@.pid),
        final(control)@.stop_requested == old(control)@.stop_requested,
        final(control)@.abort_requested == old(control)@.abort_requested,
        final(control)@.shutdown == old(control)@.shutdown,
        final(control)@.pid == old(control)@.pid,
{
}

/// Requests are seen once they are made, and a session that is told to end is
/// over; a request to stop that is forgotten is not pending any more, and an
/// abort is never forgotten.
pub proof fn law_requests_are_seen(
    fresh: ControlState,
    path: Vec<u8>,
    pid: u32,
    phase: SessionPhase,
    ending: &mut ControlState,
    clearing: &mut ControlState,
)
    requires
        call_ensures(ControlState::new, (path, pid, phase), fresh),
        call_ensures(ControlState::shutdown, (ending,), ()),
        call_ensures(ControlState::clear_stop_request, (clearing,), ()),
    ensures
        !fresh@.stop_requested,
        !fresh@.abort_requested,
        !fresh@.shutdown,
        fresh@.phase == phase,
        fresh@.pid == pid,
        final(ending)@.shutdown,
        final(ending)@.phase == old(ending)@.phase,
        final(ending)@.abort_requested == old(ending)@.abort_requested,
        final(ending)@.stop_requested == old(ending)@.stop_requested,
        !final(clearing)@.stop_requested,
        final(clearing)@.abort_requested == old(clearing)@.abort_requested,
        final(clearing)@.phase == old(clearing)@.phase,
        final(clearing)@.shutdown == old(clearing)@.shutdown,
{
}

/// The control server looks for clients until the session is over, serves each
/// one that comes, also then, and fails only where looking for one did.
pub proof fn law_every_client_is_served(
    control: ControlState,
    accepted: Option<Accepted>,
    action: ServerAction,
)
    requires
        call_ensures(run_control_server, (&control, accepted), action),
    ensures
        action == ServerAction::Handle <==> accepted == Some(Accepted::Connection),
        action == ServerAction::Fail <==> accepted == Some(Accepted::Failed),
        action == ServerAction::Stop ==> control@.shutdown,
        accepted is None ==> (action == ServerAction::Stop <==> control@.shutdown),
        accepted is None ==> (action == ServerAction::Accept <==> !control@.shutdown),
        accepted == Some(Accepted::WouldBlock) ==> action == ServerAction::Pause(50),
{
}

/// A request to stop leads to the processing of what was recorded, in memory and in
/// the file, unless an abort was asked for: then nothing changes and nothing is
/// written. An abort makes the session idle, in both, and takes back a request to
/// stop.
pub proof fn law_requests_change_the_session(
    stopping: &mut ControlState,
    aborting: &mut ControlState,
    read: Option<StateFile>,
    stopped: Option<StateFile>,
    aborted: StateFile,
)
    requires
        call_ensures(ControlState::stop_and_process, (stopping, read), stopped),
        call_ensures(ControlState::abort, (aborting, read), aborted),
    ensures
        old(stopping)@.abort_requested ==> final(stopping)@ == old(stopping)@ && stopped is None,
        !old(stopping)@.abort_requested ==> final(stopping)@.phase == SessionPhase::Processing
            && final(stopping)@.stop_requested && (stopped matches Some(file) && file.session.phase
            == SessionPhase::Processing && file.session.pid == Some(old(stopping)@.pid)),
        final(stopping)@.abort_requested == old(stopping)@.abort_requested,
        final(stopping)@.shutdown == old(stopping)@.shutdown,
        final(stopping)@.pid == old(stopping)@.pid,
        final(aborting)@.abort_requested,
        !final(aborting)@.stop_requested,
        final(aborting)@.phase == SessionPhase::Idle,
        final(aborting)@.shutdown == old(aborting)@.shutdown,
        final(aborting)@.pid == old(aborting)@.pid,
        aborted.session.phase == SessionPhase::Idle,
        aborted.session.pid == Some(old(aborting)@.pid),
        read matches Some(before) ==> aborted.version == before.version
            && aborted.session.start_context == before.session.start_context
            && aborted.session.stop_context == before.session.stop_context
            && aborted.session.pre_paste_context == before.session.pre_paste_context
            && aborted.session.last_error == before.session.last_error,
{
}

/// What a session tells of itself is what was asked of it and where it stands.
pub proof fn law_session_tells_of_itself(
    control: ControlState,
    phase: SessionPhase,
    over: bool,
    aborted: bool,
    stopped: bool,
)
    requires
        call_ensures(ControlState::phase, (&control,), phase),
        call_ensures(ControlState::should_shutdown, (&control,), over),
        call_ensures(ControlState::has_abort_request, (&control,), aborted),
        call_ensures(ControlState::has_stop_request, (&control,), stopped),
    ensures
        phase == control@.phase,
        over == control@.shutdown,
        aborted == control@.abort_requested,
        stopped == control@.stop_requested,
{
}

/// A phase that is written down for a session is in the file, with its owner, and
/// the rest is as it was read.
pub proof fn law_phase_is_written_for_the_owner(
    control: ControlState,
    phase: SessionPhase,
    read: Option<StateFile>,
    file: StateFile,
)
    requires
        call_ensures(ControlState::persist_phase, (&control, phase, read), file),
    ensures
        file.session.phase == phase,
        file.session.pid == Some(control@.pid),
        read matches Some(before) ==> file.version == before.version && file.session.start_context
            == before.session.start_context && file.session.stop_context
            == before.session.stop_context && file.session.pre_paste_context
            == before.session.pre_paste_context && file.session.last_error
            == before.session.last_error,
{
}

/// A message that is sent as a line ends with the line, and is received as it was
/// sent where it has no white space at its ends.
pub proof fn law_sent_message_is_received(
    message: &str,
    line: String,
    taken: &str,
    received: &str,
)
    requires
        call_ensures(frame, (message,), line),
        taken@ == line@,
        call_ensures(unframe, (taken,), received),
        message@.len() > 0 ==> !is_white_space(message@[0]) && !is_white_space(message@.last()),
    ensures
        received@ == message@,
        line@.last() == '\n',
        line@.drop_last() == message@,
{
    law_message_comes_through(message@);
    assert(line@.drop_last() =~= message@);
}

} // verus!
