//! The session state that is kept on disk.
//!
//! Reading and writing the file is the caller's part: these functions take what
//! was read, or nothing where it could not be read, and give what is to be
//! written.

use crate::context::AppContext;
use vstd::prelude::*;

verus! {

/// How far a dictation session has come.
#[derive(Debug, Clone, Copy, PartialEq, Eq, Structural)]
pub enum SessionPhase {
    Idle,
    Recording,
    Processing,
    Pasting,
}

impl Default for SessionPhase {
    /// No session is going on.
    fn default() -> (phase: Self)
        ensures
            phase == SessionPhase::Idle,
    {
        SessionPhase::Idle
    }
}

/// The name of a phase.
pub open spec fn phase_name(phase: SessionPhase) -> Seq<char> {
    match phase {
        SessionPhase::Idle => "idle"@,
        SessionPhase::Recording => "recording"@,
        SessionPhase::Processing => "processing"@,
        SessionPhase::Pasting => "pasting"@,
    }
}

impl SessionPhase {
    /// The name of the phase.
    pub fn as_str(self) -> (name: &'static str)
        ensures
            name@ == phase_name(self),
    {
        match self {
            SessionPhase::Idle => "idle",
            SessionPhase::Recording => "recording",
            SessionPhase::Processing => "processing",
            SessionPhase::Pasting => "pasting",
        }
    }
}

/// No two phases share a name.
pub proof fn law_phase_names_differ(a: SessionPhase, b: SessionPhase)
    requires
        phase_name(a) == phase_name(b),
    ensures
        a == b,
{
    reveal_strlit("idle");
    reveal_strlit("recording");
    reveal_strlit("processing");
    reveal_strlit("pasting");
    assert("recording"@[0] != "processing"@[0]);
    assert("idle"@.len() == 4 && "recording"@.len() == 9 && "processing"@.len() == 10
        && "pasting"@.len() == 7);
}

/// A session: its phase, its owner, and what it has recorded of itself.
#[derive(Debug, Clone, PartialEq, Eq)]
pub struct SessionState {
    pub phase: SessionPhase,
    pub pid: Option<u32>,
    pub start_context: Option<AppContext>,
    pub stop_context: Option<AppContext>,
    pub pre_paste_context: Option<AppContext>,
    pub last_error: Option<String>,
}

/// A session that has recorded nothing.
pub open spec fn fresh_session() -> SessionState {
    SessionState {
        phase: SessionPhase::Idle,
        pid: None,
        start_context: None,
        stop_context: None,
        pre_paste_context: None,
        last_error: None,
    }
}

impl Default for SessionState {
    /// A session that has recorded nothing.
    fn default() -> (session: Self)
        ensures
            session == fresh_session(),
    {
        SessionState {
            phase: SessionPhase::Idle,
            pid: None,
            start_context: None,
            stop_context: None,
            pre_paste_context: None,
            last_error: None,
        }
    }
}

/// The content of the state file.
#[derive(Debug, Clone, PartialEq, Eq)]
pub struct StateFile {
    pub version: u32,
    pub session: SessionState,
}

/// The version that a state file has where it names none.
pub fn default_state_version() -> (version: u32)
    ensures
        version == 1,
{
    1
}

/// The state of a machine on which no session ever ran.
pub open spec fn fresh_state() -> StateFile {
    StateFile { version: 1, session: fresh_session() }
}

impl Default for StateFile {
    /// The state of a machine on which no session ever ran.
    fn default() -> (state: Self)
        ensures
            state == fresh_state(),
    {
        StateFile { version: default_state_version(), session: SessionState::default() }
    }
}

/// The state that was read, or a fresh one where none could be read.
pub open spec fn state_or_fresh(read: Option<StateFile>) -> StateFile {
    match read {
        Some(state) => state,
        None => fresh_state(),
    }
}

/// The state that was read, or a fresh one where none could be read.
pub fn read_state_or_default(read: Option<StateFile>) -> (state: StateFile)
    ensures
        state == state_or_fresh(read),
{
    match read {
        Some(state) => state,
        None => StateFile::default(),
    }
}

/// A state with another owner and phase, and all else as it was.
pub open spec fn with_phase(state: StateFile, pid: Option<u32>, phase: SessionPhase) -> StateFile {
    StateFile { version: state.version, session: SessionState { phase, pid, ..state.session } }
}

/// The state to write when a session changes its phase: the one that was read,
/// with the new owner and phase.
pub fn write_session_phase(read: Option<StateFile>, pid: Option<u32>, phase: SessionPhase) -> (state:
    StateFile)
    ensures
        state == with_phase(state_or_fresh(read), pid, phase),
{
    let state: StateFile = read_state_or_default(read);
    StateFile { version: state.version, session: SessionState { phase, pid, ..state.session } }
}

/// The state to write when there is no session any more: no owner, idle, and
/// all else as it was read.
pub fn clear_session(read: Option<StateFile>) -> (state: StateFile)
    ensures
        state == with_phase(state_or_fresh(read), None, SessionPhase::Idle),
{
    write_session_phase(read, None, SessionPhase::Idle)
}

/// Of two phases written one after the other, the second one stays, as if the
/// first had never been written. Clearing twice is clearing once.
pub proof fn law_last_phase_stays(
    state: StateFile,
    pid: Option<u32>,
    phase: SessionPhase,
    pid2: Option<u32>,
    phase2: SessionPhase,
)
    ensures
        with_phase(with_phase(state, pid, phase), pid2, phase2) == with_phase(state, pid2, phase2),
{
}

/// A phase that is written leaves the version, the contexts and the last error
/// alone.
pub proof fn law_phase_keeps_the_rest(state: StateFile, pid: Option<u32>, phase: SessionPhase)
    ensures
        with_phase(state, pid, phase).version == state.version,
        with_phase(state, pid, phase).session.start_context == state.session.start_context,
        with_phase(state, pid, phase).session.stop_context == state.session.stop_context,
        with_phase(state, pid, phase).session.pre_paste_context
            == state.session.pre_paste_context,
        with_phase(state, pid, phase).session.last_error == state.session.last_error,
{
}

/// A phase that is written is there, with its owner; what was read before stays,
/// and where nothing could be read, nothing else is there.
pub proof fn law_written_phase_is_there(
    read: Option<StateFile>,
    pid: Option<u32>,
    phase: SessionPhase,
    state: StateFile,
)
    requires
        call_ensures(write_session_phase, (read, pid, phase), state),
    ensures
        state.session.phase == phase,
        state.session.pid == pid,
        read matches Some(before) ==> state.version == before.version && state.session.start_context
            == before.session.start_context && state.session.stop_context
            == before.session.stop_context && state.session.pre_paste_context
            == before.session.pre_paste_context && state.session.last_error
            == before.session.last_error,
        read is None ==> state.version == 1 && state.session.start_context is None
            && state.session.stop_context is None && state.session.pre_paste_context is None
            && state.session.last_error is None,
{
}

/// A session that is cleared is idle and has no owner; what it recorded of itself
/// stays.
pub proof fn law_cleared_session_is_idle(read: Option<StateFile>, state: StateFile)
    requires
        call_ensures(clear_session, (read,), state),
    ensures
        state.session.phase == SessionPhase::Idle,
        state.session.pid is None,
        read matches Some(before) ==> state.version == before.version && state.session.start_context
            == before.session.start_context && state.session.stop_context
            == before.session.stop_context && state.session.pre_paste_context
            == before.session.pre_paste_context && state.session.last_error
            == before.session.last_error,
{
}

/// A state that could be read is taken as it is; where none could, there is no
/// session: idle, without an owner, and with nothing recorded.
pub proof fn law_state_is_taken_as_read(read: Option<StateFile>, state: StateFile)
    requires
        call_ensures(read_state_or_default, (read,), state),
    ensures
        read matches Some(found) ==> state == found,
        read is None ==> state.session.phase == SessionPhase::Idle && state.session.pid is None
            && state.session.start_context is None && state.session.stop_context is None
            && state.session.pre_paste_context is None && state.session.last_error is None
            && state.version == 1,
{
}

/// Each phase is written with a name of its own.
pub proof fn law_phase_is_told_by_its_name(
    a: SessionPhase,
    b: SessionPhase,
    name_a: &'static str,
    name_b: &'static str,
)
    requires
        call_ensures(SessionPhase::as_str, (a,), name_a),
        call_ensures(SessionPhase::as_str, (b,), name_b),
    ensures
        name_a@ == name_b@ <==> a == b,
        name_a@ == "idle"@ <==> a == SessionPhase::Idle,
{
    if name_a@ == name_b@ {
        law_phase_names_differ(a, b);
    }
    if name_a@ == "idle"@ {
        law_phase_names_differ(a, SessionPhase::Idle);
    }
}

} // verus!
