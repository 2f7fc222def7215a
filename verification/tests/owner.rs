use ut::context::AppContext;
use ut::dispatch::{
    advance, cleanup_owner_runtime, run, stale_owner_pid, start_owner_session, start_state,
    write_session_metadata, Event, OwnerEvent, OwnerStage, Stage,
};
use ut::instance::{
    acquire_lock, clean_stale_runtime, lock_pid, pid_is_alive, remove_if_exists, write_lock,
    LockEvent, LockOutcome, LockStage, Removal, RuntimePaths, EPERM, ESRCH,
};
use ut::ipc::{
    frame, handle_control_connection, run_control_server, unframe, Accepted, ControlCommand, ControlResponse,
    ControlState, ServerAction,
};
use ut::path::join;
use ut::state::{
    clear_session, default_state_version, read_state_or_default, write_session_phase, SessionPhase,
    SessionState, StateFile,
};
use ut::Invocation;

fn window(id: &str) -> AppContext {
    AppContext { container_id: Some(id.to_string()), ..Default::default() }
}

fn stored() -> StateFile {
    StateFile {
        version: 3,
        session: SessionState {
            phase: SessionPhase::Pasting,
            pid: Some(9),
            start_context: Some(window("1")),
            stop_context: Some(window("2")),
            pre_paste_context: Some(window("3")),
            last_error: Some("old".to_string()),
        },
    }
}

fn invoke(invocation: Invocation, events: Vec<Event>) -> Stage {
    events.into_iter().fold(run(invocation), advance)
}

fn own(events: Vec<OwnerEvent>) -> OwnerStage {
    events.into_iter().fold(OwnerStage::AcquireLock, start_owner_session)
}

fn lock(events: Vec<LockEvent>) -> LockStage {
    events.into_iter().fold(LockStage::Create, acquire_lock)
}

fn control() -> ControlState {
    ControlState::new(b"/run/ut/state.json".to_vec(), 7, SessionPhase::Recording)
}

#[test]
fn lock_file_round_trip() {
    assert_eq!(write_lock(42), "42\n");
    assert_eq!(lock_pid(Some(&write_lock(42))), Some(42));
    assert_eq!(lock_pid(None), None);
    for pid in [0, 1, u32::MAX] {
        assert_eq!(lock_pid(Some(&write_lock(pid))), Some(pid));
    }
}

#[test]
fn lock_file_with_other_text_names_no_process() {
    for text in ["", "\n", "x", "-1", "4294967296", "1 2", "0x10"] {
        assert_eq!(lock_pid(Some(text)), None);
    }
    assert_eq!(lock_pid(Some(" \t+007 \r\n")), Some(7));
}

#[test]
fn runtime_paths_follow_the_environment() {
    let paths = RuntimePaths::resolve(Some(b"/run/user/1"), Some(b"/t"), b"/tmp");
    assert_eq!(paths.root, b"/run/user/1/ut".to_vec());
    assert_eq!(paths.control_socket, b"/run/user/1/ut/control.sock".to_vec());
    assert_eq!(paths.lock, b"/run/user/1/ut/lock".to_vec());
    assert_eq!(paths.state_path, b"/run/user/1/ut/state.json".to_vec());
    assert_eq!(paths.current_wav, b"/run/user/1/ut/current.wav".to_vec());
    assert_eq!(RuntimePaths::resolve(None, Some(b"/t/"), b"/tmp").root, b"/t/ut".to_vec());
    assert_eq!(RuntimePaths::resolve(None, None, b"/tmp").root, b"/tmp/ut".to_vec());
    assert_eq!(clean_stale_runtime(&paths), vec![&paths.control_socket, &paths.lock]);
    assert_eq!(cleanup_owner_runtime(&paths), vec![&paths.control_socket, &paths.lock]);
}

#[test]
fn paths_are_joined_with_one_separator() {
    assert_eq!(join(b"a", b"b"), b"a/b".to_vec());
    assert_eq!(join(b"a/", b"b"), b"a/b".to_vec());
    assert_eq!(join(b"", b"b"), b"b".to_vec());
    assert_eq!(join(b"a", b"/b"), b"/b".to_vec());
    assert_eq!(join(b"a", b""), b"a/".to_vec());
}

#[test]
fn processes_are_probed_by_signal() {
    assert_eq!(pid_is_alive(0, ESRCH), Ok(true));
    assert_eq!(pid_is_alive(-1, EPERM), Ok(true));
    assert_eq!(pid_is_alive(-1, ESRCH), Ok(false));
    assert_eq!(pid_is_alive(-1, 22), Err(22));
}

#[test]
fn missing_files_are_gone() {
    assert_eq!(remove_if_exists(Removal::Removed), Ok(()));
    assert_eq!(remove_if_exists(Removal::NotFound), Ok(()));
    assert_eq!(remove_if_exists(Removal::Failed("x".to_string())), Err("x".to_string()));
}

#[test]
fn free_lock_is_acquired() {
    assert_eq!(lock(vec![LockEvent::Created]), LockStage::Done(Ok(LockOutcome::Acquired)));
    assert_eq!(
        lock(vec![LockEvent::CreateFailed("disk".to_string())]),
        LockStage::Done(Err("disk".to_string()))
    );
}

#[test]
fn live_owner_keeps_the_lock() {
    let stage = lock(vec![
        LockEvent::AlreadyExists("there".to_string()),
        LockEvent::OwnerRead(Some(5)),
    ]);
    assert_eq!(stage, LockStage::Probe(5));
    assert_eq!(
        acquire_lock(stage, LockEvent::Probed(Ok(true))),
        LockStage::Done(Ok(LockOutcome::Busy(5)))
    );
}

#[test]
fn stale_lock_is_recovered() {
    let exists = || LockEvent::AlreadyExists("there".to_string());
    for found_out in [
        vec![LockEvent::OwnerRead(Some(5)), LockEvent::Probed(Ok(false))],
        vec![LockEvent::OwnerRead(None)],
    ] {
        let mut events = vec![exists()];
        events.extend(found_out);
        let stage = lock(events);
        assert_eq!(stage, LockStage::Clean);
        let stage = acquire_lock(stage, LockEvent::Cleaned(Ok(())));
        assert_eq!(stage, LockStage::CreateAgain);
        assert_eq!(
            acquire_lock(stage, LockEvent::Created),
            LockStage::Done(Ok(LockOutcome::Recovered))
        );
    }
    assert_eq!(
        acquire_lock(LockStage::CreateAgain, exists()),
        LockStage::Done(Err("there".to_string()))
    );
    assert_eq!(
        acquire_lock(LockStage::CreateAgain, LockEvent::CreateFailed("x".to_string())),
        LockStage::Done(Err("x".to_string()))
    );
    assert_eq!(
        acquire_lock(LockStage::Clean, LockEvent::Cleaned(Err("x".to_string()))),
        LockStage::Done(Err("x".to_string()))
    );
    assert_eq!(
        acquire_lock(LockStage::Probe(5), LockEvent::Probed(Err("x".to_string()))),
        LockStage::Done(Err("x".to_string()))
    );
    assert_eq!(acquire_lock(LockStage::Clean, LockEvent::Created), LockStage::Clean);
}

/// Asks for the lock on behalf of a process while no other one does.
fn ask_for_lock(file: &mut Option<String>, alive: &[u32], pid: u32) -> LockStage {
    let mut stage = LockStage::Create;
    loop {
        let event = match &stage {
            LockStage::Create | LockStage::CreateAgain => match file {
                None => {
                    *file = Some(write_lock(pid));
                    LockEvent::Created
                }
                Some(_) => LockEvent::AlreadyExists("there".to_string()),
            },
            LockStage::ReadOwner => LockEvent::OwnerRead(lock_pid(file.as_deref())),
            LockStage::Probe(owner) => LockEvent::Probed(Ok(alive.contains(owner))),
            LockStage::Clean => {
                *file = None;
                LockEvent::Cleaned(Ok(()))
            }
            LockStage::Done(_) => return stage,
        };
        stage = acquire_lock(stage, event);
    }
}

#[test]
fn one_process_at_a_time_gets_the_lock() {
    let mut file = None;
    let acquired = LockStage::Done(Ok(LockOutcome::Acquired));
    assert_eq!(ask_for_lock(&mut file, &[7, 8, 9], 7), acquired);
    for pid in [8, 9, 8] {
        let busy = LockStage::Done(Ok(LockOutcome::Busy(7)));
        assert_eq!(ask_for_lock(&mut file, &[7, 8, 9], pid), busy);
        assert_eq!(file.as_deref(), Some("7\n"));
    }
    let recovered = LockStage::Done(Ok(LockOutcome::Recovered));
    assert_eq!(ask_for_lock(&mut file, &[8, 9], 9), recovered);
    assert_eq!(file.as_deref(), Some("9\n"));
    let busy = LockStage::Done(Ok(LockOutcome::Busy(9)));
    assert_eq!(ask_for_lock(&mut file, &[8, 9], 8), busy);
    let mut torn = Some("not a number".to_string());
    assert_eq!(ask_for_lock(&mut torn, &[8], 8), LockStage::Done(Ok(LockOutcome::Recovered)));
}

#[test]
fn state_starts_fresh_where_none_could_be_read() {
    let fresh = read_state_or_default(None);
    assert_eq!(fresh, StateFile::default());
    assert_eq!(fresh.version, default_state_version());
    assert_eq!(fresh.version, 1);
    assert_eq!(fresh.session, SessionState::default());
    assert_eq!(fresh.session.phase, SessionPhase::default());
    assert_eq!(read_state_or_default(Some(stored())), stored());
}

#[test]
fn phase_is_written_over_the_state() {
    let state = write_session_phase(Some(stored()), Some(4), SessionPhase::Recording);
    assert_eq!(state.version, 3);
    assert_eq!(state.session.pid, Some(4));
    assert_eq!(state.session.phase, SessionPhase::Recording);
    assert_eq!(state.session.last_error, stored().session.last_error);
    assert_eq!(state.session.stop_context, stored().session.stop_context);
    let cleared = clear_session(Some(state.clone()));
    assert_eq!(cleared.session.pid, None);
    assert_eq!(cleared.session.phase, SessionPhase::Idle);
    assert_eq!(clear_session(Some(cleared.clone())), cleared);
    assert_eq!(clear_session(Some(stored())), cleared);
}

#[test]
fn phases_have_names() {
    assert_eq!(SessionPhase::Idle.as_str(), "idle");
    assert_eq!(SessionPhase::Recording.as_str(), "recording");
    assert_eq!(SessionPhase::Processing.as_str(), "processing");
    assert_eq!(SessionPhase::Pasting.as_str(), "pasting");
}

#[test]
fn status_is_answered_with_the_phase() {
    let mut control = control();
    let (response, file) =
        handle_control_connection(&mut control, ControlCommand::Status, Some(stored()));
    assert_eq!(response, ControlResponse::Status(SessionPhase::Recording));
    assert_eq!(file, None);
}

#[test]
fn abort_wins_over_stop() {
    let mut first = control();
    assert!(first.stop_and_process(None).is_some());
    assert!(first.has_stop_request());
    let file = first.abort(Some(stored()));
    assert_eq!(file.session.phase, SessionPhase::Idle);
    assert_eq!(file.session.pid, Some(7));
    assert_eq!(file.session.last_error.as_deref(), Some("old"));
    assert!(first.has_abort_request());
    assert!(!first.has_stop_request());

    let (response, file) =
        handle_control_connection(&mut first, ControlCommand::StopAndProcess, None);
    assert_eq!(response, ControlResponse::Ack);
    assert_eq!(file, None);
    assert!(!first.has_stop_request());
    assert_eq!(first.phase(), SessionPhase::Idle);
}

#[test]
fn commands_change_the_session_and_its_file() {
    let mut control = control();
    assert_eq!(control.state_path(), &b"/run/ut/state.json".to_vec());
    let (response, file) =
        handle_control_connection(&mut control, ControlCommand::StopAndProcess, None);
    assert_eq!(response, ControlResponse::Ack);
    assert_eq!(file.unwrap().session.phase, SessionPhase::Processing);
    assert_eq!(control.phase(), SessionPhase::Processing);
    control.clear_stop_request();
    assert!(!control.has_stop_request());
    let file = control.transition(SessionPhase::Pasting, Some(stored()));
    assert_eq!(file.session.phase, SessionPhase::Pasting);
    assert_eq!(control.phase(), SessionPhase::Pasting);
    let file = control.record_metadata(Some(stored()), |session| SessionState {
        last_error: Some("new".to_string()),
        ..session
    });
    assert_eq!(file.version, 3);
    assert_eq!(file.session.pid, Some(7));
    assert_eq!(file.session.phase, SessionPhase::Pasting);
    assert_eq!(file.session.last_error.as_deref(), Some("new"));
    assert_eq!(file.session.start_context, Some(window("1")));
    assert!(!control.should_shutdown());
    control.shutdown();
    assert!(control.should_shutdown());
    let (response, _) = handle_control_connection(&mut control, ControlCommand::Abort, None);
    assert_eq!(response, ControlResponse::Ack);
    assert_eq!(control.persist_phase(SessionPhase::Idle, None).session.pid, Some(7));
}

#[test]
fn control_server_serves_until_the_session_is_over() {
    let mut control = control();
    assert_eq!(run_control_server(&control, None), ServerAction::Accept);
    let actions = [
        (Accepted::Connection, ServerAction::Handle),
        (Accepted::WouldBlock, ServerAction::Pause(50)),
        (Accepted::Interrupted, ServerAction::Accept),
        (Accepted::Failed, ServerAction::Fail),
    ];
    for (accepted, action) in actions {
        assert_eq!(run_control_server(&control, Some(accepted)), action);
    }
    control.shutdown();
    assert_eq!(run_control_server(&control, None), ServerAction::Stop);
    assert_eq!(run_control_server(&control, Some(Accepted::Connection)), ServerAction::Handle);
}

#[test]
fn owner_is_known_from_lock_or_state() {
    assert_eq!(stale_owner_pid(Some(4), Some(stored())), Some(4));
    assert_eq!(stale_owner_pid(None, Some(stored())), Some(9));
    assert_eq!(stale_owner_pid(None, None), None);
}

#[test]
fn toggle_stops_the_owner_or_becomes_it() {
    assert_eq!(
        run(Invocation::Toggle),
        Stage::Send(Invocation::Toggle, ControlCommand::StopAndProcess)
    );
    assert_eq!(
        invoke(Invocation::Toggle, vec![Event::Replied(ControlResponse::Ack)]),
        Stage::Done(Ok(None))
    );
    assert_eq!(
        invoke(
            Invocation::Toggle,
            vec![
                Event::NoReply("refused".to_string()),
                Event::OwnerRead(false, None, None),
                Event::Cleaned(Ok(())),
                Event::StateCleared(Ok(())),
            ]
        ),
        Stage::StartOwner(None)
    );
}

#[test]
fn start_refuses_a_second_session() {
    let start = || Invocation::Start { save_to: Some(b"/keep".to_vec()) };
    assert_eq!(
        invoke(start(), vec![Event::Replied(ControlResponse::Status(SessionPhase::Pasting))]),
        Stage::Done(Err("session already active: pasting".to_string()))
    );
    assert_eq!(
        invoke(start(), vec![Event::Replied(ControlResponse::Ack)]),
        Stage::Done(Err("session already active".to_string()))
    );
    assert_eq!(
        invoke(start(), vec![Event::Replied(ControlResponse::Error("bad".to_string()))]),
        Stage::Done(Err("bad".to_string()))
    );
    assert_eq!(
        invoke(
            start(),
            vec![
                Event::NoReply("refused".to_string()),
                Event::OwnerRead(true, None, Some(stored())),
                Event::Probed(Ok(false)),
                Event::Cleaned(Ok(())),
                Event::StateCleared(Ok(())),
            ]
        ),
        Stage::StartOwner(Some(b"/keep".to_vec()))
    );
}

#[test]
fn live_owner_that_does_not_answer_is_an_error() {
    for invocation in [Invocation::Start { save_to: None }, Invocation::Toggle, Invocation::Stop] {
        assert_eq!(
            invoke(
                invocation,
                vec![
                    Event::NoReply("refused".to_string()),
                    Event::OwnerRead(true, Some(5), None),
                    Event::Probed(Ok(true)),
                ]
            ),
            Stage::Done(Err("refused".to_string()))
        );
    }
    assert_eq!(
        invoke(
            Invocation::Abort,
            vec![
                Event::NoReply("refused".to_string()),
                Event::OwnerRead(true, Some(5), None),
                Event::Probed(Err("probe".to_string())),
            ]
        ),
        Stage::Done(Err("probe".to_string()))
    );
}

#[test]
fn process_in_the_state_file_counts_only_beside_a_socket() {
    let read = |socket: bool, locked: Option<u32>| {
        let unanswered = Event::NoReply("refused".to_string());
        let owner = Event::OwnerRead(socket, locked, Some(stored()));
        invoke(Invocation::Toggle, vec![unanswered, owner])
    };
    let probe = |pid: u32| Stage::Probe(Invocation::Toggle, "refused".to_string(), pid);
    assert_eq!(read(true, None), probe(9));
    assert_eq!(read(false, None), Stage::Clean(Invocation::Toggle));
    assert_eq!(read(true, Some(5)), probe(5));
    assert_eq!(read(false, Some(5)), probe(5));
}

/// Carries out an invocation while the owner does not answer and no other
/// process is invoked, up to the lock where it comes to that.
fn invoke_unanswered(
    file: &mut Option<String>,
    alive: &[u32],
    pid: u32,
    invocation: Invocation,
) -> Result<LockStage, Stage> {
    let mut stage = run(invocation);
    loop {
        let event = match &stage {
            Stage::Send(_, _) => Event::NoReply("refused".to_string()),
            Stage::ReadOwner(_, _) => Event::OwnerRead(false, lock_pid(file.as_deref()), None),
            Stage::Probe(_, _, owner) => Event::Probed(Ok(alive.contains(owner))),
            Stage::Clean(_) => {
                *file = None;
                Event::Cleaned(Ok(()))
            }
            Stage::ClearState(_) => Event::StateCleared(Ok(())),
            Stage::StartOwner(_) => return Ok(ask_for_lock(file, alive, pid)),
            _ => return Err(stage),
        };
        stage = advance(stage, event);
    }
}

#[test]
fn live_owner_without_a_socket_is_left_alone() {
    let mut file = None;
    assert_eq!(
        invoke_unanswered(&mut file, &[7, 8], 7, Invocation::Toggle),
        Ok(LockStage::Done(Ok(LockOutcome::Acquired)))
    );
    // The owner has the lock, and is about to bind its socket.
    let start = Invocation::Start { save_to: None };
    for invocation in [Invocation::Toggle, start, Invocation::Stop, Invocation::Abort] {
        assert_eq!(
            invoke_unanswered(&mut file, &[7, 8], 8, invocation),
            Err(Stage::Done(Err("refused".to_string())))
        );
        assert_eq!(file.as_deref(), Some("7\n"));
    }
    // The owner has died.
    assert_eq!(
        invoke_unanswered(&mut file, &[8], 8, Invocation::Toggle),
        Ok(LockStage::Done(Ok(LockOutcome::Acquired)))
    );
    assert_eq!(file.as_deref(), Some("8\n"));
}

#[test]
fn stop_and_abort_have_nothing_to_do_without_an_owner() {
    for invocation in [Invocation::Stop, Invocation::Abort] {
        let stage = invoke(
            invocation,
            vec![
                Event::NoReply("refused".to_string()),
                Event::OwnerRead(false, None, None),
                Event::Cleaned(Ok(())),
                Event::StateCleared(Ok(())),
            ],
        );
        assert_eq!(stage, Stage::Done(Ok(None)));
    }
    assert_eq!(
        run(Invocation::Abort),
        Stage::Send(Invocation::Abort, ControlCommand::Abort)
    );
    assert_eq!(
        advance(Stage::Clean(Invocation::Stop), Event::Cleaned(Err("x".to_string()))),
        Stage::Done(Err("x".to_string()))
    );
    assert_eq!(
        advance(Stage::ClearState(Invocation::Stop), Event::StateCleared(Err("x".to_string()))),
        Stage::Done(Err("x".to_string()))
    );
    assert_eq!(
        invoke(
            Invocation::Stop,
            vec![Event::Replied(ControlResponse::Status(SessionPhase::Idle))]
        ),
        Stage::Done(Ok(Some(SessionPhase::Idle)))
    );
}

#[test]
fn status_asks_the_owner_and_else_the_state_file() {
    assert_eq!(
        invoke(
            Invocation::Status,
            vec![Event::Replied(ControlResponse::Status(SessionPhase::Recording))]
        ),
        Stage::Done(Ok(Some(SessionPhase::Recording)))
    );
    for event in [Event::Replied(ControlResponse::Ack), Event::NoReply("refused".to_string())] {
        let stage = invoke(Invocation::Status, vec![event]);
        assert_eq!(stage, Stage::ReadPhase);
        assert_eq!(
            advance(stage, Event::StateRead(Some(stored()))),
            Stage::Done(Ok(Some(SessionPhase::Pasting)))
        );
    }
    assert_eq!(
        advance(Stage::ReadPhase, Event::StateRead(None)),
        Stage::Done(Ok(Some(SessionPhase::Idle)))
    );
}

#[test]
fn health_needs_no_owner() {
    assert_eq!(ut::run(Invocation::Health), Stage::CheckHealth);
    assert_eq!(
        advance(Stage::CheckHealth, Event::Probed(Ok(true))),
        Stage::CheckHealth
    );
}

#[test]
fn start_of_a_session_is_written_down() {
    let file = start_state(Some(stored()), 4, window("7"));
    assert_eq!(file.version, 3);
    assert_eq!(file.session.phase, SessionPhase::Recording);
    assert_eq!(file.session.pid, Some(4));
    assert_eq!(file.session.start_context, Some(window("7")));
    assert_eq!(file.session.stop_context, None);
    assert_eq!(file.session.pre_paste_context, None);
    assert_eq!(file.session.last_error, None);
    let file = write_session_metadata(None, None, SessionPhase::Idle, |session| session);
    assert_eq!(file, StateFile::default());
}

#[test]
fn owner_runs_and_cleans_up() {
    let stage = own(vec![
        OwnerEvent::LockDecided(Ok(LockOutcome::Acquired)),
        OwnerEvent::SocketBound(Ok(())),
        OwnerEvent::ContextCaptured(window("1")),
    ]);
    assert_eq!(stage, OwnerStage::WriteStart(window("1")));
    let stage = start_owner_session(stage, OwnerEvent::StartWritten(Ok(())));
    assert_eq!(stage, OwnerStage::RunSession);
    let stage = start_owner_session(stage, OwnerEvent::SessionOver(Ok(())));
    assert_eq!(stage, OwnerStage::StopServer(Ok(())));
    let stage = start_owner_session(stage, OwnerEvent::ServerOver(Ok(())));
    assert_eq!(stage, OwnerStage::CleanUp(Ok(()), Ok(())));
    assert_eq!(
        start_owner_session(stage, OwnerEvent::CleanedUp(Ok(()))),
        OwnerStage::Done(Ok(()))
    );
}

#[test]
fn owner_reports_the_first_error_that_counts() {
    let failed = |text: &str| -> Result<(), String> { Err(text.to_string()) };
    let stage =
        start_owner_session(OwnerStage::RunSession, OwnerEvent::SessionOver(failed("session")));
    assert_eq!(stage, OwnerStage::MarkIdle("session".to_string()));
    let stage = start_owner_session(stage, OwnerEvent::IdleMarked);
    assert_eq!(stage, OwnerStage::StopServer(failed("session")));
    let ends = [
        (failed("server"), failed("cleanup"), "cleanup"),
        (failed("server"), Ok(()), "server"),
        (Ok(()), Ok(()), "session"),
    ];
    for (server, cleanup, reported) in ends {
        let stage = start_owner_session(
            OwnerStage::StopServer(failed("session")),
            OwnerEvent::ServerOver(server),
        );
        assert_eq!(
            start_owner_session(stage, OwnerEvent::CleanedUp(cleanup)),
            OwnerStage::Done(failed(reported))
        );
    }
}

#[test]
fn owner_gives_up_before_the_session() {
    assert_eq!(
        own(vec![OwnerEvent::LockDecided(Ok(LockOutcome::Busy(12)))]),
        OwnerStage::Done(Err("session already owned by pid 12".to_string()))
    );
    assert_eq!(
        own(vec![OwnerEvent::LockDecided(Err("x".to_string()))]),
        OwnerStage::Done(Err("x".to_string()))
    );
    let stage = own(vec![
        OwnerEvent::LockDecided(Ok(LockOutcome::Recovered)),
        OwnerEvent::SocketBound(Err("bind".to_string())),
    ]);
    assert_eq!(stage, OwnerStage::ReleaseLock("bind".to_string()));
    assert_eq!(
        start_owner_session(stage, OwnerEvent::LockReleased),
        OwnerStage::Done(Err("bind".to_string()))
    );
    assert_eq!(
        start_owner_session(
            OwnerStage::WriteStart(window("1")),
            OwnerEvent::StartWritten(Err("disk".to_string()))
        ),
        OwnerStage::Done(Err("disk".to_string()))
    );
}

#[test]
fn messages_come_through_on_a_line() {
    assert_eq!(frame("\"abort\""), "\"abort\"\n");
    assert_eq!(unframe(&frame("\"abort\"")), "\"abort\"");
    assert_eq!(unframe(" \"status\" \r\n"), "\"status\"");
    assert_eq!(unframe(&frame("")), "");
}
