use ut::audio::AudioPayload;
use ut::calendar::{civil_from_days, format_utc_timestamp};
use ut::config::{AppRule, Config};
use ut::context::sway::SwayError;
use ut::context::AppContext;
use ut::gemma::{DictationRequest, DictationResponse};
use ut::ipc::{handle_control_connection, ControlCommand, ControlState};
use ut::paste::{PasteError, PasteOutcome};
use ut::session::{
    can_auto_paste, capture_context, dictation_with_abort, noted, recording_deadline, save_debug_audio,
    wait_for_recording_exit, DictationStep, Effect, RecordingStopReason, Session, SessionEvent,
    SessionStage, WorkerPoll,
};
use ut::state::{SessionPhase, SessionState};

fn control() -> ControlState {
    ControlState::new(b"/run/state.json".to_vec(), 7, SessionPhase::Recording)
}

fn aborted() -> ControlState {
    let mut control = control();
    control.abort(None);
    control
}

fn window(id: &str) -> AppContext {
    AppContext {
        app_id: Some("kitty".to_string()),
        container_id: Some(id.to_string()),
        ..Default::default()
    }
}

fn payload() -> AudioPayload {
    AudioPayload::new(16_000, 1, vec![1, 2, 3])
}

fn said(text: &str) -> DictationResponse {
    DictationResponse { text: text.to_string() }
}

fn teardown() -> Vec<Effect> {
    vec![Effect::DismissOverlay, Effect::Transition(SessionPhase::Idle)]
}

#[test]
fn formats_utc_timestamp_for_filename() {
    // 0 == 1970-01-01T00:00:00Z
    assert_eq!(format_utc_timestamp(0), "1970-01-01_00-00-00");
    // 1_700_000_000 == 2023-11-14T22:13:20Z
    assert_eq!(format_utc_timestamp(1_700_000_000), "2023-11-14_22-13-20");
}

#[test]
fn calendar_knows_leap_days() {
    assert_eq!(format_utc_timestamp(951_782_399), "2000-02-28_23-59-59");
    assert_eq!(format_utc_timestamp(951_782_400), "2000-02-29_00-00-00");
    assert_eq!(format_utc_timestamp(4_107_542_400), "2100-03-01_00-00-00");
    assert_eq!(civil_from_days(-1), (1969, 12, 31));
    assert_eq!(civil_from_days(-719_468), (0, 3, 1));
    assert_eq!(civil_from_days(-719_529), (-1, 12, 31));
    assert_eq!(civil_from_days(19_675), (2023, 11, 14));
}

#[test]
fn saves_debug_audio_with_wav_header() {
    let payload = AudioPayload::new(16_000, 1, vec![0, 16_384, -16_384]);
    let (path, bytes) = save_debug_audio(b"/tmp/ut-save-test", &payload, 1_700_000_000);
    assert_eq!(path, b"/tmp/ut-save-test/2023-11-14_22-13-20.wav".to_vec());
    assert!(path.ends_with(b".wav"));
    assert_eq!(&bytes[..4], b"RIFF");
    assert_eq!(bytes.len(), 44 + 6);
}

#[test]
fn auto_paste_requires_matching_container_ids() {
    let start_context = AppContext {
        container_id: Some("123".to_string()),
        ..Default::default()
    };

    let matching_pre_paste_context = AppContext {
        container_id: Some("123".to_string()),
        ..Default::default()
    };

    let missing_pre_paste_context = AppContext::default();

    assert!(can_auto_paste(&start_context, &matching_pre_paste_context));
    assert!(!can_auto_paste(&start_context, &missing_pre_paste_context));
    assert!(!can_auto_paste(&missing_pre_paste_context, &missing_pre_paste_context));
    assert!(!can_auto_paste(&start_context, &window("124")));
}

#[test]
fn context_is_what_could_be_found_out() {
    let focused = || AppContext { pid: Some(5), ..window("1") };
    let link = |text: &str| Ok(Some(text.to_string()));
    let full = capture_context(Ok(Some(focused())), link("/bin/a"), link("/home"));
    assert_eq!(full.exe.as_deref(), Some("/bin/a"));
    assert_eq!(full.cwd.as_deref(), Some("/home"));
    assert_eq!(full.container_id.as_deref(), Some("1"));

    let partial = capture_context(Ok(Some(focused())), link("/bin/a"), Err("no".to_string()));
    assert_eq!(partial, focused());
    assert_eq!(capture_context(Ok(None), Ok(None), Ok(None)), AppContext::default());
    assert_eq!(
        capture_context(Err(SwayError::UnreadableTree), Ok(None), Ok(None)),
        AppContext::default()
    );
}

#[test]
fn recording_ends_by_abort_stop_or_time() {
    let deadline = recording_deadline(5, 29);
    assert_eq!(deadline, 29_000_000_005);
    let mut control = control();
    assert_eq!(wait_for_recording_exit(&control, deadline - 1, deadline), None);
    assert_eq!(
        wait_for_recording_exit(&control, deadline, deadline),
        Some(RecordingStopReason::TimedOut)
    );
    control.stop_and_process(None);
    assert_eq!(
        wait_for_recording_exit(&control, deadline, deadline),
        Some(RecordingStopReason::Stopped)
    );
    control.shutdown();
    assert_eq!(
        wait_for_recording_exit(&control, 0, deadline),
        Some(RecordingStopReason::Aborted)
    );
    assert_eq!(
        wait_for_recording_exit(&aborted(), 0, deadline),
        Some(RecordingStopReason::Aborted)
    );
}

#[test]
fn timestamps_sort_by_time() {
    let moments = [
        0,
        1,
        59,
        60,
        3_599,
        3_600,
        86_399,
        86_400,
        951_782_399,
        951_782_400,
        1_700_000_000,
        4_107_542_400,
        253_402_300_799,
    ];
    let names: Vec<String> = moments.iter().map(|moment| format_utc_timestamp(*moment)).collect();
    assert!(names.iter().all(|name| name.len() == 19));
    assert!(names.windows(2).all(|pair| pair[0] < pair[1]));
    assert_eq!(names[12], "9999-12-31_23-59-59");
    assert_eq!(format_utc_timestamp(253_402_300_800), "10000-01-01_00-00-00");
}

#[test]
fn effects_are_written_down_each_in_its_place() {
    let session = SessionState {
        phase: SessionPhase::Pasting,
        pid: Some(3),
        start_context: Some(window("1")),
        ..SessionState::default()
    };
    assert_eq!(
        noted(session.clone(), Effect::RecordStopContext(window("2"))),
        SessionState { stop_context: Some(window("2")), ..session.clone() }
    );
    assert_eq!(
        noted(session.clone(), Effect::RecordPrePasteContext(window("3"))),
        SessionState { pre_paste_context: Some(window("3")), ..session.clone() }
    );
    assert_eq!(
        noted(session.clone(), Effect::RecordError("bad".to_string())),
        SessionState { last_error: Some("bad".to_string()), ..session.clone() }
    );
    for effect in [Effect::FadeOverlay, Effect::Transition(SessionPhase::Idle)] {
        assert_eq!(noted(session.clone(), effect), session);
    }
    let file = control().record_metadata(None, |session| {
        noted(session, Effect::RecordError("bad".to_string()))
    });
    assert_eq!(file.session.phase, SessionPhase::Recording);
    assert_eq!(file.session.last_error.as_deref(), Some("bad"));
}

#[test]
fn commands_end_the_recording() {
    let mut control = control();
    handle_control_connection(&mut control, ControlCommand::Status, None);
    assert_eq!(wait_for_recording_exit(&control, 0, 9), None);
    handle_control_connection(&mut control, ControlCommand::StopAndProcess, None);
    assert_eq!(wait_for_recording_exit(&control, 0, 9), Some(RecordingStopReason::Stopped));
    handle_control_connection(&mut control, ControlCommand::Abort, None);
    assert_eq!(wait_for_recording_exit(&control, 0, 9), Some(RecordingStopReason::Aborted));
}

#[test]
fn abort_returns_without_waiting_for_dictation_completion() {
    let mut control = ControlState::new(b"/s".to_vec(), 1, SessionPhase::Processing);
    assert_eq!(dictation_with_abort(&control, None), DictationStep::Poll);
    assert_eq!(dictation_with_abort(&control, Some(WorkerPoll::Pending)), DictationStep::Poll);
    control.abort(None);
    assert_eq!(dictation_with_abort(&control, Some(WorkerPoll::Pending)), DictationStep::Cancel);
    assert_eq!(dictation_with_abort(&control, None), DictationStep::Cancel);
}

#[test]
fn dictation_ends_with_the_worker() {
    let control = control();
    assert_eq!(
        dictation_with_abort(&control, Some(WorkerPoll::Answered(Ok(said("done"))))),
        DictationStep::Finish(Ok(said("done")))
    );
    assert_eq!(
        dictation_with_abort(&control, Some(WorkerPoll::Gone)),
        DictationStep::Finish(Err("dictation worker exited unexpectedly".to_string()))
    );
    let mut over = ControlState::new(b"/s".to_vec(), 1, SessionPhase::Processing);
    over.shutdown();
    assert_eq!(dictation_with_abort(&over, None), DictationStep::Cancel);
}

fn rules() -> Config {
    let mut config = Config::default();
    config.prompts.insert("terminal".to_string(), "terminal prompt".to_string());
    config.app_rules = vec![AppRule {
        app_id: Some("kitty".to_string()),
        prompt: Some("terminal".to_string()),
        paste_keys: Some("ctrl+shift+v".to_string()),
        ..Default::default()
    }];
    config
}

#[test]
fn session_runs_from_recording_to_paste() {
    let config = rules();
    let control = control();
    let session = Session::new(&config, window("1"), None);
    let (stage, effects) = session.run(
        &control,
        SessionStage::StartRecorder,
        SessionEvent::RecorderStarted(Ok(())),
    );
    assert_eq!(stage, SessionStage::Record(29));
    assert_eq!(effects, vec![Effect::ShowPhase(SessionPhase::Recording)]);

    let (stage, effects) = session.run(
        &control,
        stage,
        SessionEvent::RecordingOver(RecordingStopReason::Stopped),
    );
    assert_eq!(stage, SessionStage::CaptureStop);
    assert!(effects.is_empty());

    let (stage, effects) = session.run(&control, stage, SessionEvent::ContextCaptured(window("2")));
    assert_eq!(stage, SessionStage::FinishRecording);
    assert_eq!(
        effects,
        vec![
            Effect::Transition(SessionPhase::Processing),
            Effect::RecordStopContext(window("2")),
            Effect::ShowPhase(SessionPhase::Processing),
        ]
    );

    let (stage, effects) = session.run(&control, stage, SessionEvent::Recorded(payload()));
    assert_eq!(
        stage,
        SessionStage::Dictate(DictationRequest {
            audio: payload(),
            prompt: "terminal prompt".to_string(),
        })
    );
    assert_eq!(effects, vec![Effect::CloseAudioStream]);

    let (stage, effects) =
        session.run(&control, stage, SessionEvent::Dictated(Ok(Some(said("hello")))));
    assert_eq!(stage, SessionStage::CapturePrePaste(said("hello")));
    assert!(effects.is_empty());

    let (stage, effects) = session.run(&control, stage, SessionEvent::ContextCaptured(window("1")));
    let keys = Some("ctrl+shift+v".to_string());
    assert_eq!(stage, SessionStage::PreparePaste("hello".to_string(), true, keys.clone()));
    assert_eq!(
        effects,
        vec![
            Effect::Transition(SessionPhase::Pasting),
            Effect::RecordPrePasteContext(window("1")),
            Effect::ShowPhase(SessionPhase::Pasting),
        ]
    );

    let (stage, effects) = session.run(&control, stage, SessionEvent::PastePrepared);
    assert_eq!(stage, SessionStage::Paste("hello".to_string(), true, keys));
    assert!(effects.is_empty());

    let (stage, effects) =
        session.run(&control, stage, SessionEvent::Pasted(Ok(PasteOutcome::Pasted)));
    assert_eq!(stage, SessionStage::Done(Ok(())));
    assert_eq!(effects, vec![Effect::FadeOverlay, Effect::Transition(SessionPhase::Idle)]);
}

#[test]
fn session_pastes_safely_only_into_its_own_window() {
    let config = Config::default();
    let session = Session::new(&config, window("1"), None);
    let (stage, _) = session.run(
        &control(),
        SessionStage::CapturePrePaste(said("x")),
        SessionEvent::ContextCaptured(window("2")),
    );
    assert_eq!(stage, SessionStage::PreparePaste("x".to_string(), false, None));
    let (stage, effects) = session.run(
        &control(),
        SessionStage::Paste("x".to_string(), false, None),
        SessionEvent::Pasted(Ok(PasteOutcome::CopiedOnly)),
    );
    assert_eq!(stage, SessionStage::Done(Ok(())));
    assert_eq!(
        effects,
        vec![
            Effect::Notify(ut::notify::focus_changed()),
            Effect::FadeOverlay,
            Effect::Transition(SessionPhase::Idle),
        ]
    );
}

#[test]
fn session_is_torn_down_where_nothing_was_recorded() {
    let config = Config::default();
    let session = Session::new(&config, window("1"), Some(b"/keep".to_vec()));
    let (stage, effects) = session.run(
        &control(),
        SessionStage::FinishRecording,
        SessionEvent::Recorded(AudioPayload::new(16_000, 1, vec![])),
    );
    assert_eq!(stage, SessionStage::Done(Ok(())));
    let mut expected = vec![Effect::CloseAudioStream];
    expected.extend(teardown());
    assert_eq!(effects, expected);
}

#[test]
fn session_keeps_the_recording_where_it_is_told_to() {
    let config = Config::default();
    let session = Session::new(&config, window("1"), Some(b"/keep".to_vec()));
    let (stage, effects) = session.run(
        &control(),
        SessionStage::FinishRecording,
        SessionEvent::Recorded(payload()),
    );
    assert_eq!(stage, SessionStage::SaveAudio(b"/keep".to_vec(), payload()));
    assert_eq!(effects, vec![Effect::CloseAudioStream]);
    let (stage, effects) = session.run(&control(), stage, SessionEvent::AudioSaved);
    let SessionStage::Dictate(request) = stage else { panic!("{stage:?}") };
    assert_eq!(request.audio, payload());
    assert!(effects.is_empty());
}

#[test]
fn abort_tears_the_session_down_wherever_it_looks() {
    let config = Config::default();
    let session = Session::new(&config, window("1"), None);
    let request = DictationRequest { audio: payload(), prompt: String::new() };
    let steps = vec![
        (
            SessionStage::SaveAudio(b"/k".to_vec(), payload()),
            SessionEvent::AudioSaved,
        ),
        (
            SessionStage::Dictate(request),
            SessionEvent::Dictated(Ok(Some(said("late")))),
        ),
        (
            SessionStage::PreparePaste("late".to_string(), true, None),
            SessionEvent::PastePrepared,
        ),
    ];
    for (stage, event) in steps {
        let (stage, effects) = session.run(&aborted(), stage, event);
        assert_eq!(stage, SessionStage::Done(Ok(())));
        assert_eq!(effects, teardown());
    }
    let mut dropped = vec![Effect::DropRecorder];
    dropped.extend(teardown());
    let (stage, effects) = session.run(
        &aborted(),
        SessionStage::Record(29),
        SessionEvent::RecordingOver(RecordingStopReason::Stopped),
    );
    assert_eq!((stage, effects), (SessionStage::Done(Ok(())), dropped));
}

#[test]
fn cancelled_dictation_tears_the_session_down() {
    let config = Config::default();
    let session = Session::new(&config, window("1"), None);
    let request = DictationRequest { audio: payload(), prompt: String::new() };
    let (stage, effects) = session.run(
        &control(),
        SessionStage::Dictate(request),
        SessionEvent::Dictated(Ok(None)),
    );
    assert_eq!((stage, effects), (SessionStage::Done(Ok(())), teardown()));
}

#[test]
fn failures_are_reported() {
    let config = Config::default();
    let session = Session::new(&config, window("1"), None);
    let (stage, effects) = session.run(
        &control(),
        SessionStage::StartRecorder,
        SessionEvent::RecorderStarted(Err("no microphone".to_string())),
    );
    assert_eq!(stage, SessionStage::Done(Err("no microphone".to_string())));
    assert_eq!(effects, vec![Effect::DismissOverlay]);

    let request = DictationRequest { audio: payload(), prompt: String::new() };
    let (stage, effects) = session.run(
        &control(),
        SessionStage::Dictate(request),
        SessionEvent::Dictated(Err("no model".to_string())),
    );
    assert_eq!(stage, SessionStage::Done(Err("no model".to_string())));
    assert_eq!(effects, vec![Effect::DismissOverlay]);

    for (error, note) in [
        (
            PasteError::ClipboardUnavailable("why".to_string()),
            ut::notify::paste_copy_failed("why"),
        ),
        (
            PasteError::AutomationFailed("why".to_string()),
            ut::notify::manual_paste_required("why"),
        ),
    ] {
        let (stage, effects) = session.run(
            &control(),
            SessionStage::Paste("x".to_string(), true, None),
            SessionEvent::Pasted(Err(error)),
        );
        assert_eq!(stage, SessionStage::Done(Err("why".to_string())));
        assert_eq!(
            effects,
            vec![
                Effect::DismissOverlay,
                Effect::RecordError("why".to_string()),
                Effect::Notify(note),
                Effect::Transition(SessionPhase::Idle),
            ]
        );
    }
}
