//! One dictation, from the first sample to the pasted text.
//!
//! A session goes through four phases: it records, it processes, it pastes, and
//! it is idle again. It can be aborted between any two steps.

use crate::audio::{data_size, encode_wav_bytes, read_wav, wav_file, AudioPayload, WavContent};
use crate::calendar::{format_utc_timestamp, is_timestamp};
use crate::config::{first_rule, rule_matches, Config};
use crate::context::proc::{enrich_context, enriched_context, LinkTarget};
use crate::context::sway::SwayError;
use crate::context::AppContext;
use crate::gemma::{DictationRequest, DictationResponse};
use crate::ipc::{ControlCommand, ControlState, ControlView};
use crate::notify;
use crate::notify::Notification;
use crate::paste::{PasteError, PasteEvent, PasteOutcome, PasteStage};
use crate::path::{join, path_join, utf8};
use crate::prompt::{build_prompt, prompt_for};
use crate::state::{SessionPhase, SessionState};
use crate::text::{copy_option, opt_view};
use vstd::prelude::*;

verus! {

/// Why a recording is over.
#[derive(Debug, Clone, Copy, PartialEq, Eq, Structural)]
pub enum RecordingStopReason {
    Stopped,
    TimedOut,
    Aborted,
}

/// When a recording is over at the latest, in nanoseconds.
pub fn recording_deadline(started: u128, max_seconds: u32) -> (deadline: u128)
    requires
        started + max_seconds * 1_000_000_000 <= u128::MAX,
    ensures
        deadline == started + max_seconds * 1_000_000_000,
{
    started + (max_seconds as u128) * 1_000_000_000
}

/// Whether a recording is over, and why: an abort, or the end of the session,
/// comes before a stop, and a stop before the deadline.
pub open spec fn exit_reason(control: ControlView, now: u128, deadline: u128) -> Option<
    RecordingStopReason,
> {
    if control.abort_requested || control.shutdown {
        Some(RecordingStopReason::Aborted)
    } else if control.stop_requested {
        Some(RecordingStopReason::Stopped)
    } else if now >= deadline {
        Some(RecordingStopReason::TimedOut)
    } else {
        None
    }
}

/// Whether a recording is over, and why.
pub fn wait_for_recording_exit(control: &ControlState, now: u128, deadline: u128) -> (reason:
    Option<RecordingStopReason>)
    ensures
        reason == exit_reason(control@, now, deadline),
{
    if control.has_abort_request() || control.should_shutdown() {
        return Some(RecordingStopReason::Aborted);
    }
    if control.has_stop_request() {
        return Some(RecordingStopReason::Stopped);
    }
    if now >= deadline {
        return Some(RecordingStopReason::TimedOut);
    }
    None
}

/// A command ends a recording whenever it comes: a stop has it processed, and
/// an abort drops it, also where a stop came before.
pub proof fn law_commands_end_the_recording(control: ControlView, now: u128, deadline: u128)
    requires
        !control.abort_requested,
        !control.shutdown,
    ensures
        exit_reason(control.commanded(ControlCommand::StopAndProcess), now, deadline) == Some(
            RecordingStopReason::Stopped,
        ),
        exit_reason(control.commanded(ControlCommand::Abort), now, deadline) == Some(
            RecordingStopReason::Aborted,
        ),
        exit_reason(
            control.commanded(ControlCommand::StopAndProcess).commanded(ControlCommand::Abort),
            now,
            deadline,
        ) == Some(RecordingStopReason::Aborted),
        exit_reason(control.commanded(ControlCommand::Status), now, deadline) == exit_reason(
            control,
            now,
            deadline,
        ),
{
}

/// What the worker that asks the model had to say when it was last asked.
#[derive(Debug, PartialEq, Eq)]
pub enum WorkerPoll {
    /// Nothing yet.
    Pending,
    /// It is gone without an answer.
    Gone,
    /// This is its answer.
    Answered(Result<DictationResponse, String>),
}

/// What to do next while the model is asked.
#[derive(Debug, PartialEq, Eq)]
pub enum DictationStep {
    /// Ask the worker again.
    Poll,
    /// Tell the worker to give up; there is no result.
    Cancel,
    /// The worker is done.
    Finish(Result<DictationResponse, String>),
}

/// Whether this is what to do next while the model is asked.
pub open spec fn is_dictation_step(step: DictationStep, over: bool, poll: Option<WorkerPoll>) -> bool {
    match poll {
        Some(WorkerPoll::Answered(answer)) => step == DictationStep::Finish(answer),
        Some(WorkerPoll::Gone) => step matches DictationStep::Finish(Err(error)) && error@
            == "dictation worker exited unexpectedly"@,
        Some(WorkerPoll::Pending) | None => step == (if over {
            DictationStep::Cancel
        } else {
            DictationStep::Poll
        }),
    }
}

/// What to do next while the model is asked, with what the worker had to say, or
/// nothing where it was not asked yet. Before the worker is asked again, an
/// abort, or the end of the session, cancels it.
pub fn dictation_with_abort(control: &ControlState, poll: Option<WorkerPoll>) -> (step:
    DictationStep)
    ensures
        is_dictation_step(step, control@.abort_requested || control@.shutdown, poll),
{
    match poll {
        Some(WorkerPoll::Answered(answer)) => DictationStep::Finish(answer),
        Some(WorkerPoll::Gone) => DictationStep::Finish(
            Err("dictation worker exited unexpectedly".to_string()),
        ),
        Some(WorkerPoll::Pending) | None => {
            if control.has_abort_request() || control.should_shutdown() {
                DictationStep::Cancel
            } else {
                DictationStep::Poll
            }
        },
    }
}

/// An abort is not kept waiting by the model: unless there is an answer already,
/// the worker is cancelled and not asked again.
pub proof fn law_abort_does_not_wait_for_the_model(step: DictationStep, poll: Option<WorkerPoll>)
    requires
        is_dictation_step(step, true, poll),
    ensures
        step != DictationStep::Poll,
        poll is None || poll == Some(WorkerPoll::Pending) ==> step == DictationStep::Cancel,
{
}

/// Whether two contexts are known to be of one window.
pub open spec fn is_same_window(start: AppContext, now: AppContext) -> bool {
    opt_view(start.container_id) is Some && opt_view(start.container_id) == opt_view(
        now.container_id,
    )
}

/// Whether the text may go into the window that has the focus before it is
/// pasted: it has to be the one in which the dictation began.
pub fn can_auto_paste(start_context: &AppContext, pre_paste_context: &AppContext) -> (safe: bool)
    ensures
        safe == is_same_window(*start_context, *pre_paste_context),
{
    match &start_context.container_id {
        Some(start) => crate::text::is_text(&pre_paste_context.container_id, start.as_str()),
        None => false,
    }
}

/// Whether this is the context of the window that has the focus: what the
/// compositor says, with what `/proc` adds to it where that can be read, and
/// nothing at all where the compositor says nothing.
pub open spec fn is_captured(
    context: AppContext,
    focused: Result<Option<AppContext>, SwayError>,
    exe: LinkTarget,
    cwd: LinkTarget,
) -> bool {
    match focused {
        Ok(Some(window)) => context == (match enriched_context(window, exe, cwd) {
            Ok(enriched) => enriched,
            Err(_) => window,
        }),
        _ => context.is_blank(),
    }
}

/// The context of the window that has the focus, with what the compositor said
/// and what reading the two links of its process gave.
pub fn capture_context(
    focused: Result<Option<AppContext>, SwayError>,
    exe: LinkTarget,
    cwd: LinkTarget,
) -> (context: AppContext)
    ensures
        is_captured(context, focused, exe, cwd),
{
    match focused {
        Ok(Some(window)) => match enrich_context(window.clone(), exe, cwd) {
            Ok(enriched) => enriched,
            Err(_) => window,
        },
        _ => AppContext::default(),
    }
}

/// Whether this is where a recording goes that is kept: a WAV file in the
/// directory, named by the time.
pub open spec fn is_debug_path(path: Seq<u8>, dir: Seq<u8>, unix_seconds: u64) -> bool {
    exists|name: Seq<char>| #[trigger]
        is_timestamp(name, unix_seconds) && path == path_join(dir, utf8(name + ".wav"@))
}

/// The file in which a recording is kept in a directory, and what it holds.
pub fn save_debug_audio(dir: &[u8], payload: &AudioPayload, unix_seconds: u64) -> (file: (
    Vec<u8>,
    Vec<u8>,
))
    requires
        data_size(payload.samples@.len() as int) + 36 <= u32::MAX,
        payload.sample_rate * 2 <= u32::MAX,
    ensures
        is_debug_path(file.0@, dir@, unix_seconds),
        file.1@ == wav_file(payload.samples@, payload.sample_rate as int),
{
    let mut name: String = format_utc_timestamp(unix_seconds);
    let ghost stamp = name@;
    name.append(".wav");
    let path: Vec<u8> = join(dir, name.as_str().as_bytes());
    assert(is_timestamp(stamp, unix_seconds));
    assert(path@ == path_join(dir@, utf8(stamp + ".wav"@)));
    (path, encode_wav_bytes(payload.samples.as_slice(), payload.sample_rate))
}

/// Something that is done on the way, and of which nothing has to come.
#[derive(Debug, PartialEq, Eq)]
pub enum Effect {
    /// Show a phase on the overlay.
    ShowPhase(SessionPhase),
    /// Move the session to a phase.
    Transition(SessionPhase),
    /// Write down in which window the recording was stopped.
    RecordStopContext(AppContext),
    /// Write down which window has the focus before the text is pasted.
    RecordPrePasteContext(AppContext),
    /// Write down what went wrong.
    RecordError(String),
    /// Stop the recorder, and drop what it has.
    DropRecorder,
    /// Tell the overlay that no more audio comes.
    CloseAudioStream,
    /// Take the overlay away.
    DismissOverlay,
    /// Let the overlay fade.
    FadeOverlay,
    /// Tell the user.
    Notify(Notification),
}

/// A session as its state file has it, once an effect that writes something down
/// was carried out. Every other effect leaves it alone.
pub open spec fn noted_by(session: SessionState, effect: Effect) -> SessionState {
    match effect {
        Effect::RecordStopContext(context) => SessionState {
            stop_context: Some(context),
            ..session
        },
        Effect::RecordPrePasteContext(context) => SessionState {
            pre_paste_context: Some(context),
            ..session
        },
        Effect::RecordError(error) => SessionState { last_error: Some(error), ..session },
        _ => session,
    }
}

/// A session with what an effect writes down in it.
pub fn noted(session: SessionState, effect: Effect) -> (after: SessionState)
    ensures
        after == noted_by(session, effect),
{
    match effect {
        Effect::RecordStopContext(context) => SessionState {
            stop_context: Some(context),
            ..session
        },
        Effect::RecordPrePasteContext(context) => SessionState {
            pre_paste_context: Some(context),
            ..session
        },
        Effect::RecordError(error) => SessionState { last_error: Some(error), ..session },
        _ => session,
    }
}

/// Writing something down changes neither the phase nor the owner of a session.
pub proof fn law_notes_keep_phase_and_owner(session: SessionState, effect: Effect)
    ensures
        noted_by(session, effect).phase == session.phase,
        noted_by(session, effect).pid == session.pid,
        noted_by(session, effect).start_context == session.start_context,
{
}

/// What to do next in a session.
#[derive(Debug, PartialEq, Eq)]
pub enum SessionStage {
    /// Start the recorder.
    StartRecorder,
    /// Wait until the recording is over, for so many seconds at most.
    Record(u32),
    /// Find out which window has the focus, now that the recording is over.
    CaptureStop,
    /// Stop the recorder, and trim what it has.
    FinishRecording,
    /// Keep the recording in a directory.
    SaveAudio(Vec<u8>, AudioPayload),
    /// Ask the model.
    Dictate(DictationRequest),
    /// Find out which window has the focus, before this is pasted.
    CapturePrePaste(DictationResponse),
    /// Do what is to be done on the way before the text is pasted.
    PreparePaste(String, bool, Option<String>),
    /// Paste the text: whether that is safe, and with which shortcut.
    Paste(String, bool, Option<String>),
    /// Nothing: this came of it.
    Done(Result<(), String>),
}

/// What came of one of these.
#[derive(Debug, PartialEq, Eq)]
pub enum SessionEvent {
    RecorderStarted(Result<(), String>),
    RecordingOver(RecordingStopReason),
    ContextCaptured(AppContext),
    Recorded(AudioPayload),
    AudioSaved,
    /// The answer of the model, or nothing where it was cancelled.
    Dictated(Result<Option<DictationResponse>, String>),
    PastePrepared,
    Pasted(Result<PasteOutcome, PasteError>),
}

/// A session: its configuration, the window in which it began, and where its
/// recording is to be kept, if it is.
#[derive(Debug)]
pub struct Session<'a> {
    pub config: &'a Config,
    pub start_context: AppContext,
    pub save_to: Option<Vec<u8>>,
}

/// What ends a session without a result: the overlay is taken away, and the
/// session is idle.
pub open spec fn teardown() -> Seq<Effect> {
    seq![Effect::DismissOverlay, Effect::Transition(SessionPhase::Idle)]
}

impl<'a> Session<'a> {
    /// Whether this is what the model is asked with a recording.
    pub open spec fn is_request(self, request: DictationRequest, payload: AudioPayload) -> bool {
        &&& request.audio == payload
        &&& request.prompt@ == prompt_for(self.start_context, *self.config)
    }

    /// The shortcut that pastes in the window in which the session began, where
    /// it is not the usual one.
    pub open spec fn paste_keys(self) -> Option<String> {
        match first_rule(self.config.app_rules@, self.start_context) {
            Some(rule) => rule.paste_keys,
            None => None,
        }
    }

    /// What to do with a recording: ask the model, unless an abort was
    /// requested.
    pub open spec fn follows_recording(
        self,
        aborted: bool,
        payload: AudioPayload,
        next: SessionStage,
        effects: Seq<Effect>,
    ) -> bool {
        if aborted {
            next == SessionStage::Done(Ok(())) && effects == teardown()
        } else {
            (next matches SessionStage::Dictate(request) && self.is_request(request, payload))
                && effects == Seq::<Effect>::empty()
        }
    }

    /// What is done where the text was pasted, or was not.
    pub open spec fn follows_paste(
        self,
        pasted: Result<PasteOutcome, PasteError>,
        next: SessionStage,
        effects: Seq<Effect>,
    ) -> bool {
        match pasted {
            Ok(PasteOutcome::Pasted) => {
                &&& next == SessionStage::Done(Ok(()))
                &&& effects == seq![Effect::FadeOverlay, Effect::Transition(SessionPhase::Idle)]
            },
            Ok(PasteOutcome::CopiedOnly) => {
                &&& next == SessionStage::Done(Ok(()))
                &&& effects.len() == 3
                &&& effects[0] matches Effect::Notify(note) && note.says(
                    "Focus changed while dictation was processing; the generated text was copied to the clipboard instead of pasted."@,
                )
                &&& effects[1] == Effect::FadeOverlay
                &&& effects[2] == Effect::Transition(SessionPhase::Idle)
            },
            Err(error) => {
                &&& next == SessionStage::Done(Err(error.reason()))
                &&& effects.len() == 4
                &&& effects[0] == Effect::DismissOverlay
                &&& effects[1] == Effect::RecordError(error.reason())
                &&& effects[2] matches Effect::Notify(note) && note.says(
                    match error {
                        PasteError::ClipboardUnavailable(reason) =>
                            "Failed to copy generated text to the clipboard. "@ + reason@,
                        PasteError::AutomationFailed(reason) =>
                            "Paste automation failed; the generated text is on the clipboard. Paste it manually. "@
                            + reason@,
                    },
                )
                &&& effects[3] == Effect::Transition(SessionPhase::Idle)
            },
        }
    }

    /// Whether one stage follows on another, where this came of it and an abort
    /// was requested by then or not, and whether this is done on the way. What
    /// does not answer to the stage leaves it as it is.
    pub open spec fn follows(
        self,
        aborted: bool,
        stage: SessionStage,
        event: SessionEvent,
        next: SessionStage,
        effects: Seq<Effect>,
    ) -> bool {
        match (stage, event) {
            (SessionStage::StartRecorder, SessionEvent::RecorderStarted(started)) => match started {
                Ok(_) => {
                    &&& next == SessionStage::Record(self.config.recording.max_seconds)
                    &&& effects == seq![Effect::ShowPhase(SessionPhase::Recording)]
                },
                Err(error) => {
                    &&& next == SessionStage::Done(Err(error))
                    &&& effects == seq![Effect::DismissOverlay]
                },
            },
            (SessionStage::Record(_), SessionEvent::RecordingOver(reason)) => if aborted || reason
                == RecordingStopReason::Aborted {
                &&& next == SessionStage::Done(Ok(()))
                &&& effects == seq![Effect::DropRecorder] + teardown()
            } else {
                next == SessionStage::CaptureStop && effects == Seq::<Effect>::empty()
            },
            (SessionStage::CaptureStop, SessionEvent::ContextCaptured(context)) => {
                &&& next == SessionStage::FinishRecording
                &&& effects == seq![
                    Effect::Transition(SessionPhase::Processing),
                    Effect::RecordStopContext(context),
                    Effect::ShowPhase(SessionPhase::Processing),
                ]
            },
            (SessionStage::FinishRecording, SessionEvent::Recorded(payload)) => {
                &&& effects.len() > 0
                &&& effects[0] == Effect::CloseAudioStream
                &&& if payload.samples@.len() == 0 {
                    next == SessionStage::Done(Ok(())) && effects.drop_first() == teardown()
                } else {
                    match self.save_to {
                        Some(dir) => {
                            &&& next matches SessionStage::SaveAudio(to, audio) && to@ == dir@
                                && audio == payload
                            &&& effects.len() == 1
                        },
                        None => self.follows_recording(
                            aborted,
                            payload,
                            next,
                            effects.drop_first(),
                        ),
                    }
                }
            },
            (SessionStage::SaveAudio(_, payload), SessionEvent::AudioSaved) =>
                self.follows_recording(aborted, payload, next, effects),
            (SessionStage::Dictate(_), SessionEvent::Dictated(answer)) => match answer {
                Err(error) => {
                    &&& next == SessionStage::Done(Err(error))
                    &&& effects == seq![Effect::DismissOverlay]
                },
                Ok(Some(response)) if !aborted => next == SessionStage::CapturePrePaste(response)
                    && effects == Seq::<Effect>::empty(),
                Ok(_) => next == SessionStage::Done(Ok(())) && effects == teardown(),
            },
            (
                SessionStage::CapturePrePaste(response),
                SessionEvent::ContextCaptured(context),
            ) => {
                &&& next == SessionStage::PreparePaste(
                    response.text,
                    is_same_window(self.start_context, context),
                    self.paste_keys(),
                )
                &&& effects == seq![
                    Effect::Transition(SessionPhase::Pasting),
                    Effect::RecordPrePasteContext(context),
                    Effect::ShowPhase(SessionPhase::Pasting),
                ]
            },
            (
                SessionStage::PreparePaste(text, focus_safe, keys),
                SessionEvent::PastePrepared,
            ) => if aborted {
                next == SessionStage::Done(Ok(())) && effects == teardown()
            } else {
                next == SessionStage::Paste(text, focus_safe, keys) && effects == Seq::<
                    Effect,
                >::empty()
            },
            (SessionStage::Paste(_, _, _), SessionEvent::Pasted(pasted)) => self.follows_paste(
                pasted,
                next,
                effects,
            ),
            _ => next == stage && effects == Seq::<Effect>::empty(),
        }
    }

    /// A session that is about to begin.
    pub fn new(
        config: &'a Config,
        start_context: AppContext,
        save_to: Option<Vec<u8>>,
    ) -> (session: Self)
        ensures
            session.config == config,
            session.start_context == start_context,
            session.save_to == save_to,
    {
        Session { config, start_context, save_to }
    }

    /// What to do with a recording.
    fn take_recording(&self, control: &ControlState, payload: AudioPayload) -> (step: (
        SessionStage,
        Vec<Effect>,
    ))
        ensures
            self.follows_recording(control@.abort_requested, payload, step.0, step.1@),
    {
        if control.has_abort_request() {
            return (SessionStage::Done(Ok(())), Session::abort_to_idle());
        }
        let prompt: String = build_prompt(&self.start_context, self.config);
        (SessionStage::Dictate(DictationRequest { audio: payload, prompt }), Vec::new())
    }

    /// What is done where the text was pasted, or was not.
    fn take_paste(&self, pasted: Result<PasteOutcome, PasteError>) -> (step: (
        SessionStage,
        Vec<Effect>,
    ))
        ensures
            self.follows_paste(pasted, step.0, step.1@),
    {
        let mut effects: Vec<Effect> = Vec::new();
        match pasted {
            Ok(outcome) => {
                match outcome {
                    PasteOutcome::Pasted => {},
                    PasteOutcome::CopiedOnly => {
                        effects.push(Effect::Notify(notify::focus_changed()));
                    },
                }
                effects.push(Effect::FadeOverlay);
                effects.push(Effect::Transition(SessionPhase::Idle));
                assert(outcome == PasteOutcome::Pasted ==> effects@ =~= seq![
                    Effect::FadeOverlay,
                    Effect::Transition(SessionPhase::Idle),
                ]);
                (SessionStage::Done(Ok(())), effects)
            },
            Err(error) => {
                effects.push(Effect::DismissOverlay);
                let (reason, note): (String, Notification) = match error {
                    PasteError::ClipboardUnavailable(reason) => {
                        let note = notify::paste_copy_failed(reason.as_str());
                        (reason, note)
                    },
                    PasteError::AutomationFailed(reason) => {
                        let note = notify::manual_paste_required(reason.as_str());
                        (reason, note)
                    },
                };
                effects.push(Effect::RecordError(reason.clone()));
                effects.push(Effect::Notify(note));
                effects.push(Effect::Transition(SessionPhase::Idle));
                (SessionStage::Done(Err(reason)), effects)
            },
        }
    }

    /// The shortcut that pastes in the window in which the session began.
    fn own_paste_keys(&self) -> (keys: Option<String>)
        ensures
            keys == self.paste_keys(),
    {
        match self.config.app_rule_for_context(&self.start_context) {
            Some(rule) => copy_option(&rule.paste_keys),
            None => None,
        }
    }

    /// What to do next in the session, starting with
    /// [`SessionStage::StartRecorder`], where this came of what was done, and
    /// what to do on the way. What does not answer to the stage leaves it as it
    /// is.
    pub fn run(&self, control: &ControlState, stage: SessionStage, event: SessionEvent) -> (step: (
        SessionStage,
        Vec<Effect>,
    ))
        ensures
            self.follows(control@.abort_requested, stage, event, step.0, step.1@),
    {
        let mut effects: Vec<Effect> = Vec::new();
        match stage {
            SessionStage::StartRecorder => match event {
                SessionEvent::RecorderStarted(Ok(_)) => {
                    effects.push(Effect::ShowPhase(SessionPhase::Recording));
                    assert(effects@ =~= seq![Effect::ShowPhase(SessionPhase::Recording)]);
                    (SessionStage::Record(self.config.recording.max_seconds), effects)
                },
                SessionEvent::RecorderStarted(Err(error)) => {
                    effects.push(Effect::DismissOverlay);
                    assert(effects@ =~= seq![Effect::DismissOverlay]);
                    (SessionStage::Done(Err(error)), effects)
                },
                _ => (SessionStage::StartRecorder, effects),
            },
            SessionStage::Record(max_seconds) => match event {
                SessionEvent::RecordingOver(reason) => {
                    if control.has_abort_request() || reason == RecordingStopReason::Aborted {
                        effects.push(Effect::DropRecorder);
                        let mut ending: Vec<Effect> = Session::abort_to_idle();
                        effects.append(&mut ending);
                        assert(effects@ =~= seq![Effect::DropRecorder] + teardown());
                        return (SessionStage::Done(Ok(())), effects);
                    }
                    (SessionStage::CaptureStop, effects)
                },
                _ => (SessionStage::Record(max_seconds), effects),
            },
            SessionStage::CaptureStop => match event {
                SessionEvent::ContextCaptured(context) => {
                    effects.push(Effect::Transition(SessionPhase::Processing));
                    effects.push(Effect::RecordStopContext(context));
                    effects.push(Effect::ShowPhase(SessionPhase::Processing));
                    assert(effects@ =~= seq![
                        Effect::Transition(SessionPhase::Processing),
                        Effect::RecordStopContext(context),
                        Effect::ShowPhase(SessionPhase::Processing),
                    ]);
                    (SessionStage::FinishRecording, effects)
                },
                _ => (SessionStage::CaptureStop, effects),
            },
            SessionStage::FinishRecording => match event {
                SessionEvent::Recorded(payload) => self.take_finished(control, payload),
                _ => (SessionStage::FinishRecording, effects),
            },
            SessionStage::SaveAudio(dir, payload) => match event {
                SessionEvent::AudioSaved => self.take_recording(control, payload),
                _ => (SessionStage::SaveAudio(dir, payload), effects),
            },
            SessionStage::Dictate(request) => match event {
                SessionEvent::Dictated(Err(error)) => {
                    effects.push(Effect::DismissOverlay);
                    assert(effects@ =~= seq![Effect::DismissOverlay]);
                    (SessionStage::Done(Err(error)), effects)
                },
                SessionEvent::Dictated(Ok(None)) => (
                    SessionStage::Done(Ok(())),
                    Session::abort_to_idle(),
                ),
                SessionEvent::Dictated(Ok(Some(response))) => {
                    if control.has_abort_request() {
                        return (SessionStage::Done(Ok(())), Session::abort_to_idle());
                    }
                    (SessionStage::CapturePrePaste(response), effects)
                },
                _ => (SessionStage::Dictate(request), effects),
            },
            SessionStage::CapturePrePaste(response) => match event {
                SessionEvent::ContextCaptured(context) => {
                    let focus_safe: bool = can_auto_paste(&self.start_context, &context);
                    let keys: Option<String> = self.own_paste_keys();
                    effects.push(Effect::Transition(SessionPhase::Pasting));
                    effects.push(Effect::RecordPrePasteContext(context));
                    effects.push(Effect::ShowPhase(SessionPhase::Pasting));
                    assert(effects@ =~= seq![
                        Effect::Transition(SessionPhase::Pasting),
                        Effect::RecordPrePasteContext(context),
                        Effect::ShowPhase(SessionPhase::Pasting),
                    ]);
                    (SessionStage::PreparePaste(response.text, focus_safe, keys), effects)
                },
                _ => (SessionStage::CapturePrePaste(response), effects),
            },
            SessionStage::PreparePaste(text, focus_safe, keys) => match event {
                SessionEvent::PastePrepared => {
                    if control.has_abort_request() {
                        return (SessionStage::Done(Ok(())), Session::abort_to_idle());
                    }
                    (SessionStage::Paste(text, focus_safe, keys), effects)
                },
                _ => (SessionStage::PreparePaste(text, focus_safe, keys), effects),
            },
            SessionStage::Paste(text, focus_safe, keys) => match event {
                SessionEvent::Pasted(pasted) => self.take_paste(pasted),
                _ => (SessionStage::Paste(text, focus_safe, keys), effects),
            },
            SessionStage::Done(outcome) => (SessionStage::Done(outcome), effects),
        }
    }

    /// What to do once the recorder has stopped: nothing where it recorded
    /// nothing, else keep the recording or go on with it.
    fn take_finished(&self, control: &ControlState, payload: AudioPayload) -> (step: (
        SessionStage,
        Vec<Effect>,
    ))
        ensures
            self.follows(
                control@.abort_requested,
                SessionStage::FinishRecording,
                SessionEvent::Recorded(payload),
                step.0,
                step.1@,
            ),
    {
        let mut effects: Vec<Effect> = Vec::new();
        effects.push(Effect::CloseAudioStream);
        if payload.samples.len() == 0 {
            let mut ending: Vec<Effect> = Session::abort_to_idle();
            effects.append(&mut ending);
            assert(effects@.drop_first() =~= teardown());
            return (SessionStage::Done(Ok(())), effects);
        }
        match &self.save_to {
            Some(dir) => (SessionStage::SaveAudio(dir.clone(), payload), effects),
            None => {
                let (next, mut rest): (SessionStage, Vec<Effect>) = self.take_recording(
                    control,
                    payload,
                );
                let ghost ending = rest@;
                effects.append(&mut rest);
                assert(effects@.drop_first() =~= ending);
                (next, effects)
            },
        }
    }

    /// What ends a session without a result.
    fn abort_to_idle() -> (effects: Vec<Effect>)
        ensures
            effects@ == teardown(),
    {
        let mut effects: Vec<Effect> = Vec::new();
        effects.push(Effect::DismissOverlay);
        effects.push(Effect::Transition(SessionPhase::Idle));
        effects
    }
}

/// The phase that a session is in while this is to be done.
pub open spec fn phase_of(stage: SessionStage) -> SessionPhase {
    match stage {
        SessionStage::StartRecorder | SessionStage::Record(_) | SessionStage::CaptureStop =>
            SessionPhase::Recording,
        SessionStage::FinishRecording | SessionStage::SaveAudio(_, _) | SessionStage::Dictate(_)
        | SessionStage::CapturePrePaste(_) => SessionPhase::Processing,
        SessionStage::PreparePaste(_, _, _) | SessionStage::Paste(_, _, _) =>
            SessionPhase::Pasting,
        SessionStage::Done(_) => SessionPhase::Idle,
    }
}

/// The phase after all this, where the session was in one before.
pub open spec fn phase_after(before: SessionPhase, effects: Seq<Effect>) -> SessionPhase
    decreases effects.len(),
{
    if effects.len() == 0 {
        before
    } else {
        match effects.last() {
            Effect::Transition(phase) => phase,
            _ => phase_after(before, effects.drop_last()),
        }
    }
}

/// Whether a session ends here because recorder or model failed. The owner
/// moves it to the idle phase then.
pub open spec fn is_failure(stage: SessionStage, next: SessionStage) -> bool {
    &&& stage is StartRecorder || stage is Dictate
    &&& next matches SessionStage::Done(outcome) && outcome is Err
}

/// A session is in the phase that belongs to what it is to do, at every step:
/// it records, processes, pastes and is idle in the end. Only where recorder or
/// model failed is it left to the owner to say so.
pub proof fn law_phase_follows_the_stage(
    session: Session,
    aborted: bool,
    stage: SessionStage,
    event: SessionEvent,
    next: SessionStage,
    effects: Seq<Effect>,
)
    requires
        session.follows(aborted, stage, event, next, effects),
        !is_failure(stage, next),
    ensures
        phase_after(phase_of(stage), effects) == phase_of(next),
{
    reveal_with_fuel(phase_after, 5);
    if let (SessionStage::FinishRecording, SessionEvent::Recorded(payload)) = (stage, event) {
        lemma_teardown_behind(effects);
    }
    assert(teardown().drop_last() =~= seq![Effect::DismissOverlay]);
    assert(teardown().drop_last().drop_last() =~= Seq::<Effect>::empty());
}

proof fn lemma_teardown_behind(effects: Seq<Effect>)
    requires
        effects.len() > 0,
    ensures
        effects.drop_first() == teardown() ==> effects.last() == Effect::Transition(
            SessionPhase::Idle,
        ),
        effects.drop_first() == Seq::<Effect>::empty() ==> effects.drop_last() == Seq::<
            Effect,
        >::empty(),
        effects.len() == 1 ==> effects.drop_last() == Seq::<Effect>::empty(),
{
    if effects.drop_first() == teardown() {
        assert(effects.last() == effects.drop_first().last());
    }
    if effects.drop_first() == Seq::<Effect>::empty() {
        assert(effects.drop_first().len() == effects.len() - 1);
        assert(effects.drop_last() =~= Seq::<Effect>::empty());
    }
    if effects.len() == 1 {
        assert(effects.drop_last() =~= Seq::<Effect>::empty());
    }
}

/// Once an abort was requested, the model is not asked and nothing is pasted
/// any more: the next step that looks takes the overlay away and leaves the
/// session idle.
pub proof fn law_abort_ends_the_session(
    session: Session,
    stage: SessionStage,
    event: SessionEvent,
    next: SessionStage,
    effects: Seq<Effect>,
)
    requires
        session.follows(true, stage, event, next, effects),
        next != stage,
    ensures
        !(next is Dictate),
        !(next is CapturePrePaste),
        !(next is CaptureStop),
        !(next is Paste),
        (next == SessionStage::Done(Ok(())) && !(stage is Paste)) ==> effects.len() >= 2
            && effects.subrange(effects.len() - 2, effects.len() as int) == teardown(),
{
    if next == SessionStage::Done(Ok(())) && !(stage is Paste) {
        if stage is FinishRecording {
            assert(effects.len() == effects.drop_first().len() + 1);
            assert(effects.subrange(effects.len() - 2, effects.len() as int) =~= teardown());
        } else {
            assert(effects.subrange(effects.len() - 2, effects.len() as int) =~= teardown());
        }
    }
}

/// Whether one stage follows on another, whatever is done on the way and
/// whether an abort was requested or not.
pub open spec fn can_follow(
    session: Session,
    stage: SessionStage,
    event: SessionEvent,
    next: SessionStage,
) -> bool {
    exists|aborted: bool, effects: Seq<Effect>| #[trigger]
        session.follows(aborted, stage, event, next, effects)
}

/// Whether a stage follows on the one before it.
pub open spec fn step(
    session: Session,
    stages: Seq<SessionStage>,
    events: Seq<SessionEvent>,
    at: int,
) -> bool {
    can_follow(session, stages[at], events[at], stages[at + 1])
}

/// Whether stages are those of a session: it begins with the recorder, and each
/// of the others follows on the one before it.
pub open spec fn is_run(
    session: Session,
    stages: Seq<SessionStage>,
    events: Seq<SessionEvent>,
) -> bool {
    &&& stages.len() == events.len() + 1
    &&& stages[0] == SessionStage::StartRecorder
    &&& forall|i: int| 0 <= i < events.len() ==> #[trigger] step(session, stages, events, i)
}

/// Whether an event says that this window has the focus.
pub open spec fn is_safe_capture(session: Session, event: SessionEvent) -> bool {
    event matches SessionEvent::ContextCaptured(context) && is_same_window(
        session.start_context,
        context,
    )
}

/// Pasting is held to be safe only where the window that had the focus right
/// before is the one in which the session began.
pub proof fn law_paste_is_safe_only_in_the_first_window(
    session: Session,
    stages: Seq<SessionStage>,
    events: Seq<SessionEvent>,
    at: int,
)
    requires
        is_run(session, stages, events),
        0 <= at < stages.len(),
        (stages[at] matches SessionStage::Paste(_, safe, _) && safe) || (
        stages[at] matches SessionStage::PreparePaste(_, safe, _) && safe),
    ensures
        exists|i: int|
            0 <= i < at && (#[trigger] stages[i]) is CapturePrePaste && is_safe_capture(
                session,
                events[i],
            ),
    decreases at,
{
    if at > 0 {
        assert(step(session, stages, events, at - 1));
        if stages[at - 1] is CapturePrePaste {
            assert(is_safe_capture(session, events[at - 1]));
        } else {
            law_paste_is_safe_only_in_the_first_window(session, stages, events, at - 1);
        }
    }
}

/// A key is struck only where the window that had the focus right before is the
/// one in which the session began: `ut` never types into another window.
pub proof fn law_keys_only_into_the_first_window(
    session: Session,
    stages: Seq<SessionStage>,
    events: Seq<SessionEvent>,
    at: int,
    paste_stages: Seq<PasteStage>,
    paste_events: Seq<PasteEvent>,
    paste_at: int,
)
    requires
        is_run(session, stages, events),
        0 <= at < stages.len(),
        stages[at] matches SessionStage::Paste(text, safe, keys) && crate::paste::is_first(
            paste_stages[0],
            text@,
            safe,
            session.config.paste,
            opt_view(keys),
        ),
        crate::paste::is_run(paste_stages, paste_events),
        0 <= paste_at < paste_stages.len(),
        paste_stages[paste_at] is Type,
    ensures
        exists|i: int|
            0 <= i < at && (#[trigger] stages[i]) is CapturePrePaste && is_safe_capture(
                session,
                events[i],
            ),
{
    if let SessionStage::Paste(text, safe, keys) = stages[at] {
        if safe {
            law_paste_is_safe_only_in_the_first_window(session, stages, events, at);
        } else {
            crate::paste::law_no_keys_into_another_window(
                paste_stages,
                paste_events,
                text@,
                session.config.paste,
                opt_view(keys),
                paste_at,
            );
        }
    }
}

/// Whether an event is an answer of the model with this text.
pub open spec fn says(event: SessionEvent, text: String) -> bool {
    event matches SessionEvent::Dictated(Ok(Some(response))) && response.text == text
}

/// What is pasted is what the model said.
pub proof fn law_pasted_text_is_the_answer(
    session: Session,
    stages: Seq<SessionStage>,
    events: Seq<SessionEvent>,
    text: String,
    at: int,
)
    requires
        is_run(session, stages, events),
        0 <= at < stages.len(),
        carries(stages[at], text),
    ensures
        exists|i: int| 0 <= i < at && says(#[trigger] events[i], text),
    decreases at,
{
    if at > 0 {
        assert(step(session, stages, events, at - 1));
        if carries(stages[at - 1], text) {
            law_pasted_text_is_the_answer(session, stages, events, text, at - 1);
        } else {
            assert(says(events[at - 1], text));
        }
    }
}

/// Whether this text is on its way at a stage.
pub open spec fn carries(stage: SessionStage, text: String) -> bool {
    match stage {
        SessionStage::CapturePrePaste(response) => response.text == text,
        SessionStage::PreparePaste(held, _, _) => held == text,
        SessionStage::Paste(held, _, _) => held == text,
        _ => false,
    }
}

/// What is asked of the model is what was recorded, under the prompt for the
/// window in which the session began; and that is never nothing.
pub proof fn law_recording_is_what_is_sent(
    session: Session,
    stages: Seq<SessionStage>,
    events: Seq<SessionEvent>,
    at: int,
)
    requires
        is_run(session, stages, events),
        0 <= at < stages.len(),
    ensures
        sent_audio(stages[at]) matches Some(audio) ==> audio.samples@.len() > 0 && (exists|i: int|
            0 <= i < at && #[trigger] events[i] == SessionEvent::Recorded(audio)),
        stages[at] matches SessionStage::Dictate(request) ==> request.prompt@ == prompt_for(
            session.start_context,
            *session.config,
        ),
    decreases at,
{
    if at > 0 {
        law_recording_is_what_is_sent(session, stages, events, at - 1);
        assert(step(session, stages, events, at - 1));
        if let Some(audio) = sent_audio(stages[at]) {
            if sent_audio(stages[at - 1]) is None {
                assert(events[at - 1] == SessionEvent::Recorded(audio));
            } else {
                let i = choose|i: int|
                    0 <= i < at - 1 && #[trigger] events[i] == SessionEvent::Recorded(audio);
                assert(events[i] == SessionEvent::Recorded(audio));
            }
        }
    }
}

/// The recording that is on its way to the model at a stage.
pub open spec fn sent_audio(stage: SessionStage) -> Option<AudioPayload> {
    match stage {
        SessionStage::SaveAudio(_, payload) => Some(payload),
        SessionStage::Dictate(request) => Some(request.audio),
        _ => None,
    }
}

/// How many steps are still to come, at most.
pub open spec fn steps_left(stage: SessionStage) -> nat {
    match stage {
        SessionStage::StartRecorder => 9,
        SessionStage::Record(_) => 8,
        SessionStage::CaptureStop => 7,
        SessionStage::FinishRecording => 6,
        SessionStage::SaveAudio(_, _) => 5,
        SessionStage::Dictate(_) => 4,
        SessionStage::CapturePrePaste(_) => 3,
        SessionStage::PreparePaste(_, _, _) => 2,
        SessionStage::Paste(_, _, _) => 1,
        SessionStage::Done(_) => 0,
    }
}

/// A session goes forward only: every step that is one brings it nearer to its
/// end.
pub proof fn law_session_goes_forward(
    session: Session,
    stage: SessionStage,
    event: SessionEvent,
    next: SessionStage,
)
    requires
        can_follow(session, stage, event, next),
    ensures
        next == stage || steps_left(next) < steps_left(stage),
{
}

/// A recording that is over is dropped only on an abort. Whether it was stopped
/// or ran out of time, it is gone on with.
pub proof fn law_recording_is_dropped_only_on_abort(
    session: Session,
    control: ControlState,
    stage: SessionStage,
    event: SessionEvent,
    step: (SessionStage, Vec<Effect>),
)
    requires
        call_ensures(Session::run, (&session, &control, stage, event), step),
    ensures
        stage is Record && !control@.abort_requested && (event == SessionEvent::RecordingOver(
            RecordingStopReason::Stopped,
        ) || event == SessionEvent::RecordingOver(RecordingStopReason::TimedOut)) ==> step.0
            == SessionStage::CaptureStop && step.1@.len() == 0,
        step.1@.contains(Effect::DropRecorder) ==> control@.abort_requested || event
            == SessionEvent::RecordingOver(RecordingStopReason::Aborted),
        stage is Record && step.0 is Done ==> control@.abort_requested || event
            == SessionEvent::RecordingOver(RecordingStopReason::Aborted),
        stage is Record && event is RecordingOver && (control@.abort_requested || event
            == SessionEvent::RecordingOver(RecordingStopReason::Aborted)) ==> step.0
            == SessionStage::Done(Ok(())) && step.1@.contains(Effect::DropRecorder),
{
    if stage is Record && event is RecordingOver && step.1@.len() > 0 {
        assert(step.1@[0] == Effect::DropRecorder);
    }
    if stage is FinishRecording && step.1@.len() > 0 {
        let behind = step.1@.drop_first();
        assert(behind.len() == step.1@.len() - 1);
        assert forall|i: int| 0 <= i < step.1@.len() implies step.1@[i] != Effect::DropRecorder by {
            if i > 0 {
                assert(step.1@[i] == behind[i - 1]);
                assert(behind == teardown());
            }
        }
    }
}

/// A session that is not aborted, and of which every part does its work, goes
/// from the first sample to the paste: it records for as long as is configured,
/// sends what was recorded, pastes what the model answered, and is idle in the
/// end. It is safe to paste where the window right before is the first one, and
/// the shortcut is that of the first rule for it.
pub proof fn law_session_goes_from_recording_to_paste(
    session: Session,
    control: ControlState,
    reason: RecordingStopReason,
    stop_context: AppContext,
    payload: AudioPayload,
    response: DictationResponse,
    context: AppContext,
    pasted: Result<PasteOutcome, PasteError>,
    rule: int,
    started: (SessionStage, Vec<Effect>),
    over: (SessionStage, Vec<Effect>),
    stopped: (SessionStage, Vec<Effect>),
    recorded: (SessionStage, Vec<Effect>),
    saved: (SessionStage, Vec<Effect>),
    answered: (SessionStage, Vec<Effect>),
    prepared: (SessionStage, Vec<Effect>),
    pasting: (SessionStage, Vec<Effect>),
    ended: (SessionStage, Vec<Effect>),
)
    requires
        !control@.abort_requested,
        reason != RecordingStopReason::Aborted,
        payload.samples@.len() > 0,
        call_ensures(
            Session::run,
            (
                &session,
                &control,
                SessionStage::StartRecorder,
                SessionEvent::RecorderStarted(Ok(())),
            ),
            started,
        ),
        call_ensures(
            Session::run,
            (&session, &control, started.0, SessionEvent::RecordingOver(reason)),
            over,
        ),
        call_ensures(
            Session::run,
            (&session, &control, over.0, SessionEvent::ContextCaptured(stop_context)),
            stopped,
        ),
        call_ensures(
            Session::run,
            (&session, &control, stopped.0, SessionEvent::Recorded(payload)),
            recorded,
        ),
        if session.save_to is Some {
            call_ensures(
                Session::run,
                (&session, &control, recorded.0, SessionEvent::AudioSaved),
                saved,
            )
        } else {
            saved == recorded
        },
        call_ensures(
            Session::run,
            (&session, &control, saved.0, SessionEvent::Dictated(Ok(Some(response)))),
            answered,
        ),
        call_ensures(
            Session::run,
            (&session, &control, answered.0, SessionEvent::ContextCaptured(context)),
            prepared,
        ),
        call_ensures(
            Session::run,
            (&session, &control, prepared.0, SessionEvent::PastePrepared),
            pasting,
        ),
        call_ensures(
            Session::run,
            (&session, &control, pasting.0, SessionEvent::Pasted(pasted)),
            ended,
        ),
        0 <= rule <= session.config.app_rules@.len(),
        forall|i: int|
            0 <= i < rule ==> !rule_matches(
                #[trigger] session.config.app_rules@[i],
                session.start_context,
            ),
        rule < session.config.app_rules@.len() ==> rule_matches(
            session.config.app_rules@[rule],
            session.start_context,
        ),
    ensures
        started.0 == SessionStage::Record(session.config.recording.max_seconds),
        started.1@.contains(Effect::ShowPhase(SessionPhase::Recording)),
        over.0 == SessionStage::CaptureStop,
        stopped.0 == SessionStage::FinishRecording,
        stopped.1@.contains(Effect::Transition(SessionPhase::Processing)),
        stopped.1@.contains(Effect::ShowPhase(SessionPhase::Processing)),
        stopped.1@.contains(Effect::RecordStopContext(stop_context)),
        recorded.1@.contains(Effect::CloseAudioStream),
        session.save_to matches Some(dir) ==> (recorded.0 matches SessionStage::SaveAudio(to, audio)
            && to@ == dir@ && audio == payload),
        saved.0 matches SessionStage::Dictate(request) && request.audio == payload
            && request.prompt@ == prompt_for(session.start_context, *session.config),
        prepared.1@.contains(Effect::Transition(SessionPhase::Pasting)),
        prepared.1@.contains(Effect::ShowPhase(SessionPhase::Pasting)),
        prepared.1@.contains(Effect::RecordPrePasteContext(context)),
        pasting.0 matches SessionStage::Paste(text, safe, keys) && text@ == response.text@ && (safe
            <==> session.start_context.container_id is Some && context.container_id is Some
            && session.start_context.container_id->0@ == context.container_id->0@) && keys == (
        if rule < session.config.app_rules@.len() {
            session.config.app_rules@[rule].paste_keys
        } else {
            None
        }),
        ended.0 == SessionStage::Done(
            match pasted {
                Ok(_) => Ok(()),
                Err(PasteError::ClipboardUnavailable(why)) => Err(why),
                Err(PasteError::AutomationFailed(why)) => Err(why),
            },
        ),
        ended.1@.contains(Effect::Transition(SessionPhase::Idle)),
        pasted is Ok <==> ended.1@.contains(Effect::FadeOverlay),
        pasted is Err <==> ended.1@.contains(Effect::DismissOverlay),
{
    crate::config::law_first_rule_decides(session.config.app_rules@, session.start_context, rule);
    assert(started.1@[0] == Effect::ShowPhase(SessionPhase::Recording));
    assert(stopped.1@[0] == Effect::Transition(SessionPhase::Processing));
    assert(stopped.1@[1] == Effect::RecordStopContext(stop_context));
    assert(stopped.1@[2] == Effect::ShowPhase(SessionPhase::Processing));
    assert(recorded.1@[0] == Effect::CloseAudioStream);
    assert(prepared.1@[0] == Effect::Transition(SessionPhase::Pasting));
    assert(prepared.1@[1] == Effect::RecordPrePasteContext(context));
    assert(prepared.1@[2] == Effect::ShowPhase(SessionPhase::Pasting));
    match pasted {
        Ok(PasteOutcome::Pasted) => {
            assert(ended.1@[0] == Effect::FadeOverlay);
            assert(ended.1@[1] == Effect::Transition(SessionPhase::Idle));
        },
        Ok(PasteOutcome::CopiedOnly) => {
            assert(ended.1@[1] == Effect::FadeOverlay);
            assert(ended.1@[2] == Effect::Transition(SessionPhase::Idle));
        },
        Err(_) => {
            assert(ended.1@[0] == Effect::DismissOverlay);
            assert(ended.1@[3] == Effect::Transition(SessionPhase::Idle));
        },
    }
}

/// A session does not end without a reason: well, only on an abort, where
/// nothing was recorded, where the model was cancelled, or once the text was
/// pasted or copied; in failure, only where recorder, model or paste failed, and
/// with what they said. The overlay goes at that, and fades only after a paste.
pub proof fn law_session_ends_for_a_reason(
    session: Session,
    control: ControlState,
    stage: SessionStage,
    event: SessionEvent,
    step: (SessionStage, Vec<Effect>),
)
    requires
        call_ensures(Session::run, (&session, &control, stage, event), step),
        !(stage is Done),
        step.0 is Done,
    ensures
        step.0->Done_0 is Ok ==> control@.abort_requested || event == SessionEvent::RecordingOver(
            RecordingStopReason::Aborted,
        ) || (event matches SessionEvent::Recorded(payload) && payload.samples@.len() == 0) || (
        event matches SessionEvent::Dictated(Ok(answer)) && answer is None) || (
        event matches SessionEvent::Pasted(pasted) && pasted is Ok),
        step.0->Done_0 matches Err(why) ==> match event {
            SessionEvent::RecorderStarted(Err(error)) => stage is StartRecorder && why == error,
            SessionEvent::Dictated(Err(error)) => stage is Dictate && why == error,
            SessionEvent::Pasted(Err(PasteError::ClipboardUnavailable(error))) => stage is Paste
                && why == error,
            SessionEvent::Pasted(Err(PasteError::AutomationFailed(error))) => stage is Paste && why
                == error,
            _ => false,
        },
        step.1@.contains(Effect::DismissOverlay) || step.1@.contains(Effect::FadeOverlay),
        step.1@.contains(Effect::FadeOverlay) ==> (event matches SessionEvent::Pasted(pasted)
            && pasted is Ok),
        step.0->Done_0 is Ok ==> step.1@.contains(Effect::Transition(SessionPhase::Idle)),
{
    let effects = step.1@;
    match stage {
        SessionStage::Paste(_, _, _) => {
            match event {
                SessionEvent::Pasted(Ok(PasteOutcome::Pasted)) => {
                    assert(effects[0] == Effect::FadeOverlay);
                    assert(effects[1] == Effect::Transition(SessionPhase::Idle));
                },
                SessionEvent::Pasted(Ok(PasteOutcome::CopiedOnly)) => {
                    assert(effects[1] == Effect::FadeOverlay);
                    assert(effects[2] == Effect::Transition(SessionPhase::Idle));
                },
                _ => {
                    assert(effects[0] == Effect::DismissOverlay);
                },
            }
        },
        SessionStage::Record(_) => {
            assert(effects[1] == Effect::DismissOverlay);
            assert(effects[2] == Effect::Transition(SessionPhase::Idle));
        },
        SessionStage::FinishRecording => {
            let behind = effects.drop_first();
            assert(effects[1] == behind[0]);
            assert(effects[2] == behind[1]);
            assert(effects[1] == Effect::DismissOverlay);
            assert(effects[2] == Effect::Transition(SessionPhase::Idle));
            assert forall|i: int| 0 <= i < effects.len() implies effects[i]
                != Effect::FadeOverlay by {
                if i > 0 {
                    assert(effects[i] == behind[i - 1]);
                }
            }
        },
        _ => {
            assert(effects[0] == Effect::DismissOverlay);
            if step.0->Done_0 is Ok {
                assert(effects[1] == Effect::Transition(SessionPhase::Idle));
            }
        },
    }
}

/// What fails is reported as what it said. Where the paste failed that is also
/// written down, and the user is told; the user is also told where the text was
/// copied only.
pub proof fn law_failures_are_reported(
    session: Session,
    control: ControlState,
    stage: SessionStage,
    event: SessionEvent,
    step: (SessionStage, Vec<Effect>),
)
    requires
        call_ensures(Session::run, (&session, &control, stage, event), step),
    ensures
        stage is StartRecorder ==> (event matches SessionEvent::RecorderStarted(Err(why)) ==> step.0
            == SessionStage::Done(Err(why))),
        stage is Dictate ==> (event matches SessionEvent::Dictated(Err(why)) ==> step.0
            == SessionStage::Done(Err(why))),
        stage is Paste ==> (event matches SessionEvent::Pasted(Err(error)) ==> {
            let why = match error {
                PasteError::ClipboardUnavailable(why) => why,
                PasteError::AutomationFailed(why) => why,
            };
            &&& step.0 == SessionStage::Done(Err(why))
            &&& step.1@.contains(Effect::RecordError(why))
            &&& exists|i: int|
                0 <= i < step.1@.len() && tells(#[trigger] step.1@[i], why@)
        }),
        stage is Paste && event == SessionEvent::Pasted(Ok(PasteOutcome::CopiedOnly)) ==> exists|
            i: int,
        | 0 <= i < step.1@.len() && (#[trigger] step.1@[i]) is Notify,
        stage is FinishRecording ==> (event matches SessionEvent::Recorded(payload)
            ==> payload.samples@.len() == 0 ==> step.0 == SessionStage::Done(Ok(()))),
        stage is Dictate && event == SessionEvent::Dictated(Ok(None)) ==> step.0
            == SessionStage::Done(Ok(())),
{
    if stage is Paste {
        match event {
            SessionEvent::Pasted(Err(error)) => {
                let why = error.reason();
                assert(step.1@[1] == Effect::RecordError(why));
                if let Effect::Notify(note) = step.1@[2] {
                    let body = note.body@;
                    assert(body.subrange(body.len() - why@.len(), body.len() as int) =~= why@);
                }
                assert(tells(step.1@[2], why@));
            },
            SessionEvent::Pasted(Ok(PasteOutcome::CopiedOnly)) => {
                assert(step.1@[0] is Notify);
            },
            _ => {},
        }
    }
}

/// Whether an effect tells the user something that ends with these words.
pub open spec fn tells(effect: Effect, words: Seq<char>) -> bool {
    effect matches Effect::Notify(note) && words.is_suffix_of(note.body@)
}

/// An abort is heeded wherever the session looks for one: the overlay goes, and
/// the session is idle. Nothing else is done but to drop the recorder or to
/// close the stream of audio.
pub proof fn law_abort_is_heeded(
    session: Session,
    control: ControlState,
    stage: SessionStage,
    event: SessionEvent,
    step: (SessionStage, Vec<Effect>),
)
    requires
        call_ensures(Session::run, (&session, &control, stage, event), step),
        control@.abort_requested,
        (stage is Record && event is RecordingOver) || (stage is FinishRecording && event
            is Recorded && session.save_to is None) || (stage is SaveAudio && event is AudioSaved)
            || (stage is Dictate && (event matches SessionEvent::Dictated(answer) && answer is Ok))
            || (stage is PreparePaste && event is PastePrepared),
    ensures
        step.0 == SessionStage::Done(Ok(())),
        step.1@.contains(Effect::DismissOverlay),
        step.1@.contains(Effect::Transition(SessionPhase::Idle)),
        forall|i: int|
            0 <= i < step.1@.len() ==> #[trigger] step.1@[i] == Effect::DismissOverlay || step.1@[i]
                == Effect::Transition(SessionPhase::Idle) || step.1@[i] == Effect::DropRecorder
                || step.1@[i] == Effect::CloseAudioStream,
{
    let effects = step.1@;
    if stage is Record || stage is FinishRecording {
        if stage is FinishRecording {
            assert(effects.len() == effects.drop_first().len() + 1);
            assert(effects[1] == effects.drop_first()[0]);
            assert(effects[2] == effects.drop_first()[1]);
        }
        assert(effects[1] == Effect::DismissOverlay);
        assert(effects[2] == Effect::Transition(SessionPhase::Idle));
    } else {
        assert(effects[0] == Effect::DismissOverlay);
        assert(effects[1] == Effect::Transition(SessionPhase::Idle));
    }
}

/// A recording of which nothing was asked goes on until its time is over, and no
/// longer: as many seconds as are configured.
pub proof fn law_recording_lasts_as_configured(
    control: ControlState,
    started: u128,
    max_seconds: u32,
    deadline: u128,
    now: u128,
    reason: Option<RecordingStopReason>,
)
    requires
        call_ensures(recording_deadline, (started, max_seconds), deadline),
        call_ensures(wait_for_recording_exit, (&control, now, deadline), reason),
        !control@.abort_requested,
        !control@.shutdown,
        !control@.stop_requested,
    ensures
        now < started + max_seconds * 1_000_000_000 ==> reason is None,
        now >= started + max_seconds * 1_000_000_000 ==> reason == Some(
            RecordingStopReason::TimedOut,
        ),
{
}

/// A request ends a recording at any time: a stop has it stopped, and an abort,
/// or the end of the session, has it aborted, also where a stop was requested.
pub proof fn law_requests_end_the_recording(
    control: ControlState,
    now: u128,
    deadline: u128,
    reason: Option<RecordingStopReason>,
)
    requires
        call_ensures(wait_for_recording_exit, (&control, now, deadline), reason),
    ensures
        control@.abort_requested || control@.shutdown <==> reason == Some(
            RecordingStopReason::Aborted,
        ),
        control@.stop_requested && !control@.abort_requested && !control@.shutdown <==> reason
            == Some(RecordingStopReason::Stopped),
{
}

/// What the model answered is handed on as it is; the worker is asked as long as
/// it has not answered and nobody aborts; and one that is gone is an error.
pub proof fn law_answer_of_the_worker_is_handed_on(
    control: ControlState,
    poll: Option<WorkerPoll>,
    step: DictationStep,
)
    requires
        call_ensures(dictation_with_abort, (&control, poll), step),
    ensures
        poll matches Some(WorkerPoll::Answered(answer)) ==> step == DictationStep::Finish(answer),
        poll == Some(WorkerPoll::Gone) ==> (step matches DictationStep::Finish(answer) && answer
            is Err),
        poll is None || poll == Some(WorkerPoll::Pending) ==> (step == DictationStep::Cancel <==> (
        control@.abort_requested || control@.shutdown)),
        poll is None || poll == Some(WorkerPoll::Pending) ==> (step == DictationStep::Poll <==> !(
        control@.abort_requested || control@.shutdown)),
{
}

/// Text may go into a window only where it is known to be the one in which the
/// dictation began: both have a container, and it is the same one. Nothing else
/// of the windows matters.
pub proof fn law_same_container_is_safe(start: AppContext, now: AppContext, safe: bool)
    requires
        call_ensures(can_auto_paste, (&start, &now), safe),
    ensures
        safe <==> start.container_id is Some && now.container_id is Some
            && start.container_id->0@ == now.container_id->0@,
{
}

/// The context of a window keeps all that the compositor said of it, whatever
/// `/proc` adds; that is added only where both links could be read. Where the
/// compositor says nothing, nothing is known.
pub proof fn law_captured_context_is_the_window(
    focused: Result<Option<AppContext>, SwayError>,
    exe: LinkTarget,
    cwd: LinkTarget,
    context: AppContext,
)
    requires
        call_ensures(capture_context, (focused, exe, cwd), context),
    ensures
        focused matches Ok(Some(window)) ==> {
            &&& context.compositor == window.compositor
            &&& context.app_id == window.app_id
            &&& context.class == window.class
            &&& context.instance == window.instance
            &&& context.title == window.title
            &&& context.pid == window.pid
            &&& context.container_id == window.container_id
            &&& if window.pid is Some && exe is Ok && cwd is Ok {
                context.exe == exe->Ok_0 && context.cwd == cwd->Ok_0
            } else {
                context.exe == window.exe && context.cwd == window.cwd
            }
        },
        focused is Err || focused->Ok_0 is None ==> context.app_id is None && context.class is None
            && context.title is None && context.pid is None && context.container_id is None
            && context.compositor is None && context.instance is None && context.exe is None
            && context.cwd is None,
{
}

/// A recording that is kept lies in the directory that was asked for, in a WAV
/// file that gives back every sample.
pub proof fn law_kept_recording_reads_back(
    dir: &[u8],
    payload: AudioPayload,
    unix_seconds: u64,
    file: (Vec<u8>, Vec<u8>),
)
    requires
        call_ensures(save_debug_audio, (dir, &payload, unix_seconds), file),
        2 * payload.samples@.len() + 36 <= u32::MAX,
        payload.sample_rate * 2 <= u32::MAX,
    ensures
        exists|name: Seq<char>| #[trigger]
            is_timestamp(name, unix_seconds) && file.0@ == path_join(dir@, utf8(name + ".wav"@)),
        read_wav(file.1@) == Some(
            WavContent {
                sample_rate: payload.sample_rate as int,
                samples: Seq::new(
                    payload.samples@.len(),
                    |i: int| payload.samples@[i] as int,
                ),
            },
        ),
{
    crate::audio::law_wav_round_trip(payload.samples@, payload.sample_rate);
}

/// What an effect writes down is then in the session, at its own place, and
/// everything else is as it was.
pub proof fn law_effect_is_noted(session: SessionState, effect: Effect, after: SessionState)
    requires
        call_ensures(noted, (session, effect), after),
    ensures
        effect matches Effect::RecordStopContext(context) ==> after.stop_context == Some(context),
        effect matches Effect::RecordPrePasteContext(context) ==> after.pre_paste_context == Some(
            context,
        ),
        effect matches Effect::RecordError(error) ==> after.last_error == Some(error),
        !(effect is RecordStopContext) ==> after.stop_context == session.stop_context,
        !(effect is RecordPrePasteContext) ==> after.pre_paste_context == session.pre_paste_context,
        !(effect is RecordError) ==> after.last_error == session.last_error,
        after.phase == session.phase,
        after.pid == session.pid,
        after.start_context == session.start_context,
{
}

/// What does not answer to a stage changes nothing: the session stays where it is,
/// and nothing is done. A session that is over stays over.
pub proof fn law_stray_event_changes_nothing(
    session: Session,
    control: ControlState,
    stage: SessionStage,
    event: SessionEvent,
    step: (SessionStage, Vec<Effect>),
)
    requires
        call_ensures(Session::run, (&session, &control, stage, event), step),
        stage is StartRecorder ==> !(event is RecorderStarted),
        stage is Record ==> !(event is RecordingOver),
        stage is CaptureStop || stage is CapturePrePaste ==> !(event is ContextCaptured),
        stage is FinishRecording ==> !(event is Recorded),
        stage is SaveAudio ==> !(event is AudioSaved),
        stage is Dictate ==> !(event is Dictated),
        stage is PreparePaste ==> !(event is PastePrepared),
        stage is Paste ==> !(event is Pasted),
    ensures
        step.0 == stage,
        step.1@.len() == 0,
{
}

/// While a session goes on, the overlay stays, the user is told nothing, nothing is
/// written down as an error, and the recorder is not dropped; its phase is only
/// moved to the one that is next and the overlay only shows that. A session that
/// ends well tells the user something only where the text was copied.
pub proof fn law_nothing_else_is_done(
    session: Session,
    control: ControlState,
    stage: SessionStage,
    event: SessionEvent,
    step: (SessionStage, Vec<Effect>),
    at: int,
)
    requires
        call_ensures(Session::run, (&session, &control, stage, event), step),
        0 <= at < step.1@.len(),
    ensures
        !(step.0 is Done) ==> match step.1@[at] {
            Effect::ShowPhase(phase) => phase == phase_of(step.0),
            Effect::Transition(phase) => phase == phase_of(step.0),
            Effect::RecordStopContext(context) => event == SessionEvent::ContextCaptured(context)
                && stage is CaptureStop,
            Effect::RecordPrePasteContext(context) => event == SessionEvent::ContextCaptured(
                context,
            ) && stage is CapturePrePaste,
            Effect::CloseAudioStream => stage is FinishRecording,
            _ => false,
        },
        step.1@[at] is Notify ==> stage is Paste && event != SessionEvent::Pasted(
            Ok(PasteOutcome::Pasted),
        ),
        step.1@[at] is RecordError ==> stage is Paste && (event matches SessionEvent::Pasted(pasted)
            && pasted is Err),
        step.0 is Done ==> (step.1@[at] matches Effect::Transition(phase) ==> phase
            == SessionPhase::Idle) && !(step.1@[at] is ShowPhase),
{
    let effects = step.1@;
    if stage is FinishRecording && event is Recorded {
        let behind = effects.drop_first();
        assert(behind.len() == effects.len() - 1);
        if at > 0 {
            assert(effects[at] == behind[at - 1]);
            assert(behind == teardown());
        }
    }
    if stage is CaptureStop || stage is CapturePrePaste {
        assert(at == 0 || at == 1 || at == 2);
    }
    if stage is Paste {
        assert(at == 0 || at == 1 || at == 2 || at == 3);
        if event == SessionEvent::Pasted(Ok(PasteOutcome::Pasted)) {
            assert(effects[at] == Effect::FadeOverlay || effects[at] == Effect::Transition(
                SessionPhase::Idle,
            ));
        }
    }
}

} // verus!
