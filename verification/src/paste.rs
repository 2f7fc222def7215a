//! Getting text into the window that it is meant for.
//!
//! Text is typed, or pasted with a shortcut, only into the window in which the
//! dictation began; into any other window it is not: it is copied only.

use crate::config::{FocusMismatchAction, PasteConfig, PasteMethod};
use crate::notify;
use crate::notify::Notification;
use crate::paste::wtype::{args_of, WtypeError, WtypeRun};
use crate::path::utf8;
use crate::text::{copy_option, views};
use vstd::prelude::*;

pub mod clipboard;
pub mod wtype;

verus! {

/// What became of the text.
#[derive(Debug, Clone, Copy, PartialEq, Eq, Structural)]
pub enum PasteOutcome {
    Pasted,
    CopiedOnly,
}

/// Why the text is not where it should be.
#[derive(Debug, Clone, PartialEq, Eq)]
pub enum PasteError {
    ClipboardUnavailable(String),
    AutomationFailed(String),
}

impl PasteError {
    /// The reason without what it was a reason for.
    pub open spec fn reason(self) -> String {
        match self {
            PasteError::ClipboardUnavailable(reason) => reason,
            PasteError::AutomationFailed(reason) => reason,
        }
    }

    /// What the error says.
    pub open spec fn words(self) -> Seq<char> {
        match self {
            PasteError::ClipboardUnavailable(reason) => "clipboard unavailable: "@ + reason@,
            PasteError::AutomationFailed(reason) => "paste automation failed: "@ + reason@,
        }
    }

    /// What the error says.
    pub fn message(&self) -> (text: String)
        ensures
            text@ == self.words(),
    {
        match self {
            PasteError::ClipboardUnavailable(reason) => {
                let mut text: String = "clipboard unavailable: ".to_string();
                text.append(reason.as_str());
                text
            },
            PasteError::AutomationFailed(reason) => {
                let mut text: String = "paste automation failed: ".to_string();
                text.append(reason.as_str());
                text
            },
        }
    }
}

/// A text on its way into a window.
#[derive(Debug, PartialEq, Eq)]
pub struct PasteJob {
    pub text: String,
    pub method: PasteMethod,
    pub restore_delay_ms: u64,
    /// The shortcut that pastes, where it is not the usual one.
    pub paste_keys: Option<String>,
}

/// What to do next with a text.
#[derive(Debug, PartialEq, Eq)]
pub enum PasteStage {
    /// Put the text on the clipboard, and leave it there.
    CopyOnly(String),
    /// Read what the clipboard holds.
    ReadClipboard(PasteJob),
    /// Put the text on the clipboard; this was there before, if it is known.
    SetClipboard(PasteJob, Option<Vec<u8>>),
    /// Run `wtype`; this was on the clipboard before, if it is known.
    Type(PasteJob, Option<Vec<u8>>, WtypeRun),
    /// Wait so many milliseconds, and put back what was on the clipboard.
    Restore(u64, Vec<u8>),
    /// Nothing: this came of it.
    Done(Result<PasteOutcome, PasteError>),
}

/// What came of one of these.
#[derive(Debug, PartialEq, Eq)]
pub enum PasteEvent {
    Copied(Result<(), String>),
    ClipboardRead(Result<Option<Vec<u8>>, String>),
    Typed(Result<(), String>),
    Restored(Result<(), String>),
}

/// Whether a text is on its way as it should.
pub open spec fn is_job(
    job: PasteJob,
    text: Seq<char>,
    config: PasteConfig,
    paste_keys: Option<Seq<char>>,
) -> bool {
    &&& job.text@ == text
    &&& job.method == config.method
    &&& job.restore_delay_ms == config.restore_delay_ms
    &&& crate::text::opt_view(job.paste_keys) == paste_keys
}

/// Whether this is what to do first with a text: where the focus has moved it
/// is copied only; else the clipboard is read before it is overwritten, if it
/// is to get its content back.
pub open spec fn is_first(
    stage: PasteStage,
    text: Seq<char>,
    focus_safe: bool,
    config: PasteConfig,
    paste_keys: Option<Seq<char>>,
) -> bool {
    if !focus_safe {
        match config.on_focus_changed {
            FocusMismatchAction::Copy => stage matches PasteStage::CopyOnly(copied) && copied@
                == text,
        }
    } else if config.restore_clipboard {
        stage matches PasteStage::ReadClipboard(job) && is_job(job, text, config, paste_keys)
    } else {
        stage matches PasteStage::SetClipboard(job, previous) && is_job(
            job,
            text,
            config,
            paste_keys,
        ) && previous is None
    }
}

/// What to do first with a text, where the window in which the dictation began
/// still has the focus, or not.
pub fn paste_text(
    text: &str,
    focus_safe: bool,
    config: &PasteConfig,
    paste_keys: &Option<String>,
) -> (stage: PasteStage)
    ensures
        is_first(stage, text@, focus_safe, *config, crate::text::opt_view(*paste_keys)),
{
    if !focus_safe {
        return match config.on_focus_changed {
            FocusMismatchAction::Copy => PasteStage::CopyOnly(text.to_string()),
        };
    }
    let job = PasteJob {
        text: text.to_string(),
        method: config.method,
        restore_delay_ms: config.restore_delay_ms,
        paste_keys: copy_option(paste_keys),
    };
    if config.restore_clipboard {
        PasteStage::ReadClipboard(job)
    } else {
        PasteStage::SetClipboard(job, None)
    }
}

/// Whether this run of `wtype` pastes what is on the clipboard, or what is wrong
/// with the shortcut.
pub open spec fn is_paste_run(job: PasteJob, run: Result<WtypeRun, WtypeError>) -> bool {
    match job.paste_keys {
        Some(keys) => {
            &&& run matches Ok(run) ==> run.stdin is None
            &&& wtype::are_shortcut_args(args_of(run), keys@, wtype::shortcut_tokens(keys@))
        },
        None => run matches Ok(run) && run.stdin is None && views(run.args@) == seq![
            "-M"@,
            "ctrl"@,
            "-k"@,
            "v"@,
            "-m"@,
            "ctrl"@,
        ],
    }
}

/// The run of `wtype` that pastes what is on the clipboard.
fn paste_run(job: &PasteJob) -> (run: Result<WtypeRun, WtypeError>)
    ensures
        is_paste_run(*job, run),
{
    match &job.paste_keys {
        Some(keys) => wtype::press_shortcut(keys.as_str()),
        None => wtype::press_ctrl_v(),
    }
}

/// Whether this run of `wtype` types the text.
pub open spec fn is_typing_run(job: PasteJob, run: WtypeRun) -> bool {
    &&& views(run.args@) == seq!["-"@]
    &&& run.stdin matches Some(bytes) && bytes@ == utf8(job.text@)
}

/// What to do once the text is on the clipboard, or is not: with the clipboard
/// method that is an error, with the other one it is told.
pub open spec fn follows_copy(
    job: PasteJob,
    previous: Option<Vec<u8>>,
    copied: Result<(), String>,
    next: PasteStage,
    note: Option<Notification>,
) -> bool {
    match (job.method, copied) {
        (PasteMethod::Clipboard, Err(reason)) => {
            &&& next == PasteStage::Done(Err(PasteError::ClipboardUnavailable(reason)))
            &&& note is None
        },
        (PasteMethod::Clipboard, Ok(_)) => {
            &&& note is None
            &&& exists|run: Result<WtypeRun, WtypeError>|
                #![trigger is_paste_run(job, run)]
                is_paste_run(job, run) && match run {
                    Ok(run) => next == PasteStage::Type(job, previous, run),
                    Err(error) => next matches PasteStage::Done(
                        Err(PasteError::AutomationFailed(reason)),
                    ) && reason@ == error.words(),
                }
        },
        (PasteMethod::Wtype, _) => {
            &&& next matches PasteStage::Type(of, before, run) && of == job && before == previous
                && is_typing_run(job, run)
            &&& match copied {
                Ok(_) => note is None,
                Err(reason) => note matches Some(note) && note.says(
                    "Failed to copy generated text to the clipboard. "@ + reason@,
                ),
            }
        },
    }
}

/// Whether one stage follows on another, where this came of it, and whether
/// this is what the user is told. What does not answer to the stage leaves it
/// as it is.
pub open spec fn follows(
    stage: PasteStage,
    event: PasteEvent,
    next: PasteStage,
    note: Option<Notification>,
) -> bool {
    match (stage, event) {
        (PasteStage::CopyOnly(_), PasteEvent::Copied(copied)) => {
            &&& note is None
            &&& next == PasteStage::Done(
                match copied {
                    Ok(_) => Ok(PasteOutcome::CopiedOnly),
                    Err(reason) => Err(PasteError::ClipboardUnavailable(reason)),
                },
            )
        },
        (PasteStage::ReadClipboard(job), PasteEvent::ClipboardRead(Ok(content))) => {
            &&& next == PasteStage::SetClipboard(job, content)
            &&& note is None
        },
        (PasteStage::ReadClipboard(job), PasteEvent::ClipboardRead(Err(reason))) => {
            &&& next == PasteStage::SetClipboard(job, None)
            &&& note matches Some(note) && note.says(
                "Clipboard restore is unavailable; continuing without restoring the previous clipboard. "@
                    + reason@,
            )
        },
        (PasteStage::SetClipboard(job, previous), PasteEvent::Copied(copied)) => follows_copy(
            job,
            previous,
            copied,
            next,
            note,
        ),
        (PasteStage::Type(_, _, _), PasteEvent::Typed(Err(reason))) => {
            &&& next == PasteStage::Done(Err(PasteError::AutomationFailed(reason)))
            &&& note is None
        },
        (PasteStage::Type(job, previous, _), PasteEvent::Typed(Ok(_))) => {
            &&& next == (match previous {
                Some(content) => PasteStage::Restore(job.restore_delay_ms, content),
                None => PasteStage::Done(Ok(PasteOutcome::Pasted)),
            })
            &&& note is None
        },
        (PasteStage::Restore(_, _), PasteEvent::Restored(restored)) => {
            &&& next == PasteStage::Done(Ok(PasteOutcome::Pasted))
            &&& match restored {
                Ok(_) => note is None,
                Err(reason) => note matches Some(note) && note.says(
                    "Failed to restore the previous clipboard after paste. "@ + reason@,
                ),
            }
        },
        _ => next == stage && note is None,
    }
}

/// What to do once the text is on the clipboard, or is not.
fn after_copy(job: PasteJob, previous: Option<Vec<u8>>, copied: Result<(), String>) -> (step: (
    PasteStage,
    Option<Notification>,
))
    ensures
        follows_copy(job, previous, copied, step.0, step.1),
{
    match job.method {
        PasteMethod::Clipboard => match copied {
            Err(reason) => (
                PasteStage::Done(Err(PasteError::ClipboardUnavailable(reason))),
                None,
            ),
            Ok(_) => {
                let run = paste_run(&job);
                assert(is_paste_run(job, run));
                match run {
                    Ok(run) => (PasteStage::Type(job, previous, run), None),
                    Err(error) => (
                        PasteStage::Done(Err(PasteError::AutomationFailed(error.message()))),
                        None,
                    ),
                }
            },
        },
        PasteMethod::Wtype => {
            let run = wtype::type_text(job.text.as_str());
            match copied {
                Ok(_) => (PasteStage::Type(job, previous, run), None),
                Err(reason) => (
                    PasteStage::Type(job, previous, run),
                    Some(notify::paste_copy_failed(reason.as_str())),
                ),
            }
        },
    }
}

/// What to do next with a text, starting with [`paste_text`], where this came of
/// what was done, and what to tell the user at that. What does not answer to
/// the stage leaves it as it is.
pub fn advance(stage: PasteStage, event: PasteEvent) -> (step: (PasteStage, Option<Notification>))
    ensures
        follows(stage, event, step.0, step.1),
{
    match stage {
        PasteStage::CopyOnly(text) => match event {
            PasteEvent::Copied(Ok(_)) => (PasteStage::Done(Ok(PasteOutcome::CopiedOnly)), None),
            PasteEvent::Copied(Err(reason)) => (
                PasteStage::Done(Err(PasteError::ClipboardUnavailable(reason))),
                None,
            ),
            _ => (PasteStage::CopyOnly(text), None),
        },
        PasteStage::ReadClipboard(job) => match event {
            PasteEvent::ClipboardRead(Ok(content)) => (
                PasteStage::SetClipboard(job, content),
                None,
            ),
            PasteEvent::ClipboardRead(Err(reason)) => (
                PasteStage::SetClipboard(job, None),
                Some(notify::clipboard_restore_unavailable(reason.as_str())),
            ),
            _ => (PasteStage::ReadClipboard(job), None),
        },
        PasteStage::SetClipboard(job, previous) => match event {
            PasteEvent::Copied(copied) => after_copy(job, previous, copied),
            _ => (PasteStage::SetClipboard(job, previous), None),
        },
        PasteStage::Type(job, previous, run) => match event {
            PasteEvent::Typed(Err(reason)) => (
                PasteStage::Done(Err(PasteError::AutomationFailed(reason))),
                None,
            ),
            PasteEvent::Typed(Ok(_)) => match previous {
                Some(content) => (PasteStage::Restore(job.restore_delay_ms, content), None),
                None => (PasteStage::Done(Ok(PasteOutcome::Pasted)), None),
            },
            _ => (PasteStage::Type(job, previous, run), None),
        },
        PasteStage::Restore(delay, content) => match event {
            PasteEvent::Restored(Ok(_)) => (PasteStage::Done(Ok(PasteOutcome::Pasted)), None),
            PasteEvent::Restored(Err(reason)) => (
                PasteStage::Done(Ok(PasteOutcome::Pasted)),
                Some(notify::clipboard_restore_failed(reason.as_str())),
            ),
            _ => (PasteStage::Restore(delay, content), None),
        },
        PasteStage::Done(outcome) => (PasteStage::Done(outcome), None),
    }
}

/// Whether a stage follows on the one before it.
pub open spec fn step(stages: Seq<PasteStage>, events: Seq<PasteEvent>, at: int) -> bool {
    can_follow(stages[at], events[at], stages[at + 1])
}

/// Whether one stage follows on another, whatever the user is told.
pub open spec fn can_follow(stage: PasteStage, event: PasteEvent, next: PasteStage) -> bool {
    exists|note: Option<Notification>| #[trigger] follows(stage, event, next, note)
}

/// Whether each of the stages but the first follows on the one before it.
pub open spec fn is_run(stages: Seq<PasteStage>, events: Seq<PasteEvent>) -> bool {
    &&& stages.len() == events.len() + 1
    &&& forall|i: int| 0 <= i < events.len() ==> #[trigger] step(stages, events, i)
}

/// Where the focus has moved, no key is ever struck, whatever happens, and
/// nothing is reported as pasted: the text is copied, and that is all.
pub proof fn law_no_keys_into_another_window(
    stages: Seq<PasteStage>,
    events: Seq<PasteEvent>,
    text: Seq<char>,
    config: PasteConfig,
    paste_keys: Option<Seq<char>>,
    at: int,
)
    requires
        is_run(stages, events),
        is_first(stages[0], text, false, config, paste_keys),
        0 <= at < stages.len(),
    ensures
        !(stages[at] is Type),
        stages[at] != PasteStage::Done(Ok(PasteOutcome::Pasted)),
        stages[at] is CopyOnly || stages[at] is Done,
    decreases at,
{
    if at > 0 {
        law_no_keys_into_another_window(stages, events, text, config, paste_keys, at - 1);
        assert(step(stages, events, at - 1));
    }
}

/// What is reported as pasted was typed: `wtype` was run and succeeded.
pub proof fn law_pasted_was_typed(
    stages: Seq<PasteStage>,
    events: Seq<PasteEvent>,
    text: Seq<char>,
    focus_safe: bool,
    config: PasteConfig,
    paste_keys: Option<Seq<char>>,
    at: int,
)
    requires
        is_run(stages, events),
        is_first(stages[0], text, focus_safe, config, paste_keys),
        0 <= at < stages.len(),
        stages[at] == PasteStage::Done(Ok(PasteOutcome::Pasted)) || stages[at] is Restore,
    ensures
        exists|i: int| 0 <= i < at && (#[trigger] stages[i]) is Type && was_typed(events[i]),
    decreases at,
{
    if at > 0 {
        assert(step(stages, events, at - 1));
        let before = stages[at - 1];
        if before == PasteStage::Done(Ok(PasteOutcome::Pasted)) || before is Restore {
            law_pasted_was_typed(
                stages,
                events,
                text,
                focus_safe,
                config,
                paste_keys,
                at - 1,
            );
        } else {
            assert(stages[at - 1] is Type && was_typed(events[at - 1]));
        }
    }
}

/// Whether an event says that `wtype` succeeded.
pub open spec fn was_typed(event: PasteEvent) -> bool {
    event matches PasteEvent::Typed(typed) && typed is Ok
}

/// What was on the clipboard, at a stage before it is put back.
pub open spec fn previous_of(stage: PasteStage) -> Option<Vec<u8>> {
    match stage {
        PasteStage::SetClipboard(_, previous) => previous,
        PasteStage::Type(_, previous, _) => previous,
        _ => None,
    }
}

/// Where it is known what was on the clipboard, nothing is reported as pasted
/// before that was put back.
pub proof fn law_clipboard_is_restored(
    stages: Seq<PasteStage>,
    events: Seq<PasteEvent>,
    content: Vec<u8>,
    from: int,
    at: int,
)
    requires
        is_run(stages, events),
        0 <= from <= at < stages.len(),
        previous_of(stages[from]) == Some(content),
    ensures
        previous_of(stages[at]) == Some(content) || (stages[at] matches PasteStage::Done(outcome)
            && outcome is Err) || (exists|i: int|
            from <= i <= at && #[trigger] is_restoring(stages[i], content)),
    decreases at,
{
    if at > from {
        law_clipboard_is_restored(stages, events, content, from, at - 1);
        assert(step(stages, events, at - 1));
        if exists|i: int| from <= i <= at - 1 && #[trigger] is_restoring(stages[i], content) {
            let i = choose|i: int|
                from <= i <= at - 1 && #[trigger] is_restoring(stages[i], content);
            assert(from <= i <= at && is_restoring(stages[i], content));
        } else if previous_of(stages[at - 1]) == Some(content) {
            if stages[at] is Restore {
                assert(is_restoring(stages[at], content));
            }
        }
    }
}

/// Whether this puts something back on the clipboard.
pub open spec fn is_restoring(stage: PasteStage, content: Vec<u8>) -> bool {
    stage matches PasteStage::Restore(_, bytes) && bytes == content
}

/// Where the window in which the dictation began has the focus, the text goes on
/// the clipboard and is pasted from there, or typed, as is configured; what was on
/// the clipboard is read before, if it is to be put back, and is put back in the
/// end after as long as is configured.
pub proof fn law_text_gets_into_the_window(
    text: &str,
    config: PasteConfig,
    paste_keys: Option<String>,
    content: Option<Vec<u8>>,
    first: PasteStage,
    read: (PasteStage, Option<Notification>),
    copied: (PasteStage, Option<Notification>),
    typed: (PasteStage, Option<Notification>),
    restored: (PasteStage, Option<Notification>),
)
    requires
        call_ensures(paste_text, (text, true, &config, &paste_keys), first),
        if config.restore_clipboard {
            call_ensures(advance, (first, PasteEvent::ClipboardRead(Ok(content))), read)
        } else {
            read.0 == first
        },
        call_ensures(advance, (read.0, PasteEvent::Copied(Ok(()))), copied),
        call_ensures(advance, (copied.0, PasteEvent::Typed(Ok(()))), typed),
        call_ensures(advance, (typed.0, PasteEvent::Restored(Ok(()))), restored),
    ensures
        config.restore_clipboard <==> first is ReadClipboard,
        read.0 matches PasteStage::SetClipboard(job, _) && job.text@ == text@,
        config.method is Wtype ==> (copied.0 matches PasteStage::Type(_, _, run) && (
        run.stdin matches Some(bytes) && bytes@ == utf8(text@)) && views(run.args@) == seq!["-"@]),
        config.method is Clipboard && paste_keys is None ==> (copied.0 matches PasteStage::Type(
            _,
            _,
            run,
        ) && run.stdin is None && views(run.args@) == seq![
            "-M"@,
            "ctrl"@,
            "-k"@,
            "v"@,
            "-m"@,
            "ctrl"@,
        ]),
        config.method is Clipboard ==> (paste_keys matches Some(keys) ==> match copied.0 {
            PasteStage::Type(_, _, run) => run.stdin is None && wtype::are_shortcut_args(
                Ok(run.args),
                keys@,
                wtype::shortcut_tokens(keys@),
            ),
            PasteStage::Done(outcome) => outcome matches Err(error) && error is AutomationFailed,
            _ => false,
        }),
        copied.0 is Type && config.restore_clipboard && content is Some ==> typed.0
            == PasteStage::Restore(config.restore_delay_ms, content->0) && restored.0
            == PasteStage::Done(Ok(PasteOutcome::Pasted)),
        copied.0 is Type && !(config.restore_clipboard && content is Some) ==> typed.0
            == PasteStage::Done(Ok(PasteOutcome::Pasted)),
        copied.1 is None && typed.1 is None && restored.1 is None,
{
    if config.method is Clipboard {
        if let PasteStage::SetClipboard(job, previous) = read.0 {
            let run = choose|run: Result<WtypeRun, WtypeError>|
                #![trigger is_paste_run(job, run)]
                is_paste_run(job, run) && match run {
                    Ok(run) => copied.0 == PasteStage::Type(job, previous, run),
                    Err(error) => copied.0 matches PasteStage::Done(
                        Err(PasteError::AutomationFailed(reason)),
                    ) && reason@ == error.words(),
                };
            assert(is_paste_run(job, run));
        }
    }
}

/// Where the focus has moved, the text is copied, and that is what is reported;
/// where it cannot be copied, that is.
pub proof fn law_moved_focus_means_a_copy(
    text: &str,
    config: PasteConfig,
    paste_keys: Option<String>,
    first: PasteStage,
    copied: Result<(), String>,
    ended: (PasteStage, Option<Notification>),
)
    requires
        call_ensures(paste_text, (text, false, &config, &paste_keys), first),
        call_ensures(advance, (first, PasteEvent::Copied(copied)), ended),
    ensures
        first matches PasteStage::CopyOnly(held) && held@ == text@,
        copied is Ok ==> ended.0 == PasteStage::Done(Ok(PasteOutcome::CopiedOnly)),
        copied matches Err(why) ==> ended.0 == PasteStage::Done(
            Err(PasteError::ClipboardUnavailable(why)),
        ),
{
}

/// What fails on the way is reported as what it said: a text that cannot be put
/// on the clipboard, which is no obstacle only where it is typed, and keys that
/// cannot be struck. A clipboard that cannot be read or put back is none; the
/// user is told.
pub proof fn law_failed_paste_is_reported(
    stage: PasteStage,
    event: PasteEvent,
    step: (PasteStage, Option<Notification>),
)
    requires
        call_ensures(advance, (stage, event), step),
    ensures
        stage matches PasteStage::SetClipboard(job, previous) ==> (event matches PasteEvent::Copied(
            Err(why),
        ) ==> match job.method {
            PasteMethod::Clipboard => step.0 == PasteStage::Done(
                Err(PasteError::ClipboardUnavailable(why)),
            ),
            PasteMethod::Wtype => step.0 is Type && is_told(step.1, why@),
        }),
        stage is Type ==> (event matches PasteEvent::Typed(Err(why)) ==> step.0
            == PasteStage::Done(Err(PasteError::AutomationFailed(why)))),
        stage matches PasteStage::ReadClipboard(job) ==> (event matches PasteEvent::ClipboardRead(
            Err(why),
        ) ==> step.0 == PasteStage::SetClipboard(job, None) && is_told(step.1, why@)),
        stage is Restore ==> (event matches PasteEvent::Restored(Err(why)) ==> step.0
            == PasteStage::Done(Ok(PasteOutcome::Pasted)) && is_told(step.1, why@)),
        stage is Done ==> step.0 == stage,
{
    if let Some(note) = step.1 {
        let body = note.body@;
        match event {
            PasteEvent::Copied(Err(why)) | PasteEvent::Typed(Err(why)) | PasteEvent::Restored(
                Err(why),
            ) => {
                assert(body.subrange(body.len() - why@.len(), body.len() as int) =~= why@);
            },
            PasteEvent::ClipboardRead(Err(why)) => {
                assert(body.subrange(body.len() - why@.len(), body.len() as int) =~= why@);
            },
            _ => {},
        }
    }
}

/// Whether the user is told something that ends with these words.
pub open spec fn is_told(note: Option<Notification>, words: Seq<char>) -> bool {
    note matches Some(note) && words.is_suffix_of(note.body@)
}

/// What an error says ends with the reason for it.
pub proof fn law_paste_error_gives_its_reason(error: PasteError, text: String)
    requires
        call_ensures(PasteError::message, (&error,), text),
    ensures
        match error {
            PasteError::ClipboardUnavailable(why) => why@.is_suffix_of(text@),
            PasteError::AutomationFailed(why) => why@.is_suffix_of(text@),
        },
{
    let why = error.reason()@;
    let words = text@;
    assert(words.subrange(words.len() - why.len(), words.len() as int) =~= why);
}

/// What does not answer to a stage changes nothing, and nobody is told anything; a
/// paste that is over stays over.
pub proof fn law_stray_event_changes_nothing(
    stage: PasteStage,
    event: PasteEvent,
    step: (PasteStage, Option<Notification>),
)
    requires
        call_ensures(advance, (stage, event), step),
        stage is CopyOnly || stage is SetClipboard ==> !(event is Copied),
        stage is ReadClipboard ==> !(event is ClipboardRead),
        stage is Type ==> !(event is Typed),
        stage is Restore ==> !(event is Restored),
    ensures
        step.0 == stage,
        step.1 is None,
{
}

} // verus!
