//! What the user is told.

use vstd::prelude::*;

verus! {

/// Something that can show a message to the user.
pub trait Notifier: Send + Sync {
    /// Shows a message.
    fn notify(&self, title: &str, body: &str) -> (shown: Result<(), String>);
}

/// Shows nothing.
#[derive(Debug)]
pub struct NoopNotifier;

impl Default for NoopNotifier {
    fn default() -> (notifier: Self)
        ensures
            notifier == NoopNotifier,
    {
        NoopNotifier
    }
}

impl Notifier for NoopNotifier {
    /// Succeeds without showing anything.
    fn notify(&self, _title: &str, _body: &str) -> (shown: Result<(), String>)
        ensures
            shown is Ok,
    {
        Ok(())
    }
}

/// A message to the user.
#[derive(Debug, Clone, PartialEq, Eq)]
pub struct Notification {
    pub title: String,
    pub body: String,
}

impl Notification {
    /// Whether the message says just this.
    pub open spec fn says(self, body: Seq<char>) -> bool {
        self.title@ == "ut"@ && self.body@ == body
    }

    fn new(body: String) -> (note: Self)
        ensures
            note.says(body@),
    {
        Notification { title: "ut".to_string(), body }
    }

    fn with_details(body: &str, details: &str) -> (note: Self)
        ensures
            note.says(body@ + details@),
    {
        let mut text: String = body.to_string();
        text.append(details);
        Notification::new(text)
    }
}

/// What came of running `notify-send`.
#[derive(Debug, Clone, PartialEq, Eq)]
pub enum NotifyStatus {
    Success,
    ExitedWith(String),
    NotFound,
    Failed(String),
}

/// A line for the error output that tells what a message would have told.
pub open spec fn fallback_line(what: Seq<char>, title: Seq<char>, body: Seq<char>) -> Seq<char> {
    "ut: notify-send "@ + what + ": "@ + title + ": "@ + body
}

/// What to do once `notify-send` was run: nothing where it succeeded; print a
/// line in its stead where it failed or is missing; report the error where it
/// could not be run.
pub fn notify(title: &str, body: &str, status: NotifyStatus) -> (line: Result<
    Option<String>,
    String,
>)
    ensures
        match status {
            NotifyStatus::Success => line == Ok::<Option<String>, String>(None),
            NotifyStatus::ExitedWith(code) => line matches Ok(Some(text)) && text@
                == fallback_line("exited with "@ + code@, title@, body@),
            NotifyStatus::NotFound => line matches Ok(Some(text)) && text@ == fallback_line(
                "missing"@,
                title@,
                body@,
            ),
            NotifyStatus::Failed(reason) => line == Err::<Option<String>, String>(reason),
        },
{
    match status {
        NotifyStatus::Success => Ok(None),
        NotifyStatus::ExitedWith(code) => {
            let mut text: String = "ut: notify-send ".to_string();
            let mut what: String = "exited with ".to_string();
            what.append(code.as_str());
            text.append(what.as_str());
            text.append(": ");
            text.append(title);
            text.append(": ");
            text.append(body);
            Ok(Some(text))
        },
        NotifyStatus::NotFound => {
            let mut text: String = "ut: notify-send ".to_string();
            text.append("missing");
            text.append(": ");
            text.append(title);
            text.append(": ");
            text.append(body);
            Ok(Some(text))
        },
        NotifyStatus::Failed(reason) => Err(reason),
    }
}

/// Says that the text was copied because the focus moved.
pub fn focus_changed() -> (note: Notification)
    ensures
        note.says(
            "Focus changed while dictation was processing; the generated text was copied to the clipboard instead of pasted."@,
        ),
{
    Notification::new(
        "Focus changed while dictation was processing; the generated text was copied to the clipboard instead of pasted.".to_string(),
    )
}

/// Says that the text has to be pasted by hand.
pub fn manual_paste_required(details: &str) -> (note: Notification)
    ensures
        note.says(
            "Paste automation failed; the generated text is on the clipboard. Paste it manually. "@
                + details@,
        ),
{
    Notification::with_details(
        "Paste automation failed; the generated text is on the clipboard. Paste it manually. ",
        details,
    )
}

/// Says that the clipboard will not get its content back.
pub fn clipboard_restore_unavailable(details: &str) -> (note: Notification)
    ensures
        note.says(
            "Clipboard restore is unavailable; continuing without restoring the previous clipboard. "@
                + details@,
        ),
{
    Notification::with_details(
        "Clipboard restore is unavailable; continuing without restoring the previous clipboard. ",
        details,
    )
}

/// Says that the clipboard did not get its content back.
pub fn clipboard_restore_failed(details: &str) -> (note: Notification)
    ensures
        note.says("Failed to restore the previous clipboard after paste. "@ + details@),
{
    Notification::with_details(
        "Failed to restore the previous clipboard after paste. ",
        details,
    )
}

/// Says that the text is not on the clipboard.
pub fn paste_copy_failed(details: &str) -> (note: Notification)
    ensures
        note.says("Failed to copy generated text to the clipboard. "@ + details@),
{
    Notification::with_details("Failed to copy generated text to the clipboard. ", details)
}

/// What the user is told of a failure ends with the reason for it; every message
/// comes from `ut`.
pub proof fn law_messages_give_the_reason(
    details: &str,
    manual: Notification,
    unavailable: Notification,
    failed: Notification,
    copy: Notification,
)
    requires
        call_ensures(manual_paste_required, (details,), manual),
        call_ensures(clipboard_restore_unavailable, (details,), unavailable),
        call_ensures(clipboard_restore_failed, (details,), failed),
        call_ensures(paste_copy_failed, (details,), copy),
    ensures
        details@.is_suffix_of(manual.body@),
        details@.is_suffix_of(unavailable.body@),
        details@.is_suffix_of(failed.body@),
        details@.is_suffix_of(copy.body@),
        manual.title@ == "ut"@ && unavailable.title@ == "ut"@ && failed.title@ == "ut"@
            && copy.title@ == "ut"@,
{
    let n: int = details@.len() as int;
    let (a, b, c, d) = (manual.body@, unavailable.body@, failed.body@, copy.body@);
    assert(a.subrange(a.len() - n, a.len() as int) =~= details@);
    assert(b.subrange(b.len() - n, b.len() as int) =~= details@);
    assert(c.subrange(c.len() - n, c.len() as int) =~= details@);
    assert(d.subrange(d.len() - n, d.len() as int) =~= details@);
}

/// A message that could not be shown is printed, with its title and its words; one
/// that was shown is not; and only where `notify-send` could not be run at all is
/// that an error.
pub proof fn law_message_is_not_lost(
    title: &str,
    body: &str,
    status: NotifyStatus,
    line: Result<Option<String>, String>,
)
    requires
        call_ensures(notify, (title, body, status), line),
    ensures
        status is Success <==> (line matches Ok(printed) && printed is None),
        status is ExitedWith || status is NotFound <==> (line matches Ok(printed) && printed
            is Some),
        status matches NotifyStatus::Failed(why) ==> line == Err::<Option<String>, String>(why),
        line matches Ok(Some(text)) ==> body@.is_suffix_of(text@) && crate::text::has_text(
            text@,
            title@,
        ),
{
    if let Ok(Some(text)) = line {
        let words = text@;
        assert(words.subrange(words.len() - body@.len(), words.len() as int) =~= body@);
        let at: int = words.len() - body@.len() - ": "@.len() - title@.len();
        assert(words.subrange(at, at + title@.len()) =~= title@);
        assert(crate::text::occurs_at(words, title@, at));
    }
}

} // verus!
