//! The clipboard, through `wl-copy` and `wl-paste`.

use crate::path::{bytes_of, utf8};
use crate::text::{decode_lossy, lossy_text, trim, trimmed};
use vstd::prelude::*;

verus! {

/// How a program ended.
#[derive(Debug, Clone, PartialEq, Eq)]
pub enum Exit {
    Success,
    /// It failed, with this status.
    Status(String),
}

/// The bytes that put a text on the clipboard.
pub fn set_clipboard(text: &str) -> (bytes: Vec<u8>)
    ensures
        bytes@ == utf8(text@),
{
    bytes_of(text)
}

/// Whether the bytes are on the clipboard, once `wl-copy` has ended.
pub fn set_clipboard_bytes(exit: Exit) -> (copied: Result<(), String>)
    ensures
        match exit {
            Exit::Success => copied is Ok,
            Exit::Status(status) => copied matches Err(reason) && reason@ == "wl-copy exited with "@
                + status@,
        },
{
    match exit {
        Exit::Success => Ok(()),
        Exit::Status(status) => {
            let mut reason: String = "wl-copy exited with ".to_string();
            reason.append(status.as_str());
            Err(reason)
        },
    }
}

/// What the clipboard holds, once `wl-paste` has ended: what it printed where it
/// succeeded; nothing where it failed without a word; else an error.
pub fn get_clipboard(exit: Exit, stdout: Vec<u8>, stderr: &[u8]) -> (content: Result<
    Option<Vec<u8>>,
    String,
>)
    ensures
        match exit {
            Exit::Success => content == Ok::<Option<Vec<u8>>, String>(Some(stdout)),
            Exit::Status(status) => if stdout@.len() == 0 && stderr@.len() == 0 {
                content == Ok::<Option<Vec<u8>>, String>(None)
            } else {
                content matches Err(reason) && reason@ == "wl-paste exited with "@ + status@ + ": "@
                    + trimmed(lossy_text(stderr@))
            },
        },
{
    match exit {
        Exit::Success => Ok(Some(stdout)),
        Exit::Status(status) => {
            if stdout.len() == 0 && stderr.len() == 0 {
                return Ok(None);
            }
            let mut reason: String = "wl-paste exited with ".to_string();
            reason.append(status.as_str());
            reason.append(": ");
            reason.append(trim(decode_lossy(stderr).as_str()));
            Err(reason)
        },
    }
}

/// What was printed is what the clipboard holds, as it is, where `wl-paste`
/// succeeded; a failure without a word means that it holds nothing, and any other
/// one is an error.
pub proof fn law_clipboard_is_what_was_printed(
    exit: Exit,
    stdout: Vec<u8>,
    stderr: &[u8],
    content: Result<Option<Vec<u8>>, String>,
)
    requires
        call_ensures(get_clipboard, (exit, stdout, stderr), content),
    ensures
        exit is Success ==> (content matches Ok(Some(bytes)) && bytes@ == stdout@),
        exit is Status && stdout@.len() == 0 && stderr@.len() == 0 <==> (content matches Ok(found)
            && found is None),
        exit is Status && (stdout@.len() > 0 || stderr@.len() > 0) <==> content is Err,
{
}

/// A text is put on the clipboard as its bytes, and is there where `wl-copy`
/// succeeded.
pub proof fn law_text_is_copied_as_it_is(
    text: &str,
    bytes: Vec<u8>,
    exit: Exit,
    copied: Result<(), String>,
)
    requires
        call_ensures(set_clipboard, (text,), bytes),
        call_ensures(set_clipboard_bytes, (exit,), copied),
    ensures
        bytes@ == vstd::utf8::encode_utf8(text@),
        copied is Ok <==> exit is Success,
{
}

} // verus!
