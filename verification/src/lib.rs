//! Dictation control for Sway and Wayland: the rules behind the `ut` command.
//!
//! The library decides; it opens no file, runs no program and waits for
//! nothing. Where something is to be done outside, a function here returns what
//! is to be done next and takes what came of it.

use vstd::prelude::*;

pub mod audio;
pub mod base64;
pub mod calendar;
pub mod config;
pub mod context;
pub mod dispatch;
pub mod gemma;
pub mod health;
pub mod instance;
pub mod ipc;
pub mod json;
pub mod notify;
pub mod overlay;
pub mod paste;
pub mod path;
pub mod processes;
pub mod prompt;
pub mod session;
pub mod state;
pub mod text;

verus! {

/// What the user asks for.
#[derive(Debug, Clone, PartialEq, Eq)]
pub enum Invocation {
    /// Start recording, and keep the audio in a directory if one is given.
    Start { save_to: Option<Vec<u8>> },
    /// Stop recording, transcribe and paste.
    Stop,
    /// Stop if a session is going on, start one otherwise.
    Toggle,
    /// End the session without a result.
    Abort,
    /// Say in which phase the session is.
    Status,
    /// Check that everything that a session needs is there.
    Health,
}

/// What to do first for an invocation.
pub fn run(invocation: Invocation) -> (stage: dispatch::Stage)
    ensures
        stage == dispatch::first_stage(invocation),
{
    dispatch::run(invocation)
}

} // verus!
