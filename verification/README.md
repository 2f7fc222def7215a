# ut

Dictation control for Sway and Wayland: tap a key to record, tap again to have
the recording transcribed and pasted into the window in which it began.

- `src/` holds what `ut` decides, verified with Verus. The library opens no
  file, runs no program and waits for nothing. Where something is to be done
  outside, a function returns the next stage of the work and takes what came of
  it; the stages and their order are stated in contracts, and what holds of every
  run is proved in the functions whose names begin with `law_`.
- `app/` does what is to be done: files, sockets, threads, the microphone, HTTP,
  the overlay, and everything that takes floating point.
- `tests/` runs the library on concrete values.

| Module | What it is about |
| --- | --- |
| `dispatch`, `instance` | from an invocation to the owner of the session, and the lock |
| `processes` | many invocations at once: at most one owner |
| `ipc`, `state` | the control state that threads share, and the state file |
| `session` | one dictation, stage by stage |
| `paste`, `notify` | getting text into the right window, and what the user is told |
| `gemma`, `prompt`, `base64` | asking the model |
| `audio` | WAV files, trimming, the hold of the speech detector, the capture buffer |
| `context`, `json` | which window has the focus |
| `overlay` | what the status overlay shows, and for how long |
| `config`, `health` | the configuration and the health check |
| `calendar`, `path`, `text` | dates, paths and text |
