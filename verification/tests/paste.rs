use ut::config::{PasteConfig, PasteMethod};
use ut::notify::{
    clipboard_restore_failed, clipboard_restore_unavailable, focus_changed, manual_paste_required,
    notify, paste_copy_failed, NoopNotifier, Notifier, NotifyStatus,
};
use ut::paste::clipboard::{get_clipboard, set_clipboard, set_clipboard_bytes, Exit};
use ut::paste::wtype::{
    normalize_modifier, press_ctrl_v, press_shortcut, run_wtype, shortcut_to_wtype_args, type_text,
    wtype_args, WtypeError,
};
use ut::paste::{advance, paste_text, PasteError, PasteEvent, PasteOutcome, PasteStage};

fn strings(texts: &[&str]) -> Vec<String> {
    texts.iter().map(|text| text.to_string()).collect()
}

fn start(focus_safe: bool, method: PasteMethod, restore: bool, keys: Option<&str>) -> PasteStage {
    let config = PasteConfig { method, restore_clipboard: restore, ..PasteConfig::default() };
    paste_text("hello", focus_safe, &config, &keys.map(str::to_string))
}

fn bodies(stage: PasteStage, events: Vec<PasteEvent>) -> (PasteStage, Vec<String>) {
    let mut stage = stage;
    let mut told = Vec::new();
    for event in events {
        let (next, note) = advance(stage, event);
        stage = next;
        if let Some(note) = note {
            assert_eq!(note.title, "ut");
            told.push(note.body);
        }
    }
    (stage, told)
}

#[test]
fn paste_error_formats_useful_messages() {
    let clipboard = PasteError::ClipboardUnavailable("wl-copy missing".to_string());
    let automation = PasteError::AutomationFailed("wtype missing".to_string());

    assert!(clipboard.message().contains("clipboard unavailable"));
    assert!(automation.message().contains("paste automation failed"));
    assert_eq!(clipboard.message(), "clipboard unavailable: wl-copy missing");
    assert_eq!(automation.message(), "paste automation failed: wtype missing");
}

#[test]
fn shortcut_args_match_expected_wtype_sequence() {
    let args = shortcut_to_wtype_args("ctrl+shift+v").expect("valid shortcut");
    assert_eq!(
        args,
        vec![
            "-M".to_string(),
            "ctrl".to_string(),
            "-M".to_string(),
            "shift".to_string(),
            "-k".to_string(),
            "v".to_string(),
            "-m".to_string(),
            "shift".to_string(),
            "-m".to_string(),
            "ctrl".to_string(),
        ]
    );
}

#[test]
fn shortcut_args_reject_empty_segments() {
    assert!(shortcut_to_wtype_args("ctrl++v").is_err());
    for sequence in ["ctrl++v", "", "+", "ctrl+ ", " +v"] {
        let error = shortcut_to_wtype_args(sequence).unwrap_err();
        assert_eq!(error, WtypeError::InvalidShortcut(sequence.to_string()));
        assert_eq!(error.message(), format!("invalid paste shortcut: {sequence}"));
    }
}

#[test]
fn shortcut_args_ignore_case_and_white_space() {
    assert_eq!(
        shortcut_to_wtype_args(" Control + META+Insert ").unwrap(),
        strings(&["-M", "ctrl", "-M", "super", "-k", "insert", "-m", "super", "-m", "ctrl"])
    );
    assert_eq!(shortcut_to_wtype_args("\u{c4}").unwrap(), strings(&["-k", "\u{e4}"]));
    assert_eq!(shortcut_to_wtype_args("F5").unwrap(), strings(&["-k", "f5"]));
}

#[test]
fn shortcut_args_go_by_the_tokens_that_are_given() {
    assert_eq!(
        wtype_args("shown", &strings(&["alt", "tab"])).unwrap(),
        strings(&["-M", "alt", "-k", "tab", "-m", "alt"])
    );
    assert_eq!(
        wtype_args("shown", &strings(&["alt", ""])),
        Err(WtypeError::InvalidShortcut("shown".to_string()))
    );
    assert_eq!(wtype_args("shown", &vec![]), Err(WtypeError::InvalidShortcut("shown".to_string())));
}

#[test]
fn unknown_modifiers_are_rejected() {
    let error = shortcut_to_wtype_args("ctrl+hyper+other+v").unwrap_err();
    assert_eq!(error, WtypeError::UnsupportedModifier("hyper".to_string()));
    assert_eq!(error.message(), "unsupported paste shortcut modifier: hyper");
}

#[test]
fn modifiers_have_their_names() {
    let names = [
        ("ctrl", "ctrl"),
        ("control", "ctrl"),
        ("shift", "shift"),
        ("alt", "alt"),
        ("option", "alt"),
        ("mod1", "alt"),
        ("super", "super"),
        ("meta", "super"),
        ("win", "super"),
        ("mod4", "super"),
    ];
    for (token, name) in names {
        assert_eq!(normalize_modifier(token).unwrap(), name);
    }
    assert!(normalize_modifier("Ctrl").is_err());
}

#[test]
fn runs_of_wtype() {
    let run = press_ctrl_v().unwrap();
    assert_eq!(run.args, strings(&["-M", "ctrl", "-k", "v", "-m", "ctrl"]));
    assert_eq!(run.stdin, None);
    assert_eq!(press_shortcut("ctrl+v").unwrap(), run);
    let run = type_text("h\u{e9}");
    assert_eq!(run.args, strings(&["-"]));
    assert_eq!(run.stdin, Some("h\u{e9}".as_bytes().to_vec()));
    assert_eq!(run_wtype(Exit::Success), Ok(()));
    assert_eq!(
        run_wtype(Exit::Status("exit status: 1".to_string())),
        Err("wtype exited with exit status: 1".to_string())
    );
}

#[test]
fn clipboard_programs() {
    assert_eq!(set_clipboard("h\u{e9}"), vec![0x68, 0xc3, 0xa9]);
    assert_eq!(set_clipboard_bytes(Exit::Success), Ok(()));
    let failed = || Exit::Status("exit status: 1".to_string());
    assert_eq!(
        set_clipboard_bytes(failed()),
        Err("wl-copy exited with exit status: 1".to_string())
    );
    assert_eq!(get_clipboard(Exit::Success, vec![1], b"noise"), Ok(Some(vec![1])));
    assert_eq!(get_clipboard(Exit::Success, vec![], b""), Ok(Some(vec![])));
    assert_eq!(get_clipboard(failed(), vec![], b""), Ok(None));
    assert_eq!(
        get_clipboard(failed(), vec![], b"Nothing is copied\n"),
        Err("wl-paste exited with exit status: 1: Nothing is copied".to_string())
    );
    assert_eq!(
        get_clipboard(failed(), vec![], b"bad \xff\n"),
        Err("wl-paste exited with exit status: 1: bad \u{fffd}".to_string())
    );
    assert_eq!(
        get_clipboard(failed(), vec![1], b""),
        Err("wl-paste exited with exit status: 1: ".to_string())
    );
}

#[test]
fn focus_moved_means_copy_only() {
    for method in [PasteMethod::Clipboard, PasteMethod::Wtype] {
        let stage = start(false, method, true, Some("ctrl+shift+v"));
        assert_eq!(stage, PasteStage::CopyOnly("hello".to_string()));
        let (stage, told) = bodies(stage, vec![PasteEvent::Typed(Ok(())), PasteEvent::Copied(Ok(()))]);
        assert_eq!(stage, PasteStage::Done(Ok(PasteOutcome::CopiedOnly)));
        assert!(told.is_empty());
    }
    let (stage, _) = bodies(
        start(false, PasteMethod::Clipboard, true, None),
        vec![PasteEvent::Copied(Err("gone".to_string()))],
    );
    assert_eq!(
        stage,
        PasteStage::Done(Err(PasteError::ClipboardUnavailable("gone".to_string())))
    );
}

#[test]
fn paste_by_clipboard_restores_what_was_there() {
    let stage = start(true, PasteMethod::Clipboard, true, None);
    assert!(matches!(stage, PasteStage::ReadClipboard(_)));
    let (stage, _) = bodies(
        stage,
        vec![PasteEvent::ClipboardRead(Ok(Some(vec![1, 2]))), PasteEvent::Copied(Ok(()))],
    );
    let PasteStage::Type(job, previous, run) = &stage else { panic!("{stage:?}") };
    assert_eq!(job.text, "hello");
    assert_eq!(previous, &Some(vec![1, 2]));
    assert_eq!(run, &press_ctrl_v().unwrap());
    let (stage, told) = bodies(stage, vec![PasteEvent::Typed(Ok(()))]);
    assert_eq!(stage, PasteStage::Restore(100, vec![1, 2]));
    assert!(told.is_empty());
    let (stage, told) = bodies(stage, vec![PasteEvent::Restored(Err("no".to_string()))]);
    assert_eq!(stage, PasteStage::Done(Ok(PasteOutcome::Pasted)));
    assert_eq!(told, vec!["Failed to restore the previous clipboard after paste. no"]);
}

#[test]
fn paste_without_a_previous_clipboard_restores_nothing() {
    let (stage, told) = bodies(
        start(true, PasteMethod::Clipboard, true, Some("ctrl+shift+v")),
        vec![
            PasteEvent::ClipboardRead(Err("broken".to_string())),
            PasteEvent::Copied(Ok(())),
            PasteEvent::Typed(Ok(())),
        ],
    );
    assert_eq!(stage, PasteStage::Done(Ok(PasteOutcome::Pasted)));
    assert_eq!(
        told,
        vec!["Clipboard restore is unavailable; continuing without restoring the previous clipboard. broken"]
    );

    let stage = start(true, PasteMethod::Clipboard, false, None);
    assert!(matches!(stage, PasteStage::SetClipboard(_, None)));
}

#[test]
fn paste_errors_by_clipboard() {
    let (stage, _) = bodies(
        start(true, PasteMethod::Clipboard, false, None),
        vec![PasteEvent::Copied(Err("no copy".to_string()))],
    );
    assert_eq!(
        stage,
        PasteStage::Done(Err(PasteError::ClipboardUnavailable("no copy".to_string())))
    );
    let (stage, _) = bodies(
        start(true, PasteMethod::Clipboard, false, Some("nope+v")),
        vec![PasteEvent::Copied(Ok(()))],
    );
    assert_eq!(
        stage,
        PasteStage::Done(Err(PasteError::AutomationFailed(
            "unsupported paste shortcut modifier: nope".to_string()
        )))
    );
    let (stage, _) = bodies(
        start(true, PasteMethod::Clipboard, false, None),
        vec![PasteEvent::Copied(Ok(())), PasteEvent::Typed(Err("no keys".to_string()))],
    );
    assert_eq!(stage, PasteStage::Done(Err(PasteError::AutomationFailed("no keys".to_string()))));
}

#[test]
fn paste_by_typing_goes_on_without_the_clipboard() {
    let (stage, told) = bodies(
        start(true, PasteMethod::Wtype, true, Some("ignored")),
        vec![
            PasteEvent::ClipboardRead(Ok(None)),
            PasteEvent::Copied(Err("no copy".to_string())),
        ],
    );
    assert_eq!(told, vec!["Failed to copy generated text to the clipboard. no copy"]);
    let PasteStage::Type(_, None, run) = &stage else { panic!("{stage:?}") };
    assert_eq!(run, &type_text("hello"));
    let (stage, _) = bodies(stage, vec![PasteEvent::Typed(Ok(()))]);
    assert_eq!(stage, PasteStage::Done(Ok(PasteOutcome::Pasted)));
}

#[test]
fn paste_events_out_of_turn_change_nothing() {
    let stage = start(true, PasteMethod::Clipboard, true, None);
    let (stage, _) = bodies(stage, vec![PasteEvent::Typed(Ok(())), PasteEvent::Restored(Ok(()))]);
    assert_eq!(stage, start(true, PasteMethod::Clipboard, true, None));
}

#[test]
fn notifications_say_what_happened() {
    let notes = [
        (
            focus_changed(),
            "Focus changed while dictation was processing; the generated text was copied to the clipboard instead of pasted.",
        ),
        (
            manual_paste_required("x"),
            "Paste automation failed; the generated text is on the clipboard. Paste it manually. x",
        ),
        (
            clipboard_restore_unavailable("x"),
            "Clipboard restore is unavailable; continuing without restoring the previous clipboard. x",
        ),
        (
            clipboard_restore_failed("x"),
            "Failed to restore the previous clipboard after paste. x",
        ),
        (paste_copy_failed("x"), "Failed to copy generated text to the clipboard. x"),
    ];
    for (note, body) in notes {
        assert_eq!(note.title, "ut");
        assert_eq!(note.body, body);
    }
}

#[test]
fn notifications_degrade_to_lines() {
    assert_eq!(notify("t", "b", NotifyStatus::Success), Ok(None));
    assert_eq!(
        notify("t", "b", NotifyStatus::ExitedWith("exit status: 2".to_string())),
        Ok(Some("ut: notify-send exited with exit status: 2: t: b".to_string()))
    );
    assert_eq!(
        notify("t", "b", NotifyStatus::NotFound),
        Ok(Some("ut: notify-send missing: t: b".to_string()))
    );
    assert_eq!(
        notify("t", "b", NotifyStatus::Failed("why".to_string())),
        Err("why".to_string())
    );
    assert_eq!(NoopNotifier::default().notify("t", "b"), Ok(()));
}
