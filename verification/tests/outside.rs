use ut::context::proc::{enrich_context, link_path, read_link, LinkRead};
use ut::context::sway::{context_in_tree, find_focused_node, focused_context, SwayError};
use ut::context::AppContext;
use ut::health::{
    check_command, check_config, command_candidates, record_health_check, required_commands,
    run_health_checks, split_path, warn_status_ui_ignored_for_health,
};
use ut::config::{Config, StatusUiConfig};
use ut::json::{Json, JsonKind};
use ut::overlay::{
    abort_now, finish_with_fade, frame_step, AudioTarget, EndStep, FrameStep, OverlayCommand,
    OverlayHandle, OverlayState, Reset, Share, TextureStatus,
};
use ut::state::SessionPhase;
use ut::text::{
    contains_text, join, parse_u32, split, to_decimal, to_decimal_padded, trim, trim_end_matches,
};

const TREE: &[u8] = br#"{
  "id": 1, "focused": false, "nodes": [
    {"id": 2, "nodes": [
      {"id": 3, "focused": false, "name": "other"},
      {"id": 4, "nodes": [], "floating_nodes": [
        {"id": 5, "focused": true, "app_id": null, "name": "Open", "pid": 77,
         "window_properties": {"class": "Code", "instance": "code"}}
      ]}
    ]},
    {"id": 6, "focused": true, "app_id": "late"}
  ]
}"#;

#[test]
fn focused_window_is_found_in_the_tree() {
    let context = focused_context(true, TREE).unwrap().unwrap();
    assert_eq!(context.container_id.as_deref(), Some("5"));
    assert_eq!(context.compositor.as_deref(), Some("sway"));
    assert_eq!(context.title.as_deref(), Some("Open"));
    assert_eq!(context.class.as_deref(), Some("Code"));
    assert_eq!(context.instance.as_deref(), Some("code"));
    assert_eq!(context.app_id, None);
    assert_eq!(context.pid, Some(77));
    assert_eq!(context.exe, None);
}

#[test]
fn no_focus_is_no_context() {
    let tree = Json::parse(br#"{"id": 1, "nodes": [{"id": 2, "focused": 1}]}"#).unwrap();
    assert!(find_focused_node(&tree).is_none());
    assert_eq!(context_in_tree(&tree), None);
    assert_eq!(focused_context(false, TREE), Ok(None));
    assert_eq!(focused_context(true, b"{"), Err(SwayError::UnreadableTree));
}

#[test]
fn processes_add_their_links() {
    assert_eq!(link_path(12, "exe"), "/proc/12/exe");
    let context = AppContext { pid: Some(12), ..Default::default() };
    let link = |text: &str| Ok(Some(text.to_string()));
    let enriched = enrich_context(context.clone(), link("/bin/a"), Ok(None)).unwrap();
    assert_eq!(enriched.exe.as_deref(), Some("/bin/a"));
    assert_eq!(enriched.cwd, None);
    assert_eq!(
        enrich_context(context.clone(), Err("e".to_string()), Err("c".to_string())),
        Err("e".to_string())
    );
    assert_eq!(enrich_context(context, Ok(None), Err("c".to_string())), Err("c".to_string()));
    assert_eq!(
        enrich_context(AppContext::default(), Err("e".to_string()), Ok(None)),
        Ok(AppContext::default())
    );
}

#[test]
fn json_is_read_as_plain_data() {
    let json = Json::parse(br#"{"b": [1, -1, 2.5, true, null, "x"], "a": {}}"#).unwrap();
    assert_eq!(json.text, r#"{"a":{},"b":[1,-1,2.5,true,null,"x"]}"#);
    let JsonKind::List(items) = &json.get("b").unwrap().kind else { panic!("list") };
    assert_eq!(items.len(), 6);
    assert_eq!(items[0].as_u64(), Some(1));
    assert_eq!(items[1].as_u64(), None);
    assert_eq!(items[2].kind, JsonKind::Number(None));
    assert_eq!(items[3].as_bool(), Some(true));
    assert_eq!(items[4].kind, JsonKind::Null);
    assert_eq!(items[5].as_text().map(String::as_str), Some("x"));
    assert!(json.get("c").is_none());
    assert!(items[0].get("a").is_none());
    assert_eq!(Json::parse(b""), None);
    assert_eq!(Json::parse(b"1 2"), None);
}

#[test]
fn texts_are_cut_and_joined() {
    assert_eq!(trim("\u{a0} \u{3000}a b\n"), "a b");
    assert_eq!(trim(" \t"), "");
    assert!(contains_text("abcabd", "abd"));
    assert!(contains_text("", ""));
    assert!(!contains_text("ab", "abc"));
    assert_eq!(split("a++b", '+'), vec!["a", "", "b"]);
    assert_eq!(split("", '+'), vec![""]);
    assert_eq!(trim_end_matches("a//b//", '/'), "a//b");
    assert_eq!(join(&vec!["a".to_string(), "b".to_string()], "; "), "a; b");
    assert_eq!(join(&vec![], "; "), "");
    assert_eq!(to_decimal(0), "0");
    assert_eq!(to_decimal(u64::MAX), "18446744073709551615");
    assert_eq!(to_decimal_padded(7, 4), "0007");
    assert_eq!(to_decimal_padded(12345, 4), "12345");
    assert_eq!(parse_u32("4294967295"), Some(u32::MAX));
    assert_eq!(parse_u32("+"), None);
}

#[test]
fn programs_are_looked_for_in_path() {
    assert_eq!(required_commands(), vec!["swaymsg", "wl-copy", "wl-paste", "wtype", "notify-send"]);
    assert_eq!(split_path(b"/a::/b"), vec![b"/a".to_vec(), b"".to_vec(), b"/b".to_vec()]);
    assert_eq!(
        command_candidates(b"wtype", Some(b"/bin:/usr/bin/")),
        vec![b"/bin/wtype".to_vec(), b"/usr/bin/wtype".to_vec()]
    );
    assert_eq!(command_candidates(b"./wtype", Some(b"/bin")), vec![b"./wtype".to_vec()]);
    assert!(command_candidates(b"wtype", None).is_empty());
    assert_eq!(check_command(true), Ok(()));
    assert_eq!(check_command(false), Err("not found in PATH".to_string()));
}

#[test]
fn health_is_ok_where_every_check_passes() {
    let report = run_health_checks(check_config(&Config::default()), &vec![true; 5], Ok(()));
    assert_eq!(report.outcome, Ok("health: ok".to_string()));
    assert_eq!(
        report.lines,
        vec![
            "ok   config",
            "ok   dependency:swaymsg",
            "ok   dependency:wl-copy",
            "ok   dependency:wl-paste",
            "ok   dependency:wtype",
            "ok   dependency:notify-send",
            "ok   audio",
        ]
    );
}

#[test]
fn health_reports_every_failure() {
    let mut config = Config::default();
    config.model.url = "gopher://x".to_string();
    let report = run_health_checks(
        check_config(&config),
        &vec![true, true, true, false, true],
        Err("no device".to_string()),
    );
    assert_eq!(
        report.outcome,
        Err("health check failed: config: model.url must use http or https, got gopher; dependency:wtype: not found in PATH; audio: no device".to_string())
    );
    assert_eq!(report.lines[4], "fail dependency:wtype: not found in PATH");
    let mut failures = vec![];
    assert_eq!(record_health_check("x", Ok(()), &mut failures), "ok   x");
    assert!(failures.is_empty());
    assert_eq!(record_health_check("x", Err("y".to_string()), &mut failures), "fail x: y");
    assert_eq!(failures, vec!["x: y"]);
}

#[test]
fn overlay_that_cannot_be_shown_is_warned_about() {
    let on = StatusUiConfig::default();
    let off = StatusUiConfig { enabled: false, ..on };
    assert_eq!(warn_status_ui_ignored_for_health(&on, true), None);
    assert_eq!(warn_status_ui_ignored_for_health(&off, false), None);
    assert!(warn_status_ui_ignored_for_health(&on, false).unwrap().starts_with("warning: "));
}

#[test]
fn overlay_follows_the_session() {
    let mut overlay = OverlayState::new(350);
    assert_eq!(overlay.fade_alpha(0), None);
    assert_eq!(overlay.processing_time(0), None);
    let reset = overlay.handle_command(OverlayCommand::Phase(SessionPhase::Recording), 10);
    assert_eq!(reset, Reset { displayed_audio: true, motion: true });
    assert_eq!(overlay.visible_started_at, Some(10));
    assert!(!overlay.processing_like());

    let reset = overlay.handle_command(OverlayCommand::Phase(SessionPhase::Processing), 20);
    assert_eq!(reset, Reset { displayed_audio: false, motion: false });
    assert!(overlay.processing_like());
    overlay.handle_command(OverlayCommand::Phase(SessionPhase::Pasting), 30);
    assert_eq!(overlay.processing_time(50), Some(30));
    assert_eq!(overlay.processing_time(5), Some(0));

    overlay.handle_command(OverlayCommand::FadeOut, 40);
    assert_eq!(overlay.fade_started_at, None);
    overlay.handle_command(OverlayCommand::Phase(SessionPhase::Idle), 60);
    assert_eq!(overlay.fade_started_at, Some(60));
    assert!(overlay.processing_like());
    assert!(!overlay.close_if_fade_completed(60 + 349_999_999));
    assert!(overlay.close_if_fade_completed(60 + 350_000_000));
    overlay.handle_command(OverlayCommand::Phase(SessionPhase::Recording), 70);
    assert_eq!(overlay.fade_started_at, None);
    assert_eq!(overlay.processing_started_at, None);
}

#[test]
fn overlay_comes_up_and_fades() {
    let mut overlay = OverlayState::new(1);
    overlay.handle_command(OverlayCommand::Phase(SessionPhase::Recording), 0);
    let whole = 1_000_000;
    assert_eq!(
        overlay.fade_alpha(250_000),
        Some((Share { part: 250_000, whole }, Share { part: 1, whole: 1 }))
    );
    overlay.handle_command(OverlayCommand::Audio, 1);
    overlay.handle_command(OverlayCommand::FadeOut, 1);
    overlay.handle_command(OverlayCommand::Phase(SessionPhase::Idle), 2_000_000);
    assert_eq!(
        overlay.fade_alpha(2_400_000),
        Some((Share { part: whole, whole }, Share { part: 600_000, whole }))
    );
    assert_eq!(
        overlay.fade_alpha(9_000_000),
        Some((Share { part: whole, whole }, Share { part: 0, whole }))
    );
    let mut at_once = OverlayState::new(0);
    at_once.handle_command(OverlayCommand::FadeOut, 5);
    assert!(at_once.close_if_fade_completed(5));
    assert_eq!(
        at_once.fade_alpha(5),
        Some((Share { part: 1, whole: 1 }, Share { part: 0, whole: 1 }))
    );
    assert!(!at_once.abort_requested);
    at_once.handle_command(OverlayCommand::Abort, 6);
    assert!(at_once.abort_requested);
}

#[test]
fn overlay_shows_voice_work_or_plain_audio() {
    let mut overlay = OverlayState::new(350);
    assert_eq!(overlay.audio_target(), AudioTarget::Plain);
    overlay.handle_command(OverlayCommand::Phase(SessionPhase::Recording), 1);
    assert_eq!(overlay.audio_target(), AudioTarget::Voice);
    overlay.handle_command(OverlayCommand::Phase(SessionPhase::Pasting), 2);
    assert_eq!(overlay.audio_target(), AudioTarget::Work);
    overlay.handle_command(OverlayCommand::Phase(SessionPhase::Idle), 3);
    assert_eq!(overlay.audio_target(), AudioTarget::Plain);
    overlay.handle_command(OverlayCommand::FadeOut, 4);
    assert_eq!(overlay.audio_target(), AudioTarget::Work);
}

#[test]
fn frames_are_drawn_set_up_anew_or_left_out() {
    assert_eq!(frame_step(TextureStatus::Ready, false), FrameStep::Draw);
    assert_eq!(frame_step(TextureStatus::Ready, true), FrameStep::Draw);
    assert_eq!(frame_step(TextureStatus::Stale, false), FrameStep::Reconfigure);
    assert_eq!(frame_step(TextureStatus::Stale, true), FrameStep::Skip);
    assert_eq!(frame_step(TextureStatus::Unavailable, false), FrameStep::Skip);
}

#[test]
fn overlay_that_is_not_enabled_is_told_nothing() {
    let on = OverlayHandle::new(true);
    let off = OverlayHandle::new(false);
    assert!(on.is_enabled());
    assert!(!off.is_enabled());
    assert_eq!(
        on.set_phase(SessionPhase::Pasting),
        Some(OverlayCommand::Phase(SessionPhase::Pasting))
    );
    assert_eq!(on.push_audio_snapshot(), Some(OverlayCommand::Audio));
    assert_eq!(on.request_abort(), Some(OverlayCommand::Abort));
    assert_eq!(on.request_fade_out(), Some(OverlayCommand::FadeOut));
    assert_eq!(off.set_phase(SessionPhase::Pasting), None);
    assert_eq!(off.push_audio_snapshot(), None);
    assert_eq!(off.request_abort(), None);
    assert_eq!(off.request_fade_out(), None);
}

#[test]
fn overlay_ends_at_once_or_fades() {
    assert_eq!(
        abort_now(),
        vec![EndStep::Tell(OverlayCommand::Abort), EndStep::StopAudio, EndStep::Close]
    );
    assert_eq!(
        finish_with_fade(350),
        vec![
            EndStep::Tell(OverlayCommand::Phase(SessionPhase::Idle)),
            EndStep::Tell(OverlayCommand::FadeOut),
            EndStep::Wait(350),
            EndStep::StopAudio,
            EndStep::Close,
        ]
    );
    let mut overlay = OverlayState::new(350);
    overlay.handle_command(OverlayCommand::Phase(SessionPhase::Pasting), 0);
    overlay.handle_command(OverlayCommand::Phase(SessionPhase::Idle), 10);
    overlay.handle_command(OverlayCommand::FadeOut, 20);
    assert!(overlay.close_if_fade_completed(20 + 350_000_000));
}

#[test]
fn links_are_read_as_text() {
    assert_eq!(
        read_link("/proc/1/exe", LinkRead::Target(b"/bin/\xffx".to_vec())),
        Ok(Some("/bin/\u{fffd}x".to_string()))
    );
    assert_eq!(read_link("/proc/1/exe", LinkRead::NotFound), Ok(None));
    assert_eq!(
        read_link("/proc/1/exe", LinkRead::Failed),
        Err("failed to read \"/proc/1/exe\"".to_string())
    );
}
