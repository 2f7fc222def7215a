use ut::config::{
    config_path, AppRule, Config, ConfigError, FocusMismatchAction, ModelConfig, PasteConfig,
    PasteMethod, PromptTable, RecordingConfig, StatusUiConfig,
};
use ut::context::AppContext;

fn kitty_rule(prompt: &str) -> AppRule {
    AppRule {
        app_id: Some("kitty".to_string()),
        class: None,
        title_contains: None,
        prompt: Some(prompt.to_string()),
        paste_keys: None,
    }
}

#[test]
fn defaults_match_mvp_shape() {
    let config = Config::default();
    assert!(config.paste.restore_clipboard);
    assert!(config.status_ui.enabled);
    assert_eq!(config.status_ui.width, 200);
    assert_eq!(config.status_ui.height, 200);
    assert_eq!(f32::from_bits(config.status_ui.x), 0.5);
    assert_eq!(f32::from_bits(config.status_ui.y), 0.8);
    assert_eq!(config.status_ui.fade_out_ms, 350);
    assert!(config.prompts.is_empty());
    assert_eq!(config.model.url, "http://127.0.0.1:11434/v1");
    assert_eq!(config.model.api_key, None);
    assert_eq!(config.model.api_key_env, None);
}

#[test]
fn defaults_of_each_section() {
    assert_eq!(
        RecordingConfig::default(),
        RecordingConfig { max_seconds: 29, trim_silence: true, trim_padding_ms: 500 }
    );
    assert_eq!(
        PasteConfig::default(),
        PasteConfig {
            method: PasteMethod::Clipboard,
            restore_clipboard: true,
            restore_delay_ms: 100,
            on_focus_changed: FocusMismatchAction::Copy,
        }
    );
    assert_eq!(PasteMethod::default(), PasteMethod::Clipboard);
    assert_eq!(FocusMismatchAction::default(), FocusMismatchAction::Copy);
    let model = ModelConfig::default();
    assert_eq!(model.model, "unsloth/gemma-4-E2B-it-GGUF:Q4_K_XL");
    assert_eq!(model.timeout_seconds, 60);
    assert_eq!(StatusUiConfig::default().fade_out_ms, 350);
}

#[test]
fn validate_accepts_defaults() {
    assert_eq!(Config::default().validate(), Ok(()));
}

#[test]
fn validate_rejects_invalid_model_url() {
    let mut config = Config::default();
    config.model.url = "notaurl".to_string();
    assert!(config.validate().is_err());
    assert_eq!(config.validate(), Err(ConfigError::InvalidUrl("notaurl".to_string())));
}

#[test]
fn validate_rejects_other_schemes() {
    let mut config = Config::default();
    config.model.url = "FTP://example.org/v1".to_string();
    assert_eq!(config.validate(), Err(ConfigError::UnsupportedScheme("ftp".to_string())));
    config.model.url = "https://example.org/v1".to_string();
    assert_eq!(config.validate(), Ok(()));
}

#[test]
fn validate_goes_by_the_scheme_that_it_is_given() {
    let config = Config::default();
    assert_eq!(config.validate_with_scheme(Some("https".to_string())), Ok(()));
    assert_eq!(
        config.validate_with_scheme(Some("ws".to_string())),
        Err(ConfigError::UnsupportedScheme("ws".to_string()))
    );
    assert_eq!(
        config.validate_with_scheme(None),
        Err(ConfigError::InvalidUrl("http://127.0.0.1:11434/v1".to_string()))
    );
}

#[test]
fn validate_rejects_zero_timeout() {
    let mut config = Config::default();
    config.model.timeout_seconds = 0;
    assert!(config.validate().is_err());
    assert_eq!(config.validate(), Err(ConfigError::ZeroTimeout));
}

#[test]
fn validate_rejects_zero_status_ui_dimensions() {
    let mut config = Config::default();
    config.status_ui.width = 0;
    assert!(config.validate().is_err());
    assert_eq!(config.validate(), Err(ConfigError::ZeroWidth));

    let mut config = Config::default();
    config.status_ui.height = 0;
    assert!(config.validate().is_err());
    assert_eq!(config.validate(), Err(ConfigError::ZeroHeight));
}

#[test]
fn validate_rejects_zero_length_recordings_and_nameless_models() {
    let mut config = Config::default();
    config.recording.max_seconds = 0;
    config.model.model = " \t".to_string();
    assert_eq!(config.validate(), Err(ConfigError::ZeroMaxSeconds));
    config.recording.max_seconds = 1;
    assert_eq!(config.validate(), Err(ConfigError::EmptyModel));
}

#[test]
fn validate_holds_positions_to_the_unit_range() {
    let inside = [0.0f32, -0.0, 1.0, 0.25, 1.0e-40, 0.999_999_94];
    let outside =
        [1.000_000_1f32, -0.1, 2.0, -1.0e-40, f32::NAN, -f32::NAN, f32::INFINITY, f32::NEG_INFINITY];
    for value in inside {
        let mut config = Config::default();
        config.status_ui.x = value.to_bits();
        config.status_ui.y = value.to_bits();
        assert_eq!(config.validate(), Ok(()));
    }
    for value in outside {
        let mut config = Config::default();
        config.status_ui.x = value.to_bits();
        assert_eq!(config.validate(), Err(ConfigError::XOutOfRange));
        let mut config = Config::default();
        config.status_ui.y = value.to_bits();
        assert_eq!(config.validate(), Err(ConfigError::YOutOfRange));
    }
}

#[test]
fn validate_rejects_missing_app_rule_prompt_reference() {
    let config = Config { app_rules: vec![kitty_rule("terminal")], ..Default::default() };

    assert!(config.validate().is_err());
    let error = config.validate().unwrap_err();
    assert_eq!(error, ConfigError::MissingPrompt(0, "terminal".to_string()));
    assert_eq!(
        error.message(),
        "app_rules[0].prompt references missing prompt \"terminal\""
    );
}

#[test]
fn validate_reports_the_first_missing_prompt() {
    let config = Config {
        app_rules: vec![kitty_rule("default"), kitty_rule("a\"b"), kitty_rule("c")],
        ..Default::default()
    };
    let error = config.validate().unwrap_err();
    assert_eq!(error, ConfigError::MissingPrompt(1, "a\"b".to_string()));
    assert_eq!(error.message(), "app_rules[1].prompt references missing prompt \"a\\\"b\"");
}

#[test]
fn validate_allows_existing_app_rule_prompt_reference() {
    let mut config = Config::default();
    config.prompts.insert("terminal".to_string(), "terminal prompt".to_string());
    config.app_rules = vec![kitty_rule("terminal")];

    assert!(config.validate().is_ok());
}

#[test]
fn validate_allows_builtin_default_prompt_reference() {
    let config = Config { app_rules: vec![kitty_rule("default")], ..Default::default() };

    assert!(config.validate().is_ok());
}

#[test]
fn config_errors_say_what_is_wrong() {
    let said = [
        (ConfigError::ZeroMaxSeconds, "recording.max_seconds must be greater than 0"),
        (ConfigError::EmptyModel, "model.model must not be empty"),
        (ConfigError::ZeroTimeout, "model.timeout_seconds must be greater than 0"),
        (ConfigError::ZeroWidth, "status_ui.width must be greater than 0"),
        (ConfigError::ZeroHeight, "status_ui.height must be greater than 0"),
        (ConfigError::XOutOfRange, "status_ui.x must be between 0.0 and 1.0"),
        (ConfigError::YOutOfRange, "status_ui.y must be between 0.0 and 1.0"),
        (ConfigError::InvalidUrl("x".to_string()), "invalid model.url: x"),
        (
            ConfigError::UnsupportedScheme("ftp".to_string()),
            "model.url must use http or https, got ftp",
        ),
    ];
    for (error, text) in said {
        assert_eq!(error.message(), text);
    }
}

#[test]
fn model_config_prefers_static_api_key_over_env() {
    let config = ModelConfig {
        api_key: Some("static-token".to_string()),
        api_key_env: Some("MODEL_API_KEY".to_string()),
        ..ModelConfig::default()
    };

    assert_eq!(
        config.resolved_api_key(Some("env-token".to_string())).as_deref(),
        Some("static-token")
    );
}

#[test]
fn model_config_reads_api_key_env_at_call_time() {
    let config = ModelConfig {
        api_key: None,
        api_key_env: Some("MODEL_API_KEY_ENV".to_string()),
        ..ModelConfig::default()
    };

    assert_eq!(config.resolved_api_key(None), None);
    assert_eq!(
        config.resolved_api_key(Some("first-token".to_string())).as_deref(),
        Some("first-token")
    );
    assert_eq!(
        config.resolved_api_key(Some("second-token".to_string())).as_deref(),
        Some("second-token")
    );
}

#[test]
fn empty_keys_are_passed_over() {
    let config = ModelConfig {
        api_key: Some(String::new()),
        api_key_env: Some("KEY".to_string()),
        ..ModelConfig::default()
    };
    assert_eq!(config.resolved_api_key(Some("token".to_string())).as_deref(), Some("token"));
    assert_eq!(config.resolved_api_key(Some(String::new())), None);

    let config = ModelConfig { api_key_env: None, ..ModelConfig::default() };
    assert_eq!(config.resolved_api_key(Some("token".to_string())), None);
}

#[test]
fn app_rules_pick_the_first_matching_prompt_name() {
    let config = Config {
        app_rules: vec![
            AppRule {
                app_id: Some("kitty".to_string()),
                class: None,
                title_contains: None,
                prompt: Some("terminal".to_string()),
                paste_keys: Some("ctrl+shift+v".to_string()),
            },
            AppRule {
                app_id: None,
                class: Some("code".to_string()),
                title_contains: None,
                prompt: Some("code".to_string()),
                paste_keys: None,
            },
        ],
        ..Default::default()
    };

    let context = AppContext {
        app_id: Some("kitty".to_string()),
        class: Some("code".to_string()),
        ..Default::default()
    };

    assert_eq!(config.prompt_name_for_context(&context), Some("terminal"));
    assert_eq!(
        config.app_rule_for_context(&context).and_then(|rule| rule.paste_keys.as_deref()),
        Some("ctrl+shift+v")
    );

    let other = AppContext { class: Some("code".to_string()), ..Default::default() };
    assert_eq!(config.prompt_name_for_context(&other), Some("code"));
    assert_eq!(config.prompt_name_for_context(&AppContext::default()), None);
}

#[test]
fn app_rule_requires_at_least_one_matchable_field() {
    let rule = AppRule::default();
    assert!(!rule.matches(&AppContext::default()));
}

#[test]
fn app_rule_matches_title_substrings() {
    let rule = AppRule {
        app_id: None,
        class: None,
        title_contains: Some("ChatGPT".to_string()),
        prompt: Some("chat".to_string()),
        paste_keys: None,
    };
    let context = AppContext {
        title: Some("Open ChatGPT - Firefox".to_string()),
        ..Default::default()
    };

    assert!(rule.matches(&context));
}

#[test]
fn app_rule_needs_all_that_it_names() {
    let rule = AppRule {
        app_id: Some("firefox".to_string()),
        class: Some("web".to_string()),
        title_contains: Some("Mail".to_string()),
        prompt: None,
        paste_keys: None,
    };
    let context = AppContext {
        app_id: Some("firefox".to_string()),
        class: Some("web".to_string()),
        title: Some("Mail - inbox".to_string()),
        ..Default::default()
    };
    assert!(rule.matches(&context));
    assert!(!rule.matches(&AppContext { title: None, ..context.clone() }));
    assert!(!rule.matches(&AppContext { title: Some("mail".to_string()), ..context.clone() }));
    assert!(!rule.matches(&AppContext { class: None, ..context.clone() }));
    assert!(!rule.matches(&AppContext { app_id: Some("Firefox".to_string()), ..context }));
}

#[test]
fn prompt_table_holds_one_prompt_for_each_name() {
    let mut table = PromptTable::new();
    assert!(table.is_empty());
    table.insert("a".to_string(), "one".to_string());
    table.insert("b".to_string(), "two".to_string());
    table.insert("a".to_string(), "three".to_string());
    assert!(!table.is_empty());
    assert_eq!(table.get("a").map(String::as_str), Some("three"));
    assert_eq!(table.get("b").map(String::as_str), Some("two"));
    assert_eq!(table.get("c"), None);
    assert!(table.contains_key("a"));
    assert!(!table.contains_key(""));
}

#[test]
fn prompt_tables_are_equal_whatever_the_order() {
    let mut first = PromptTable::new();
    first.insert("a".to_string(), "one".to_string());
    first.insert("b".to_string(), "two".to_string());
    let mut second = PromptTable::new();
    second.insert("b".to_string(), "two".to_string());
    second.insert("a".to_string(), "one".to_string());
    assert_eq!(first, second);
    assert_eq!(first.clone(), second);
    second.insert("a".to_string(), "other".to_string());
    assert_ne!(first, second);
    first.insert("a".to_string(), "other".to_string());
    first.insert("c".to_string(), "more".to_string());
    assert_ne!(first, second);
}

#[test]
fn config_path_follows_the_environment() {
    assert_eq!(config_path(Some(b"/cfg"), Some(b"/home/me")), b"/cfg/ut/config.toml".to_vec());
    assert_eq!(config_path(None, Some(b"/home/me/")), b"/home/me/.config/ut/config.toml".to_vec());
    assert_eq!(config_path(Some(b""), None), b"ut/config.toml".to_vec());
    assert_eq!(config_path(None, None), b"ut.toml".to_vec());
}

#[test]
fn positions_of_the_overlay_compare_as_numbers() {
    let at = |x: f32, y: f32| StatusUiConfig {
        x: x.to_bits(),
        y: y.to_bits(),
        ..StatusUiConfig::default()
    };
    let numbers = [0.0, -0.0, 0.5, -0.5, 1.0, f32::MIN_POSITIVE, f32::INFINITY, -f32::INFINITY];
    for a in numbers.into_iter().chain([f32::NAN, -f32::NAN]) {
        for b in numbers.into_iter().chain([f32::NAN, -f32::NAN]) {
            assert_eq!(at(a, 0.5) == at(b, 0.5), a == b);
            assert_eq!(at(0.5, a) == at(0.5, b), a == b);
        }
    }
    assert!(at(0.5, 0.8) == StatusUiConfig::default());
    assert!(StatusUiConfig { width: 1, ..at(0.5, 0.8) } != StatusUiConfig::default());
    let config = |y: f32| Config { status_ui: at(0.5, y), ..Config::default() };
    assert!(config(0.0) == config(-0.0));
    assert!(config(f32::NAN) != config(f32::NAN));
}
