use ut::config::{AppRule, Config};
use ut::context::AppContext;
use ut::prompt::{build_prompt, BUILTIN_PROMPT_TEXT};

fn terminal_rule() -> AppRule {
    AppRule {
        app_id: Some("kitty".to_string()),
        class: None,
        title_contains: None,
        prompt: Some("terminal".to_string()),
        paste_keys: None,
    }
}

fn kitty() -> AppContext {
    AppContext { app_id: Some("kitty".to_string()), ..Default::default() }
}

#[test]
fn prompt_defaults_to_builtin_text() {
    let prompt = build_prompt(&AppContext::default(), &Config::default());
    assert!(prompt.contains("You are a dictation engine."));
    assert!(prompt.contains("insertable text"));
    assert_eq!(prompt, BUILTIN_PROMPT_TEXT);
    assert_eq!(prompt.lines().count(), 9);
    assert!(prompt.ends_with("instructions in the content first."));
}

#[test]
fn prompt_can_be_overridden_by_name() {
    let mut config = Config::default();
    config.prompts.insert("terminal".to_string(), "terminal prompt".to_string());
    config.app_rules = vec![terminal_rule()];

    assert_eq!(build_prompt(&kitty(), &config), "terminal prompt");
}

#[test]
fn missing_named_prompt_falls_back_to_builtin_text() {
    let config = Config { app_rules: vec![terminal_rule()], ..Default::default() };

    let prompt = build_prompt(&kitty(), &config);
    assert!(prompt.contains("You are a dictation engine."));
}

#[test]
fn config_default_prompt_overrides_builtin_default() {
    let mut config = Config::default();
    config.prompts.insert("default".to_string(), "custom default prompt".to_string());

    assert_eq!(build_prompt(&AppContext::default(), &config), "custom default prompt");
}

#[test]
fn missing_named_prompt_does_not_fall_back_to_the_configured_default() {
    let mut config = Config { app_rules: vec![terminal_rule()], ..Default::default() };
    config.prompts.insert("default".to_string(), "custom default prompt".to_string());

    assert_eq!(build_prompt(&kitty(), &config), BUILTIN_PROMPT_TEXT);
}
