use serde_json::Value;
use ut::audio::AudioPayload;
use ut::base64::base64_encode;
use ut::config::{Config, ModelConfig};
use ut::context::AppContext;
use ut::gemma::{
    chat_completions_endpoint, extract_text, send_http_request, ChatChoice,
    ChatCompletionResponse, ChatContent, ChatMessageResponse, CompletionError, DictationRequest,
    HttpGemmaClient,
};
use ut::json::Json;
use ut::prompt::build_prompt;

fn response(content: Option<Json>) -> ChatCompletionResponse {
    ChatCompletionResponse {
        choices: vec![ChatChoice { message: ChatMessageResponse { content } }],
    }
}

fn parsed(text: &str) -> Option<Json> {
    Json::parse(text.as_bytes())
}

fn client(api_key: Option<&str>) -> HttpGemmaClient {
    HttpGemmaClient {
        endpoint: "http://127.0.0.1:11434/v1/chat/completions".to_string(),
        model: "model".to_string(),
        timeout_seconds: 1,
        api_key: api_key.map(str::to_string),
        api_key_env: Some("GEMMA_API_KEY".to_string()),
    }
}

#[test]
fn parses_text_content() {
    let response = response(Some(Json::from_value(&Value::String("hello".to_string()))));

    assert_eq!(extract_text(&response).unwrap(), "hello");
}

#[test]
fn parses_structured_content() {
    let content = parsed(
        r#"[{"type":"text","text":" one "},{"type":"image"},{"text":3},"x",{"text":"two\n"}]"#,
    );
    assert_eq!(extract_text(&response(content)).unwrap(), "one two");
}

#[test]
fn extracted_text_is_trimmed() {
    assert_eq!(extract_text(&response(parsed(r#""\n\t hi there ""#))).unwrap(), "hi there");
}

#[test]
fn completion_errors() {
    let none = ChatCompletionResponse { choices: vec![] };
    let cases = [
        (extract_text(&none), CompletionError::NoChoices, "chat completion returned no choices"),
        (
            extract_text(&response(None)),
            CompletionError::NoContent,
            "chat completion returned empty content",
        ),
        (
            extract_text(&response(parsed("{\"a\": [1, true]}"))),
            CompletionError::UnsupportedContent("{\"a\":[1,true]}".to_string()),
            "unsupported chat completion content: {\"a\":[1,true]}",
        ),
        (
            extract_text(&response(parsed("\"  \""))),
            CompletionError::EmptyText,
            "Gemma returned empty dictation text",
        ),
        (
            extract_text(&response(parsed("[]"))),
            CompletionError::EmptyText,
            "Gemma returned empty dictation text",
        ),
    ];
    for (result, error, text) in cases {
        assert_eq!(result, Err(error.clone()));
        assert_eq!(error.message(), text);
    }
}

#[test]
fn base64_encodes_bytes() {
    assert_eq!(base64_encode(b"Man"), "TWFu");
    assert_eq!(base64_encode(b"Ma"), "TWE=");
    assert_eq!(base64_encode(b"M"), "TQ==");
}

#[test]
fn base64_covers_the_alphabet() {
    assert_eq!(base64_encode(b""), "");
    assert_eq!(base64_encode(&[0xfb, 0xff, 0xfe]), "+//+");
    assert_eq!(base64_encode(b"Many hands"), "TWFueSBoYW5kcw==");
    let all: Vec<u8> = (0..48).map(|i| (i * 5) as u8).collect();
    assert_eq!(base64_encode(&all).len(), 64);
}

#[test]
fn prompt_in_request_uses_configured_text() {
    let config = Config::default();
    let prompt = build_prompt(&AppContext::default(), &config);
    let request = DictationRequest { audio: AudioPayload::new(16_000, 1, vec![0]), prompt };
    assert!(request.prompt.contains("You are a dictation engine."));
}

#[test]
fn chat_completions_endpoint_is_built_from_base_v1_url() {
    assert_eq!(
        chat_completions_endpoint("http://127.0.0.1:11434/v1"),
        "http://127.0.0.1:11434/v1/chat/completions"
    );
    assert_eq!(
        chat_completions_endpoint("http://127.0.0.1:11434/v1/"),
        "http://127.0.0.1:11434/v1/chat/completions"
    );
    assert_eq!(
        chat_completions_endpoint("https://api.openai.com/v1"),
        "https://api.openai.com/v1/chat/completions"
    );
    assert_eq!(chat_completions_endpoint("x///"), "x/chat/completions");
}

#[test]
fn explicit_api_key_takes_precedence_over_environment_key() {
    let client = client(Some("inline-secret"));
    assert_eq!(
        client.resolve_api_key(Some("env-secret".to_string())).as_deref(),
        Some("inline-secret")
    );
}

#[test]
fn api_key_can_be_loaded_from_environment() {
    let client = client(None);
    assert_eq!(
        client.resolve_api_key(Some("env-secret".to_string())).as_deref(),
        Some("env-secret")
    );
}

#[test]
fn client_takes_its_settings_from_the_configuration() {
    let config = ModelConfig {
        url: "http://h/v1/".to_string(),
        timeout_seconds: 0,
        api_key: Some("k".to_string()),
        ..ModelConfig::default()
    };
    let client = HttpGemmaClient::new(&config);
    assert_eq!(client.endpoint, "http://h/v1/chat/completions");
    assert_eq!(client.model, config.model);
    assert_eq!(client.timeout_seconds, 1);
    let config = ModelConfig { timeout_seconds: 7, ..config };
    assert_eq!(HttpGemmaClient::new(&config).timeout_seconds, 7);
    assert_eq!(client.resolve_api_key(None), config.resolved_api_key(None));
}

#[test]
fn call_carries_a_bearer_token_where_there_is_a_key() {
    let call = client(Some("inline-secret")).http_call(None);
    assert_eq!(call.url, "http://127.0.0.1:11434/v1/chat/completions");
    assert_eq!(call.content_type, "application/json");
    assert_eq!(call.authorization.as_deref(), Some("Bearer inline-secret"));
    assert_eq!(call.timeout_seconds, 1);
    assert_eq!(client(None).http_call(None).authorization, None);
}

#[test]
fn body_holds_the_prompt_and_the_recording() {
    let request = DictationRequest {
        audio: AudioPayload::new(16_000, 1, vec![1, -1]),
        prompt: "do it".to_string(),
    };
    let body = client(None).request_body(request);
    assert_eq!(body.model, "model");
    assert_eq!(body.temperature, Some(0));
    assert_eq!(body.messages.len(), 2);
    assert_eq!(body.messages[0].role, "system");
    assert_eq!(body.messages[0].content, ChatContent::Text("do it".to_string()));
    assert_eq!(body.messages[1].role, "user");
    let ChatContent::Parts(parts) = &body.messages[1].content else { panic!("parts") };
    assert_eq!(parts.len(), 2);
    assert_eq!(parts[0].kind, "text");
    assert_eq!(
        parts[0].text.as_deref(),
        Some("Transcribe the audio and return only the insertable text.")
    );
    assert_eq!(parts[1].kind, "input_audio");
    let audio = parts[1].input_audio.as_ref().unwrap();
    assert_eq!(audio.format, "wav");
    assert_eq!(
        audio.data,
        base64_encode(&ut::audio::encode_wav_bytes(&[1, -1], 16_000))
    );
    assert!(audio.data.starts_with("UklGRi"));
}

#[test]
fn answers_count_by_their_status() {
    assert_eq!(send_http_request(200, b"body".to_vec()), Ok(b"body".to_vec()));
    assert_eq!(send_http_request(299, vec![0xff]), Ok(vec![0xff]));
    assert_eq!(
        send_http_request(300, b"moved".to_vec()),
        Err("Gemma HTTP request failed with status 300: moved".to_string())
    );
    assert_eq!(
        send_http_request(503, vec![0x61, 0xff, 0x62]),
        Err("Gemma HTTP request failed with status 503: a\u{fffd}b".to_string())
    );
    assert!(send_http_request(199, vec![]).is_err());
}
