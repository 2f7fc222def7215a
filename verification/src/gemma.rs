//! Asking the model: what goes out, and what its answer says.
//!
//! The request follows the chat completions API: the prompt as the system
//! message, and the recording, a WAV file in base 64, as `input_audio`.

use crate::audio::{data_size, encode_wav_bytes, read_wav, wav_file, AudioPayload, WavContent};
use crate::base64::{base64, base64_encode, unbase64};
use crate::config::{choose_key, usable_key, ModelConfig};
use crate::json::{holds, Json, JsonKind, JsonTree, TreeKind};
use crate::text::{
    copy_option, decimal, decode_lossy, is_white_around, is_white_space, lemma_trimmed_between,
    lemma_trimmed_ends, lossy_text, to_decimal, trim, trim_end_matches, trimmed, without_end,
};
use vstd::prelude::*;
use vstd::utf8::{decode_utf8, valid_utf8};

verus! {

/// What is to be transcribed, and how.
#[derive(Debug, Clone, PartialEq, Eq)]
pub struct DictationRequest {
    pub audio: AudioPayload,
    pub prompt: String,
}

/// What was said.
#[derive(Debug, Clone, PartialEq, Eq)]
pub struct DictationResponse {
    pub text: String,
}

/// A client of a model that is reached over HTTP.
#[derive(Debug, Clone, PartialEq, Eq)]
pub struct HttpGemmaClient {
    pub endpoint: String,
    pub model: String,
    pub timeout_seconds: u64,
    pub api_key: Option<String>,
    pub api_key_env: Option<String>,
}

/// Where a model at a base URL completes chats: its trailing slashes do not
/// matter.
pub open spec fn endpoint_of(base_url: Seq<char>) -> Seq<char> {
    without_end(base_url, '/') + "/chat/completions"@
}

/// Where a model at a base URL completes chats.
pub fn chat_completions_endpoint(base_url: &str) -> (endpoint: String)
    ensures
        endpoint@ == endpoint_of(base_url@),
{
    let mut endpoint: String = trim_end_matches(base_url, '/').to_string();
    endpoint.append("/chat/completions");
    endpoint
}

/// A base URL with another slash behind it leads to the same place.
pub proof fn law_trailing_slash_is_ignored(base_url: Seq<char>)
    ensures
        endpoint_of(base_url.push('/')) == endpoint_of(base_url),
{
    assert(base_url.push('/').drop_last() =~= base_url);
}

/// One HTTP request, but for its body.
#[derive(Debug, Clone, PartialEq, Eq)]
pub struct HttpCall {
    pub url: String,
    pub content_type: String,
    pub authorization: Option<String>,
    pub timeout_seconds: u64,
}

impl HttpGemmaClient {
    /// A client of the configured model. It waits at least a second.
    pub fn new(config: &ModelConfig) -> (client: Self)
        ensures
            client.endpoint@ == endpoint_of(config.url@),
            client.model == config.model,
            client.timeout_seconds == (if config.timeout_seconds == 0 {
                1
            } else {
                config.timeout_seconds
            }),
            client.api_key == config.api_key,
            client.api_key_env == config.api_key_env,
    {
        let timeout_seconds: u64 = if config.timeout_seconds == 0 {
            1
        } else {
            config.timeout_seconds
        };
        HttpGemmaClient {
            endpoint: chat_completions_endpoint(config.url.as_str()),
            model: config.model.clone(),
            timeout_seconds,
            api_key: copy_option(&config.api_key),
            api_key_env: copy_option(&config.api_key_env),
        }
    }

    /// The key to use, with `env_value` being what the variable that
    /// `api_key_env` names holds right now, if it is set.
    pub fn resolve_api_key(&self, env_value: Option<String>) -> (key: Option<String>)
        ensures
            key == usable_key(self.api_key, self.api_key_env, env_value),
    {
        choose_key(&self.api_key, &self.api_key_env, env_value)
    }

    /// The request to send, with `env_value` being what the variable that
    /// `api_key_env` names holds right now: with a bearer token where there is
    /// a key, and without one where there is none.
    pub fn http_call(&self, env_value: Option<String>) -> (call: HttpCall)
        ensures
            call.url == self.endpoint,
            call.content_type@ == "application/json"@,
            call.timeout_seconds == self.timeout_seconds,
            match usable_key(self.api_key, self.api_key_env, env_value) {
                Some(key) => call.authorization matches Some(header) && header@ == "Bearer "@
                    + key@,
                None => call.authorization is None,
            },
    {
        let authorization: Option<String> = match self.resolve_api_key(env_value) {
            Some(key) => {
                let mut header: String = "Bearer ".to_string();
                header.append(key.as_str());
                Some(header)
            },
            None => None,
        };
        HttpCall {
            url: self.endpoint.clone(),
            content_type: "application/json".to_string(),
            authorization,
            timeout_seconds: self.timeout_seconds,
        }
    }

    /// The body to send: the prompt, and the recording as a WAV file.
    pub fn request_body(&self, request: DictationRequest) -> (body: ChatCompletionRequest)
        requires
            data_size(request.audio.samples@.len() as int) + 36 <= u32::MAX,
            request.audio.sample_rate * 2 <= u32::MAX,
        ensures
            body.model == self.model,
            body.temperature == Some(0u32),
            body.messages@.len() == 2,
            body.messages@[0].role@ == "system"@,
            body.messages@[0].content == ChatContent::Text(request.prompt),
            body.messages@[1].role@ == "user"@,
            body.messages@[1].content matches ChatContent::Parts(parts) && parts@.len() == 2
                && parts@[0].is_text(
                "Transcribe the audio and return only the insertable text."@,
            ) && parts@[1].is_input_audio(
                base64(wav_file(request.audio.samples@, request.audio.sample_rate as int)),
                "wav"@,
            ),
    {
        let wav: Vec<u8> = encode_wav_bytes(
            request.audio.samples.as_slice(),
            request.audio.sample_rate,
        );
        let mut parts: Vec<ContentPart> = Vec::new();
        parts.push(
            ContentPart::text(
                "Transcribe the audio and return only the insertable text.".to_string(),
            ),
        );
        parts.push(ContentPart::input_audio(base64_encode(wav.as_slice()), "wav"));
        let mut messages: Vec<ChatMessage> = Vec::new();
        messages.push(ChatMessage::system(request.prompt));
        messages.push(ChatMessage::user(parts));
        ChatCompletionRequest { model: self.model.clone(), messages, temperature: Some(0) }
    }
}

/// A client uses the key that its configuration resolves to, whatever the
/// environment holds when it is asked.
pub proof fn law_client_uses_configured_key(
    config: ModelConfig,
    client: HttpGemmaClient,
    env_value: Option<String>,
)
    requires
        call_ensures(HttpGemmaClient::new, (&config,), client),
    ensures
        usable_key(client.api_key, client.api_key_env, env_value) == usable_key(
            config.api_key,
            config.api_key_env,
            env_value,
        ),
{
}

/// A request to complete a chat. The temperature is a whole number here.
#[derive(Debug, Clone, PartialEq, Eq)]
pub struct ChatCompletionRequest {
    pub model: String,
    pub messages: Vec<ChatMessage>,
    pub temperature: Option<u32>,
}

/// A message of a chat.
#[derive(Debug, Clone, PartialEq, Eq)]
pub struct ChatMessage {
    pub role: String,
    pub content: ChatContent,
}

/// What a message holds.
#[derive(Debug, Clone, PartialEq, Eq)]
pub enum ChatContent {
    Text(String),
    Parts(Vec<ContentPart>),
}

/// A part of a message: text or audio.
#[derive(Debug, Clone, PartialEq, Eq)]
pub struct ContentPart {
    pub kind: &'static str,
    pub text: Option<String>,
    pub input_audio: Option<InputAudioPart>,
}

/// Audio in a message.
#[derive(Debug, Clone, PartialEq, Eq)]
pub struct InputAudioPart {
    pub data: String,
    pub format: &'static str,
}

impl ChatMessage {
    /// A message that tells the model what to do.
    pub fn system(content: String) -> (message: Self)
        ensures
            message.role@ == "system"@,
            message.content == ChatContent::Text(content),
    {
        ChatMessage { role: "system".to_string(), content: ChatContent::Text(content) }
    }

    /// A message from the user.
    pub fn user(parts: Vec<ContentPart>) -> (message: Self)
        ensures
            message.role@ == "user"@,
            message.content == ChatContent::Parts(parts),
    {
        ChatMessage { role: "user".to_string(), content: ChatContent::Parts(parts) }
    }
}

impl ContentPart {
    /// Whether the part is just this text.
    pub open spec fn is_text(self, text: Seq<char>) -> bool {
        &&& self.kind@ == "text"@
        &&& self.text matches Some(held) && held@ == text
        &&& self.input_audio is None
    }

    /// Whether the part is just this audio.
    pub open spec fn is_input_audio(self, data: Seq<char>, format: Seq<char>) -> bool {
        &&& self.kind@ == "input_audio"@
        &&& self.text is None
        &&& self.input_audio matches Some(audio) && audio.data@ == data && audio.format@ == format
    }

    /// A part that is text.
    pub fn text(text: String) -> (part: Self)
        ensures
            part.is_text(text@),
    {
        ContentPart { kind: "text", text: Some(text), input_audio: None }
    }

    /// A part that is audio.
    pub fn input_audio(data: String, format: &'static str) -> (part: Self)
        ensures
            part.is_input_audio(data@, format@),
    {
        ContentPart {
            kind: "input_audio",
            text: None,
            input_audio: Some(InputAudioPart { data, format }),
        }
    }
}

/// The error for an answer that is not a success.
pub open spec fn http_failure(status: u16, text: Seq<char>) -> Seq<char> {
    "Gemma HTTP request failed with status "@ + decimal(status as nat) + ": "@ + text
}

/// The body of an answer, where its status, from 200 to 299, is a success; else
/// what it says, as an error.
pub fn send_http_request(status: u16, body: Vec<u8>) -> (answer: Result<Vec<u8>, String>)
    ensures
        200 <= status < 300 ==> answer == Ok::<Vec<u8>, String>(body),
        !(200 <= status < 300) ==> (answer matches Err(error) && error@ == http_failure(
            status,
            lossy_text(body@),
        )),
        !(200 <= status < 300) && valid_utf8(body@) ==> (answer matches Err(error) && error@
            == http_failure(status, decode_utf8(body@))),
{
    if 200 <= status && status < 300 {
        return Ok(body);
    }
    let mut error: String = "Gemma HTTP request failed with status ".to_string();
    error.append(to_decimal(status as u64).as_str());
    error.append(": ");
    error.append(decode_lossy(body.as_slice()).as_str());
    Err(error)
}

/// The answer of the model.
#[derive(Debug, PartialEq, Eq)]
pub struct ChatCompletionResponse {
    pub choices: Vec<ChatChoice>,
}

/// One of the answers to choose from.
#[derive(Debug, PartialEq, Eq)]
pub struct ChatChoice {
    pub message: ChatMessageResponse,
}

/// What one of the answers says, if it says anything.
#[derive(Debug, PartialEq, Eq)]
pub struct ChatMessageResponse {
    pub content: Option<Json>,
}

/// What is wrong with an answer.
#[derive(Debug, Clone, PartialEq, Eq)]
pub enum CompletionError {
    NoChoices,
    NoContent,
    UnsupportedContent(String),
    EmptyText,
}

impl CompletionError {
    /// What the error says.
    pub open spec fn words(self) -> Seq<char> {
        match self {
            CompletionError::NoChoices => "chat completion returned no choices"@,
            CompletionError::NoContent => "chat completion returned empty content"@,
            CompletionError::UnsupportedContent(content) =>
                "unsupported chat completion content: "@ + content@,
            CompletionError::EmptyText => "Gemma returned empty dictation text"@,
        }
    }

    /// What the error says.
    pub fn message(&self) -> (text: String)
        ensures
            text@ == self.words(),
    {
        match self {
            CompletionError::NoChoices => "chat completion returned no choices".to_string(),
            CompletionError::NoContent => "chat completion returned empty content".to_string(),
            CompletionError::UnsupportedContent(content) => {
                let mut text: String = "unsupported chat completion content: ".to_string();
                text.append(content.as_str());
                text
            },
            CompletionError::EmptyText => "Gemma returned empty dictation text".to_string(),
        }
    }
}

/// The texts of the parts of an answer, one behind the other; parts without
/// text are passed over.
pub open spec fn part_texts(parts: Seq<JsonTree>) -> Seq<char>
    decreases parts.len(),
{
    if parts.len() == 0 {
        Seq::empty()
    } else {
        part_texts(parts.drop_last()) + part_text(parts.last())
    }
}

/// The text of a part of an answer, if it has any.
pub open spec fn part_text(part: JsonTree) -> Seq<char> {
    match part.member("text"@) {
        Some(member) => match member.text_value() {
            Some(text) => text,
            None => Seq::empty(),
        },
        None => Seq::empty(),
    }
}

/// The text of an answer: a string is taken as it is, of a list the texts of
/// its parts; anything else is no text.
pub open spec fn content_text(content: JsonTree) -> Option<Seq<char>> {
    match content.kind {
        TreeKind::Text(text) => Some(text),
        TreeKind::List(parts) => Some(part_texts(parts)),
        _ => None,
    }
}

/// Whether this is what was said, or what is wrong with the answer.
pub open spec fn is_extracted(
    text: Result<String, CompletionError>,
    response: ChatCompletionResponse,
) -> bool {
    if response.choices@.len() == 0 {
        text == Err::<String, CompletionError>(CompletionError::NoChoices)
    } else {
        match response.choices@[0].message.content {
            None => text == Err::<String, CompletionError>(CompletionError::NoContent),
            Some(content) => match content_text(content@) {
                None => text matches Err(CompletionError::UnsupportedContent(shown)) && shown@
                    == content@.text,
                Some(said) => if trimmed(said).len() == 0 {
                    text == Err::<String, CompletionError>(CompletionError::EmptyText)
                } else {
                    text matches Ok(text) && text@ == trimmed(said)
                },
            },
        }
    }
}

/// The texts of the parts of an answer, one behind the other.
fn join_parts(parts: &Vec<Json>) -> (text: String)
    ensures
        text@ == part_texts(crate::json::trees(parts@)),
{
    let ghost all = crate::json::trees(parts@);
    proof {
        crate::json::lemma_trees(parts@);
        assert(all.take(0) =~= Seq::<JsonTree>::empty());
    }
    let mut text: String = String::new();
    let mut next: usize = 0;
    while next < parts.len()
        invariant
            next <= parts@.len(),
            all == crate::json::trees(parts@),
            all.len() == parts@.len(),
            forall|i: int| 0 <= i < parts@.len() ==> #[trigger] all[i] == parts@[i]@,
            text@ == part_texts(all.take(next as int)),
        decreases parts@.len() - next,
    {
        let ghost before = text@;
        proof {
            assert(all.take(next + 1).drop_last() =~= all.take(next as int));
            assert(all.take(next + 1).last() == parts@[next as int]@);
        }
        if let Some(member) = parts[next].get("text") {
            if let Some(said) = member.as_text() {
                text.append(said.as_str());
            }
        }
        assert(text@ =~= before + part_text(parts@[next as int]@));
        next = next + 1;
    }
    assert(all.take(next as int) =~= all);
    text
}

/// What was said, without white space around it.
pub fn extract_text(response: &ChatCompletionResponse) -> (text: Result<String, CompletionError>)
    ensures
        is_extracted(text, *response),
{
    if response.choices.len() == 0 {
        return Err(CompletionError::NoChoices);
    }
    let said: String = match &response.choices[0].message.content {
        None => {
            return Err(CompletionError::NoContent);
        },
        Some(content) => match &content.kind {
            JsonKind::Text(text) => text.clone(),
            JsonKind::List(parts) => join_parts(parts),
            _ => {
                return Err(CompletionError::UnsupportedContent(content.text.clone()));
            },
        },
    };
    let text: &str = trim(said.as_str());
    if text.is_empty() {
        return Err(CompletionError::EmptyText);
    }
    Ok(text.to_string())
}

/// What is extracted is never empty, and never begins or ends with white space.
pub proof fn law_extracted_text_is_trimmed(text: String, response: ChatCompletionResponse)
    requires
        is_extracted(Ok(text), response),
    ensures
        text@.len() > 0,
        trimmed(text@) == text@,
{
    let content = response.choices@[0].message.content->0;
    crate::text::law_trim_is_idempotent(content_text(content@)->0);
}

/// A string that the model answers is extracted whole, but for the white space
/// at its two ends: it is a stretch of the string, with nothing but white space
/// around it. A string of white space is an error.
pub proof fn law_whole_answer_is_extracted(
    response: ChatCompletionResponse,
    text: Result<String, CompletionError>,
    content: Json,
    answer: String,
)
    requires
        call_ensures(extract_text, (&response,), text),
        response.choices@.len() > 0,
        response.choices@[0].message.content == Some(content),
        content.kind == JsonKind::Text(answer),
    ensures
        text matches Ok(said) ==> is_stretch(said@, answer@),
        text is Ok <==> exists|i: int|
            0 <= i < answer@.len() && !is_white_space(#[trigger] answer@[i]),
        text is Err ==> text == Err::<String, CompletionError>(CompletionError::EmptyText),
{
    lemma_stretch(answer@);
}

/// Whether a text is a stretch of another one that does not begin or end with
/// white space, and all around it is white space.
pub open spec fn is_stretch(text: Seq<char>, whole: Seq<char>) -> bool {
    &&& text.len() > 0
    &&& !is_white_space(text[0])
    &&& !is_white_space(text.last())
    &&& exists|start: int, end: int|
        0 <= start <= end <= whole.len() && text == #[trigger] whole.subrange(start, end)
            && is_white_around(whole, start, end)
}

proof fn lemma_stretch(whole: Seq<char>)
    ensures
        trimmed(whole).len() > 0 ==> is_stretch(trimmed(whole), whole),
        trimmed(whole).len() > 0 <==> exists|i: int|
            0 <= i < whole.len() && !is_white_space(#[trigger] whole[i]),
{
    lemma_trimmed_between(whole);
    lemma_trimmed_ends(whole);
    let (start, end) = choose|start: int, end: int|
        0 <= start <= end <= whole.len() && trimmed(whole) == #[trigger] whole.subrange(start, end)
            && is_white_around(whole, start, end);
    if trimmed(whole).len() > 0 {
        assert(trimmed(whole)[0] == whole[start]);
        assert(!is_white_space(whole[start]));
    }
}

/// Texts one behind the other.
pub open spec fn all_of(texts: Seq<Seq<char>>) -> Seq<char> {
    texts.fold_left(Seq::<char>::empty(), |before: Seq<char>, text: Seq<char>| before + text)
}

/// An answer in parts is extracted as if it were one string: the texts of its
/// parts one behind the other, and nothing for a part without a text.
pub proof fn law_parts_are_extracted_in_order(
    response: ChatCompletionResponse,
    text: Result<String, CompletionError>,
    content: Json,
    parts: Vec<Json>,
    texts: Seq<Seq<char>>,
)
    requires
        call_ensures(extract_text, (&response,), text),
        response.choices@.len() > 0,
        response.choices@[0].message.content == Some(content),
        content.kind == JsonKind::List(parts),
        texts.len() == parts@.len(),
        forall|i: int| 0 <= i < texts.len() ==> is_text_of_part(#[trigger] texts[i], parts@[i]@),
    ensures
        text matches Ok(said) ==> is_stretch(said@, all_of(texts)),
        text is Ok <==> exists|i: int|
            0 <= i < all_of(texts).len() && !is_white_space(#[trigger] all_of(texts)[i]),
        text is Err ==> text == Err::<String, CompletionError>(CompletionError::EmptyText),
{
    crate::json::law_value_holds_the_same(content);
    let all = crate::json::trees(parts@);
    crate::json::lemma_trees(parts@);
    assert forall|i: int| 0 <= i < texts.len() implies #[trigger] texts[i] == part_text(
        all[i],
    ) by {
        lemma_text_of_part(texts[i], all[i]);
    }
    lemma_part_texts(all, texts);
    lemma_stretch(all_of(texts));
}

/// Whether this is the text of a part: the string under `text`, and nothing
/// where there is none.
pub open spec fn is_text_of_part(text: Seq<char>, part: JsonTree) -> bool {
    if exists|member: JsonTree| #[trigger] holds(part, "text"@, member) && member.kind is Text {
        exists|member: JsonTree| #[trigger]
            holds(part, "text"@, member) && member.kind == TreeKind::Text(text)
    } else {
        text.len() == 0
    }
}

proof fn lemma_text_of_part(text: Seq<char>, part: JsonTree)
    requires
        is_text_of_part(text, part),
    ensures
        text == part_text(part),
{
    if exists|member: JsonTree| #[trigger] holds(part, "text"@, member) && member.kind is Text {
        let member = choose|member: JsonTree| #[trigger]
            holds(part, "text"@, member) && member.kind == TreeKind::Text(text);
        crate::json::lemma_member(part, "text"@, member);
    } else {
        assert(text =~= Seq::<char>::empty());
        if let Some(member) = part.member("text"@) {
            crate::json::lemma_held(part, "text"@, member);
            assert(holds(part, "text"@, member));
        }
        assert(part_text(part) =~= Seq::<char>::empty());
    }
}

proof fn lemma_part_texts(parts: Seq<JsonTree>, texts: Seq<Seq<char>>)
    requires
        texts.len() == parts.len(),
        forall|i: int| 0 <= i < texts.len() ==> #[trigger] texts[i] == part_text(parts[i]),
    ensures
        part_texts(parts) == all_of(texts),
    decreases parts.len(),
{
    if parts.len() > 0 {
        let texts2 = texts.drop_last();
        let parts2 = parts.drop_last();
        assert forall|i: int| 0 <= i < texts2.len() implies #[trigger] texts2[i] == part_text(
            parts2[i],
        ) by {
            assert(texts2[i] == texts[i]);
        }
        lemma_part_texts(parts2, texts2);
        assert(texts[texts.len() - 1] == part_text(parts.last()));
    }
}

/// An answer without a choice, one without content, and one that is neither a
/// string nor a list, are errors, each by its name; the last one is shown.
pub proof fn law_other_answers_are_errors(
    response: ChatCompletionResponse,
    text: Result<String, CompletionError>,
)
    requires
        call_ensures(extract_text, (&response,), text),
    ensures
        response.choices@.len() == 0 <==> text == Err::<String, CompletionError>(
            CompletionError::NoChoices,
        ),
        response.choices@.len() > 0 && response.choices@[0].message.content is None <==> text
            == Err::<String, CompletionError>(CompletionError::NoContent),
        response.choices@.len() > 0 && (response.choices@[0].message.content matches Some(content)
            && !(content.kind is Text) && !(content.kind is List)) <==> (text matches Err(
            CompletionError::UnsupportedContent(_),
        )),
        text matches Err(CompletionError::UnsupportedContent(shown)) ==> (
        response.choices@[0].message.content matches Some(content) && shown@ == content.text@),
{
    if response.choices@.len() > 0 {
        if let Some(content) = response.choices@[0].message.content {
            crate::json::law_value_holds_the_same(content);
        }
    }
}

/// The model is asked right below its base URL, at `chat/completions`, however
/// many slashes the base URL ends in.
pub proof fn law_model_is_asked_below_its_url(base_url: &str, endpoint: String, slashes: nat)
    requires
        call_ensures(chat_completions_endpoint, (base_url,), endpoint),
        slashes <= base_url@.len(),
        forall|i: int| base_url@.len() - slashes <= i < base_url@.len() ==> #[trigger]
            base_url@[i] == '/',
        slashes < base_url@.len() ==> base_url@[base_url@.len() - slashes - 1] != '/',
    ensures
        endpoint@ == base_url@.take(base_url@.len() - slashes) + "/chat/completions"@,
{
    crate::text::lemma_without_end(base_url@, '/');
    let rest = without_end(base_url@, '/');
    if rest.len() > base_url@.len() - slashes {
        assert(base_url@[rest.len() - 1] == '/');
        assert(rest.last() == base_url@[rest.len() - 1]);
    }
    if rest.len() < base_url@.len() - slashes {
        assert(base_url@[base_url@.len() - slashes - 1] == '/');
    }
}

/// What the model is sent holds the recording: what it is sent as audio stands
/// for a WAV file that gives back every sample, at the rate at which it was
/// recorded. The prompt is the system's word, and the model is the client's.
pub proof fn law_request_carries_prompt_and_recording(
    client: HttpGemmaClient,
    request: DictationRequest,
    body: ChatCompletionRequest,
)
    requires
        call_ensures(HttpGemmaClient::request_body, (&client, request), body),
        2 * request.audio.samples@.len() + 36 <= u32::MAX,
        request.audio.sample_rate * 2 <= u32::MAX,
    ensures
        body.model@ == client.model@,
        body.temperature == Some(0u32),
        body.messages@.len() == 2,
        body.messages@[0].role@ == "system"@,
        body.messages@[0].content matches ChatContent::Text(prompt) && prompt@ == request.prompt@,
        body.messages@[1].role@ == "user"@,
        body.messages@[1].content matches ChatContent::Parts(parts) && parts@.len() == 2 && (
        parts@[1].input_audio matches Some(audio) && audio.format@ == "wav"@ && read_wav(
            unbase64(audio.data@),
        ) == Some(
            WavContent {
                sample_rate: request.audio.sample_rate as int,
                samples: Seq::new(
                    request.audio.samples@.len(),
                    |i: int| request.audio.samples@[i] as int,
                ),
            },
        )),
{
    crate::audio::law_wav_round_trip(request.audio.samples@, request.audio.sample_rate);
    crate::base64::law_base64_round_trip(
        wav_file(request.audio.samples@, request.audio.sample_rate as int),
    );
}

/// A client asks the configured model, and waits as long as is configured, but a
/// second at least.
pub proof fn law_client_is_as_configured(config: ModelConfig, client: HttpGemmaClient)
    requires
        call_ensures(HttpGemmaClient::new, (&config,), client),
    ensures
        client.model@ == config.model@,
        client.timeout_seconds >= 1,
        config.timeout_seconds >= 1 ==> client.timeout_seconds == config.timeout_seconds,
        config.timeout_seconds == 0 ==> client.timeout_seconds == 1,
        client.api_key == config.api_key,
        client.api_key_env == config.api_key_env,
        client.endpoint@ == endpoint_of(config.url@),
{
}

/// The key that is sent is the bearer's token: the key that is written down
/// where it is not empty, whatever the environment holds; else the one in the
/// environment, where a variable is named and is not empty; else none.
pub proof fn law_key_is_sent_as_bearer(
    client: HttpGemmaClient,
    env_value: Option<String>,
    call: HttpCall,
)
    requires
        call_ensures(HttpGemmaClient::http_call, (&client, env_value), call),
    ensures
        call.url@ == client.endpoint@,
        call.timeout_seconds == client.timeout_seconds,
        client.api_key matches Some(key) ==> key@.len() > 0 ==> (call.authorization matches Some(
            header,
        ) && header@ == "Bearer "@ + key@),
        (client.api_key matches Some(key) ==> key@.len() == 0) ==> (if client.api_key_env is Some
            && (env_value matches Some(value) && value@.len() > 0) {
            call.authorization matches Some(header) && header@ == "Bearer "@ + env_value->0@
        } else {
            call.authorization is None
        }),
{
}

/// An answer with a status of success is handed on as it is; with any other one
/// it is an error that names the status and ends with what the answer says.
pub proof fn law_answer_is_handed_on(status: u16, body: Vec<u8>, answer: Result<Vec<u8>, String>)
    requires
        call_ensures(send_http_request, (status, body), answer),
    ensures
        answer is Ok <==> status / 100 == 2,
        answer matches Ok(bytes) ==> bytes@ == body@,
        answer matches Err(error) ==> lossy_text(body@).is_suffix_of(error@)
            && crate::text::has_text(error@, decimal(status as nat)),
{
    if let Err(error) = answer {
        let text = lossy_text(body@);
        let head = "Gemma HTTP request failed with status "@;
        let number = decimal(status as nat);
        assert(error@.subrange(error@.len() - text.len(), error@.len() as int) =~= text);
        assert(error@.subrange(head.len() as int, (head.len() + number.len()) as int) =~= number);
        assert(crate::text::occurs_at(error@, number, head.len() as int));
    }
}

/// The client chooses its key as its configuration does: the one that is written
/// down, else that of the variable, and none that is empty.
pub proof fn law_client_chooses_its_key(
    client: HttpGemmaClient,
    env_value: Option<String>,
    key: Option<String>,
)
    requires
        call_ensures(HttpGemmaClient::resolve_api_key, (&client, env_value), key),
    ensures
        client.api_key matches Some(own) ==> own@.len() > 0 ==> key == client.api_key,
        (client.api_key matches Some(own) ==> own@.len() == 0) && client.api_key_env is None ==> key
            is None,
        (client.api_key matches Some(own) ==> own@.len() == 0) && client.api_key_env is Some ==> (
        env_value matches Some(value) ==> if value@.len() > 0 {
            key == env_value
        } else {
            key is None
        }),
        key matches Some(used) ==> used@.len() > 0 && (key == client.api_key || key == env_value),
{
}

/// Content that is not understood is shown in the error, whole and at its end.
pub proof fn law_unsupported_content_is_shown(content: String, error: CompletionError, text: String)
    requires
        error == CompletionError::UnsupportedContent(content),
        call_ensures(CompletionError::message, (&error,), text),
    ensures
        content@.is_suffix_of(text@),
{
    let words = text@;
    assert(words.subrange(words.len() - content@.len(), words.len() as int) =~= content@);
}

/// A part of a message is text or audio, never both, and holds it as it is given;
/// the system speaks in one text, and the user in the parts that are given.
pub proof fn law_part_holds_one_thing(
    text: String,
    data: String,
    format: &'static str,
    parts: Vec<ContentPart>,
    words: ContentPart,
    sound: ContentPart,
    system: ChatMessage,
    user: ChatMessage,
)
    requires
        call_ensures(ContentPart::text, (text,), words),
        call_ensures(ContentPart::input_audio, (data, format), sound),
        call_ensures(ChatMessage::system, (text,), system),
        call_ensures(ChatMessage::user, (parts,), user),
    ensures
        words.text is Some && words.text->0@ == text@ && words.input_audio is None,
        sound.input_audio is Some && sound.input_audio->0.data@ == data@
            && sound.input_audio->0.format@ == format@ && sound.text is None,
        words.kind@ == "text"@,
        sound.kind@ == "input_audio"@,
        words.kind@ != sound.kind@,
        system.content == ChatContent::Text(text),
        user.content == ChatContent::Parts(parts),
        system.role@ != user.role@,
{
    reveal_strlit("text");
    reveal_strlit("input_audio");
    reveal_strlit("system");
    reveal_strlit("user");
    assert("text"@.len() == 4 && "input_audio"@.len() == 11);
    assert("system"@.len() == 6 && "user"@.len() == 4);
}

} // verus!
