//! What the configuration holds, what it defaults to and what it may say.

use crate::context::AppContext;
use crate::path::{bytes_of, join, opt_bytes, path_join, utf8};
use crate::text::{
    contains_text, copy_option, decimal, has_text, is_text, is_white_space, opt_view, quote, quoted,
    same_text, to_decimal, trim, trimmed, trimmed_start,
};
use vstd::prelude::*;

verus! {

/// Named prompts: no name occurs twice.
#[derive(Debug, Eq)]
pub struct PromptTable {
    entries: Vec<(String, String)>,
}

/// The table that entries make, the later ones over the earlier ones.
spec fn table(entries: Seq<(String, String)>) -> Map<Seq<char>, Seq<char>>
    decreases entries.len(),
{
    if entries.len() == 0 {
        Map::empty()
    } else {
        table(entries.drop_last()).insert(entries.last().0@, entries.last().1@)
    }
}

/// Whether no name occurs twice.
spec fn names_differ(entries: Seq<(String, String)>) -> bool {
    forall|i: int, j: int|
        0 <= i < j < entries.len() ==> (#[trigger] entries[i]).0@ != (#[trigger] entries[j]).0@
}

/// A table holds the names of its entries and no others; where no name occurs
/// twice, each with its own prompt.
proof fn lemma_table(entries: Seq<(String, String)>)
    ensures
        forall|i: int|
            0 <= i < entries.len() ==> table(entries).contains_key((#[trigger] entries[i]).0@),
        forall|name: Seq<char>| #[trigger]
            table(entries).contains_key(name) ==> exists|i: int|
                0 <= i < entries.len() && (#[trigger] entries[i]).0@ == name,
        names_differ(entries) ==> forall|i: int|
            0 <= i < entries.len() ==> table(entries)[(#[trigger] entries[i]).0@]
                == entries[i].1@,
    decreases entries.len(),
{
    if entries.len() > 0 {
        let rest = entries.drop_last();
        lemma_table(rest);
        assert forall|i: int| 0 <= i < entries.len() implies table(entries).contains_key(
            (#[trigger] entries[i]).0@,
        ) by {
            if i < rest.len() {
                assert(rest[i] == entries[i]);
            }
        }
        assert forall|name: Seq<char>| #[trigger] table(entries).contains_key(name) implies exists|
            i: int,
        | 0 <= i < entries.len() && (#[trigger] entries[i]).0@ == name by {
            if name == entries.last().0@ {
                assert(entries[entries.len() - 1].0@ == name);
            } else {
                assert(table(rest).contains_key(name));
                let i = choose|i: int| 0 <= i < rest.len() && (#[trigger] rest[i]).0@ == name;
                assert(entries[i].0@ == name);
            }
        }
        if names_differ(entries) {
            assert forall|i: int, j: int| 0 <= i < j < rest.len() implies (#[trigger] rest[i]).0@
                != (#[trigger] rest[j]).0@ by {
                assert(entries[i].0@ != entries[j].0@);
            }
            assert forall|i: int| 0 <= i < entries.len() implies table(
                entries,
            )[(#[trigger] entries[i]).0@] == entries[i].1@ by {
                if i < rest.len() {
                    assert(rest[i] == entries[i]);
                    assert(entries[i].0@ != entries[entries.len() - 1].0@);
                }
            }
        }
    }
}

impl View for PromptTable {
    type V = Map<Seq<char>, Seq<char>>;

    closed spec fn view(&self) -> Map<Seq<char>, Seq<char>> {
        table(self.entries@)
    }
}

impl PromptTable {
    #[verifier::type_invariant]
    spec fn well_formed(self) -> bool {
        names_differ(self.entries@)
    }

    /// A table without prompts.
    pub fn new() -> (prompts: Self)
        ensures
            prompts@ == Map::<Seq<char>, Seq<char>>::empty(),
    {
        PromptTable { entries: Vec::new() }
    }

    /// Puts a prompt under a name, in place of the one that was there.
    pub fn insert(&mut self, name: String, prompt: String)
        ensures
            final(self)@ == old(self)@.insert(name@, prompt@),
    {
        proof {
            use_type_invariant(&*self);
        }
        let mut entries: Vec<(String, String)> = Vec::new();
        std::mem::swap(&mut entries, &mut self.entries);
        let ghost before = entries@;
        proof {
            lemma_table(before);
        }
        match position(&entries, name.as_str()) {
            Some(at) => {
                entries.set(at, (name, prompt));
                proof {
                    assert forall|i: int, j: int| 0 <= i < j < entries@.len() implies (
                    #[trigger] entries@[i]).0@ != (#[trigger] entries@[j]).0@ by {
                        assert(before[i].0@ != before[j].0@);
                    }
                    lemma_table(entries@);
                    let after = table(entries@);
                    let expected = table(before).insert(name@, prompt@);
                    assert(before[at as int].0@ == name@);
                    assert forall|key: Seq<char>|
                        after.contains_key(key) <==> expected.contains_key(key) by {
                        if after.contains_key(key) {
                            let i = choose|i: int|
                                0 <= i < entries@.len() && (#[trigger] entries@[i]).0@ == key;
                            assert(table(before).contains_key(before[i].0@));
                        }
                        if expected.contains_key(key) && key != name@ {
                            let i = choose|i: int|
                                0 <= i < before.len() && (#[trigger] before[i]).0@ == key;
                            assert(entries@[i] == before[i]);
                            assert(after.contains_key(entries@[i].0@));
                        }
                        assert(after.contains_key(entries@[at as int].0@));
                    }
                    assert forall|key: Seq<char>| after.contains_key(key) implies after[key]
                        == expected[key] by {
                        let i = choose|i: int|
                            0 <= i < entries@.len() && (#[trigger] entries@[i]).0@ == key;
                        if i == at {
                            assert(entries@[at as int].0@ == name@);
                        } else {
                            assert(before[i] == entries@[i]);
                            assert(entries@[i].0@ != entries@[at as int].0@) by {
                                if i < at {
                                    assert(before[i].0@ != before[at as int].0@);
                                } else {
                                    assert(before[at as int].0@ != before[i].0@);
                                }
                            }
                        }
                    }
                    assert(after =~= expected);
                }
            },
            None => {
                entries.push((name, prompt));
                proof {
                    assert(entries@.drop_last() =~= before);
                    assert forall|i: int, j: int| 0 <= i < j < entries@.len() implies (
                    #[trigger] entries@[i]).0@ != (#[trigger] entries@[j]).0@ by {
                        if j < before.len() {
                            assert(before[i].0@ != before[j].0@);
                        } else {
                            assert(before[i] == entries@[i]);
                        }
                    }
                }
            },
        }
        self.entries = entries;
    }

    /// The prompt under a name.
    pub fn get(&self, name: &str) -> (prompt: Option<&String>)
        ensures
            match prompt {
                Some(text) => self@.contains_key(name@) && self@[name@] == text@,
                None => !self@.contains_key(name@),
            },
    {
        proof {
            use_type_invariant(self);
            lemma_table(self.entries@);
        }
        match position(&self.entries, name) {
            Some(at) => Some(&self.entries[at].1),
            None => None,
        }
    }

    /// Whether there is a prompt under a name.
    pub fn contains_key(&self, name: &str) -> (found: bool)
        ensures
            found == self@.contains_key(name@),
    {
        self.get(name).is_some()
    }

    /// Whether there is no prompt at all.
    pub fn is_empty(&self) -> (empty: bool)
        ensures
            empty == (self@ == Map::<Seq<char>, Seq<char>>::empty()),
    {
        proof {
            lemma_table(self.entries@);
            if self.entries@.len() > 0 {
                assert(self@.contains_key(self.entries@[0].0@));
            }
        }
        self.entries.len() == 0
    }
}

impl Clone for PromptTable {
    /// A table with the same prompts under the same names.
    fn clone(&self) -> (copy: Self)
        ensures
            copy@ == self@,
    {
        proof {
            use_type_invariant(self);
        }
        let mut entries: Vec<(String, String)> = Vec::new();
        while entries.len() < self.entries.len()
            invariant
                entries@.len() <= self.entries@.len(),
                entries@ == self.entries@.take(entries@.len() as int),
            decreases self.entries@.len() - entries@.len(),
        {
            let next: usize = entries.len();
            entries.push((self.entries[next].0.clone(), self.entries[next].1.clone()));
        }
        assert(entries@ =~= self.entries@);
        PromptTable { entries }
    }
}

impl PartialEq for PromptTable {
    /// Whether both hold the same prompts under the same names, in whatever
    /// order they were put there.
    fn eq(&self, other: &Self) -> (same: bool) {
        proof {
            use_type_invariant(self);
            use_type_invariant(other);
            lemma_table(self.entries@);
            lemma_table(other.entries@);
        }
        let same: bool = self.is_within(other) && other.is_within(self);
        proof {
            if same {
                assert(self@ =~= other@);
            }
        }
        same
    }
}

impl vstd::std_specs::cmp::PartialEqSpecImpl for PromptTable {
    open spec fn obeys_eq_spec() -> bool {
        true
    }

    open spec fn eq_spec(&self, other: &Self) -> bool {
        self@ == other@
    }
}

impl PromptTable {
    /// Whether another table has each of these prompts under its name.
    fn is_within(&self, other: &Self) -> (within: bool)
        ensures
            within == (forall|name: Seq<char>| #[trigger]
                self@.contains_key(name) ==> other@.contains_key(name) && other@[name]
                    == self@[name]),
    {
        proof {
            use_type_invariant(self);
            lemma_table(self.entries@);
        }
        let mut next: usize = 0;
        while next < self.entries.len()
            invariant
                next <= self.entries@.len(),
                forall|i: int|
                    0 <= i < self.entries@.len() ==> self@.contains_key(
                        (#[trigger] self.entries@[i]).0@,
                    ) && self@[self.entries@[i].0@] == self.entries@[i].1@,
                forall|i: int|
                    0 <= i < next ==> other@.contains_key((#[trigger] self.entries@[i]).0@)
                        && other@[self.entries@[i].0@] == self.entries@[i].1@,
            decreases self.entries@.len() - next,
        {
            match other.get(self.entries[next].0.as_str()) {
                Some(prompt) => {
                    if !same_text(prompt.as_str(), self.entries[next].1.as_str()) {
                        return false;
                    }
                },
                None => {
                    return false;
                },
            }
            next = next + 1;
        }
        true
    }
}

/// Where the entry under a name stands.
fn position(entries: &Vec<(String, String)>, name: &str) -> (at: Option<usize>)
    ensures
        match at {
            Some(at) => at < entries@.len() && entries@[at as int].0@ == name@,
            None => forall|i: int|
                0 <= i < entries@.len() ==> (#[trigger] entries@[i]).0@ != name@,
        },
{
    let mut next: usize = 0;
    while next < entries.len()
        invariant
            next <= entries@.len(),
            forall|i: int| 0 <= i < next ==> (#[trigger] entries@[i]).0@ != name@,
        decreases entries@.len() - next,
    {
        if same_text(entries[next].0.as_str(), name) {
            return Some(next);
        }
        next = next + 1;
    }
    None
}

/// Limits on a recording.
#[derive(Debug, Clone, Copy, PartialEq, Eq, Structural)]
pub struct RecordingConfig {
    pub max_seconds: u32,
    pub trim_silence: bool,
    pub trim_padding_ms: u32,
}

/// 29 seconds, with silence trimmed down to half a second.
pub open spec fn default_recording() -> RecordingConfig {
    RecordingConfig { max_seconds: 29, trim_silence: true, trim_padding_ms: 500 }
}

impl Default for RecordingConfig {
    /// 29 seconds, with silence trimmed down to half a second.
    fn default() -> (config: Self)
        ensures
            config == default_recording(),
    {
        RecordingConfig { max_seconds: 29, trim_silence: true, trim_padding_ms: 500 }
    }
}

/// Which model to ask, where, and with which key.
#[derive(Debug, Clone, PartialEq, Eq)]
pub struct ModelConfig {
    pub url: String,
    pub model: String,
    pub timeout_seconds: u64,
    pub api_key: Option<String>,
    pub api_key_env: Option<String>,
}

/// Whether this is the model on this machine, without a key.
pub open spec fn is_default_model(config: ModelConfig) -> bool {
    &&& config.url@ == "http://127.0.0.1:11434/v1"@
    &&& config.model@ == "unsloth/gemma-4-E2B-it-GGUF:Q4_K_XL"@
    &&& config.timeout_seconds == 60
    &&& config.api_key is None
    &&& config.api_key_env is None
}

impl Default for ModelConfig {
    /// A model on this machine, without a key.
    fn default() -> (config: Self)
        ensures
            is_default_model(config),
    {
        ModelConfig {
            url: "http://127.0.0.1:11434/v1".to_string(),
            model: "unsloth/gemma-4-E2B-it-GGUF:Q4_K_XL".to_string(),
            timeout_seconds: 60,
            api_key: None,
            api_key_env: None,
        }
    }
}

/// The key to use: the one that is written down, unless it is empty; else what
/// the named variable holds, unless that is empty.
pub open spec fn usable_key(
    api_key: Option<String>,
    api_key_env: Option<String>,
    env_value: Option<String>,
) -> Option<String> {
    match api_key {
        Some(key) if key@.len() > 0 => api_key,
        _ => match (api_key_env, env_value) {
            (Some(_), Some(value)) if value@.len() > 0 => env_value,
            _ => None,
        },
    }
}

/// The key to use.
///
/// `env_value` is what the variable that `api_key_env` names holds right now,
/// if it is set.
pub fn choose_key(
    api_key: &Option<String>,
    api_key_env: &Option<String>,
    env_value: Option<String>,
) -> (key: Option<String>)
    ensures
        key == usable_key(*api_key, *api_key_env, env_value),
{
    if let Some(key) = api_key {
        if !key.as_str().is_empty() {
            return copy_option(api_key);
        }
    }
    if api_key_env.is_none() {
        return None;
    }
    match env_value {
        Some(value) => {
            if value.as_str().is_empty() {
                None
            } else {
                Some(value)
            }
        },
        None => None,
    }
}

impl ModelConfig {
    /// The key to use, with `env_value` being what the variable that
    /// `api_key_env` names holds right now, if it is set.
    pub fn resolved_api_key(&self, env_value: Option<String>) -> (key: Option<String>)
        ensures
            key == usable_key(self.api_key, self.api_key_env, env_value),
    {
        choose_key(&self.api_key, &self.api_key_env, env_value)
    }
}

/// How text gets into a window.
#[derive(Debug, Clone, Copy, PartialEq, Eq, Structural)]
pub enum PasteMethod {
    Clipboard,
    Wtype,
}

impl Default for PasteMethod {
    /// Through the clipboard.
    fn default() -> (method: Self)
        ensures
            method == PasteMethod::Clipboard,
    {
        PasteMethod::Clipboard
    }
}

/// What to do where the focus has moved to another window. There is one
/// answer today; others can be added.
#[derive(Debug, Clone, Copy, PartialEq, Eq, Structural)]
pub enum FocusMismatchAction {
    Copy,
}

impl Default for FocusMismatchAction {
    /// Copy the text and leave the window alone.
    fn default() -> (action: Self)
        ensures
            action == FocusMismatchAction::Copy,
    {
        FocusMismatchAction::Copy
    }
}

/// How to paste.
#[derive(Debug, Clone, Copy, PartialEq, Eq, Structural)]
pub struct PasteConfig {
    pub method: PasteMethod,
    pub restore_clipboard: bool,
    pub restore_delay_ms: u64,
    pub on_focus_changed: FocusMismatchAction,
}

/// Through the clipboard, which gets its content back after 100 ms.
pub open spec fn default_paste() -> PasteConfig {
    PasteConfig {
        method: PasteMethod::Clipboard,
        restore_clipboard: true,
        restore_delay_ms: 100,
        on_focus_changed: FocusMismatchAction::Copy,
    }
}

impl Default for PasteConfig {
    /// Through the clipboard, which gets its content back after 100 ms.
    fn default() -> (config: Self)
        ensures
            config == default_paste(),
    {
        PasteConfig {
            method: PasteMethod::Clipboard,
            restore_clipboard: true,
            restore_delay_ms: 100,
            on_focus_changed: FocusMismatchAction::Copy,
        }
    }
}

/// The status overlay: its size, where it stands and how long it fades.
///
/// `x` and `y` are fractions of the screen, each given by the 32 bits of its
/// IEEE 754 single precision number.
#[derive(Debug, Clone, Copy)]
pub struct StatusUiConfig {
    pub enabled: bool,
    pub width: u32,
    pub height: u32,
    pub x: u32,
    pub y: u32,
    pub fade_out_ms: u64,
}

/// Whether two sets of bits stand for single precision numbers that are equal:
/// both zeros are, and what is not a number is equal to nothing. An exponent of
/// 255 with a fraction is not a number.
pub open spec fn is_same_number(bits: u32, other: u32) -> bool {
    let exponent = bits as int / 0x80_0000 % 256;
    let fraction = bits as int % 0x80_0000;
    let exponent2 = other as int / 0x80_0000 % 256;
    let fraction2 = other as int % 0x80_0000;
    &&& !(exponent == 255 && fraction != 0)
    &&& !(exponent2 == 255 && fraction2 != 0)
    &&& bits == other || (exponent == 0 && fraction == 0 && exponent2 == 0 && fraction2 == 0)
}

/// Whether two sets of bits stand for single precision numbers that are equal.
fn same_number(bits: u32, other: u32) -> (same: bool)
    ensures
        same == is_same_number(bits, other),
{
    let size: u32 = bits % 0x8000_0000;
    let size2: u32 = other % 0x8000_0000;
    size <= 0x7F80_0000 && size2 <= 0x7F80_0000 && (bits == other || (size == 0 && size2 == 0))
}

impl PartialEq for StatusUiConfig {
    /// Whether both are the same, with `x` and `y` compared as numbers.
    fn eq(&self, other: &Self) -> (same: bool) {
        self.enabled == other.enabled && self.width == other.width && self.height == other.height
            && same_number(self.x, other.x) && same_number(self.y, other.y) && self.fade_out_ms
            == other.fade_out_ms
    }
}

impl vstd::std_specs::cmp::PartialEqSpecImpl for StatusUiConfig {
    open spec fn obeys_eq_spec() -> bool {
        true
    }

    open spec fn eq_spec(&self, other: &Self) -> bool {
        &&& self.enabled == other.enabled
        &&& self.width == other.width
        &&& self.height == other.height
        &&& is_same_number(self.x, other.x)
        &&& is_same_number(self.y, other.y)
        &&& self.fade_out_ms == other.fade_out_ms
    }
}

/// A square of 200 at 0.5 and 0.8 of the screen.
pub open spec fn default_status_ui() -> StatusUiConfig {
    StatusUiConfig {
        enabled: true,
        width: 200,
        height: 200,
        x: 0x3F00_0000,
        y: 0x3F4C_CCCD,
        fade_out_ms: 350,
    }
}

impl Default for StatusUiConfig {
    /// A square of 200 at 0.5 and 0.8 of the screen.
    fn default() -> (config: Self)
        ensures
            config == default_status_ui(),
    {
        StatusUiConfig {
            enabled: true,
            width: 200,
            height: 200,
            x: 0x3F00_0000,
            y: 0x3F4C_CCCD,
            fade_out_ms: 350,
        }
    }
}

/// Whether the single precision number with these bits is from 0 to 1. The
/// top bit is the sign, the next eight the exponent, the rest the fraction;
/// an exponent of 127 and no fraction make 1, and minus zero is zero.
pub open spec fn is_unit_fraction(bits: u32) -> bool {
    let sign = bits as int / 0x8000_0000;
    let exponent = bits as int / 0x80_0000 % 256;
    let fraction = bits as int % 0x80_0000;
    &&& sign == 0 || (exponent == 0 && fraction == 0)
    &&& exponent < 127 || (exponent == 127 && fraction == 0)
}

/// Whether the single precision number with these bits is from 0 to 1.
fn unit_fraction(bits: u32) -> (unit: bool)
    ensures
        unit == is_unit_fraction(bits),
{
    bits <= 0x3F80_0000 || bits == 0x8000_0000
}

/// What to do in certain windows.
#[derive(Debug, Clone, PartialEq, Eq)]
pub struct AppRule {
    pub app_id: Option<String>,
    pub class: Option<String>,
    pub title_contains: Option<String>,
    pub prompt: Option<String>,
    pub paste_keys: Option<String>,
}

impl Default for AppRule {
    /// A rule without any field.
    fn default() -> (rule: Self)
        ensures
            rule.app_id is None,
            rule.class is None,
            rule.title_contains is None,
            rule.prompt is None,
            rule.paste_keys is None,
    {
        AppRule { app_id: None, class: None, title_contains: None, prompt: None, paste_keys: None }
    }
}

/// Whether a rule speaks of a window: it names at least one of application,
/// class and title, and the window has all that it names.
pub open spec fn rule_matches(rule: AppRule, context: AppContext) -> bool {
    &&& rule.app_id is Some || rule.class is Some || rule.title_contains is Some
    &&& rule.app_id matches Some(app_id) ==> opt_view(context.app_id) == Some(app_id@)
    &&& rule.class matches Some(class) ==> opt_view(context.class) == Some(class@)
    &&& rule.title_contains matches Some(part) ==> (context.title matches Some(title) && has_text(
        title@,
        part@,
    ))
}

impl AppRule {
    /// Whether the rule speaks of the window.
    pub fn matches(&self, context: &AppContext) -> (matched: bool)
        ensures
            matched == rule_matches(*self, *context),
    {
        let mut named_any: bool = false;
        if let Some(app_id) = &self.app_id {
            named_any = true;
            if !is_text(&context.app_id, app_id.as_str()) {
                return false;
            }
        }
        if let Some(class) = &self.class {
            named_any = true;
            if !is_text(&context.class, class.as_str()) {
                return false;
            }
        }
        if let Some(part) = &self.title_contains {
            named_any = true;
            match &context.title {
                Some(title) => {
                    if !contains_text(title.as_str(), part.as_str()) {
                        return false;
                    }
                },
                None => {
                    return false;
                },
            }
        }
        named_any
    }
}

/// The configuration.
#[derive(Debug, Clone, PartialEq)]
pub struct Config {
    pub recording: RecordingConfig,
    pub model: ModelConfig,
    pub paste: PasteConfig,
    pub status_ui: StatusUiConfig,
    pub prompts: PromptTable,
    pub app_rules: Vec<AppRule>,
}

impl Default for Config {
    /// The default of each part, without prompts and without rules.
    fn default() -> (config: Self)
        ensures
            config.recording == default_recording(),
            is_default_model(config.model),
            config.paste == default_paste(),
            config.status_ui == default_status_ui(),
            config.prompts@ == Map::<Seq<char>, Seq<char>>::empty(),
            config.app_rules@.len() == 0,
    {
        Config {
            recording: RecordingConfig::default(),
            model: ModelConfig::default(),
            paste: PasteConfig::default(),
            status_ui: StatusUiConfig::default(),
            prompts: PromptTable::new(),
            app_rules: Vec::new(),
        }
    }
}

/// The first rule that speaks of a window.
pub open spec fn first_rule(rules: Seq<AppRule>, context: AppContext) -> Option<AppRule>
    decreases rules.len(),
{
    if rules.len() == 0 {
        None
    } else if rule_matches(rules[0], context) {
        Some(rules[0])
    } else {
        first_rule(rules.drop_first(), context)
    }
}

/// A rule decides for a window where it speaks of it and no rule before it
/// does; where none speaks of it, none decides.
pub proof fn law_first_rule_decides(rules: Seq<AppRule>, context: AppContext, at: int)
    requires
        0 <= at <= rules.len(),
        forall|i: int| 0 <= i < at ==> !rule_matches(#[trigger] rules[i], context),
        at < rules.len() ==> rule_matches(rules[at], context),
    ensures
        first_rule(rules, context) == (if at < rules.len() {
            Some(rules[at])
        } else {
            None
        }),
    decreases at,
{
    if at > 0 {
        let rest = rules.drop_first();
        assert(!rule_matches(rules[0], context));
        assert forall|i: int| 0 <= i < at - 1 implies !rule_matches(
            #[trigger] rest[i],
            context,
        ) by {
            assert(rest[i] == rules[i + 1]);
        }
        law_first_rule_decides(rest, context, at - 1);
    }
}

/// The rule that decides for a window is one of the rules and speaks of it.
pub proof fn lemma_first_rule(rules: Seq<AppRule>, context: AppContext)
    ensures
        first_rule(rules, context) matches Some(rule) ==> rule_matches(rule, context) && exists|
            i: int,
        | 0 <= i < rules.len() && #[trigger] rules[i] == rule,
    decreases rules.len(),
{
    if rules.len() > 0 && !rule_matches(rules[0], context) {
        let rest = rules.drop_first();
        lemma_first_rule(rest, context);
        if let Some(rule) = first_rule(rest, context) {
            let i = choose|i: int| 0 <= i < rest.len() && #[trigger] rest[i] == rule;
            assert(rules[i + 1] == rule);
        }
    }
}

impl Config {
    /// The first rule that speaks of a window.
    pub fn app_rule_for_context(&self, context: &AppContext) -> (rule: Option<&AppRule>)
        ensures
            match rule {
                Some(rule) => first_rule(self.app_rules@, *context) == Some(*rule),
                None => first_rule(self.app_rules@, *context) is None,
            },
    {
        let mut next: usize = 0;
        while next < self.app_rules.len()
            invariant
                next <= self.app_rules@.len(),
                forall|i: int|
                    0 <= i < next ==> !rule_matches(#[trigger] self.app_rules@[i], *context),
            decreases self.app_rules@.len() - next,
        {
            if self.app_rules[next].matches(context) {
                proof {
                    law_first_rule_decides(self.app_rules@, *context, next as int);
                }
                return Some(&self.app_rules[next]);
            }
            next = next + 1;
        }
        proof {
            law_first_rule_decides(self.app_rules@, *context, next as int);
        }
        None
    }

    /// The name of the prompt that the first rule for a window chooses.
    pub open spec fn chosen_prompt(self, context: AppContext) -> Option<Seq<char>> {
        match first_rule(self.app_rules@, context) {
            Some(rule) => opt_view(rule.prompt),
            None => None,
        }
    }

    /// The name of the prompt that the first rule for a window chooses.
    pub fn prompt_name_for_context(&self, context: &AppContext) -> (name: Option<&str>)
        ensures
            match name {
                Some(name) => self.chosen_prompt(*context) == Some(name@),
                None => self.chosen_prompt(*context) is None,
            },
    {
        match self.app_rule_for_context(context) {
            Some(rule) => match &rule.prompt {
                Some(name) => Some(name.as_str()),
                None => None,
            },
            None => None,
        }
    }
}

/// What `reqwest::Url` reads as the scheme of a text, if it takes the text for
/// a URL.
pub uninterp spec fn url_scheme(text: Seq<char>) -> Option<Seq<char>>;

/// The scheme of a URL, or nothing where the text is no URL.
///
/// Trusted: whether `reqwest::Url::parse` takes a text, and which
/// `Url::scheme` it then has, depends on the text alone.
#[verifier::external_body]
fn parse_scheme(text: &str) -> (scheme: Option<String>)
    ensures
        opt_view(scheme) == url_scheme(text@),
{
    match reqwest::Url::parse(text) {
        Ok(url) => Some(url.scheme().to_string()),
        Err(_) => None,
    }
}

/// What is wrong with a configuration.
#[derive(Debug, Clone, PartialEq, Eq)]
pub enum ConfigError {
    ZeroMaxSeconds,
    EmptyModel,
    ZeroTimeout,
    ZeroWidth,
    ZeroHeight,
    XOutOfRange,
    YOutOfRange,
    InvalidUrl(String),
    UnsupportedScheme(String),
    MissingPrompt(usize, String),
}

impl ConfigError {
    /// What the error says.
    pub open spec fn words(self) -> Seq<char> {
        match self {
            ConfigError::ZeroMaxSeconds => "recording.max_seconds must be greater than 0"@,
            ConfigError::EmptyModel => "model.model must not be empty"@,
            ConfigError::ZeroTimeout => "model.timeout_seconds must be greater than 0"@,
            ConfigError::ZeroWidth => "status_ui.width must be greater than 0"@,
            ConfigError::ZeroHeight => "status_ui.height must be greater than 0"@,
            ConfigError::XOutOfRange => "status_ui.x must be between 0.0 and 1.0"@,
            ConfigError::YOutOfRange => "status_ui.y must be between 0.0 and 1.0"@,
            ConfigError::InvalidUrl(url) => "invalid model.url: "@ + url@,
            ConfigError::UnsupportedScheme(scheme) =>
                "model.url must use http or https, got "@ + scheme@,
            ConfigError::MissingPrompt(index, name) => "app_rules["@ + decimal(index as nat)
                + "].prompt references missing prompt "@ + quoted(name@),
        }
    }

    /// What the error says.
    pub fn message(&self) -> (text: String)
        ensures
            text@ == self.words(),
    {
        match self {
            ConfigError::ZeroMaxSeconds =>
                "recording.max_seconds must be greater than 0".to_string(),
            ConfigError::EmptyModel => "model.model must not be empty".to_string(),
            ConfigError::ZeroTimeout => "model.timeout_seconds must be greater than 0".to_string(),
            ConfigError::ZeroWidth => "status_ui.width must be greater than 0".to_string(),
            ConfigError::ZeroHeight => "status_ui.height must be greater than 0".to_string(),
            ConfigError::XOutOfRange => "status_ui.x must be between 0.0 and 1.0".to_string(),
            ConfigError::YOutOfRange => "status_ui.y must be between 0.0 and 1.0".to_string(),
            ConfigError::InvalidUrl(url) => {
                let mut text: String = "invalid model.url: ".to_string();
                text.append(url.as_str());
                text
            },
            ConfigError::UnsupportedScheme(scheme) => {
                let mut text: String = "model.url must use http or https, got ".to_string();
                text.append(scheme.as_str());
                text
            },
            ConfigError::MissingPrompt(index, name) => {
                let mut text: String = "app_rules[".to_string();
                text.append(to_decimal(*index as u64).as_str());
                text.append("].prompt references missing prompt ");
                text.append(quote(name.as_str()).as_str());
                text
            },
        }
    }
}

impl Config {
    /// Whether a rule chooses a prompt that is neither the default one nor in
    /// the table.
    pub open spec fn lacks_prompt(self, rule: AppRule) -> bool {
        rule.prompt matches Some(name) && name@ != "default"@ && !self.prompts@.contains_key(name@)
    }

    /// The first rule, from a place on, that chooses a prompt that is not
    /// there.
    pub open spec fn prompts_from(self, at: int) -> Result<(), ConfigError>
        decreases self.app_rules@.len() - at,
    {
        if at < 0 || at >= self.app_rules@.len() {
            Ok(())
        } else if self.lacks_prompt(self.app_rules@[at]) {
            Err(ConfigError::MissingPrompt(at as usize, self.app_rules@[at].prompt->0))
        } else {
            self.prompts_from(at + 1)
        }
    }

    /// The first thing that is wrong with the configuration, where the URL of
    /// its model has the given scheme, or none where it is no URL.
    pub open spec fn verdict(self, scheme: Option<String>) -> Result<(), ConfigError> {
        if self.recording.max_seconds == 0 {
            Err(ConfigError::ZeroMaxSeconds)
        } else if trimmed(self.model.model@).len() == 0 {
            Err(ConfigError::EmptyModel)
        } else if self.model.timeout_seconds == 0 {
            Err(ConfigError::ZeroTimeout)
        } else if self.status_ui.width == 0 {
            Err(ConfigError::ZeroWidth)
        } else if self.status_ui.height == 0 {
            Err(ConfigError::ZeroHeight)
        } else if !is_unit_fraction(self.status_ui.x) {
            Err(ConfigError::XOutOfRange)
        } else if !is_unit_fraction(self.status_ui.y) {
            Err(ConfigError::YOutOfRange)
        } else {
            match scheme {
                None => Err(ConfigError::InvalidUrl(self.model.url)),
                Some(name) => if name@ == "http"@ || name@ == "https"@ {
                    self.prompts_from(0)
                } else {
                    Err(ConfigError::UnsupportedScheme(name))
                },
            }
        }
    }

    /// Looks for the first thing that is wrong with the configuration, where
    /// the URL of its model has the given scheme, or none where it is no URL.
    pub fn validate_with_scheme(&self, scheme: Option<String>) -> (checked: Result<
        (),
        ConfigError,
    >)
        ensures
            checked == self.verdict(scheme),
    {
        if self.recording.max_seconds == 0 {
            return Err(ConfigError::ZeroMaxSeconds);
        }
        if trim(self.model.model.as_str()).is_empty() {
            return Err(ConfigError::EmptyModel);
        }
        if self.model.timeout_seconds == 0 {
            return Err(ConfigError::ZeroTimeout);
        }
        if self.status_ui.width == 0 {
            return Err(ConfigError::ZeroWidth);
        }
        if self.status_ui.height == 0 {
            return Err(ConfigError::ZeroHeight);
        }
        if !unit_fraction(self.status_ui.x) {
            return Err(ConfigError::XOutOfRange);
        }
        if !unit_fraction(self.status_ui.y) {
            return Err(ConfigError::YOutOfRange);
        }
        match scheme {
            None => {
                return Err(ConfigError::InvalidUrl(self.model.url.clone()));
            },
            Some(name) => {
                if !same_text(name.as_str(), "http") && !same_text(name.as_str(), "https") {
                    return Err(ConfigError::UnsupportedScheme(name));
                }
            },
        }
        let ghost expected = self.prompts_from(0);
        let mut next: usize = 0;
        while next < self.app_rules.len()
            invariant
                next <= self.app_rules@.len(),
                expected == self.prompts_from(next as int),
                expected == self.verdict(scheme),
            decreases self.app_rules@.len() - next,
        {
            if let Some(name) = &self.app_rules[next].prompt {
                if !same_text(name.as_str(), "default") && !self.prompts.contains_key(
                    name.as_str(),
                ) {
                    return Err(ConfigError::MissingPrompt(next, name.clone()));
                }
            }
            next = next + 1;
        }
        Ok(())
    }

    /// Looks for the first thing that is wrong with the configuration.
    pub fn validate(&self) -> (checked: Result<(), ConfigError>)
        ensures
            exists|scheme: Option<String>|
                opt_view(scheme) == url_scheme(self.model.url@) && checked == #[trigger]
                    self.verdict(scheme),
    {
        let scheme: Option<String> = parse_scheme(self.model.url.as_str());
        let checked = self.validate_with_scheme(scheme);
        assert(checked == self.verdict(scheme));
        checked
    }
}

/// A configuration is valid where every number is in its range, the model has
/// a name, its URL is one of `http` or `https`, and every rule chooses a prompt
/// that is there; and nowhere else.
pub proof fn law_valid_config(config: Config, scheme: Option<String>)
    ensures
        config.verdict(scheme) is Ok <==> {
            &&& config.recording.max_seconds > 0
            &&& trimmed(config.model.model@).len() > 0
            &&& config.model.timeout_seconds > 0
            &&& config.status_ui.width > 0
            &&& config.status_ui.height > 0
            &&& is_unit_fraction(config.status_ui.x)
            &&& is_unit_fraction(config.status_ui.y)
            &&& opt_view(scheme) == Some("http"@) || opt_view(scheme) == Some("https"@)
            &&& forall|i: int|
                0 <= i < config.app_rules@.len() ==> !config.lacks_prompt(
                    #[trigger] config.app_rules@[i],
                )
        },
{
    lemma_prompts_from(config, 0);
}

/// The configuration that holds where none is written down is valid.
pub proof fn law_default_config_is_valid(config: Config, scheme: Option<String>)
    requires
        call_ensures(Config::default, (), config),
        opt_view(scheme) == Some("http"@),
    ensures
        config.verdict(scheme) is Ok,
{
    reveal_strlit("unsloth/gemma-4-E2B-it-GGUF:Q4_K_XL");
    let name = config.model.model@;
    assert(name.len() == 35);
    assert(trimmed_start(name) == name);
    assert(name.last() == 'L');
    assert(trimmed(name) == name);
    law_valid_config(config, scheme);
}

proof fn lemma_prompts_from(config: Config, at: int)
    requires
        0 <= at,
    ensures
        config.prompts_from(at) is Ok <==> (forall|i: int|
            at <= i < config.app_rules@.len() ==> !config.lacks_prompt(
                #[trigger] config.app_rules@[i],
            )),
    decreases config.app_rules@.len() - at,
{
    if at < config.app_rules@.len() {
        lemma_prompts_from(config, at + 1);
        if !config.lacks_prompt(config.app_rules@[at]) {
            assert forall|i: int|
                config.prompts_from(at + 1) is Ok && at <= i
                    < config.app_rules@.len() implies !config.lacks_prompt(
                #[trigger] config.app_rules@[i],
            ) by {
                if i > at {
                    assert(at + 1 <= i);
                }
            }
        }
    }
}

/// Where the configuration is kept: below the configuration directory if one
/// is set, else below the home directory, else in the working directory.
pub open spec fn config_file(
    config_home: Option<Seq<u8>>,
    home: Option<Seq<u8>>,
) -> Seq<u8> {
    match (config_home, home) {
        (Some(dir), _) => path_join(path_join(dir, utf8("ut"@)), utf8("config.toml"@)),
        (None, Some(dir)) => path_join(
            path_join(path_join(dir, utf8(".config"@)), utf8("ut"@)),
            utf8("config.toml"@),
        ),
        (None, None) => utf8("ut.toml"@),
    }
}

/// Where the configuration is kept, with the values of `XDG_CONFIG_HOME` and
/// `HOME`.
pub fn config_path(config_home: Option<&[u8]>, home: Option<&[u8]>) -> (path: Vec<u8>)
    ensures
        path@ == config_file(opt_bytes(config_home), opt_bytes(home)),
{
    if let Some(dir) = config_home {
        let below: Vec<u8> = join(dir, "ut".as_bytes());
        return join(below.as_slice(), "config.toml".as_bytes());
    }
    if let Some(dir) = home {
        let configs: Vec<u8> = join(dir, ".config".as_bytes());
        let below: Vec<u8> = join(configs.as_slice(), "ut".as_bytes());
        return join(below.as_slice(), "config.toml".as_bytes());
    }
    bytes_of("ut.toml")
}

/// A rule speaks of a window that has all that the rule names: the very
/// application, the very class, and a title in which the words stand. A rule that
/// names nothing speaks of no window.
pub proof fn law_rule_speaks_of_what_it_names(rule: AppRule, context: AppContext, matched: bool)
    requires
        call_ensures(AppRule::matches, (&rule, &context), matched),
    ensures
        rule.app_id is None && rule.class is None && rule.title_contains is None ==> !matched,
        matched ==> (rule.app_id matches Some(name) ==> (context.app_id matches Some(own) && own@
            == name@)),
        matched ==> (rule.class matches Some(name) ==> (context.class matches Some(own) && own@
            == name@)),
        matched ==> (rule.title_contains matches Some(words) ==> (context.title matches Some(title)
            && exists|before: Seq<char>, behind: Seq<char>| title@ == #[trigger] (before + words@
            + behind))),
        !matched ==> {
            ||| rule.app_id is None && rule.class is None && rule.title_contains is None
            ||| rule.app_id matches Some(name) && (context.app_id matches Some(own) ==> own@
                != name@)
            ||| rule.class matches Some(name) && (context.class matches Some(own) ==> own@ != name@)
            ||| rule.title_contains matches Some(words) && (context.title matches Some(title)
                ==> forall|before: Seq<char>, behind: Seq<char>|
                title@ != #[trigger] (before + words@ + behind))
        },
{
    if let Some(words) = rule.title_contains {
        if let Some(title) = context.title {
            let n: int = words@.len() as int;
            if has_text(title@, words@) {
                let at = choose|at: int| crate::text::occurs_at(title@, words@, at);
                let before = title@.take(at);
                let behind = title@.skip(at + n);
                assert(title@ =~= before + words@ + behind);
            } else {
                assert forall|before: Seq<char>, behind: Seq<char>|
                    title@ != #[trigger] (before + words@ + behind) by {
                    if title@ == before + words@ + behind {
                        let at: int = before.len() as int;
                        assert(title@.subrange(at, at + n) =~= words@);
                        assert(crate::text::occurs_at(title@, words@, at));
                    }
                }
            }
        }
    }
}

/// The rule for a window is the first one that speaks of it, and its prompt is
/// the one that is chosen; where none speaks of it there is none.
pub proof fn law_first_matching_rule_is_used(
    config: Config,
    context: AppContext,
    at: int,
    rule: Option<&AppRule>,
    name: Option<&str>,
)
    requires
        call_ensures(Config::app_rule_for_context, (&config, &context), rule),
        call_ensures(Config::prompt_name_for_context, (&config, &context), name),
        0 <= at <= config.app_rules@.len(),
        forall|i: int|
            0 <= i < at ==> !rule_matches(#[trigger] config.app_rules@[i], context),
        at < config.app_rules@.len() ==> rule_matches(config.app_rules@[at], context),
    ensures
        at < config.app_rules@.len() ==> (rule matches Some(it) && *it == config.app_rules@[at]),
        at == config.app_rules@.len() ==> rule is None && name is None,
        at < config.app_rules@.len() ==> match config.app_rules@[at].prompt {
            Some(chosen) => name matches Some(it) && it@ == chosen@,
            None => name is None,
        },
{
    law_first_rule_decides(config.app_rules@, context, at);
}

/// A configuration passes where every number is in its range, the model has a
/// name that is more than white space, its URL has the scheme `http` or `https`,
/// and every rule that chooses a prompt chooses the default one or one that is
/// there; and nowhere else.
pub proof fn law_what_passes_is_sound(
    config: Config,
    scheme: Option<String>,
    checked: Result<(), ConfigError>,
)
    requires
        call_ensures(Config::validate_with_scheme, (&config, scheme), checked),
    ensures
        checked is Ok <==> {
            &&& config.recording.max_seconds > 0
            &&& exists|i: int|
                0 <= i < config.model.model@.len() && !is_white_space(
                    #[trigger] config.model.model@[i],
                )
            &&& config.model.timeout_seconds > 0
            &&& config.status_ui.width > 0
            &&& config.status_ui.height > 0
            &&& config.status_ui.x <= 0x3F80_0000 || config.status_ui.x == 0x8000_0000
            &&& config.status_ui.y <= 0x3F80_0000 || config.status_ui.y == 0x8000_0000
            &&& scheme matches Some(name) && (name@ == "http"@ || name@ == "https"@)
            &&& forall|i: int|
                0 <= i < config.app_rules@.len() ==> ((
                #[trigger] config.app_rules@[i]).prompt matches Some(name) ==> name@ == "default"@
                    || config.prompts@.contains_key(name@))
        },
{
    law_valid_config(config, scheme);
    lemma_unit_fraction(config.status_ui.x);
    lemma_unit_fraction(config.status_ui.y);
    lemma_blank(config.model.model@);
    if checked is Ok {
        assert forall|i: int| 0 <= i < config.app_rules@.len() implies ((
        #[trigger] config.app_rules@[i]).prompt matches Some(name) ==> name@ == "default"@
            || config.prompts@.contains_key(name@)) by {
            assert(!config.lacks_prompt(config.app_rules@[i]));
        }
    }
}

proof fn lemma_unit_fraction(bits: u32)
    ensures
        is_unit_fraction(bits) <==> bits <= 0x3F80_0000 || bits == 0x8000_0000,
{
}

proof fn lemma_blank(text: Seq<char>)
    ensures
        trimmed(text).len() > 0 <==> exists|i: int|
            0 <= i < text.len() && !is_white_space(#[trigger] text[i]),
{
    crate::text::lemma_trimmed_between(text);
    crate::text::lemma_trimmed_ends(text);
    let (start, end) = choose|start: int, end: int|
        0 <= start <= end <= text.len() && trimmed(text) == #[trigger] text.subrange(start, end)
            && crate::text::is_white_around(text, start, end);
    if trimmed(text).len() > 0 {
        assert(trimmed(text)[0] == text[start]);
    }
}

/// What is said to be wrong with a configuration is wrong with it, and nothing
/// that is looked at before it is: the length of a recording, the name of the
/// model, how long it is waited for, the size of the overlay, its place, the URL,
/// the prompts of the rules.
pub proof fn law_first_fault_is_reported(
    config: Config,
    scheme: Option<String>,
    checked: Result<(), ConfigError>,
)
    requires
        call_ensures(Config::validate_with_scheme, (&config, scheme), checked),
    ensures
        config.recording.max_seconds == 0 <==> checked == Err::<(), ConfigError>(
            ConfigError::ZeroMaxSeconds,
        ),
        checked == Err::<(), ConfigError>(ConfigError::EmptyModel) ==> forall|i: int|
            0 <= i < config.model.model@.len() ==> is_white_space(
                #[trigger] config.model.model@[i],
            ),
        checked == Err::<(), ConfigError>(ConfigError::ZeroTimeout) ==> config.model.timeout_seconds
            == 0,
        checked == Err::<(), ConfigError>(ConfigError::ZeroWidth) ==> config.status_ui.width == 0,
        checked == Err::<(), ConfigError>(ConfigError::ZeroHeight) ==> config.status_ui.height == 0,
        checked == Err::<(), ConfigError>(ConfigError::XOutOfRange) ==> config.status_ui.x
            > 0x3F80_0000 && config.status_ui.x != 0x8000_0000,
        checked == Err::<(), ConfigError>(ConfigError::YOutOfRange) ==> config.status_ui.y
            > 0x3F80_0000 && config.status_ui.y != 0x8000_0000,
        checked matches Err(ConfigError::InvalidUrl(url)) ==> scheme is None && url@
            == config.model.url@,
        checked matches Err(ConfigError::UnsupportedScheme(name)) ==> scheme == Some(name) && name@
            != "http"@ && name@ != "https"@,
        checked matches Err(ConfigError::MissingPrompt(at, name)) ==> at < config.app_rules@.len()
            && config.app_rules@[at as int].prompt == Some(name) && name@ != "default"@
            && !config.prompts@.contains_key(name@) || config.app_rules@.len() > usize::MAX,
        ({
            let named = exists|i: int|
                0 <= i < config.model.model@.len() && !is_white_space(
                    #[trigger] config.model.model@[i],
                );
            let ui = config.status_ui;
            let lasts = config.recording.max_seconds > 0;
            let waits = config.model.timeout_seconds > 0;
            let at_x = ui.x <= 0x3F80_0000 || ui.x == 0x8000_0000;
            let at_y = ui.y <= 0x3F80_0000 || ui.y == 0x8000_0000;
            &&& lasts && !named ==> checked == Err::<(), ConfigError>(ConfigError::EmptyModel)
            &&& lasts && named && !waits ==> checked == Err::<(), ConfigError>(
                ConfigError::ZeroTimeout,
            )
            &&& lasts && named && waits && ui.width == 0 ==> checked == Err::<(), ConfigError>(
                ConfigError::ZeroWidth,
            )
            &&& lasts && named && waits && ui.width > 0 && ui.height == 0 ==> checked == Err::<
                (),
                ConfigError,
            >(ConfigError::ZeroHeight)
            &&& lasts && named && waits && ui.width > 0 && ui.height > 0 && !at_x ==> checked
                == Err::<(), ConfigError>(ConfigError::XOutOfRange)
            &&& lasts && named && waits && ui.width > 0 && ui.height > 0 && at_x && !at_y
                ==> checked == Err::<(), ConfigError>(ConfigError::YOutOfRange)
            &&& lasts && named && waits && ui.width > 0 && ui.height > 0 && at_x && at_y && scheme
                is None ==> (checked matches Err(error) && error is InvalidUrl)
        }),
{
    lemma_unit_fraction(config.status_ui.x);
    lemma_unit_fraction(config.status_ui.y);
    lemma_blank(config.model.model@);
    lemma_missing_prompt(config, 0);
}

proof fn lemma_missing_prompt(config: Config, at: int)
    requires
        0 <= at,
    ensures
        config.prompts_from(at) matches Err(error) ==> (error matches ConfigError::MissingPrompt(
            place,
            name,
        ) && (config.app_rules@.len() <= usize::MAX ==> at <= place < config.app_rules@.len()
            && config.app_rules@[place as int].prompt == Some(name) && name@ != "default"@
            && !config.prompts@.contains_key(name@))),
    decreases config.app_rules@.len() - at,
{
    if at < config.app_rules@.len() {
        lemma_missing_prompt(config, at + 1);
    }
}

/// A configuration is checked with the scheme of its own URL: what passes has
/// `http` or `https`, and what is no URL is named.
pub proof fn law_url_is_checked(config: Config, checked: Result<(), ConfigError>)
    requires
        call_ensures(Config::validate, (&config,), checked),
    ensures
        checked is Ok ==> url_scheme(config.model.url@) == Some("http"@) || url_scheme(
            config.model.url@,
        ) == Some("https"@),
        checked matches Err(ConfigError::InvalidUrl(url)) ==> url_scheme(config.model.url@) is None
            && url@ == config.model.url@,
        checked matches Err(ConfigError::UnsupportedScheme(name)) ==> url_scheme(config.model.url@)
            == Some(name@),
        config.recording.max_seconds == 0 ==> checked is Err,
{
    let scheme = choose|scheme: Option<String>|
        opt_view(scheme) == url_scheme(config.model.url@) && checked == #[trigger] config.verdict(
            scheme,
        );
    assert(checked == config.verdict(scheme));
    lemma_missing_prompt(config, 0);
}

/// The key that is written down is used where it is not empty, whatever the
/// environment holds; else what the variable holds, but only where one is named
/// and it is not empty. No empty key is ever used.
pub proof fn law_written_key_comes_first(
    config: ModelConfig,
    env_value: Option<String>,
    key: Option<String>,
)
    requires
        call_ensures(ModelConfig::resolved_api_key, (&config, env_value), key),
    ensures
        config.api_key matches Some(own) ==> own@.len() > 0 ==> key == config.api_key,
        (config.api_key matches Some(own) ==> own@.len() == 0) && config.api_key_env is None ==> key
            is None,
        (config.api_key matches Some(own) ==> own@.len() == 0) && config.api_key_env is Some ==> (
        env_value matches Some(value) ==> if value@.len() > 0 {
            key == env_value
        } else {
            key is None
        }),
        key matches Some(used) ==> used@.len() > 0 && (key == config.api_key || key == env_value),
{
}

/// Positions that are equal as numbers are: the same bits are, unless they are no
/// number, and plus and minus zero are; the order does not matter, and nothing
/// else is equal.
pub proof fn law_positions_compare_as_numbers(
    a: StatusUiConfig,
    b: StatusUiConfig,
    same: bool,
)
    requires
        call_ensures(StatusUiConfig::eq, (&a, &b), same),
    ensures
        a.x & 0x7FFF_FFFF > 0x7F80_0000 ==> !same,
        b.y & 0x7FFF_FFFF > 0x7F80_0000 ==> !same,
        same ==> a.enabled == b.enabled && a.width == b.width && a.height == b.height
            && a.fade_out_ms == b.fade_out_ms,
        same ==> a.x == b.x || (a.x & 0x7FFF_FFFF == 0 && b.x & 0x7FFF_FFFF == 0),
        same ==> a.y == b.y || (a.y & 0x7FFF_FFFF == 0 && b.y & 0x7FFF_FFFF == 0),
        a == b && a.x & 0x7FFF_FFFF <= 0x7F80_0000 && a.y & 0x7FFF_FFFF <= 0x7F80_0000 ==> same,
{
    lemma_size(a.x);
    lemma_size(a.y);
    lemma_size(b.x);
    lemma_size(b.y);
}

proof fn lemma_size(bits: u32)
    ensures
        bits & 0x7FFF_FFFF == bits % 0x8000_0000,
        bits % 0x8000_0000 > 0x7F80_0000 <==> bits as int / 0x80_0000 % 256 == 255 && bits as int
            % 0x80_0000 != 0,
        bits % 0x8000_0000 == 0 <==> bits as int / 0x80_0000 % 256 == 0 && bits as int % 0x80_0000
            == 0,
{
    assert(bits & 0x7FFF_FFFF == bits % 0x8000_0000) by (bit_vector);
}

/// The configuration lies below the configuration directory where one is set,
/// whatever the home directory is; else in `.config` below the home directory;
/// else in the working directory. But there it is called `config.toml`, in a
/// directory `ut`.
pub proof fn law_configuration_has_its_place(
    config_home: Option<&[u8]>,
    home: Option<&[u8]>,
    path: Vec<u8>,
)
    requires
        call_ensures(config_path, (config_home, home), path),
    ensures
        config_home matches Some(dir) ==> path@ == path_join(
            path_join(dir@, utf8("ut"@)),
            utf8("config.toml"@),
        ),
        config_home is None ==> (home matches Some(dir) ==> path@ == path_join(
            path_join(path_join(dir@, utf8(".config"@)), utf8("ut"@)),
            utf8("config.toml"@),
        )),
        config_home is None && home is None ==> path@ == utf8("ut.toml"@),
{
}

/// A prompt is got under the name that it was put under last, and under every
/// other name what was got before.
pub proof fn law_prompt_is_got_by_its_name(
    table: &mut PromptTable,
    before: PromptTable,
    after: PromptTable,
    name: String,
    prompt: String,
    asked: &str,
    was: Option<&String>,
    got: Option<&String>,
)
    requires
        before@ == old(table)@,
        call_ensures(PromptTable::insert, (table, name, prompt), ()),
        after@ == final(table)@,
        call_ensures(PromptTable::get, (&before, asked), was),
        call_ensures(PromptTable::get, (&after, asked), got),
    ensures
        asked@ == name@ ==> (got matches Some(text) && text@ == prompt@),
        asked@ != name@ ==> was is Some == got is Some,
        asked@ != name@ ==> (got matches Some(text) ==> was->0@ == text@),
{
}

/// Where neither a key is written down nor a variable is named, there is none;
/// a key that is written down is used before that of the variable.
pub proof fn law_key_is_chosen_alike(
    api_key: Option<String>,
    api_key_env: Option<String>,
    env_value: Option<String>,
    key: Option<String>,
)
    requires
        call_ensures(choose_key, (&api_key, &api_key_env, env_value), key),
    ensures
        api_key matches Some(own) ==> own@.len() > 0 ==> key == api_key,
        (api_key matches Some(own) ==> own@.len() == 0) && api_key_env is None ==> key is None,
        (api_key matches Some(own) ==> own@.len() == 0) && api_key_env is Some ==> (
        env_value matches Some(value) ==> if value@.len() > 0 {
            key == env_value
        } else {
            key is None
        }),
        key matches Some(used) ==> used@.len() > 0 && (key == api_key || key == env_value),
{
}

/// The words for a fault end with the address or the scheme that is wrong, or with
/// the name of the prompt that is missing, and name the rule that asks for it.
pub proof fn law_fault_is_named(error: ConfigError, text: String)
    requires
        call_ensures(ConfigError::message, (&error,), text),
    ensures
        error matches ConfigError::InvalidUrl(url) ==> url@.is_suffix_of(text@),
        error matches ConfigError::UnsupportedScheme(scheme) ==> scheme@.is_suffix_of(text@),
        error matches ConfigError::MissingPrompt(index, name) ==> quoted(name@).is_suffix_of(text@)
            && crate::text::has_text(text@, decimal(index as nat)),
{
    let words = text@;
    match error {
        ConfigError::InvalidUrl(url) => {
            assert(words.subrange(words.len() - url@.len(), words.len() as int) =~= url@);
        },
        ConfigError::UnsupportedScheme(scheme) => {
            assert(words.subrange(words.len() - scheme@.len(), words.len() as int) =~= scheme@);
        },
        ConfigError::MissingPrompt(index, name) => {
            let shown = quoted(name@);
            let number = decimal(index as nat);
            let at: int = "app_rules["@.len() as int;
            assert(words.subrange(words.len() - shown.len(), words.len() as int) =~= shown);
            assert(words.subrange(at, at + number.len()) =~= number);
            assert(crate::text::occurs_at(words, number, at));
        },
        _ => {},
    }
}

} // verus!
