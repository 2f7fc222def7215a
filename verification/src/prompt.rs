//! Which prompt goes with a dictation.

use crate::config::Config;
use crate::context::AppContext;
use vstd::prelude::*;

verus! {

/// The name of the prompt for windows of which no rule speaks.
pub const DEFAULT_PROMPT_NAME: &'static str = "default";

/// The prompt where none is configured.
pub const BUILTIN_PROMPT_TEXT: &'static str = "You are a dictation engine.\n\
Return only the final insertable text.\n\
Remove filler words, repeated fragments, and obvious false starts.\n\
Choose the best format for the content:\n\
- Shell command: Format for execution as a shell command, consider whitespace, convert slash => /, pipe => |, tilde => ~, etc. No markdown, code fences or commentary.\n\
- Code: Correct indentation. No markdown, code fences, or commentary.\n\
- Chat message: Informal text, light on formatting, detect/convert emoji.\n\
- Prose: Add quotes, markdown, bullet points/lists, code fences, and other formatting as necessary.\n\
Follow and discard any formatting instructions in the content first.";

/// The prompt for a window: the one under the name that the first rule for it
/// chooses, or under the default name where none chooses; the built-in one
/// where the table has none under that name.
pub open spec fn prompt_for(context: AppContext, config: Config) -> Seq<char> {
    let name = match config.chosen_prompt(context) {
        Some(name) => name,
        None => DEFAULT_PROMPT_NAME@,
    };
    if config.prompts@.contains_key(name) {
        config.prompts@[name]
    } else {
        BUILTIN_PROMPT_TEXT@
    }
}

/// The prompt for a window.
pub fn build_prompt(context: &AppContext, config: &Config) -> (prompt: String)
    ensures
        prompt@ == prompt_for(*context, *config),
{
    let name: &str = match config.prompt_name_for_context(context) {
        Some(name) => name,
        None => DEFAULT_PROMPT_NAME,
    };
    match config.prompts.get(name) {
        Some(prompt) => prompt.clone(),
        None => BUILTIN_PROMPT_TEXT.to_string(),
    }
}

/// A window for which a valid configuration chooses a prompt by name gets that
/// prompt, not the built-in one, unless it chooses the default one.
pub proof fn law_chosen_prompt_is_used(
    context: AppContext,
    config: Config,
    scheme: Option<String>,
    name: Seq<char>,
)
    requires
        config.verdict(scheme) is Ok,
        config.chosen_prompt(context) == Some(name),
        name != "default"@,
    ensures
        config.prompts@.contains_key(name),
        prompt_for(context, config) == config.prompts@[name],
{
    crate::config::law_valid_config(config, scheme);
    crate::config::lemma_first_rule(config.app_rules@, context);
}

/// The prompt for a window is the one under the name that the first rule for it
/// chooses, where the table has it; where no rule speaks of the window, or the
/// first one chooses none, the one under `default`; and the built-in one only
/// where the table has none under that name.
pub proof fn law_prompt_is_chosen_by_the_first_rule(
    context: AppContext,
    config: Config,
    at: int,
    name: Seq<char>,
    prompt: String,
)
    requires
        call_ensures(build_prompt, (&context, &config), prompt),
        0 <= at <= config.app_rules@.len(),
        forall|i: int|
            0 <= i < at ==> !crate::config::rule_matches(
                #[trigger] config.app_rules@[i],
                context,
            ),
        at < config.app_rules@.len() ==> crate::config::rule_matches(
            config.app_rules@[at],
            context,
        ),
        if at < config.app_rules@.len() && config.app_rules@[at].prompt is Some {
            name == config.app_rules@[at].prompt->0@
        } else {
            name == "default"@
        },
    ensures
        config.prompts@.contains_key(name) ==> prompt@ == config.prompts@[name],
        !config.prompts@.contains_key(name) ==> prompt@ == BUILTIN_PROMPT_TEXT@,
{
    crate::config::law_first_rule_decides(config.app_rules@, context, at);
}

} // verus!
