//! Keystrokes, through `wtype`.

use crate::paste::clipboard::Exit;
use crate::path::{bytes_of, utf8};
use crate::text::{
    ascii_small, lemma_parts_ascii, lemma_trimmed_ascii, lowercase, parts, same_text, split,
    to_lowercase, trim, trimmed, views,
};
use vstd::prelude::*;
use vstd::utf8::is_ascii_chars;

verus! {

/// One run of `wtype`: its arguments, and what it reads.
#[derive(Debug, Clone, PartialEq, Eq)]
pub struct WtypeRun {
    pub args: Vec<String>,
    pub stdin: Option<Vec<u8>>,
}

/// What is wrong with a shortcut.
#[derive(Debug, Clone, PartialEq, Eq)]
pub enum WtypeError {
    InvalidShortcut(String),
    UnsupportedModifier(String),
}

impl WtypeError {
    /// What the error says.
    pub open spec fn words(self) -> Seq<char> {
        match self {
            WtypeError::InvalidShortcut(sequence) => "invalid paste shortcut: "@ + sequence@,
            WtypeError::UnsupportedModifier(token) => "unsupported paste shortcut modifier: "@
                + token@,
        }
    }

    /// What the error says.
    pub fn message(&self) -> (text: String)
        ensures
            text@ == self.words(),
    {
        match self {
            WtypeError::InvalidShortcut(sequence) => {
                let mut text: String = "invalid paste shortcut: ".to_string();
                text.append(sequence.as_str());
                text
            },
            WtypeError::UnsupportedModifier(token) => {
                let mut text: String = "unsupported paste shortcut modifier: ".to_string();
                text.append(token.as_str());
                text
            },
        }
    }
}

/// What `wtype` calls a modifier, if it knows it.
pub open spec fn modifier_name(token: Seq<char>) -> Option<Seq<char>> {
    if token == "ctrl"@ || token == "control"@ {
        Some("ctrl"@)
    } else if token == "shift"@ {
        Some("shift"@)
    } else if token == "alt"@ || token == "option"@ || token == "mod1"@ {
        Some("alt"@)
    } else if token == "super"@ || token == "meta"@ || token == "win"@ || token == "mod4"@ {
        Some("super"@)
    } else {
        None
    }
}

/// What `wtype` calls a modifier.
pub fn normalize_modifier(token: &str) -> (name: Result<String, WtypeError>)
    ensures
        match name {
            Ok(name) => modifier_name(token@) == Some(name@),
            Err(error) => modifier_name(token@) is None && (error matches WtypeError::UnsupportedModifier(
                shown,
            ) && shown@ == token@),
        },
{
    if same_text(token, "ctrl") || same_text(token, "control") {
        Ok("ctrl".to_string())
    } else if same_text(token, "shift") {
        Ok("shift".to_string())
    } else if same_text(token, "alt") || same_text(token, "option") || same_text(token, "mod1") {
        Ok("alt".to_string())
    } else if same_text(token, "super") || same_text(token, "meta") || same_text(token, "win")
        || same_text(token, "mod4") {
        Ok("super".to_string())
    } else {
        Err(WtypeError::UnsupportedModifier(token.to_string()))
    }
}

/// The keys of a shortcut: what stands between the `+` signs, without white
/// space around it, in lower case.
pub open spec fn shortcut_tokens(sequence: Seq<char>) -> Seq<Seq<char>> {
    parts(sequence, '+').map_values(|part: Seq<char>| lowercase(trimmed(part)))
}

/// The keys of a shortcut in ASCII, where only the letters `A` to `Z` have a
/// lower case.
pub open spec fn ascii_tokens(sequence: Seq<char>) -> Seq<Seq<char>> {
    parts(sequence, '+').map_values(
        |part: Seq<char>| trimmed(part).map_values(|c: char| ascii_small(c)),
    )
}

/// The arguments that press modifiers, one after the other.
pub open spec fn pressing(modifiers: Seq<Seq<char>>) -> Seq<Seq<char>>
    decreases modifiers.len(),
{
    if modifiers.len() == 0 {
        Seq::empty()
    } else {
        pressing(modifiers.drop_last()).push("-M"@).push(modifiers.last())
    }
}

/// The arguments that release modifiers, the last one first.
pub open spec fn releasing(modifiers: Seq<Seq<char>>) -> Seq<Seq<char>>
    decreases modifiers.len(),
{
    if modifiers.len() == 0 {
        Seq::empty()
    } else {
        seq!["-m"@, modifiers.last()] + releasing(modifiers.drop_last())
    }
}

/// The names of modifiers, where `wtype` knows them all.
pub open spec fn modifier_names(tokens: Seq<Seq<char>>) -> Seq<Seq<char>> {
    tokens.map_values(|token: Seq<char>| modifier_name(token)->0)
}

/// Whether some key of a shortcut is empty, or there is none.
pub open spec fn has_empty_token(tokens: Seq<Seq<char>>) -> bool {
    tokens.len() == 0 || exists|i: int| 0 <= i < tokens.len() && (#[trigger] tokens[i]).len() == 0
}

/// Whether the first of the modifiers that `wtype` does not know stands here.
pub open spec fn is_first_unknown(tokens: Seq<Seq<char>>, at: int) -> bool {
    &&& 0 <= at < tokens.len()
    &&& modifier_name(tokens[at]) is None
    &&& forall|i: int| 0 <= i < at ==> modifier_name(#[trigger] tokens[i]) is Some
}

/// Whether these are the arguments for a shortcut, or what is wrong with it:
/// an empty key first, then the first modifier that is not known. The
/// modifiers are pressed, the last key is struck, and the modifiers are
/// released in reverse.
pub open spec fn are_shortcut_args(
    args: Result<Vec<String>, WtypeError>,
    sequence: Seq<char>,
    tokens: Seq<Seq<char>>,
) -> bool {
    match args {
        Ok(args) => {
            &&& !has_empty_token(tokens)
            &&& forall|i: int|
                0 <= i < tokens.len() - 1 ==> modifier_name(#[trigger] tokens[i]) is Some
            &&& views(args@) == pressing(modifier_names(tokens.drop_last())) + seq![
                "-k"@,
                tokens.last(),
            ] + releasing(modifier_names(tokens.drop_last()))
        },
        Err(WtypeError::InvalidShortcut(shown)) => has_empty_token(tokens) && shown@ == sequence,
        Err(WtypeError::UnsupportedModifier(shown)) => !has_empty_token(tokens) && exists|at: int|
            #[trigger] is_first_unknown(tokens.drop_last(), at) && shown@ == tokens[at],
    }
}

proof fn lemma_views_push(texts: Seq<String>, text: String)
    ensures
        views(texts.push(text)) == views(texts).push(text@),
{
    assert(views(texts.push(text)) =~= views(texts).push(text@));
}

/// Appends a switch and its value to arguments.
fn push_pair(args: &mut Vec<String>, switch: &str, value: String)
    ensures
        views(final(args)@) == views(old(args)@).push(switch@).push(value@),
{
    let switch: String = switch.to_string();
    proof {
        lemma_views_push(args@, switch);
        lemma_views_push(args@.push(switch), value);
    }
    args.push(switch);
    args.push(value);
}

/// The arguments for the keys of a shortcut.
pub fn wtype_args(sequence: &str, tokens: &Vec<String>) -> (args: Result<Vec<String>, WtypeError>)
    ensures
        are_shortcut_args(args, sequence@, views(tokens@)),
{
    let ghost keys = views(tokens@);
    let count: usize = tokens.len();
    let mut next: usize = 0;
    while next < count
        invariant
            next <= count == tokens@.len(),
            keys == views(tokens@),
            forall|i: int| 0 <= i < next ==> (#[trigger] keys[i]).len() > 0,
        decreases count - next,
    {
        if tokens[next].as_str().is_empty() {
            assert(keys[next as int].len() == 0);
            return Err(WtypeError::InvalidShortcut(sequence.to_string()));
        }
        next = next + 1;
    }
    if count == 0 {
        return Err(WtypeError::InvalidShortcut(sequence.to_string()));
    }
    let ghost modifiers = keys.drop_last();
    let mut args: Vec<String> = Vec::new();
    let mut names: Vec<String> = Vec::new();
    while names.len() < count - 1
        invariant
            names@.len() <= count - 1,
            count == tokens@.len(),
            keys == views(tokens@),
            modifiers == keys.drop_last(),
            !has_empty_token(keys),
            forall|i: int| 0 <= i < names@.len() ==> modifier_name(#[trigger] modifiers[i]) is Some,
            views(names@) == modifier_names(modifiers.take(names@.len() as int)),
            views(args@) == pressing(views(names@)),
        decreases count - names@.len(),
    {
        let at: usize = names.len();
        match normalize_modifier(tokens[at].as_str()) {
            Err(error) => {
                proof {
                    assert(modifiers[at as int] == tokens@[at as int]@);
                    assert(is_first_unknown(modifiers, at as int));
                    assert(keys[at as int] == tokens@[at as int]@);
                }
                return Err(error);
            },
            Ok(name) => {
                proof {
                    assert(modifiers[at as int] == tokens@[at as int]@);
                    lemma_views_push(names@, name);
                    assert(modifier_names(modifiers.take(at + 1)) =~= modifier_names(
                        modifiers.take(at as int),
                    ).push(name@));
                    assert(views(names@.push(name)).drop_last() =~= views(names@));
                }
                push_pair(&mut args, "-M", name.clone());
                names.push(name);
            },
        }
    }
    assert(modifiers.take(names@.len() as int) =~= modifiers);
    let ghost held = views(names@);
    let ghost whole = pressing(held) + seq!["-k"@, keys.last()] + releasing(held);
    push_pair(&mut args, "-k", tokens[count - 1].clone());
    let mut left: usize = names.len();
    proof {
        assert(held.take(left as int) =~= held);
        assert(views(args@) + releasing(held) =~= whole);
    }
    while left > 0
        invariant
            left <= names@.len(),
            held == views(names@),
            views(args@) + releasing(held.take(left as int)) == whole,
        decreases left,
    {
        left = left - 1;
        let ghost before = views(args@);
        let ghost longer = held.take(left + 1);
        push_pair(&mut args, "-m", names[left].clone());
        proof {
            assert(longer.drop_last() =~= held.take(left as int));
            assert(longer.last() == names@[left as int]@);
            assert(views(args@) + releasing(held.take(left as int)) =~= before + releasing(
                longer,
            ));
        }
    }
    proof {
        assert(views(args@) =~= whole);
        assert forall|i: int| 0 <= i < keys.len() - 1 implies modifier_name(
            #[trigger] keys[i],
        ) is Some by {
            assert(modifiers[i] == keys[i]);
        }
    }
    Ok(args)
}

/// The arguments that strike a shortcut such as `ctrl+shift+v`.
pub fn shortcut_to_wtype_args(sequence: &str) -> (args: Result<Vec<String>, WtypeError>)
    ensures
        are_shortcut_args(args, sequence@, shortcut_tokens(sequence@)),
        is_ascii_chars(sequence@) ==> are_shortcut_args(args, sequence@, ascii_tokens(sequence@)),
{
    let pieces: Vec<String> = split(sequence, '+');
    let mut tokens: Vec<String> = Vec::new();
    while tokens.len() < pieces.len()
        invariant
            tokens@.len() <= pieces@.len(),
            forall|i: int|
                0 <= i < tokens@.len() ==> (#[trigger] tokens@[i])@ == lowercase(
                    trimmed(pieces@[i]@),
                ),
            forall|i: int|
                0 <= i < tokens@.len() && is_ascii_chars(trimmed(pieces@[i]@)) ==> (
                #[trigger] tokens@[i])@ == trimmed(pieces@[i]@).map_values(
                    |c: char| ascii_small(c),
                ),
        decreases pieces@.len() - tokens@.len(),
    {
        let next: usize = tokens.len();
        tokens.push(to_lowercase(trim(pieces[next].as_str())));
    }
    proof {
        let expected = shortcut_tokens(sequence@);
        assert(views(pieces@) == parts(sequence@, '+'));
        assert(expected.len() == pieces@.len());
        assert forall|i: int| 0 <= i < tokens@.len() implies (#[trigger] views(tokens@)[i])
            == expected[i] by {
            assert(views(pieces@)[i] == pieces@[i]@);
        }
        assert(views(tokens@) =~= expected);
        if is_ascii_chars(sequence@) {
            let plain = ascii_tokens(sequence@);
            lemma_parts_ascii(sequence@, '+');
            assert forall|i: int| 0 <= i < tokens@.len() implies (#[trigger] views(tokens@)[i])
                == plain[i] by {
                assert(views(pieces@)[i] == pieces@[i]@);
                lemma_trimmed_ascii(pieces@[i]@);
            }
            assert(views(tokens@) =~= plain);
        }
    }
    wtype_args(sequence, &tokens)
}

/// The run that strikes a shortcut.
pub fn press_shortcut(sequence: &str) -> (run: Result<WtypeRun, WtypeError>)
    ensures
        run matches Ok(run) ==> run.stdin is None,
        are_shortcut_args(args_of(run), sequence@, shortcut_tokens(sequence@)),
        is_ascii_chars(sequence@) ==> are_shortcut_args(
            args_of(run),
            sequence@,
            ascii_tokens(sequence@),
        ),
{
    match shortcut_to_wtype_args(sequence) {
        Ok(args) => Ok(WtypeRun { args, stdin: None }),
        Err(error) => Err(error),
    }
}

/// The arguments of a run, if there is one.
pub open spec fn args_of(run: Result<WtypeRun, WtypeError>) -> Result<Vec<String>, WtypeError> {
    match run {
        Ok(run) => Ok(run.args),
        Err(error) => Err(error),
    }
}

/// The run that strikes `ctrl+v`.
pub fn press_ctrl_v() -> (run: Result<WtypeRun, WtypeError>)
    ensures
        run matches Ok(run) && run.stdin is None && views(run.args@) == seq![
            "-M"@,
            "ctrl"@,
            "-k"@,
            "v"@,
            "-m"@,
            "ctrl"@,
        ],
{
    proof {
        lemma_ctrl_v();
    }
    press_shortcut("ctrl+v")
}

proof fn lemma_ctrl_v()
    ensures
        is_ascii_chars("ctrl+v"@),
        ascii_tokens("ctrl+v"@) == seq!["ctrl"@, "v"@],
        "ctrl"@.len() > 0,
        "v"@.len() > 0,
        pressing(modifier_names(seq!["ctrl"@])) == seq!["-M"@, "ctrl"@],
        releasing(modifier_names(seq!["ctrl"@])) == seq!["-m"@, "ctrl"@],
        seq!["ctrl"@, "v"@].drop_last() == seq!["ctrl"@],
{
    reveal_strlit("ctrl+v");
    reveal_strlit("ctrl");
    reveal_strlit("v");
    let text = "ctrl+v"@;
    let none = Seq::<char>::empty();
    let ctrl = seq!['c', 't', 'r', 'l'];
    assert(text.take(0) =~= none);
    assert(text.take(1).drop_last() =~= text.take(0));
    assert(text.take(2).drop_last() =~= text.take(1));
    assert(text.take(3).drop_last() =~= text.take(2));
    assert(text.take(4).drop_last() =~= text.take(3));
    assert(text.take(5).drop_last() =~= text.take(4));
    assert(text.take(6).drop_last() =~= text.take(5));
    assert(text.take(6) =~= text);
    assert(parts(text.take(0), '+') =~~= seq![none]);
    assert(parts(text.take(1), '+') =~~= seq![seq!['c']]);
    assert(parts(text.take(2), '+') =~~= seq![seq!['c', 't']]);
    assert(parts(text.take(3), '+') =~~= seq![seq!['c', 't', 'r']]);
    assert(parts(text.take(4), '+') =~~= seq![ctrl]);
    assert(parts(text.take(5), '+') =~~= seq![ctrl, none]);
    assert(parts(text, '+') =~~= seq![ctrl, seq!['v']]);
    assert(trimmed(ctrl) == ctrl);
    assert(trimmed(seq!['v']) == seq!['v']);
    assert(ctrl.map_values(|c: char| ascii_small(c)) =~= "ctrl"@);
    assert(seq!['v'].map_values(|c: char| ascii_small(c)) =~= "v"@);
    assert(ascii_tokens(text) =~= seq!["ctrl"@, "v"@]);
    let held = modifier_names(seq!["ctrl"@]);
    assert(held =~= seq!["ctrl"@]);
    assert(held.drop_last() =~= Seq::<Seq<char>>::empty());
    assert(pressing(held.drop_last()) =~= Seq::<Seq<char>>::empty());
    assert(pressing(held) =~= seq!["-M"@, "ctrl"@]);
    assert(releasing(held.drop_last()) =~= Seq::<Seq<char>>::empty());
    assert(releasing(held) =~= seq!["-m"@, "ctrl"@]);
    assert(seq!["ctrl"@, "v"@].drop_last() =~= seq!["ctrl"@]);
}

/// The run that types a text: it reads the text.
pub fn type_text(text: &str) -> (run: WtypeRun)
    ensures
        views(run.args@) == seq!["-"@],
        run.stdin matches Some(bytes) && bytes@ == utf8(text@),
{
    let mut args: Vec<String> = Vec::new();
    args.push("-".to_string());
    assert(views(args@) =~= seq!["-"@]);
    WtypeRun { args, stdin: Some(bytes_of(text)) }
}

/// Whether the keys were struck, once `wtype` has ended.
pub fn run_wtype(exit: Exit) -> (typed: Result<(), String>)
    ensures
        match exit {
            Exit::Success => typed is Ok,
            Exit::Status(status) => typed matches Err(reason) && reason@ == "wtype exited with "@
                + status@,
        },
{
    match exit {
        Exit::Success => Ok(()),
        Exit::Status(status) => {
            let mut reason: String = "wtype exited with ".to_string();
            reason.append(status.as_str());
            Err(reason)
        },
    }
}

/// Every modifier that is pressed is released, the last one first, so that
/// none is held in the end.
pub proof fn law_modifiers_are_released(modifiers: Seq<Seq<char>>, at: int)
    requires
        0 <= at < modifiers.len(),
    ensures
        pressing(modifiers).len() == 2 * modifiers.len(),
        releasing(modifiers).len() == 2 * modifiers.len(),
        pressing(modifiers)[2 * at] == "-M"@,
        pressing(modifiers)[2 * at + 1] == modifiers[at],
        releasing(modifiers)[2 * (modifiers.len() - 1 - at)] == "-m"@,
        releasing(modifiers)[2 * (modifiers.len() - 1 - at) + 1] == modifiers[at],
    decreases modifiers.len(),
{
    lemma_key_counts(modifiers);
    let rest = modifiers.drop_last();
    lemma_key_counts(rest);
    if at < rest.len() {
        law_modifiers_are_released(rest, at);
    }
}

proof fn lemma_key_counts(modifiers: Seq<Seq<char>>)
    ensures
        pressing(modifiers).len() == 2 * modifiers.len(),
        releasing(modifiers).len() == 2 * modifiers.len(),
    decreases modifiers.len(),
{
    if modifiers.len() > 0 {
        lemma_key_counts(modifiers.drop_last());
    }
}

/// The arguments for a shortcut press each key but the last, in order, strike the
/// last one, and release the others, the last one first: for each pressed key the
/// one that is released mirrors it.
pub proof fn law_shortcut_is_pressed_and_released(
    sequence: &str,
    tokens: Vec<String>,
    args: Result<Vec<String>, WtypeError>,
    at: int,
)
    requires
        call_ensures(wtype_args, (sequence, &tokens), args),
        args is Ok,
        0 <= at < tokens@.len() - 1,
    ensures
        ({
            let list = args->Ok_0@;
            let n = tokens@.len() - 1;
            &&& list.len() == 4 * n + 2
            &&& list[2 * at]@ == "-M"@
            &&& modifier_name(tokens@[at]@) == Some(list[2 * at + 1]@)
            &&& list[2 * n]@ == "-k"@
            &&& list[2 * n + 1]@ == tokens@[n]@
            &&& list[list.len() - 2 - 2 * at]@ == "-m"@
            &&& list[list.len() - 1 - 2 * at]@ == list[2 * at + 1]@
        }),
{
    let list = args->Ok_0@;
    let keys = views(tokens@);
    let n = tokens@.len() - 1;
    let held = modifier_names(keys.drop_last());
    law_modifiers_are_released(held, at);
    assert(held[at] == modifier_name(keys[at])->0);
    assert(modifier_name(keys[at]) is Some);
    let all = views(list);
    assert(all.len() == list.len());
    assert(all == pressing(held) + seq!["-k"@, keys.last()] + releasing(held));
    assert(all[2 * at] == pressing(held)[2 * at]);
    assert(all[2 * at + 1] == pressing(held)[2 * at + 1]);
    assert(all[2 * n] == "-k"@);
    assert(all[2 * n + 1] == keys.last());
    let back: int = 2 * (n - 1 - at);
    assert(all[2 * n + 2 + back] == releasing(held)[back]);
    assert(all[2 * n + 2 + back + 1] == releasing(held)[back + 1]);
}

/// A key alone is struck, and nothing is pressed with it.
pub proof fn law_single_key_is_struck(
    sequence: &str,
    tokens: Vec<String>,
    args: Result<Vec<String>, WtypeError>,
)
    requires
        call_ensures(wtype_args, (sequence, &tokens), args),
        tokens@.len() == 1,
        tokens@[0]@.len() > 0,
    ensures
        args matches Ok(list) && list@.len() == 2 && list@[0]@ == "-k"@ && list@[1]@ == tokens@[0]@,
{
    let keys = views(tokens@);
    assert(keys[0] == tokens@[0]@);
    assert(!has_empty_token(keys));
    let none = modifier_names(keys.drop_last());
    assert(none =~= Seq::<Seq<char>>::empty());
    assert(pressing(none) =~= Seq::<Seq<char>>::empty());
    assert(releasing(none) =~= Seq::<Seq<char>>::empty());
    match args {
        Ok(list) => {
            let all = views(list@);
            assert(all =~= seq!["-k"@, keys.last()]);
            assert(all[0] == list@[0]@);
            assert(all[1] == list@[1]@);
        },
        Err(WtypeError::UnsupportedModifier(_)) => {
            let at = choose|at: int| #[trigger] is_first_unknown(keys.drop_last(), at);
        },
        _ => {},
    }
}

/// A shortcut is refused only where a key of it is empty, and then by its own
/// name, or where a key before the last is no modifier, and then by that key; any
/// other one is taken.
pub proof fn law_only_bad_shortcuts_are_refused(
    sequence: &str,
    tokens: Vec<String>,
    args: Result<Vec<String>, WtypeError>,
)
    requires
        call_ensures(wtype_args, (sequence, &tokens), args),
    ensures
        args matches Err(WtypeError::InvalidShortcut(shown)) ==> shown@ == sequence@ && (
        tokens@.len() == 0 || exists|i: int|
            0 <= i < tokens@.len() && (#[trigger] tokens@[i])@.len() == 0),
        args matches Err(WtypeError::UnsupportedModifier(shown)) ==> exists|i: int|
            0 <= i < tokens@.len() - 1 && shown@ == (#[trigger] tokens@[i])@ && modifier_name(
                tokens@[i]@,
            ) is None,
        args is Ok ==> tokens@.len() > 0 && forall|i: int|
            0 <= i < tokens@.len() ==> (#[trigger] tokens@[i])@.len() > 0,
{
    let keys = views(tokens@);
    match args {
        Err(WtypeError::InvalidShortcut(_)) => {
            if keys.len() > 0 {
                let i = choose|i: int| 0 <= i < keys.len() && (#[trigger] keys[i]).len() == 0;
                assert(tokens@[i]@.len() == 0);
            }
        },
        Err(WtypeError::UnsupportedModifier(shown)) => {
            let at = choose|at: int| #[trigger]
                is_first_unknown(keys.drop_last(), at) && shown@ == keys[at];
            assert(tokens@[at]@ == keys[at]);
        },
        Ok(_) => {
            assert forall|i: int| 0 <= i < tokens@.len() implies (
            #[trigger] tokens@[i])@.len() > 0 by {
                assert(keys[i] == tokens@[i]@);
            }
        },
    }
}

/// `wtype` knows four modifiers, and each by its own name; the other names for
/// them mean the same, and no other word is one.
pub proof fn law_modifiers_have_names(token: &str, name: Result<String, WtypeError>)
    requires
        call_ensures(normalize_modifier, (token,), name),
    ensures
        name matches Ok(known) ==> {
            ||| known@ == "ctrl"@ && (token@ == "ctrl"@ || token@ == "control"@)
            ||| known@ == "shift"@ && token@ == "shift"@
            ||| known@ == "alt"@ && (token@ == "alt"@ || token@ == "option"@ || token@ == "mod1"@)
            ||| known@ == "super"@ && (token@ == "super"@ || token@ == "meta"@ || token@ == "win"@
                || token@ == "mod4"@)
        },
        name matches Err(error) ==> (error matches WtypeError::UnsupportedModifier(shown) && shown@
            == token@) && token@ != "ctrl"@ && token@ != "control"@ && token@ != "shift"@ && token@
            != "alt"@ && token@ != "option"@ && token@ != "mod1"@ && token@ != "super"@ && token@
            != "meta"@ && token@ != "win"@ && token@ != "mod4"@,
{
}

/// A shortcut that is written as keys with `+` between them is struck as those
/// keys are, in their order.
pub proof fn law_shortcut_is_split_at_plus(
    sequence: &str,
    args: Result<Vec<String>, WtypeError>,
    keys: Vec<String>,
    args_of_keys: Result<Vec<String>, WtypeError>,
)
    requires
        call_ensures(shortcut_to_wtype_args, (sequence,), args),
        call_ensures(wtype_args, (sequence, &keys), args_of_keys),
        keys@.len() > 0,
        sequence@ == crate::text::joined(views(keys@), seq!['+']),
        vstd::utf8::is_ascii_chars(sequence@),
        forall|i: int| 0 <= i < keys@.len() ==> is_plain_key((#[trigger] keys@[i])@),
    ensures
        args is Ok <==> args_of_keys is Ok,
        args is Ok ==> views(args->Ok_0@) == views(args_of_keys->Ok_0@),
{
    let all = views(keys@);
    assert forall|i: int| 0 <= i < all.len() implies is_plain_key(#[trigger] all[i]) by {
        assert(all[i] == keys@[i]@);
    }
    assert forall|i: int| 0 <= i < all.len() implies !(#[trigger] all[i]).contains('+') by {
        assert(is_plain_key(all[i]));
    }
    crate::text::lemma_parts_of_joined(all, '+');
    let tokens = ascii_tokens(sequence@);
    assert forall|i: int| 0 <= i < all.len() implies tokens[i] == all[i] by {
        let key = all[i];
        assert(is_plain_key(key));
        assert(trimmed(key) == key) by {
            assert(!crate::text::is_white_space(key[0]));
            assert(!crate::text::is_white_space(key[key.len() - 1]));
        }
        assert(key.map_values(|c: char| ascii_small(c)) =~= key);
    }
    assert(tokens =~= all);
    match (args, args_of_keys) {
        (Ok(_), Err(WtypeError::UnsupportedModifier(_))) => {
            let at = choose|at: int| #[trigger] is_first_unknown(all.drop_last(), at);
            assert(modifier_name(all[at]) is Some);
        },
        (Err(WtypeError::UnsupportedModifier(_)), Ok(_)) => {
            let at = choose|at: int| #[trigger] is_first_unknown(all.drop_last(), at);
            assert(modifier_name(all[at]) is Some);
        },
        _ => {},
    }
}

/// Whether a key is written in small letters and digits alone.
pub open spec fn is_plain_key(key: Seq<char>) -> bool {
    key.len() > 0 && forall|i: int|
        0 <= i < key.len() ==> ('a' <= #[trigger] key[i] <= 'z' || '0' <= key[i] <= '9')
}

/// Capitals in the keys of a shortcut in ASCII do not matter: each counts as its
/// small letter, and every other character as itself.
pub proof fn law_capitals_do_not_matter(c: char)
    requires
        c <= '\u{7f}',
    ensures
        'A' <= c <= 'Z' ==> ascii_small(c) as u32 == c as u32 + 32,
        !('A' <= c <= 'Z') ==> ascii_small(c) == c,
{
}

/// The keys are struck where `wtype` succeeded; a text is typed as its bytes.
pub proof fn law_text_is_typed_as_it_is(
    text: &str,
    run: WtypeRun,
    exit: Exit,
    typed: Result<(), String>,
)
    requires
        call_ensures(type_text, (text,), run),
        call_ensures(run_wtype, (exit,), typed),
    ensures
        run.stdin matches Some(bytes) && bytes@ == vstd::utf8::encode_utf8(text@),
        run.args@.len() == 1 && run.args@[0]@ == "-"@,
        typed is Ok <==> exit is Success,
{
    let all = views(run.args@);
    assert(all.len() == run.args@.len());
    assert(all[0] == run.args@[0]@);
}

/// White space around the keys of a shortcut does not matter: two shortcuts that
/// differ only in that are struck alike.
pub proof fn law_space_around_keys_does_not_matter(
    sequence: &str,
    other: &str,
    args: Result<Vec<String>, WtypeError>,
    args2: Result<Vec<String>, WtypeError>,
)
    requires
        call_ensures(shortcut_to_wtype_args, (sequence,), args),
        call_ensures(shortcut_to_wtype_args, (other,), args2),
        parts(sequence@, '+').len() == parts(other@, '+').len(),
        forall|i: int|
            0 <= i < parts(sequence@, '+').len() ==> trimmed(#[trigger] parts(sequence@, '+')[i])
                == trimmed(parts(other@, '+')[i]),
    ensures
        args is Ok <==> args2 is Ok,
        args is Ok ==> views(args->Ok_0@) == views(args2->Ok_0@),
{
    let tokens = shortcut_tokens(sequence@);
    let tokens2 = shortcut_tokens(other@);
    assert forall|i: int| 0 <= i < tokens.len() implies tokens[i] == tokens2[i] by {
        assert(trimmed(parts(sequence@, '+')[i]) == trimmed(parts(other@, '+')[i]));
    }
    assert(tokens =~= tokens2);
    match (args, args2) {
        (Ok(_), Err(WtypeError::UnsupportedModifier(_))) => {
            let at = choose|at: int| #[trigger] is_first_unknown(tokens.drop_last(), at);
            assert(modifier_name(tokens[at]) is Some);
        },
        (Err(WtypeError::UnsupportedModifier(_)), Ok(_)) => {
            let at = choose|at: int| #[trigger] is_first_unknown(tokens.drop_last(), at);
            assert(modifier_name(tokens[at]) is Some);
        },
        _ => {},
    }
}

/// Pressing Ctrl+V is what the shortcut `ctrl+v` does.
pub proof fn law_ctrl_v_is_a_shortcut(
    pressed: Result<WtypeRun, WtypeError>,
    run: Result<WtypeRun, WtypeError>,
)
    requires
        call_ensures(press_ctrl_v, (), pressed),
        call_ensures(press_shortcut, ("ctrl+v",), run),
    ensures
        pressed is Ok,
        run is Ok,
        views(pressed->Ok_0.args@) == views(run->Ok_0.args@),
        pressed->Ok_0.stdin is None,
        run->Ok_0.stdin is None,
{
    lemma_ctrl_v();
}

/// A shortcut that is no good is named in the error.
pub proof fn law_bad_shortcut_is_named(error: WtypeError, text: String)
    requires
        call_ensures(WtypeError::message, (&error,), text),
    ensures
        error matches WtypeError::InvalidShortcut(sequence) ==> sequence@.is_suffix_of(text@),
        error matches WtypeError::UnsupportedModifier(token) ==> token@.is_suffix_of(text@),
{
    let words = text@;
    match error {
        WtypeError::InvalidShortcut(sequence) => {
            assert(words.subrange(words.len() - sequence@.len(), words.len() as int)
                =~= sequence@);
        },
        WtypeError::UnsupportedModifier(token) => {
            assert(words.subrange(words.len() - token@.len(), words.len() as int) =~= token@);
        },
    }
}

} // verus!
