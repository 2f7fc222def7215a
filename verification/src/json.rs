//! JSON values as plain data.
//!
//! Parsing is left to `serde_json`; what it returns is turned into [`Json`],
//! which the rest of the library reads.

use crate::text::same_text;
use vstd::prelude::*;

verus! {

/// A JSON value of `serde_json`.
#[verifier::external_type_specification]
#[verifier::external_body]
pub struct ExValue(serde_json::Value);

/// A parse error of `serde_json`.
#[verifier::external_type_specification]
#[verifier::external_body]
pub struct ExError(serde_json::Error);

/// A JSON value: its compact text, and what it holds.
#[derive(Debug, PartialEq, Eq)]
pub struct Json {
    pub text: String,
    pub kind: JsonKind,
}

/// What a JSON value holds. A number is known by its value where that is an
/// integer from 0 to `u64::MAX`.
#[derive(Debug, PartialEq, Eq)]
pub enum JsonKind {
    Null,
    Bool(bool),
    Number(Option<u64>),
    Text(String),
    List(Vec<Json>),
    Object(Vec<(String, Json)>),
}

/// The value of a [`Json`].
pub struct JsonTree {
    pub text: Seq<char>,
    pub kind: TreeKind,
}

/// The value of a [`JsonKind`].
pub enum TreeKind {
    Null,
    Bool(bool),
    Number(Option<u64>),
    Text(Seq<char>),
    List(Seq<JsonTree>),
    Object(Seq<(Seq<char>, JsonTree)>),
}

impl View for Json {
    type V = JsonTree;

    open spec fn view(&self) -> JsonTree {
        tree(*self)
    }
}

/// The value of a [`Json`].
pub open spec fn tree(json: Json) -> JsonTree
    decreases json,
{
    JsonTree {
        text: json.text@,
        kind: match json.kind {
            JsonKind::Null => TreeKind::Null,
            JsonKind::Bool(b) => TreeKind::Bool(b),
            JsonKind::Number(n) => TreeKind::Number(n),
            JsonKind::Text(t) => TreeKind::Text(t@),
            JsonKind::List(items) => TreeKind::List(trees(items@)),
            JsonKind::Object(entries) => TreeKind::Object(entry_trees(entries@)),
        },
    }
}

/// The values of a list.
pub open spec fn trees(items: Seq<Json>) -> Seq<JsonTree>
    decreases items,
{
    if items.len() == 0 {
        Seq::empty()
    } else {
        trees(items.drop_last()).push(tree(items.last()))
    }
}

/// The values of the entries of an object.
pub open spec fn entry_trees(entries: Seq<(String, Json)>) -> Seq<(Seq<char>, JsonTree)>
    decreases entries,
{
    if entries.len() == 0 {
        Seq::empty()
    } else {
        entry_trees(entries.drop_last()).push((entries.last().0@, tree(entries.last().1)))
    }
}

/// What a JSON value of `serde_json` holds.
pub uninterp spec fn value_tree(value: serde_json::Value) -> JsonTree;

/// What `serde_json` reads from bytes, if they are one JSON value.
pub uninterp spec fn parsed_json(bytes: Seq<u8>) -> Option<JsonTree>;

/// The JSON value in bytes.
///
/// Trusted: whether `serde_json::from_slice` takes the bytes, and which value
/// it gives, depends on the bytes alone.
#[verifier::external_body]
fn parse_value(bytes: &[u8]) -> (value: Result<serde_json::Value, serde_json::Error>)
    ensures
        match value {
            Ok(v) => parsed_json(bytes@) == Some(value_tree(v)),
            Err(_) => parsed_json(bytes@) is None,
        },
{
    serde_json::from_slice(bytes)
}

/// A JSON value of `serde_json` as plain data.
///
/// Trusted: a `serde_json::Value` holds what its variants show, member by
/// member; the text of each value is its `Display` output, and a number is
/// known by `Number::as_u64`.
#[verifier::external_body]
fn plain_value(value: &serde_json::Value) -> (json: Json)
    ensures
        json@ == value_tree(*value),
{
    let kind = match value {
        serde_json::Value::Null => JsonKind::Null,
        serde_json::Value::Bool(b) => JsonKind::Bool(*b),
        serde_json::Value::Number(n) => JsonKind::Number(n.as_u64()),
        serde_json::Value::String(t) => JsonKind::Text(t.clone()),
        serde_json::Value::Array(a) => JsonKind::List(a.iter().map(plain_value).collect()),
        serde_json::Value::Object(o) => JsonKind::Object(
            o.iter().map(|(key, member)| (key.clone(), plain_value(member))).collect(),
        ),
    };
    Json { text: value.to_string(), kind }
}

impl JsonTree {
    /// The member of an object under a name: the first one, if there is any.
    pub open spec fn member(self, name: Seq<char>) -> Option<JsonTree> {
        match self.kind {
            TreeKind::Object(entries) => lookup(entries, name),
            _ => None,
        }
    }

    /// The truth value that this is, if it is one.
    pub open spec fn bool_value(self) -> Option<bool> {
        match self.kind {
            TreeKind::Bool(b) => Some(b),
            _ => None,
        }
    }

    /// The integer from 0 to `u64::MAX` that this is, if it is one.
    pub open spec fn u64_value(self) -> Option<u64> {
        match self.kind {
            TreeKind::Number(n) => n,
            _ => None,
        }
    }

    /// The string that this is, if it is one.
    pub open spec fn text_value(self) -> Option<Seq<char>> {
        match self.kind {
            TreeKind::Text(t) => Some(t),
            _ => None,
        }
    }
}

/// The first entry under a name.
pub open spec fn lookup(entries: Seq<(Seq<char>, JsonTree)>, name: Seq<char>) -> Option<JsonTree>
    decreases entries.len(),
{
    if entries.len() == 0 {
        None
    } else if entries[0].0 == name {
        Some(entries[0].1)
    } else {
        lookup(entries.drop_first(), name)
    }
}

/// The value of a [`Json`] that may be absent.
pub open spec fn opt_tree(json: Option<&Json>) -> Option<JsonTree> {
    match json {
        Some(j) => Some(j@),
        None => None,
    }
}

impl Json {
    /// The JSON value in bytes, or nothing where they are not one.
    pub fn parse(bytes: &[u8]) -> (json: Option<Json>)
        ensures
            json is Some == parsed_json(bytes@) is Some,
            json matches Some(j) ==> parsed_json(bytes@) == Some(j@),
    {
        match parse_value(bytes) {
            Ok(value) => Some(plain_value(&value)),
            Err(_) => None,
        }
    }

    /// A JSON value of `serde_json` as plain data.
    pub fn from_value(value: &serde_json::Value) -> (json: Json)
        ensures
            json@ == value_tree(*value),
    {
        plain_value(value)
    }

    /// The member of an object under a name.
    pub fn get(&self, name: &str) -> (member: Option<&Json>)
        ensures
            opt_tree(member) == self@.member(name@),
    {
        match &self.kind {
            JsonKind::Object(entries) => {
                let ghost all = entry_trees(entries@);
                proof {
                    lemma_entry_trees(entries@);
                    assert(all.skip(0) =~= all);
                }
                let mut next: usize = 0;
                while next < entries.len()
                    invariant
                        next <= entries.len(),
                        all == entry_trees(entries@),
                        all.len() == entries@.len(),
                        forall|i: int|
                            0 <= i < all.len() ==> #[trigger] all[i] == (
                                entries@[i].0@,
                                entries@[i].1@,
                            ),
                        lookup(all, name@) == lookup(all.skip(next as int), name@),
                        self@.kind == TreeKind::Object(all),
                    decreases entries.len() - next,
                {
                    assert(all.skip(next as int)[0] == all[next as int]);
                    assert(all.skip(next as int).drop_first() =~= all.skip(next + 1));
                    if same_text(entries[next].0.as_str(), name) {
                        return Some(&entries[next].1);
                    }
                    next = next + 1;
                }
                None
            },
            _ => None,
        }
    }

    /// The truth value that this is, if it is one.
    pub fn as_bool(&self) -> (value: Option<bool>)
        ensures
            value == self@.bool_value(),
    {
        match &self.kind {
            JsonKind::Bool(b) => Some(*b),
            _ => None,
        }
    }

    /// The integer from 0 to `u64::MAX` that this is, if it is one.
    pub fn as_u64(&self) -> (value: Option<u64>)
        ensures
            value == self@.u64_value(),
    {
        match &self.kind {
            JsonKind::Number(n) => *n,
            _ => None,
        }
    }

    /// The string that this is, if it is one.
    pub fn as_text(&self) -> (value: Option<&String>)
        ensures
            value is Some == self@.text_value() is Some,
            value matches Some(t) ==> self@.text_value() == Some(t@),
    {
        match &self.kind {
            JsonKind::Text(t) => Some(t),
            _ => None,
        }
    }
}

/// The values of a list stand at the places of its items.
pub proof fn lemma_trees(items: Seq<Json>)
    ensures
        trees(items).len() == items.len(),
        forall|i: int| 0 <= i < items.len() ==> #[trigger] trees(items)[i] == items[i]@,
    decreases items.len(),
{
    if items.len() > 0 {
        lemma_trees(items.drop_last());
        assert forall|i: int| 0 <= i < items.len() implies #[trigger] trees(items)[i]
            == items[i]@ by {
            if i < items.len() - 1 {
                assert(trees(items)[i] == trees(items.drop_last())[i]);
            }
        }
    }
}

proof fn lemma_entry_trees(entries: Seq<(String, Json)>)
    ensures
        entry_trees(entries).len() == entries.len(),
        forall|i: int|
            0 <= i < entries.len() ==> #[trigger] entry_trees(entries)[i] == (
                entries[i].0@,
                entries[i].1@,
            ),
    decreases entries.len(),
{
    if entries.len() > 0 {
        lemma_entry_trees(entries.drop_last());
        assert forall|i: int| 0 <= i < entries.len() implies #[trigger] entry_trees(entries)[i]
            == (entries[i].0@, entries[i].1@) by {
            if i < entries.len() - 1 {
                assert(entry_trees(entries)[i] == entry_trees(entries.drop_last())[i]);
            }
        }
    }
}

/// What a lookup finds is one of the entries.
pub proof fn lemma_lookup(entries: Seq<(Seq<char>, JsonTree)>, name: Seq<char>) -> (at: int)
    requires
        lookup(entries, name) is Some,
    ensures
        0 <= at < entries.len(),
        entries[at].0 == name,
        lookup(entries, name) == Some(entries[at].1),
    decreases entries.len(),
{
    if entries[0].0 == name {
        0
    } else {
        lemma_lookup(entries.drop_first(), name) + 1
    }
}

/// The value of a [`Json`] holds what the [`Json`] holds: the same text, and the
/// same truth value, number, string, items or entries, in the same order.
pub proof fn law_value_holds_the_same(json: Json)
    ensures
        json@.text == json.text@,
        json.kind is Null <==> json@.kind is Null,
        json.kind matches JsonKind::Bool(b) ==> json@.kind == TreeKind::Bool(b),
        json.kind matches JsonKind::Number(n) ==> json@.kind == TreeKind::Number(n),
        json.kind matches JsonKind::Text(t) ==> json@.kind == TreeKind::Text(t@),
        json.kind matches JsonKind::List(items) ==> (json@.kind matches TreeKind::List(all)
            && all.len() == items@.len() && forall|i: int|
            0 <= i < all.len() ==> #[trigger] all[i] == items@[i]@),
        json.kind matches JsonKind::Object(entries) ==> (json@.kind matches TreeKind::Object(all)
            && all.len() == entries@.len() && forall|i: int|
            0 <= i < all.len() ==> #[trigger] all[i] == (entries@[i].0@, entries@[i].1@)),
{
    match json.kind {
        JsonKind::List(items) => {
            lemma_trees(items@);
        },
        JsonKind::Object(entries) => {
            lemma_entry_trees(entries@);
        },
        _ => {},
    }
}

/// Whether an object has a member under a name: the first of its entries with
/// that name.
pub open spec fn holds(value: JsonTree, name: Seq<char>, member: JsonTree) -> bool {
    value.kind matches TreeKind::Object(entries) && exists|i: int|
        0 <= i < entries.len() && #[trigger] entries[i] == (name, member) && forall|j: int|
            0 <= j < i ==> (#[trigger] entries[j]).0 != name
}

/// Whether a value has no member under a name: it is no object, or no entry has
/// that name.
pub open spec fn lacks(value: JsonTree, name: Seq<char>) -> bool {
    value.kind matches TreeKind::Object(entries) ==> forall|i: int|
        0 <= i < entries.len() ==> (#[trigger] entries[i]).0 != name
}

/// A member is got by its name: the first entry with that name, and nothing
/// where there is none.
pub proof fn law_member_is_got_by_name(json: Json, name: &str, member: Option<&Json>)
    requires
        call_ensures(Json::get, (&json, name), member),
    ensures
        member matches Some(found) ==> holds(json@, name@, found@),
        member is None ==> lacks(json@, name@),
{
    match json@.kind {
        TreeKind::Object(entries) => {
            lemma_first_entry(entries, name@);
        },
        _ => {},
    }
}

/// What an object holds under a name is its member of that name.
pub proof fn lemma_member(value: JsonTree, name: Seq<char>, member: JsonTree)
    ensures
        holds(value, name, member) ==> value.member(name) == Some(member),
        lacks(value, name) ==> value.member(name) is None,
{
    match value.kind {
        TreeKind::Object(entries) => {
            lemma_first_entry(entries, name);
            if holds(value, name, member) {
                let i = choose|i: int|
                    0 <= i < entries.len() && #[trigger] entries[i] == (name, member)
                        && forall|j: int| 0 <= j < i ==> (#[trigger] entries[j]).0 != name;
                assert(entries[i].0 == name);
            }
        },
        _ => {},
    }
}

/// The member of an object under a name is what it holds there.
pub proof fn lemma_held(value: JsonTree, name: Seq<char>, member: JsonTree)
    requires
        value.member(name) == Some(member),
    ensures
        holds(value, name, member),
{
    match value.kind {
        TreeKind::Object(entries) => {
            lemma_first_entry(entries, name);
        },
        _ => {},
    }
}

proof fn lemma_first_entry(entries: Seq<(Seq<char>, JsonTree)>, name: Seq<char>)
    ensures
        match lookup(entries, name) {
            Some(member) => exists|i: int|
                0 <= i < entries.len() && #[trigger] entries[i] == (name, member) && forall|j: int|
                    0 <= j < i ==> (#[trigger] entries[j]).0 != name,
            None => forall|i: int| 0 <= i < entries.len() ==> (#[trigger] entries[i]).0 != name,
        },
    decreases entries.len(),
{
    if entries.len() > 0 {
        if entries[0].0 == name {
            assert(entries[0] == (name, entries[0].1));
        } else {
            let rest = entries.drop_first();
            lemma_first_entry(rest, name);
            match lookup(rest, name) {
                Some(member) => {
                    let i = choose|i: int|
                        0 <= i < rest.len() && #[trigger] rest[i] == (name, member)
                            && forall|j: int| 0 <= j < i ==> (#[trigger] rest[j]).0 != name;
                    assert(entries[i + 1] == (name, member));
                    assert forall|j: int| 0 <= j < i + 1 implies (
                    #[trigger] entries[j]).0 != name by {
                        if j > 0 {
                            assert(rest[j - 1] == entries[j]);
                        }
                    }
                },
                None => {
                    assert forall|i: int| 0 <= i < entries.len() implies (
                    #[trigger] entries[i]).0 != name by {
                        if i > 0 {
                            assert(rest[i - 1] == entries[i]);
                        }
                    }
                },
            }
        }
    }
}

/// A value is read as what it is and as nothing else: a truth value as that, a
/// number as that, a string as that.
pub proof fn law_value_is_read_as_what_it_is(
    json: Json,
    truth: Option<bool>,
    number: Option<u64>,
    text: Option<&String>,
)
    requires
        call_ensures(Json::as_bool, (&json,), truth),
        call_ensures(Json::as_u64, (&json,), number),
        call_ensures(Json::as_text, (&json,), text),
    ensures
        match json.kind {
            JsonKind::Bool(b) => truth == Some(b),
            _ => truth is None,
        },
        match json.kind {
            JsonKind::Number(n) => number == n,
            _ => number is None,
        },
        match json.kind {
            JsonKind::Text(t) => text matches Some(read) && read@ == t@,
            _ => text is None,
        },
{
}

} // verus!
