//! The focused window as the Sway compositor tells it.

use crate::config::AppRule;
use crate::context::AppContext;
use crate::json::{
    holds, lacks, lemma_held, lemma_lookup, lemma_member, lemma_trees, lookup, opt_tree,
    parsed_json, trees, Json, JsonKind, JsonTree, TreeKind,
};
use crate::text::opt_view;
use vstd::prelude::*;

verus! {

/// Why the focused window could not be told.
#[derive(Debug, Clone, Copy, PartialEq, Eq, Structural)]
pub enum SwayError {
    /// The answer of the compositor is not JSON.
    UnreadableTree,
}

impl SwayError {
    /// The error as a sentence.
    pub fn message(self) -> (text: String)
        ensures
            text@ == "failed to parse sway tree"@,
    {
        "failed to parse sway tree".to_string()
    }
}

/// The nodes below a value of the window tree, and itself, in the order in
/// which they are looked at: a node before its tiled children, and those before
/// its floating ones.
pub open spec fn window_nodes(value: JsonTree) -> Seq<JsonTree>
    decreases value,
{
    match value.kind {
        TreeKind::Object(entries) => {
            proof {
                lemma_children_are_smaller(value, entries, "nodes"@);
                lemma_children_are_smaller(value, entries, "floating_nodes"@);
            }
            let tiled = match lookup(entries, "nodes"@) {
                Some(JsonTree { kind: TreeKind::List(items), .. }) => listed_nodes(items),
                _ => Seq::empty(),
            };
            let floating = match lookup(entries, "floating_nodes"@) {
                Some(JsonTree { kind: TreeKind::List(items), .. }) => listed_nodes(items),
                _ => Seq::empty(),
            };
            seq![value] + tiled + floating
        },
        TreeKind::List(items) => listed_nodes(items),
        _ => Seq::empty(),
    }
}

/// The nodes of each value in a list, one behind the other.
pub open spec fn listed_nodes(items: Seq<JsonTree>) -> Seq<JsonTree>
    decreases items,
{
    if items.len() == 0 {
        Seq::empty()
    } else {
        listed_nodes(items.drop_last()) + window_nodes(items.last())
    }
}

/// The children of a node lie below it.
pub proof fn lemma_children_are_smaller(
    value: JsonTree,
    entries: Seq<(Seq<char>, JsonTree)>,
    name: Seq<char>,
)
    requires
        value.kind == TreeKind::Object(entries),
    ensures
        lookup(entries, name) matches Some(JsonTree { kind: TreeKind::List(items), .. })
            ==> decreases_to!(value => items),
{
    if lookup(entries, name) is Some {
        let at = lemma_lookup(entries, name);
        let child = entries[at].1;
        assert(decreases_to!(value => value.kind));
        assert(decreases_to!(value.kind => value.kind->Object_0));
        assert(decreases_to!(entries => entries[at]));
        assert(decreases_to!(entries[at] => entries[at].1));
        assert(decreases_to!(child => child.kind));
        if child.kind is List {
            assert(decreases_to!(child.kind => child.kind->List_0));
        }
    }
}

/// Whether a node says that it has the focus.
pub open spec fn has_focus(node: JsonTree) -> bool {
    match node.member("focused"@) {
        Some(focused) => focused.bool_value() == Some(true),
        None => false,
    }
}

/// The first of the nodes that has the focus.
pub open spec fn first_focused(nodes: Seq<JsonTree>) -> Option<JsonTree>
    decreases nodes.len(),
{
    if nodes.len() == 0 {
        None
    } else if has_focus(nodes[0]) {
        Some(nodes[0])
    } else {
        first_focused(nodes.drop_first())
    }
}

/// The focused node is one of the nodes and says that it has the focus; where
/// none is found, no node says so.
pub proof fn law_focused_node_has_focus(nodes: Seq<JsonTree>)
    ensures
        match first_focused(nodes) {
            Some(node) => nodes.contains(node) && has_focus(node),
            None => forall|i: int| 0 <= i < nodes.len() ==> !has_focus(#[trigger] nodes[i]),
        },
    decreases nodes.len(),
{
    if nodes.len() > 0 {
        let rest = nodes.drop_first();
        law_focused_node_has_focus(rest);
        if has_focus(nodes[0]) {
            assert(nodes.contains(nodes[0]));
        } else {
            match first_focused(rest) {
                Some(node) => {
                    let at = choose|i: int| 0 <= i < rest.len() && rest[i] == node;
                    assert(nodes[at + 1] == node);
                },
                None => {
                    assert forall|i: int| 0 <= i < nodes.len() implies !has_focus(
                        #[trigger] nodes[i],
                    ) by {
                        if i > 0 {
                            assert(rest[i - 1] == nodes[i]);
                        }
                    }
                },
            }
        }
    }
}

/// Looking through two lists of nodes, the second one only where the first has
/// no focus.
proof fn lemma_focus_in_either(first: Seq<JsonTree>, second: Seq<JsonTree>)
    ensures
        first_focused(first + second) == match first_focused(first) {
            Some(node) => Some(node),
            None => first_focused(second),
        },
    decreases first.len(),
{
    if first.len() == 0 {
        assert(first + second =~= second);
    } else {
        assert((first + second).drop_first() =~= first.drop_first() + second);
        lemma_focus_in_either(first.drop_first(), second);
    }
}

/// The focused node in the window tree: the first one that says so, a node
/// before what lies below it and tiled windows before floating ones.
pub fn find_focused_node(value: &Json) -> (found: Option<&Json>)
    ensures
        opt_tree(found) == first_focused(window_nodes(value@)),
    decreases value@,
{
    match &value.kind {
        JsonKind::Object(_) => {
            let ghost entries = value@.kind->Object_0;
            let ghost rest = window_nodes(value@).drop_first();
            proof {
                lemma_children_are_smaller(value@, entries, "nodes"@);
                lemma_children_are_smaller(value@, entries, "floating_nodes"@);
            }
            let focused: bool = match value.get("focused") {
                Some(flag) => match flag.as_bool() {
                    Some(set) => set,
                    None => false,
                },
                None => false,
            };
            if focused {
                return Some(value);
            }
            let ghost tiled = child_nodes(value@, "nodes"@);
            let ghost floating = child_nodes(value@, "floating_nodes"@);
            proof {
                assert(rest =~= tiled + floating);
                lemma_focus_in_either(tiled, floating);
            }
            if let Some(Json { kind: JsonKind::List(items), .. }) = value.get("nodes") {
                if let Some(found) = find_in_list(items) {
                    return Some(found);
                }
            }
            if let Some(Json { kind: JsonKind::List(items), .. }) = value.get("floating_nodes") {
                return find_in_list(items);
            }
            None
        },
        JsonKind::List(items) => find_in_list(items),
        _ => None,
    }
}

/// The nodes of the children that a node lists under a name.
pub open spec fn child_nodes(value: JsonTree, name: Seq<char>) -> Seq<JsonTree> {
    match value.member(name) {
        Some(JsonTree { kind: TreeKind::List(items), .. }) => listed_nodes(items),
        _ => Seq::empty(),
    }
}

/// The focused node in a list of values of the window tree.
fn find_in_list(items: &Vec<Json>) -> (found: Option<&Json>)
    ensures
        opt_tree(found) == first_focused(listed_nodes(trees(items@))),
    decreases trees(items@),
{
    let ghost all = trees(items@);
    proof {
        lemma_trees(items@);
    }
    let mut next: usize = 0;
    while next < items.len()
        invariant
            next <= items.len(),
            all == trees(items@),
            all.len() == items@.len(),
            forall|i: int| 0 <= i < all.len() ==> #[trigger] all[i] == items@[i]@,
            first_focused(listed_nodes(all.take(next as int))) is None,
        decreases items.len() - next,
    {
        assert(all.take(next + 1).drop_last() =~= all.take(next as int));
        assert(all.take(next + 1).last() == items@[next as int]@);
        proof {
            lemma_focus_in_either(
                listed_nodes(all.take(next as int)),
                window_nodes(items@[next as int]@),
            );
            assert(decreases_to!(all => all[next as int]));
        }
        if let Some(found) = find_focused_node(&items[next]) {
            proof {
                lemma_focus_stays(all, next + 1);
            }
            return Some(found);
        }
        next = next + 1;
    }
    assert(all.take(next as int) =~= all);
    None
}

/// A focus that is found in the first values of a list is found in the list.
proof fn lemma_focus_stays(items: Seq<JsonTree>, upto: int)
    requires
        0 <= upto <= items.len(),
        first_focused(listed_nodes(items.take(upto))) is Some,
    ensures
        first_focused(listed_nodes(items)) == first_focused(listed_nodes(items.take(upto))),
    decreases items.len(),
{
    if upto == items.len() {
        assert(items.take(upto) =~= items);
    } else {
        assert(items.drop_last().take(upto) =~= items.take(upto));
        lemma_focus_stays(items.drop_last(), upto);
        lemma_focus_in_either(listed_nodes(items.drop_last()), window_nodes(items.last()));
    }
}

/// The string that a node holds under a name.
pub open spec fn text_member(node: JsonTree, name: Seq<char>) -> Option<Seq<char>> {
    match node.member(name) {
        Some(member) => member.text_value(),
        None => None,
    }
}

/// The string that a node holds two names deep.
pub open spec fn inner_text_member(node: JsonTree, outer: Seq<char>, name: Seq<char>) -> Option<
    Seq<char>,
> {
    match node.member(outer) {
        Some(member) => text_member(member, name),
        None => None,
    }
}

/// The process number of a node: the low thirty-two bits of what it says.
pub open spec fn pid_member(node: JsonTree) -> Option<u32> {
    match node.member("pid"@) {
        Some(member) => match member.u64_value() {
            Some(pid) => Some((pid % 0x1_0000_0000) as u32),
            None => None,
        },
        None => None,
    }
}

/// The container number of a node, as it is written.
pub open spec fn id_member(node: JsonTree) -> Option<Seq<char>> {
    match node.member("id"@) {
        Some(member) => Some(member.text),
        None => None,
    }
}

/// Whether a context says what a node of the window tree says.
pub open spec fn is_context_of(context: AppContext, node: JsonTree) -> bool {
    &&& opt_view(context.compositor) == Some("sway"@)
    &&& opt_view(context.app_id) == text_member(node, "app_id"@)
    &&& opt_view(context.class) == inner_text_member(node, "window_properties"@, "class"@)
    &&& opt_view(context.instance) == inner_text_member(node, "window_properties"@, "instance"@)
    &&& opt_view(context.title) == text_member(node, "name"@)
    &&& context.pid == pid_member(node)
    &&& context.exe is None
    &&& context.cwd is None
    &&& opt_view(context.container_id) == id_member(node)
}

fn read_text(node: &Json, name: &str) -> (text: Option<String>)
    ensures
        opt_view(text) == text_member(node@, name@),
{
    match node.get(name) {
        Some(member) => match member.as_text() {
            Some(text) => Some(text.clone()),
            None => None,
        },
        None => None,
    }
}

fn read_inner_text(node: &Json, outer: &str, name: &str) -> (text: Option<String>)
    ensures
        opt_view(text) == inner_text_member(node@, outer@, name@),
{
    match node.get(outer) {
        Some(member) => read_text(member, name),
        None => None,
    }
}

/// The context that a node of the window tree tells.
pub fn node_to_context(node: &Json) -> (context: AppContext)
    ensures
        is_context_of(context, node@),
{
    let pid: Option<u32> = match node.get("pid") {
        Some(member) => match member.as_u64() {
            Some(pid) => Some((pid % 0x1_0000_0000) as u32),
            None => None,
        },
        None => None,
    };
    let container_id: Option<String> = match node.get("id") {
        Some(id) => Some(id.text.clone()),
        None => None,
    };
    AppContext {
        compositor: Some("sway".to_string()),
        app_id: read_text(node, "app_id"),
        class: read_inner_text(node, "window_properties", "class"),
        instance: read_inner_text(node, "window_properties", "instance"),
        title: read_text(node, "name"),
        pid,
        exe: None,
        cwd: None,
        container_id,
    }
}

/// Whether a context is that of the focused node of a window tree, and absent
/// where no node has the focus.
pub open spec fn is_focused_context(context: Option<AppContext>, windows: JsonTree) -> bool {
    match first_focused(window_nodes(windows)) {
        Some(node) => context matches Some(c) && is_context_of(c, node),
        None => context is None,
    }
}

/// The context of the focused window in a window tree.
pub fn context_in_tree(windows: &Json) -> (context: Option<AppContext>)
    ensures
        is_focused_context(context, windows@),
{
    match find_focused_node(windows) {
        Some(node) => Some(node_to_context(node)),
        None => None,
    }
}

/// The context of the focused window, from what the compositor answered.
///
/// `answered` says whether the compositor answered at all; `output` is its
/// window tree in JSON.
pub fn focused_context(answered: bool, output: &[u8]) -> (context: Result<
    Option<AppContext>,
    SwayError,
>)
    ensures
        !answered ==> context == Ok::<Option<AppContext>, SwayError>(None),
        answered ==> match parsed_json(output@) {
            Some(windows) => context matches Ok(c) && is_focused_context(c, windows),
            None => context == Err::<Option<AppContext>, SwayError>(SwayError::UnreadableTree),
        },
{
    if !answered {
        return Ok(None);
    }
    match Json::parse(output) {
        Some(windows) => Ok(context_in_tree(&windows)),
        None => Err(SwayError::UnreadableTree),
    }
}

/// A context says what its node says: each thing under its own name, as text
/// where the node has a string there, and nothing where it has none. The process
/// is the number that the node gives, and the container is what it is called in
/// the tree.
pub proof fn law_context_says_what_the_node_says(
    node: Json,
    context: AppContext,
    member: JsonTree,
    inner: JsonTree,
    text: Seq<char>,
    number: u32,
)
    requires
        call_ensures(node_to_context, (&node,), context),
    ensures
        context.compositor matches Some(name) && name@ == "sway"@,
        holds(node@, "app_id"@, member) && member.kind == TreeKind::Text(text) ==> (
        context.app_id matches Some(told) && told@ == text),
        lacks(node@, "app_id"@) ==> context.app_id is None,
        holds(node@, "name"@, member) && member.kind == TreeKind::Text(text) ==> (
        context.title matches Some(told) && told@ == text),
        lacks(node@, "name"@) ==> context.title is None,
        holds(node@, "window_properties"@, member) && holds(member, "class"@, inner) && inner.kind
            == TreeKind::Text(text) ==> (context.class matches Some(told) && told@ == text),
        holds(node@, "window_properties"@, member) && holds(member, "instance"@, inner)
            && inner.kind == TreeKind::Text(text) ==> (context.instance matches Some(told) && told@
            == text),
        lacks(node@, "window_properties"@) ==> context.class is None && context.instance is None,
        holds(node@, "pid"@, member) && member.kind == TreeKind::Number(Some(number as u64))
            ==> context.pid == Some(number),
        lacks(node@, "pid"@) ==> context.pid is None,
        holds(node@, "id"@, member) ==> (context.container_id matches Some(told) && told@
            == member.text),
        lacks(node@, "id"@) ==> context.container_id is None,
        context.exe is None && context.cwd is None,
        holds(node@, "app_id"@, member) && !(member.kind is Text) ==> context.app_id is None,
        holds(node@, "name"@, member) && !(member.kind is Text) ==> context.title is None,
{
    lemma_member(node@, "app_id"@, member);
    lemma_member(node@, "name"@, member);
    lemma_member(node@, "window_properties"@, member);
    lemma_member(member, "class"@, inner);
    lemma_member(member, "instance"@, inner);
    lemma_member(node@, "pid"@, member);
    lemma_member(node@, "id"@, member);
}

/// A rule that names just the application of a node speaks of the context of
/// that node; so does one that names just its class.
pub proof fn law_rule_finds_the_window(
    node: Json,
    context: AppContext,
    member: JsonTree,
    inner: JsonTree,
    text: Seq<char>,
    rule: AppRule,
    matched: bool,
)
    requires
        call_ensures(node_to_context, (&node,), context),
        call_ensures(AppRule::matches, (&rule, &context), matched),
        rule.title_contains is None,
    ensures
        holds(node@, "app_id"@, member) && member.kind == TreeKind::Text(text) && rule.class is None
            && (rule.app_id matches Some(name) && name@ == text) ==> matched,
        holds(node@, "window_properties"@, member) && holds(member, "class"@, inner) && inner.kind
            == TreeKind::Text(text) && rule.app_id is None && (rule.class matches Some(name)
            && name@ == text) ==> matched,
{
    law_context_says_what_the_node_says(node, context, member, inner, text, 0);
}

/// Whether a value of a window tree lies right below another one: in a list, or
/// among the tiled or the floating children of a node.
pub open spec fn is_child(parent: JsonTree, child: JsonTree) -> bool {
    ||| parent.kind matches TreeKind::List(items) && items.contains(child)
    ||| is_child_under(parent, "nodes"@, child)
    ||| is_child_under(parent, "floating_nodes"@, child)
}

/// Whether a node lists a child under a name.
pub open spec fn is_child_under(parent: JsonTree, name: Seq<char>, child: JsonTree) -> bool {
    exists|list: JsonTree| #[trigger]
        holds(parent, name, list) && (list.kind matches TreeKind::List(items) && items.contains(
            child,
        ))
}

/// Whether the value at a place of a path lies right below the one before it.
pub open spec fn leads_down(path: Seq<JsonTree>, at: int) -> bool {
    is_child(path[at], path[at + 1])
}

/// Whether a path leads down from one value of a window tree to another.
pub open spec fn is_path(path: Seq<JsonTree>, from: JsonTree, to: JsonTree) -> bool {
    &&& path.len() > 0
    &&& path[0] == from
    &&& path.last() == to
    &&& forall|i: int| 0 <= i < path.len() - 1 ==> #[trigger] leads_down(path, i)
}

/// Whether a value lies in a window tree, however deep.
pub open spec fn is_below(node: JsonTree, value: JsonTree) -> bool {
    exists|path: Seq<JsonTree>| is_path(path, value, node)
}

/// Whether a node says that it has the focus.
pub open spec fn is_focused(node: JsonTree) -> bool {
    exists|flag: JsonTree| #[trigger]
        holds(node, "focused"@, flag) && flag.kind == TreeKind::Bool(true)
}

proof fn lemma_focus(node: JsonTree)
    ensures
        is_focused(node) <==> has_focus(node),
{
    if is_focused(node) {
        let flag = choose|flag: JsonTree| #[trigger]
            holds(node, "focused"@, flag) && flag.kind == TreeKind::Bool(true);
        lemma_member(node, "focused"@, flag);
    }
    if has_focus(node) {
        let flag = node.member("focused"@)->0;
        lemma_held(node, "focused"@, flag);
        assert(holds(node, "focused"@, flag));
    }
}

/// Wherever in the tree a window has the focus, however deep, tiled or floating,
/// the focused window is found.
pub proof fn law_focused_window_is_found(
    windows: Json,
    context: Option<AppContext>,
    found: Option<&Json>,
    node: JsonTree,
)
    requires
        call_ensures(context_in_tree, (&windows,), context),
        call_ensures(find_focused_node, (&windows,), found),
        is_below(node, windows@),
        is_focused(node),
    ensures
        context is Some,
        found matches Some(it) && is_focused(it@),
{
    let path = choose|path: Seq<JsonTree>| is_path(path, windows@, node);
    lemma_path_is_listed(path, windows@, node);
    lemma_focus(node);
    let nodes = window_nodes(windows@);
    law_focused_node_has_focus(nodes);
    let at = choose|i: int| 0 <= i < nodes.len() && nodes[i] == node;
    if let Some(it) = first_focused(nodes) {
        lemma_focus(it);
    }
}

/// A node that is found has the focus and lies in the tree; where none is found,
/// no window has the focus, and nothing is known of one.
pub proof fn law_found_window_has_the_focus(
    windows: Json,
    found: Option<&Json>,
    context: Option<AppContext>,
)
    requires
        call_ensures(find_focused_node, (&windows,), found),
        call_ensures(context_in_tree, (&windows,), context),
    ensures
        found matches Some(it) ==> is_focused(it@) && is_below(it@, windows@),
        found is None ==> forall|node: JsonTree| #[trigger]
            is_below(node, windows@) ==> !is_focused(node),
        context is Some <==> found is Some,
{
    let nodes = window_nodes(windows@);
    law_focused_node_has_focus(nodes);
    match found {
        Some(it) => {
            lemma_focus(it@);
            let at = choose|i: int| 0 <= i < nodes.len() && nodes[i] == it@;
            let path = lemma_listed_is_below(windows@, at);
        },
        None => {
            assert forall|node: JsonTree| #[trigger] is_below(node, windows@) implies !is_focused(
                node,
            ) by {
                if is_focused(node) {
                    law_focused_window_is_found(windows, context, found, node);
                }
            }
        },
    }
}

proof fn lemma_path_is_listed(path: Seq<JsonTree>, value: JsonTree, node: JsonTree)
    requires
        is_path(path, value, node),
        node.kind is Object,
    ensures
        window_nodes(value).contains(node),
    decreases path.len(),
{
    let nodes = window_nodes(value);
    if path.len() == 1 {
        assert(nodes[0] == node);
    } else {
        let rest = path.drop_first();
        let child = path[1];
        assert(leads_down(path, 0));
        assert forall|i: int| 0 <= i < rest.len() - 1 implies #[trigger] leads_down(rest, i) by {
            assert(leads_down(path, i + 1));
        }
        lemma_path_is_listed(rest, child, node);
        match value.kind {
            TreeKind::List(items) => {
                let at = choose|i: int| 0 <= i < items.len() && items[i] == child;
                lemma_listed_contains(items, at, node);
            },
            TreeKind::Object(entries) => {
                lemma_children_are_smaller(value, entries, "nodes"@);
                lemma_children_are_smaller(value, entries, "floating_nodes"@);
                let tiled = child_nodes(value, "nodes"@);
                let floating = child_nodes(value, "floating_nodes"@);
                assert(nodes =~= seq![value] + tiled + floating);
                if is_child_under(value, "nodes"@, child) {
                    lemma_child_is_listed(value, "nodes"@, child, node);
                    let at = choose|i: int| 0 <= i < tiled.len() && tiled[i] == node;
                    assert(nodes[at + 1] == node);
                } else {
                    lemma_child_is_listed(value, "floating_nodes"@, child, node);
                    let at = choose|i: int| 0 <= i < floating.len() && floating[i] == node;
                    assert(nodes[at + 1 + tiled.len()] == node);
                }
            },
            _ => {},
        }
    }
}

proof fn lemma_child_is_listed(value: JsonTree, name: Seq<char>, child: JsonTree, node: JsonTree)
    requires
        is_child_under(value, name, child),
        window_nodes(child).contains(node),
    ensures
        child_nodes(value, name).contains(node),
{
    let list = choose|list: JsonTree| #[trigger]
        holds(value, name, list) && (list.kind matches TreeKind::List(items) && items.contains(
            child,
        ));
    lemma_member(value, name, list);
    let items = list.kind->List_0;
    let at = choose|i: int| 0 <= i < items.len() && items[i] == child;
    lemma_listed_contains(items, at, node);
}

proof fn lemma_listed_contains(items: Seq<JsonTree>, at: int, node: JsonTree)
    requires
        0 <= at < items.len(),
        window_nodes(items[at]).contains(node),
    ensures
        listed_nodes(items).contains(node),
    decreases items.len(),
{
    let rest = items.drop_last();
    let before = listed_nodes(rest);
    let last = window_nodes(items.last());
    let all = listed_nodes(items);
    if at < rest.len() {
        assert(rest[at] == items[at]);
        lemma_listed_contains(rest, at, node);
        let i = choose|i: int| 0 <= i < before.len() && before[i] == node;
        assert(all[i] == node);
    } else {
        let i = choose|i: int| 0 <= i < last.len() && last[i] == node;
        assert(all[before.len() + i] == node);
    }
}

/// A path that begins one value higher.
proof fn lemma_longer_path(
    path: Seq<JsonTree>,
    value: JsonTree,
    child: JsonTree,
    node: JsonTree,
) -> (longer: Seq<JsonTree>)
    requires
        is_path(path, child, node),
        is_child(value, child),
    ensures
        is_path(longer, value, node),
{
    let longer = seq![value] + path;
    assert forall|i: int| 0 <= i < longer.len() - 1 implies #[trigger] leads_down(longer, i) by {
        if i > 0 {
            assert(leads_down(path, i - 1));
        }
    }
    longer
}

/// A node that is listed lies in the tree.
proof fn lemma_listed_is_below(value: JsonTree, at: int) -> (path: Seq<JsonTree>)
    requires
        0 <= at < window_nodes(value).len(),
    ensures
        is_path(path, value, window_nodes(value)[at]),
    decreases value, 0int,
{
    let nodes = window_nodes(value);
    let node = nodes[at];
    match value.kind {
        TreeKind::List(items) => {
            let (i, path) = lemma_listed_in_items(items, at);
            assert(items.contains(items[i]));
            lemma_longer_path(path, value, items[i], node)
        },
        TreeKind::Object(entries) => {
            lemma_children_are_smaller(value, entries, "nodes"@);
            lemma_children_are_smaller(value, entries, "floating_nodes"@);
            let tiled = child_nodes(value, "nodes"@);
            let floating = child_nodes(value, "floating_nodes"@);
            assert(nodes =~= seq![value] + tiled + floating);
            if at == 0 {
                seq![value]
            } else if at < 1 + tiled.len() {
                let list = value.member("nodes"@)->0;
                lemma_held(value, "nodes"@, list);
                let items = list.kind->List_0;
                let (i, path) = lemma_listed_in_items(items, at - 1);
                assert(items.contains(items[i]));
                assert(is_child_under(value, "nodes"@, items[i]));
                lemma_longer_path(path, value, items[i], node)
            } else {
                let list = value.member("floating_nodes"@)->0;
                lemma_held(value, "floating_nodes"@, list);
                let items = list.kind->List_0;
                let (i, path) = lemma_listed_in_items(items, at - 1 - tiled.len());
                assert(items.contains(items[i]));
                assert(is_child_under(value, "floating_nodes"@, items[i]));
                lemma_longer_path(path, value, items[i], node)
            }
        },
        _ => Seq::empty(),
    }
}

proof fn lemma_listed_in_items(items: Seq<JsonTree>, at: int) -> (found: (int, Seq<JsonTree>))
    requires
        0 <= at < listed_nodes(items).len(),
    ensures
        0 <= found.0 < items.len(),
        is_path(found.1, items[found.0], listed_nodes(items)[at]),
    decreases items, 1int,
{
    let rest = items.drop_last();
    let before = listed_nodes(rest);
    if at < before.len() {
        assert(decreases_to!(items => rest));
        let (i, path) = lemma_listed_in_items(rest, at);
        assert(rest[i] == items[i]);
        (i, path)
    } else {
        let last = items[items.len() - 1];
        assert(decreases_to!(items => last));
        let path = lemma_listed_is_below(last, at - before.len());
        (items.len() - 1, path)
    }
}

/// A node that has the focus is found before what lies below it. Otherwise the
/// first of its tiled children in which there is a focus counts, and only where
/// there is none in any, the first of its floating ones.
pub proof fn law_tiled_windows_come_first(
    value: Json,
    found: Option<&Json>,
    name: Seq<char>,
    list: JsonTree,
    items: Seq<JsonTree>,
    at: int,
    child: Json,
    below: Option<&Json>,
)
    requires
        call_ensures(find_focused_node, (&value,), found),
        name == "nodes"@ || (name == "floating_nodes"@ && has_no_tiled_focus(value@)),
        holds(value@, name, list),
        list.kind == TreeKind::List(items),
        0 <= at < items.len(),
        child@ == items[at],
        call_ensures(find_focused_node, (&child,), below),
        below is Some,
        forall|i: int, node: JsonTree|
            0 <= i < at && #[trigger] is_below(node, items[i]) ==> !is_focused(node),
    ensures
        is_focused(value@) ==> found == Some(&value) || (found matches Some(it) && it@ == value@),
        !is_focused(value@) ==> (found matches Some(it) && it@ == below->0@),
{
    lemma_focus(value@);
    lemma_member(value@, name, list);
    let entries = value@.kind->Object_0;
    lemma_children_are_smaller(value@, entries, "nodes"@);
    lemma_children_are_smaller(value@, entries, "floating_nodes"@);
    let tiled = child_nodes(value@, "nodes"@);
    let floating = child_nodes(value@, "floating_nodes"@);
    let nodes = window_nodes(value@);
    assert(nodes =~= seq![value@] + tiled + floating);
    assert(nodes.drop_first() =~= tiled + floating);
    lemma_focus_in_either(tiled, floating);
    lemma_first_in_list(items, at);
    if name == "floating_nodes"@ && name != "nodes"@ {
        lemma_no_tiled_focus(value@);
    }
}

proof fn lemma_first_in_list(items: Seq<JsonTree>, at: int)
    requires
        0 <= at < items.len(),
        first_focused(window_nodes(items[at])) is Some,
        forall|i: int, node: JsonTree|
            0 <= i < at && #[trigger] is_below(node, items[i]) ==> !is_focused(node),
    ensures
        first_focused(listed_nodes(items)) == first_focused(window_nodes(items[at])),
{
    let upto = items.take(at + 1);
    assert(upto.drop_last() =~= items.take(at));
    assert(upto.last() == items[at]);
    lemma_none_before(items, at);
    lemma_focus_in_either(listed_nodes(items.take(at)), window_nodes(items[at]));
    lemma_focus_stays(items, at + 1);
}

proof fn lemma_none_before(items: Seq<JsonTree>, at: int)
    requires
        0 <= at <= items.len(),
        forall|i: int, node: JsonTree|
            0 <= i < at && #[trigger] is_below(node, items[i]) ==> !is_focused(node),
    ensures
        first_focused(listed_nodes(items.take(at))) is None,
    decreases at,
{
    if at > 0 {
        lemma_none_before(items, at - 1);
        assert(items.take(at).drop_last() =~= items.take(at - 1));
        assert(items.take(at).last() == items[at - 1]);
        let nodes = window_nodes(items[at - 1]);
        lemma_focus_in_either(listed_nodes(items.take(at - 1)), nodes);
        law_focused_node_has_focus(nodes);
        if let Some(node) = first_focused(nodes) {
            let k = choose|k: int| 0 <= k < nodes.len() && nodes[k] == node;
            let path = lemma_listed_is_below(items[at - 1], k);
            lemma_focus(node);
            assert(is_below(node, items[at - 1]));
        }
    }
}

/// Whether no window below the tiled children of a node has the focus.
pub open spec fn has_no_tiled_focus(value: JsonTree) -> bool {
    forall|child: JsonTree, node: JsonTree| #[trigger]
        is_child_under(value, "nodes"@, child) && #[trigger] is_below(node, child)
            ==> !is_focused(node)
}

proof fn lemma_no_tiled_focus(value: JsonTree)
    requires
        has_no_tiled_focus(value),
    ensures
        first_focused(child_nodes(value, "nodes"@)) is None,
{
    let nodes = child_nodes(value, "nodes"@);
    law_focused_node_has_focus(nodes);
    if let Some(node) = first_focused(nodes) {
        let list = value.member("nodes"@)->0;
        lemma_held(value, "nodes"@, list);
        let k = choose|k: int| 0 <= k < nodes.len() && nodes[k] == node;
        let items = list.kind->List_0;
        let (i, path) = lemma_listed_in_items(items, k);
        lemma_focus(node);
        assert(items.contains(items[i]));
        assert(is_child_under(value, "nodes"@, items[i]));
        assert(is_below(node, items[i]));
    }
}

/// Of a compositor that does not answer nothing is known, and an answer that is
/// not JSON is an error; any other answer is looked through.
pub proof fn law_answer_of_the_compositor_is_read(
    answered: bool,
    output: &[u8],
    context: Result<Option<AppContext>, SwayError>,
    node: JsonTree,
)
    requires
        call_ensures(focused_context, (answered, output), context),
    ensures
        !answered ==> (context matches Ok(c) && c is None),
        answered && parsed_json(output@) is None <==> context is Err,
        answered && (parsed_json(output@) matches Some(windows) && is_below(node, windows))
            && is_focused(node) ==> (context matches Ok(c) && c is Some),
{
    if answered {
        if let Some(windows) = parsed_json(output@) {
            if is_below(node, windows) && is_focused(node) {
                let path = choose|path: Seq<JsonTree>| is_path(path, windows, node);
                lemma_path_is_listed(path, windows, node);
                lemma_focus(node);
                law_focused_node_has_focus(window_nodes(windows));
                let nodes = window_nodes(windows);
                let at = choose|i: int| 0 <= i < nodes.len() && nodes[i] == node;
            }
        }
    }
}

} // verus!
