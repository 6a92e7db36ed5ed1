//! JSON values and `serde_json`: the same trees, and writing them out as text.
use crate::json::{
    array_view, distinct_keys, has_key, index_of_key, lemma_entry, lemma_entry_decreases, object_view,
    Object, Value, ValueView,
};
use crate::views::result_view;
use serde_json::Value as JsonTree;
use vstd::prelude::*;

verus! {

/// `serde_json::Value`, the JSON tree that `serde_json` writes out.
#[verifier::external_type_specification]
#[verifier::external_body]
pub struct ExJsonTree(JsonTree);

/// What a `serde_json::Value` holds.
pub uninterp spec fn json_contents(value: JsonTree) -> ValueView;

/// What `serde_json::to_string` makes of a value: its text, or else what the error
/// reads as.
pub uninterp spec fn json_text(value: JsonTree) -> Result<Seq<char>, Seq<char>>;

/// What a `serde_json::Value` is displayed as.
pub uninterp spec fn json_display(value: JsonTree) -> Seq<char>;

/// One node of a `serde_json` tree, its children being there already.
enum Node {
    Null,
    Bool(bool),
    Number(serde_json::Number),
    String(String),
    Array(Vec<JsonTree>),
    Object(Vec<(String, JsonTree)>),
}

/// What the tree below a node holds.
spec fn node_contents(node: Node) -> ValueView {
    match node {
        Node::Null => ValueView::Null,
        Node::Bool(b) => ValueView::Bool(b),
        Node::Number(n) => ValueView::Number(n),
        Node::String(s) => ValueView::String(s@),
        Node::Array(items) => ValueView::Array(
            Seq::new(items@.len(), |i: int| json_contents(items@[i])),
        ),
        Node::Object(entries) => ValueView::Object(
            Map::new(
                |key: Seq<char>| has_key(entries@, key),
                |key: Seq<char>| json_contents(entries@[index_of_key(entries@, key)].1),
            ),
        ),
    }
}

/// Builds the variant of `serde_json::Value` that `node` stands for: the result
/// holds what the node holds. The keys of an object (`serde_json::Map`, collected
/// from the entries) are taken to be distinct; in which order the map keeps them is
/// left open.
#[verifier::external_body]
fn build_node(node: Node) -> (res: JsonTree)
    requires
        node matches Node::Object(entries) ==> distinct_keys(entries@),
    ensures
        json_contents(res) == node_contents(node),
{
    match node {
        Node::Null => JsonTree::Null,
        Node::Bool(b) => JsonTree::Bool(b),
        Node::Number(n) => JsonTree::Number(n),
        Node::String(s) => JsonTree::String(s),
        Node::Array(items) => JsonTree::Array(items),
        Node::Object(entries) => JsonTree::Object(entries.into_iter().collect()),
    }
}

/// Takes a `serde_json::Value` apart into the node that its variant stands for: the
/// node holds what the value holds. The entries of an object (`serde_json::Map`) have
/// distinct keys; in which order they come is left open.
#[verifier::external_body]
fn split_node(tree: JsonTree) -> (res: Node)
    ensures
        json_contents(tree) == node_contents(res),
        res matches Node::Object(entries) ==> distinct_keys(entries@),
{
    match tree {
        JsonTree::Null => Node::Null,
        JsonTree::Bool(b) => Node::Bool(b),
        JsonTree::Number(n) => Node::Number(n),
        JsonTree::String(s) => Node::String(s),
        JsonTree::Array(items) => Node::Array(items),
        JsonTree::Object(entries) => Node::Object(entries.into_iter().collect()),
    }
}

/// Writes a value out as compact JSON (`serde_json::to_string`), an error being
/// turned into its text. What comes of it follows from the value.
#[verifier::external_body]
fn write_text(value: &JsonTree) -> (res: Result<String, String>)
    ensures
        result_view(res) == json_text(*value),
{
    serde_json::to_string(value).map_err(|error| error.to_string())
}

/// Displays a value as compact JSON (`serde_json::Value::to_string`). What the text
/// is follows from the value.
#[verifier::external_body]
fn display_value(value: &JsonTree) -> (res: String)
    ensures
        res@ == json_display(*value),
{
    value.to_string()
}

/// Turns a value into the `serde_json` tree that holds the same.
pub fn to_serde(value: &Value) -> (res: JsonTree)
    ensures
        json_contents(res) == value@,
    decreases *value,
{
    match value {
        Value::Null => build_node(Node::Null),
        Value::Bool(b) => build_node(Node::Bool(*b)),
        Value::Number(n) => build_node(Node::Number(n.clone())),
        Value::String(s) => build_node(Node::String(s.clone())),
        Value::Array(items) => {
            let mut children: Vec<JsonTree> = Vec::new();
            let mut i: usize = 0;
            while i < items.len()
                invariant
                    *value == Value::Array(*items),
                    i <= items@.len(),
                    children@.len() == i,
                    forall|j: int|
                        0 <= j < i ==> json_contents(#[trigger] children@[j]) == items@[j]@,
                decreases items@.len() - i,
            {
                proof {
                    assert(decreases_to!(*value => value->Array_0));
                    assert(decreases_to!(*items => items@));
                }
                children.push(to_serde(&items[i]));
                i = i + 1;
            }
            let ghost model = Seq::new(children@.len(), |i: int| json_contents(children@[i]));
            assert(model =~= array_view(items@));
            build_node(Node::Array(children))
        },
        Value::Object(object) => {
            let ghost all = object.spec_entries();
            let mut entries: Vec<(String, JsonTree)> = Vec::new();
            let mut i: usize = 0;
            let count: usize = object.len();
            while i < count
                invariant
                    *value == Value::Object(*object),
                    all == object.spec_entries(),
                    count == all.len(),
                    i <= all.len(),
                    entries@.len() == i,
                    forall|j: int|
                        0 <= j < i ==> (#[trigger] entries@[j]).0@ == all[j].0@ && json_contents(
                            entries@[j].1,
                        ) == all[j].1@,
                decreases all.len() - i,
            {
                proof {
                    lemma_entry_decreases(*value, *object, i as int);
                }
                let (key, child) = object.entry(i);
                entries.push((key.to_owned(), to_serde(child)));
                i = i + 1;
            }
            proof {
                lemma_same_contents(entries@, all);
            }
            build_node(Node::Object(entries))
        },
    }
}

/// Entries that agree key by key, and child by child in what they hold, hold the
/// same together.
proof fn lemma_same_contents(entries: Seq<(String, JsonTree)>, all: Seq<(String, Value)>)
    requires
        distinct_keys(all),
        entries.len() == all.len(),
        forall|j: int|
            0 <= j < entries.len() ==> (#[trigger] entries[j]).0@ == all[j].0@ && json_contents(
                entries[j].1,
            ) == all[j].1@,
    ensures
        distinct_keys(entries),
        Map::new(
            |key: Seq<char>| has_key(entries, key),
            |key: Seq<char>| json_contents(entries[index_of_key(entries, key)].1),
        ) == object_view(all),
{
    assert forall|i: int, j: int| 0 <= i < j < entries.len() implies #[trigger] entries[i].0@
        != #[trigger] entries[j].0@ by {
        assert(all[i].0@ != all[j].0@);
    }
    let built = Map::new(
        |key: Seq<char>| has_key(entries, key),
        |key: Seq<char>| json_contents(entries[index_of_key(entries, key)].1),
    );
    assert forall|key: Seq<char>| has_key(entries, key) == has_key(all, key) by {
        if has_key(entries, key) {
            let i = index_of_key(entries, key);
            assert(all[i].0@ == entries[i].0@);
        }
        if has_key(all, key) {
            let i = index_of_key(all, key);
            assert(entries[i].0@ == all[i].0@);
        }
    }
    assert forall|key: Seq<char>| has_key(entries, key) implies built[key] == object_view(all)[key] by {
        let i = index_of_key(entries, key);
        assert(all[i].0@ == entries[i].0@);
        lemma_entry(all, i);
    }
    assert(built =~= object_view(all));
}

/// Turns a `serde_json` tree into the value that holds the same.
pub fn from_serde(tree: JsonTree) -> (res: Value)
    ensures
        res@ == json_contents(tree),
    decreases json_contents(tree),
{
    let ghost contents = json_contents(tree);
    match split_node(tree) {
        Node::Null => Value::Null,
        Node::Bool(b) => Value::Bool(b),
        Node::Number(n) => Value::Number(n),
        Node::String(s) => Value::String(s),
        Node::Array(children) => {
            let ghost all = children@;
            let mut items: Vec<Value> = Vec::new();
            for child in iter: children
                invariant
                    iter.seq() == all,
                    contents == json_contents(tree),
                    contents == ValueView::Array(
                        Seq::new(all.len(), |i: int| json_contents(all[i])),
                    ),
                    items@.len() == iter.index(),
                    forall|j: int|
                        0 <= j < items@.len() ==> (#[trigger] items@[j])@ == json_contents(all[j]),
            {
                proof {
                    let i = iter.index() as int;
                    assert(decreases_to!(contents => contents->Array_0));
                    assert(decreases_to!(contents->Array_0 => contents->Array_0[i]));
                }
                items.push(from_serde(child));
            }
            assert(array_view(items@) =~= contents->Array_0);
            Value::Array(items)
        },
        Node::Object(entries) => {
            let ghost all = entries@;
            let mut object = Object::new();
            for entry in iter: entries
                invariant
                    iter.seq() == all,
                    distinct_keys(all),
                    contents == json_contents(tree),
                    contents == node_contents(Node::Object(entries)),
                    entries@ == all,
                    forall|key: Seq<char>| #[trigger]
                        object@.dom().contains(key) <==> has_key(all.take(iter.index() as int), key),
                    forall|j: int|
                        0 <= j < iter.index() ==> object@[(#[trigger] all[j]).0@] == json_contents(
                            all[j].1,
                        ),
            {
                let ghost i = iter.index() as int;
                let ghost before = object@;
                let (key, child) = entry;
                proof {
                    lemma_node_entry(entries, i);
                    assert(decreases_to!(contents => contents->Object_0[key@]));
                }
                object.insert(key, from_serde(child));
                proof {
                    assert(all.take(i + 1) =~= all.take(i).push(all[i]));
                    assert forall|other: Seq<char>| #[trigger] object@.dom().contains(other) <==> has_key(
                        all.take(i + 1),
                        other,
                    ) by {
                        if has_key(all.take(i), other) {
                            let j = index_of_key(all.take(i), other);
                            assert(all.take(i + 1)[j].0@ == other);
                        }
                        assert(all.take(i + 1)[i].0@ == key@);
                        if has_key(all.take(i + 1), other) && other != key@ {
                            let j = index_of_key(all.take(i + 1), other);
                            assert(all.take(i)[j].0@ == other);
                        }
                    }
                }
            }
            proof {
                let model = contents->Object_0;
                assert(all.take(all.len() as int) =~= all);
                assert forall|key: Seq<char>| has_key(all, key) implies object@[key] == model[key] by {
                    let j = index_of_key(all, key);
                    assert(all[j].0@ == key);
                }
                assert(object@ =~= model);
            }
            Value::Object(object)
        },
    }
}

/// What an object node holds under the key of one of its entries is what the child
/// of that entry holds.
proof fn lemma_node_entry(entries: Vec<(String, JsonTree)>, i: int)
    requires
        distinct_keys(entries@),
        0 <= i < entries@.len(),
    ensures
        node_contents(Node::Object(entries))->Object_0.dom().contains(entries@[i].0@),
        node_contents(Node::Object(entries))->Object_0[entries@[i].0@] == json_contents(
            entries@[i].1,
        ),
{
    let key = entries@[i].0@;
    assert(has_key(entries@, key));
    let j = index_of_key(entries@, key);
    assert(entries@[j].0@ == key);
    assert(i == j);
}

/// `outcome` is what comes of writing out a JSON tree that holds `value`: its text,
/// or else what the error reads as.
pub open spec fn is_rendering(value: ValueView, outcome: Result<Seq<char>, Seq<char>>) -> bool {
    exists|tree: JsonTree| #[trigger]
        json_contents(tree) == value && outcome == json_text(tree)
}

/// Writes a value out as compact JSON.
pub fn render(value: &Value) -> (res: Result<String, String>)
    ensures
        is_rendering(value@, result_view(res)),
{
    let tree = to_serde(value);
    write_text(&tree)
}

/// `text` is how a JSON tree that holds `value` is displayed.
pub open spec fn is_display(value: ValueView, text: Seq<char>) -> bool {
    exists|tree: JsonTree| #[trigger]
        json_contents(tree) == value && text == json_display(tree)
}

/// Displays a value as compact JSON.
pub fn display(value: &Value) -> (res: String)
    ensures
        is_display(value@, res@),
{
    let tree = to_serde(value);
    display_value(&tree)
}

} // verus!
