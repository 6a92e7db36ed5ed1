//! Rewriting a JSON Schema into the subset that Gemini accepts.
//!
//! Gemini rejects meta-fields such as `$schema`, `title` and `definitions`, and
//! does not follow references. [`normalise_for_gemini`] drops the meta-fields and
//! puts the definition itself in the place of each `$ref` that names one.
use crate::json::{
    array_view, has_key, index_of_key, lemma_entry_decreases, Object, Value,
    ValueView,
};
use crate::text::{after_prefix, strip_prefix};
use vstd::prelude::*;

verus! {

/// Definitions by name.
pub type Definitions = Map<Seq<char>, ValueView>;

/// The name of the definition that a reference points to: what follows
/// `#/definitions/` or `#/$defs/`.
pub open spec fn definition_name(reference: Seq<char>) -> Option<Seq<char>> {
    match after_prefix(reference, "#/definitions/"@) {
        Some(name) => Some(name),
        None => after_prefix(reference, "#/$defs/"@),
    }
}

/// The definition that an object stands for: that of its `$ref`, where this is a
/// string that names a known definition.
pub open spec fn ref_target(
    object: Map<Seq<char>, ValueView>,
    definitions: Definitions,
) -> Option<ValueView> {
    if object.dom().contains("$ref"@) {
        match object["$ref"@] {
            ValueView::String(reference) => match definition_name(reference) {
                Some(name) => if definitions.dom().contains(name) {
                    Some(definitions[name])
                } else {
                    None
                },
                None => None,
            },
            _ => None,
        }
    } else {
        None
    }
}

/// What a part of a schema is.
#[derive(Debug, Clone, Copy, PartialEq, Eq, Structural)]
pub enum Place {
    /// A schema, whose keys are keywords.
    Schema,
    /// Schemas by name, as under `properties`.
    Names,
    /// A value that the schema speaks of, as under `default`.
    Data,
}

/// A keyword under which values stand, and no schemas.
pub open spec fn is_data_keyword(key: Seq<char>) -> bool {
    key == "default"@ || key == "const"@ || key == "enum"@ || key == "examples"@
}

/// A keyword under which schemas stand by name.
pub open spec fn is_names_keyword(key: Seq<char>) -> bool {
    key == "properties"@ || key == "patternProperties"@ || key == "dependentSchemas"@
}

/// What stands under `key`. Below values there are only values.
pub open spec fn field_place(place: Place, key: Seq<char>) -> Place {
    match place {
        Place::Schema => if is_data_keyword(key) {
            Place::Data
        } else if is_names_keyword(key) {
            Place::Names
        } else {
            Place::Schema
        },
        Place::Names => Place::Schema,
        Place::Data => Place::Data,
    }
}

/// What the items of an array are, and what takes the place of a reference.
pub open spec fn item_place(place: Place) -> Place {
    match place {
        Place::Data => Place::Data,
        _ => Place::Schema,
    }
}

/// A field that describes the schema itself: `$schema`, or in a schema its `title`,
/// which is a text, and the definitions that it brings along. (A property, or a field
/// of a default value, may be named `title` or `definitions` too.)
pub open spec fn is_meta_field(place: Place, key: Seq<char>, value: ValueView) -> bool {
    key == "$schema"@ || (place == Place::Schema && ((key == "title"@ && value is String) || key
        == "definitions"@ || key == "$defs"@))
}

/// A field that stays: one that is there and is no meta-field.
pub open spec fn is_kept(object: Map<Seq<char>, ValueView>, place: Place, key: Seq<char>) -> bool {
    object.dom().contains(key) && !is_meta_field(place, key, object[key])
}

/// `value`, standing at `place`, with its meta-fields dropped and its references
/// replaced, where no chain of references that lead into one another is longer than `depth`; `None`
/// where one is.
pub open spec fn expand(
    value: ValueView,
    definitions: Definitions,
    place: Place,
    depth: nat,
) -> Option<ValueView>
    decreases depth, value,
{
    match value {
        ValueView::Object(object) => match ref_target(object, definitions) {
            Some(target) => if depth == 0 {
                None
            } else {
                expand(target, definitions, item_place(place), (depth - 1) as nat)
            },
            None => if forall|key: Seq<char>|
                #![trigger is_kept(object, place, key)]
                #![trigger object[key]]
                is_kept(object, place, key) ==> expand(
                    object[key],
                    definitions,
                    field_place(place, key),
                    depth,
                ) is Some {
                Some(
                    ValueView::Object(
                        Map::new(
                            |key: Seq<char>| is_kept(object, place, key),
                            |key: Seq<char>|
                                if is_kept(object, place, key) {
                                    expand(object[key], definitions, field_place(place, key), depth)->0
                                } else {
                                    ValueView::Null
                                },
                        ),
                    ),
                )
            } else {
                None
            },
        },
        ValueView::Array(items) => if forall|i: int|
            0 <= i < items.len() ==> expand(
                #[trigger] items[i],
                definitions,
                item_place(place),
                depth,
            ) is Some {
            Some(
                ValueView::Array(
                    Seq::new(
                        items.len(),
                        |i: int|
                            if 0 <= i < items.len() {
                                expand(items[i], definitions, item_place(place), depth)->0
                            } else {
                                ValueView::Null
                            },
                    ),
                ),
            )
        } else {
            None
        },
        other => Some(other),
    }
}

/// More room changes nothing: what expands within `depth` expands to the same
/// value within any greater depth.
pub proof fn lemma_expand_monotone(
    value: ValueView,
    definitions: Definitions,
    place: Place,
    depth: nat,
    more: nat,
)
    requires
        expand(value, definitions, place, depth) is Some,
        depth <= more,
    ensures
        expand(value, definitions, place, more) == expand(value, definitions, place, depth),
    decreases depth, value,
{
    match value {
        ValueView::Object(object) => match ref_target(object, definitions) {
            Some(target) => {
                lemma_expand_monotone(
                    target,
                    definitions,
                    item_place(place),
                    (depth - 1) as nat,
                    (more - 1) as nat,
                );
            },
            None => {
                assert forall|key: Seq<char>| #[trigger] is_kept(object, place, key) implies expand(
                    object[key],
                    definitions,
                    field_place(place, key),
                    more,
                ) == expand(object[key], definitions, field_place(place, key), depth) by {
                    lemma_expand_monotone(object[key], definitions, field_place(place, key), depth, more);
                }
                let left = expand(value, definitions, place, more)->0->Object_0;
                let right = expand(value, definitions, place, depth)->0->Object_0;
                assert(left =~= right);
            },
        },
        ValueView::Array(items) => {
            assert forall|i: int| 0 <= i < items.len() implies expand(
                #[trigger] items[i],
                definitions,
                item_place(place),
                more,
            ) == expand(items[i], definitions, item_place(place), depth) by {
                lemma_expand_monotone(items[i], definitions, item_place(place), depth, more);
            }
            let left = expand(value, definitions, place, more)->0->Array_0;
            let right = expand(value, definitions, place, depth)->0->Array_0;
            assert(left =~= right);
        },
        _ => {},
    }
}

/// What expands as data expands at any place: elsewhere fewer fields are kept.
proof fn lemma_data_expands_anywhere(
    value: ValueView,
    definitions: Definitions,
    place: Place,
    depth: nat,
)
    requires
        expand(value, definitions, Place::Data, depth) is Some,
    ensures
        expand(value, definitions, place, depth) is Some,
    decreases depth, value,
{
    match value {
        ValueView::Object(object) => match ref_target(object, definitions) {
            Some(target) => {
                lemma_data_expands_anywhere(
                    target,
                    definitions,
                    item_place(place),
                    (depth - 1) as nat,
                );
            },
            None => {
                assert forall|key: Seq<char>| #[trigger] is_kept(object, place, key) implies expand(
                    object[key],
                    definitions,
                    field_place(place, key),
                    depth,
                ) is Some by {
                    assert(is_kept(object, Place::Data, key));
                    lemma_data_expands_anywhere(
                        object[key],
                        definitions,
                        field_place(place, key),
                        depth,
                    );
                }
            },
        },
        ValueView::Array(items) => {
            assert forall|i: int| 0 <= i < items.len() implies expand(
                #[trigger] items[i],
                definitions,
                item_place(place),
                depth,
            ) is Some by {
                lemma_data_expands_anywhere(items[i], definitions, item_place(place), depth);
            }
        },
        _ => {},
    }
}

/// Whether the references in the schema `value` lead to an end: no definition is
/// reached from itself.
pub open spec fn is_expandable(value: ValueView, definitions: Definitions) -> bool {
    exists|depth: nat| #[trigger] expand(value, definitions, Place::Schema, depth) is Some
}

/// The schema `value` with its meta-fields dropped and its references replaced.
pub open spec fn expansion(value: ValueView, definitions: Definitions) -> ValueView {
    expand(
        value,
        definitions,
        Place::Schema,
        choose|depth: nat| #[trigger] expand(value, definitions, Place::Schema, depth) is Some,
    )->0
}

/// The expansion is what any depth gives that gives something.
pub proof fn lemma_expansion(value: ValueView, definitions: Definitions, depth: nat)
    requires
        expand(value, definitions, Place::Schema, depth) is Some,
    ensures
        is_expandable(value, definitions),
        expand(value, definitions, Place::Schema, depth) == Some(expansion(value, definitions)),
{
    let chosen = choose|depth: nat| #[trigger]
        expand(value, definitions, Place::Schema, depth) is Some;
    if chosen <= depth {
        lemma_expand_monotone(value, definitions, Place::Schema, chosen, depth);
    } else {
        lemma_expand_monotone(value, definitions, Place::Schema, depth, chosen);
    }
}

/// `value` expands within `depth` and within nothing less.
pub open spec fn needs_exactly(
    value: ValueView,
    definitions: Definitions,
    place: Place,
    depth: nat,
) -> bool {
    &&& expand(value, definitions, place, depth) is Some
    &&& depth > 0 ==> expand(value, definitions, place, (depth - 1) as nat) is None
}

/// A value that needs `depth` refers, itself or somewhere inside, to a definition
/// that needs one less. As data it refers to data.
proof fn lemma_chain_step(
    value: ValueView,
    definitions: Definitions,
    place: Place,
    depth: nat,
) -> (link: (Seq<char>, Place))
    requires
        depth > 0,
        needs_exactly(value, definitions, place, depth),
    ensures
        definitions.dom().contains(link.0),
        needs_exactly(definitions[link.0], definitions, link.1, (depth - 1) as nat),
        link.1 == Place::Schema || link.1 == Place::Data,
        place == Place::Data ==> link.1 == Place::Data,
    decreases value,
{
    let less = (depth - 1) as nat;
    match value {
        ValueView::Object(object) => match ref_target(object, definitions) {
            Some(target) => (definition_name(object["$ref"@]->String_0)->0, item_place(place)),
            None => {
                let key = choose|key: Seq<char>| #[trigger]
                    is_kept(object, place, key) && expand(
                        object[key],
                        definitions,
                        field_place(place, key),
                        less,
                    ) is None;
                assert(is_kept(object, place, key) && expand(
                    object[key],
                    definitions,
                    field_place(place, key),
                    less,
                ) is None);
                lemma_chain_step(object[key], definitions, field_place(place, key), depth)
            },
        },
        ValueView::Array(items) => {
            let i = choose|i: int|
                0 <= i < items.len() && expand(
                    #[trigger] items[i],
                    definitions,
                    item_place(place),
                    less,
                ) is None;
            lemma_chain_step(items[i], definitions, item_place(place), depth)
        },
        _ => (Seq::empty(), place),
    }
}

/// `links` are definitions, each with the place at which it is reached: number `i`
/// needs `i`, and from data on there is only data.
spec fn is_chain(links: Seq<(Seq<char>, Place)>, definitions: Definitions) -> bool {
    &&& forall|i: int|
        0 <= i < links.len() ==> {
            &&& definitions.dom().contains((#[trigger] links[i]).0)
            &&& needs_exactly(definitions[links[i].0], definitions, links[i].1, i as nat)
            &&& links[i].1 == Place::Schema || links[i].1 == Place::Data
        }
    &&& forall|i: int, j: int|
        0 <= i < j < links.len() && (#[trigger] links[j]).1 == Place::Data ==> (
        #[trigger] links[i]).1 == Place::Data
}

/// The definitions along the chain below `value`.
proof fn lemma_chain(value: ValueView, definitions: Definitions, place: Place, depth: nat) -> (links:
    Seq<(Seq<char>, Place)>)
    requires
        needs_exactly(value, definitions, place, depth),
    ensures
        links.len() == depth,
        is_chain(links, definitions),
        place == Place::Data ==> forall|i: int|
            0 <= i < links.len() ==> (#[trigger] links[i]).1 == Place::Data,
    decreases depth,
{
    if depth == 0 {
        Seq::empty()
    } else {
        let link = lemma_chain_step(value, definitions, place, depth);
        let below = lemma_chain(definitions[link.0], definitions, link.1, (depth - 1) as nat);
        below.push(link)
    }
}

/// The least depth within which `value` expands.
proof fn lemma_least_depth(value: ValueView, definitions: Definitions, depth: nat) -> (least: nat)
    requires
        expand(value, definitions, Place::Schema, depth) is Some,
    ensures
        least <= depth,
        needs_exactly(value, definitions, Place::Schema, least),
    decreases depth,
{
    if depth > 0 && expand(value, definitions, Place::Schema, (depth - 1) as nat) is Some {
        lemma_least_depth(value, definitions, (depth - 1) as nat)
    } else {
        depth
    }
}

/// References that lead to an end do so within as many steps as there are
/// definitions: a longer chain would pass one definition twice.
pub proof fn law_depth_is_bounded(value: ValueView, definitions: Definitions)
    requires
        definitions.dom().finite(),
        is_expandable(value, definitions),
    ensures
        expand(value, definitions, Place::Schema, definitions.len()) == Some(expansion(value, definitions)),
{
    let some_depth = choose|depth: nat| #[trigger] expand(value, definitions, Place::Schema, depth) is Some;
    let least = lemma_least_depth(value, definitions, some_depth);
    let links = lemma_chain(value, definitions, Place::Schema, least);
    let names = Seq::new(links.len(), |i: int| links[i].0);
    assert forall|i: int, j: int| 0 <= i < j < names.len() implies names[i] != names[j] by {
        assert(definitions.dom().contains(links[i].0) && definitions.dom().contains(links[j].0));
        if names[i] == names[j] {
            let definition = definitions[names[i]];
            if links[i].1 != links[j].1 {
                lemma_data_expands_anywhere(definition, definitions, links[j].1, i as nat);
            }
            lemma_expand_monotone(definition, definitions, links[j].1, i as nat, (j - 1) as nat);
        }
    }
    assert(names.no_duplicates());
    names.unique_seq_to_set();
    assert(names.to_set().subset_of(definitions.dom()));
    vstd::set_lib::lemma_len_subset(names.to_set(), definitions.dom());
    lemma_expand_monotone(value, definitions, Place::Schema, least, definitions.len());
    lemma_expansion(value, definitions, definitions.len());
}

/// Whether `key: value` is a meta-field.
fn check_meta_field(place: Place, key: &str, value: &Value) -> (res: bool)
    ensures
        res == is_meta_field(place, key@, value@),
{
    let key: String = key.to_owned();
    if key == "$schema".to_owned() {
        return true;
    }
    match place {
        Place::Schema => {
            if key == "definitions".to_owned() || key == "$defs".to_owned() {
                return true;
            }
            match value {
                Value::String(_) => key == "title".to_owned(),
                _ => false,
            }
        },
        _ => false,
    }
}

/// What stands under `key`.
fn place_under(place: Place, key: &str) -> (res: Place)
    ensures
        res == field_place(place, key@),
{
    let key: String = key.to_owned();
    match place {
        Place::Schema => if key == "default".to_owned() || key == "const".to_owned() || key
            == "enum".to_owned() || key == "examples".to_owned() {
            Place::Data
        } else if key == "properties".to_owned() || key == "patternProperties".to_owned() || key
            == "dependentSchemas".to_owned() {
            Place::Names
        } else {
            Place::Schema
        },
        Place::Names => Place::Schema,
        Place::Data => Place::Data,
    }
}

/// Finds the definition that `object` stands for.
fn find_target<'a>(object: &Object, definitions: &'a Object) -> (res: Option<&'a Value>)
    ensures
        match res {
            Some(target) => ref_target(object@, definitions@) == Some(target@),
            None => ref_target(object@, definitions@) is None,
        },
{
    match object.get("$ref") {
        Some(Value::String(reference)) => {
            let name = match strip_prefix(reference.as_str(), "#/definitions/") {
                Some(name) => Some(name),
                None => strip_prefix(reference.as_str(), "#/$defs/"),
            };
            match name {
                Some(name) => definitions.get(name.as_str()),
                None => None,
            }
        },
        _ => None,
    }
}

/// An object expands field by field.
proof fn lemma_expand_object(
    object: Map<Seq<char>, ValueView>,
    definitions: Definitions,
    place: Place,
    depth: nat,
    fields: Map<Seq<char>, ValueView>,
)
    requires
        ref_target(object, definitions) is None,
        forall|key: Seq<char>| #[trigger] fields.dom().contains(key) <==> is_kept(object, place, key),
        forall|key: Seq<char>| #[trigger]
            fields.dom().contains(key) ==> expand(
                object[key],
                definitions,
                field_place(place, key),
                depth,
            ) == Some(fields[key]),
    ensures
        expand(ValueView::Object(object), definitions, place, depth) == Some(
            ValueView::Object(fields),
        ),
{
    assert forall|key: Seq<char>| #[trigger] is_kept(object, place, key) implies expand(
        object[key],
        definitions,
        field_place(place, key),
        depth,
    ) is Some by {
        assert(fields.dom().contains(key));
    }
    let expanded = expand(ValueView::Object(object), definitions, place, depth)->0->Object_0;
    assert forall|key: Seq<char>| #[trigger] fields.dom().contains(key) implies expanded[key]
        == fields[key] by {
        assert(is_kept(object, place, key));
    }
    assert(expanded.dom() =~= fields.dom());
    assert(expanded =~= fields);
}

/// An array expands item by item.
proof fn lemma_expand_array(
    items: Seq<ValueView>,
    definitions: Definitions,
    place: Place,
    depth: nat,
    expanded: Seq<ValueView>,
)
    requires
        items.len() == expanded.len(),
        forall|i: int|
            0 <= i < items.len() ==> expand(
                #[trigger] items[i],
                definitions,
                item_place(place),
                depth,
            ) == Some(expanded[i]),
    ensures
        expand(ValueView::Array(items), definitions, place, depth) == Some(
            ValueView::Array(expanded),
        ),
{
    assert(expand(ValueView::Array(items), definitions, place, depth)->0->Array_0 =~= expanded);
}

/// Expands `value`, standing at `place`, within `depth`.
fn expand_within(value: &Value, definitions: &Object, place: Place, depth: usize) -> (res: Option<
    Value,
>)
    ensures
        match res {
            Some(expanded) => expand(value@, definitions@, place, depth as nat) == Some(expanded@),
            None => expand(value@, definitions@, place, depth as nat) is None,
        },
    decreases depth, *value,
{
    let inner = match place {
        Place::Data => Place::Data,
        _ => Place::Schema,
    };
    match value {
        Value::Object(object) => {
            if let Some(target) = find_target(object, definitions) {
                return if depth == 0 {
                    None
                } else {
                    expand_within(target, definitions, inner, depth - 1)
                };
            }
            let ghost entries = object.spec_entries();
            let mut fields = Object::new();
            let mut i: usize = 0;
            assert(entries.take(0) =~= Seq::empty());
            while i < object.len()
                invariant
                    *value == Value::Object(*object),
                    entries == object.spec_entries(),
                    ref_target(object@, definitions@) is None,
                    i <= entries.len(),
                    forall|key: Seq<char>| #[trigger]
                        fields@.dom().contains(key) <==> is_kept(object@, place, key) && has_key(
                            entries.take(i as int),
                            key,
                        ),
                    forall|key: Seq<char>| #[trigger]
                        fields@.dom().contains(key) ==> expand(
                            object@[key],
                            definitions@,
                            field_place(place, key),
                            depth as nat,
                        ) == Some(fields@[key]),
                decreases entries.len() - i,
            {
                let (key, field) = object.entry(i);
                proof {
                    lemma_entry_decreases(*value, *object, i as int);
                    lemma_take_entry(entries, i as int);
                }
                if !check_meta_field(place, key, field) {
                    assert(is_kept(object@, place, key@));
                    match expand_within(field, definitions, place_under(place, key), depth) {
                        Some(expanded) => fields.insert(key.to_owned(), expanded),
                        None => {
                            return None;
                        },
                    }
                }
                i = i + 1;
            }
            proof {
                assert(entries.take(i as int) =~= entries);
                lemma_expand_object(object@, definitions@, place, depth as nat, fields@);
            }
            Some(Value::Object(fields))
        },
        Value::Array(items) => {
            let mut expanded_items: Vec<Value> = Vec::new();
            let mut i: usize = 0;
            while i < items.len()
                invariant
                    *value == Value::Array(*items),
                    inner == item_place(place),
                    i <= items@.len(),
                    expanded_items@.len() == i,
                    forall|j: int|
                        0 <= j < i ==> expand(items@[j]@, definitions@, inner, depth as nat) == Some(
                            (#[trigger] expanded_items@[j])@,
                        ),
                decreases items@.len() - i,
            {
                proof {
                    assert(decreases_to!(*value => value->Array_0));
                    assert(decreases_to!(*items => items@));
                    assert(array_view(items@)[i as int] == items@[i as int]@);
                }
                match expand_within(&items[i], definitions, inner, depth) {
                    Some(expanded) => expanded_items.push(expanded),
                    None => {
                        return None;
                    },
                }
                i = i + 1;
            }
            proof {
                let model = array_view(items@);
                assert forall|j: int| 0 <= j < model.len() implies expand(
                    #[trigger] model[j],
                    definitions@,
                    inner,
                    depth as nat,
                ) == Some(array_view(expanded_items@)[j]) by {
                    assert(expanded_items@[j]@ == array_view(expanded_items@)[j]);
                }
                lemma_expand_array(
                    model,
                    definitions@,
                    place,
                    depth as nat,
                    array_view(expanded_items@),
                );
            }
            Some(Value::Array(expanded_items))
        },
        other => Some(other.clone()),
    }
}

/// One entry more has one key more.
proof fn lemma_take_entry(entries: Seq<(String, Value)>, i: int)
    requires
        0 <= i < entries.len(),
    ensures
        forall|key: Seq<char>| #[trigger]
            has_key(entries.take(i + 1), key) <==> has_key(entries.take(i), key) || key
                == entries[i].0@,
{
    assert forall|key: Seq<char>| #[trigger]
        has_key(entries.take(i + 1), key) <==> has_key(entries.take(i), key) || key
            == entries[i].0@ by {
        if has_key(entries.take(i), key) {
            let j = index_of_key(entries.take(i), key);
            assert(entries.take(i + 1)[j].0@ == key);
        }
        if key == entries[i].0@ {
            assert(entries.take(i + 1)[i].0@ == key);
        }
        if has_key(entries.take(i + 1), key) {
            let j = index_of_key(entries.take(i + 1), key);
            if j < i {
                assert(entries.take(i)[j].0@ == key);
            }
        }
    }
}

/// The definitions that `value` holds by name; none where it is no object.
pub open spec fn table(value: ValueView) -> Definitions {
    match value {
        ValueView::Object(entries) => entries,
        _ => Map::empty(),
    }
}

/// The definitions that `value` holds, as an object.
fn to_table(value: &Value) -> (res: Object)
    ensures
        res@ == table(value@),
{
    match value.clone() {
        Value::Object(object) => object,
        _ => Object::new(),
    }
}

/// Expands `value`; `None` where its references run in a circle.
pub fn try_resolve_refs(value: &Value, definitions: &Object) -> (res: Option<Value>)
    ensures
        res is Some <==> is_expandable(value@, definitions@),
        res matches Some(expanded) ==> expanded@ == expansion(value@, definitions@),
{
    let depth: usize = definitions.len();
    let res = expand_within(value, definitions, Place::Schema, depth);
    proof {
        if is_expandable(value@, definitions@) {
            law_depth_is_bounded(value@, definitions@);
        }
        if res is Some {
            lemma_expansion(value@, definitions@, depth as nat);
        }
    }
    res
}

/// Replaces every reference in `value` to one of `definitions` by what it refers
/// to, and drops the meta-fields.
pub fn resolve_refs(value: &mut Value, definitions: &Value)
    requires
        is_expandable(old(value)@, table(definitions@)),
    ensures
        final(value)@ == expansion(old(value)@, table(definitions@)),
{
    let definitions = to_table(definitions);
    *value = try_resolve_refs(&*value, &definitions).unwrap();
}

/// The definitions that a schema brings along: those under `definitions` and
/// those under `$defs`, the former first where both have a name.
pub open spec fn definitions_of(root: ValueView) -> Definitions {
    match root {
        ValueView::Object(fields) => table_at(fields, "$defs"@).union_prefer_right(
            table_at(fields, "definitions"@),
        ),
        _ => Map::empty(),
    }
}

/// The definitions at one key.
pub open spec fn table_at(fields: Map<Seq<char>, ValueView>, key: Seq<char>) -> Definitions {
    if fields.dom().contains(key) {
        table(fields[key])
    } else {
        Map::empty()
    }
}

/// Whether a schema can be made self-contained: its references lead to an end.
pub open spec fn can_normalise(root: ValueView) -> bool {
    is_expandable(root, definitions_of(root))
}

/// A schema, made self-contained.
pub open spec fn normalised(root: ValueView) -> ValueView {
    expansion(root, definitions_of(root))
}

/// Adds the entries of `more` to `base`, replacing those of the same key.
fn extend_table(base: &mut Object, more: &Object)
    ensures
        final(base)@ == old(base)@.union_prefer_right(more@),
{
    let ghost before = base@;
    let ghost entries = more.spec_entries();
    let mut i: usize = 0;
    assert(entries.take(0) =~= Seq::empty());
    while i < more.len()
        invariant
            entries == more.spec_entries(),
            i <= entries.len(),
            forall|key: Seq<char>| #[trigger]
                base@.dom().contains(key) <==> before.dom().contains(key) || has_key(
                    entries.take(i as int),
                    key,
                ),
            forall|key: Seq<char>| #[trigger]
                base@.dom().contains(key) ==> base@[key] == (if has_key(
                    entries.take(i as int),
                    key,
                ) {
                    more@[key]
                } else {
                    before[key]
                }),
        decreases entries.len() - i,
    {
        let (key, value) = more.entry(i);
        proof {
            lemma_take_entry(entries, i as int);
        }
        base.insert(key.to_owned(), value.clone());
        i = i + 1;
    }
    assert(entries.take(i as int) =~= entries);
    assert(base@ =~= before.union_prefer_right(more@));
}

/// The definitions at one key, as an object.
fn find_table(fields: &Object, key: &str) -> (res: Object)
    ensures
        res@ == table_at(fields@, key@),
{
    match fields.get(key) {
        Some(value) => to_table(value),
        None => Object::new(),
    }
}

/// The definitions that a schema brings along, as an object.
fn find_definitions(root: &Value) -> (res: Object)
    ensures
        res@ == definitions_of(root@),
{
    match root {
        Value::Object(fields) => {
            let mut definitions = find_table(fields, "$defs");
            extend_table(&mut definitions, &find_table(fields, "definitions"));
            definitions
        },
        _ => Object::new(),
    }
}

/// Makes a schema self-contained; `None` where its references run in a circle.
pub fn try_normalise(root: Value) -> (res: Option<Value>)
    ensures
        res is Some <==> can_normalise(root@),
        res matches Some(schema) ==> schema@ == normalised(root@),
{
    let definitions = find_definitions(&root);
    try_resolve_refs(&root, &definitions)
}

/// Makes a schema self-contained: without `$schema`, titles and definitions, and
/// with each reference replaced by what it refers to.
pub fn normalise_for_gemini(root: Value) -> (res: Value)
    requires
        can_normalise(root@),
    ensures
        res@ == normalised(root@),
{
    try_normalise(root).unwrap()
}

/// Nothing in `value`, standing at `place`, is left to do: no object in it has a
/// meta-field or stands for a known definition.
pub open spec fn is_clean(value: ValueView, definitions: Definitions, place: Place) -> bool
    decreases value,
{
    match value {
        ValueView::Object(object) => {
            &&& ref_target(object, definitions) is None
            &&& forall|key: Seq<char>| #[trigger]
                object.dom().contains(key) ==> is_kept(object, place, key) && is_clean(
                    object[key],
                    definitions,
                    field_place(place, key),
                )
        },
        ValueView::Array(items) => forall|i: int|
            0 <= i < items.len() ==> is_clean(#[trigger] items[i], definitions, item_place(place)),
        _ => true,
    }
}

/// No definition is a bare text; a schema is an object or a boolean.
pub open spec fn no_bare_texts(definitions: Definitions) -> bool {
    forall|name: Seq<char>| #[trigger]
        definitions.dom().contains(name) ==> !(definitions[name] is String)
}

/// Among schemas by name none is named `$ref` and is a text that refers to a known
/// definition: there `$ref` would be a name and no reference.
pub open spec fn no_named_refs(value: ValueView, definitions: Definitions, place: Place) -> bool
    decreases value,
{
    match value {
        ValueView::Object(object) => {
            &&& place == Place::Names ==> ref_target(object, definitions) is None
            &&& forall|key: Seq<char>| #[trigger]
                object.dom().contains(key) ==> no_named_refs(
                    object[key],
                    definitions,
                    field_place(place, key),
                )
        },
        ValueView::Array(items) => forall|i: int|
            0 <= i < items.len() ==> no_named_refs(
                #[trigger] items[i],
                definitions,
                item_place(place),
            ),
        _ => true,
    }
}

/// The definitions are in order: they are schemas, which are no bare texts, and have
/// no references among schemas by name.
pub open spec fn are_schemas(definitions: Definitions) -> bool {
    &&& no_bare_texts(definitions)
    &&& forall|name: Seq<char>| #[trigger]
        definitions.dom().contains(name) ==> no_named_refs(
            definitions[name],
            definitions,
            Place::Schema,
        )
}

/// As data, nothing stands by name.
proof fn lemma_data_has_no_names(value: ValueView, definitions: Definitions)
    ensures
        no_named_refs(value, definitions, Place::Data),
    decreases value,
{
    match value {
        ValueView::Object(object) => {
            assert forall|key: Seq<char>| #[trigger] object.dom().contains(key) implies no_named_refs(
                object[key],
                definitions,
                Place::Data,
            ) by {
                lemma_data_has_no_names(object[key], definitions);
            }
        },
        ValueView::Array(items) => {
            assert forall|i: int| 0 <= i < items.len() implies no_named_refs(
                #[trigger] items[i],
                definitions,
                Place::Data,
            ) by {
                lemma_data_has_no_names(items[i], definitions);
            }
        },
        _ => {},
    }
}

/// Only a text expands to a text, and it stays what it was.
proof fn lemma_text_stays(
    value: ValueView,
    definitions: Definitions,
    place: Place,
    depth: nat,
)
    requires
        no_bare_texts(definitions),
        expand(value, definitions, place, depth) matches Some(expanded) && expanded is String,
    ensures
        expand(value, definitions, place, depth) == Some(value),
    decreases depth,
{
    if let ValueView::Object(object) = value {
        if let Some(target) = ref_target(object, definitions) {
            lemma_text_stays(target, definitions, item_place(place), (depth - 1) as nat);
        }
    }
}

/// What comes out is self-contained: nowhere in it is there a `$schema`, a title or
/// definitions of a schema, or a reference to one of the definitions.
pub proof fn law_expansion_is_clean(
    value: ValueView,
    definitions: Definitions,
    place: Place,
    depth: nat,
)
    requires
        are_schemas(definitions),
        no_named_refs(value, definitions, place),
        expand(value, definitions, place, depth) is Some,
    ensures
        is_clean(expand(value, definitions, place, depth)->0, definitions, place),
    decreases depth, value,
{
    match value {
        ValueView::Object(object) => match ref_target(object, definitions) {
            Some(target) => {
                let name = definition_name(object["$ref"@]->String_0)->0;
                assert(definitions.dom().contains(name) && target == definitions[name]);
                lemma_data_has_no_names(target, definitions);
                law_expansion_is_clean(target, definitions, place, (depth - 1) as nat);
            },
            None => {
                let fields = expand(value, definitions, place, depth)->0->Object_0;
                assert forall|key: Seq<char>| #[trigger] fields.dom().contains(key) implies is_kept(
                    fields,
                    place,
                    key,
                ) && is_clean(fields[key], definitions, field_place(place, key)) by {
                    assert(is_kept(object, place, key));
                    law_expansion_is_clean(object[key], definitions, field_place(place, key), depth);
                    if fields[key] is String {
                        lemma_text_stays(object[key], definitions, field_place(place, key), depth);
                    }
                }
                if fields.dom().contains("$ref"@) && fields["$ref"@] is String {
                    assert(is_kept(object, place, "$ref"@));
                    lemma_text_stays(
                        object["$ref"@],
                        definitions,
                        field_place(place, "$ref"@),
                        depth,
                    );
                }
            },
        },
        ValueView::Array(items) => {
            assert forall|i: int| 0 <= i < items.len() implies is_clean(
                expand(#[trigger] items[i], definitions, item_place(place), depth)->0,
                definitions,
                item_place(place),
            ) by {
                law_expansion_is_clean(items[i], definitions, item_place(place), depth);
            }
            let expanded = expand(value, definitions, place, depth)->0->Array_0;
            assert forall|i: int| 0 <= i < expanded.len() implies is_clean(
                #[trigger] expanded[i],
                definitions,
                item_place(place),
            ) by {
                assert(expanded[i] == expand(items[i], definitions, item_place(place), depth)->0);
            }
        },
        _ => {},
    }
}

/// A value in which nothing is left to do is left as it is.
pub proof fn law_clean_is_unchanged(
    value: ValueView,
    definitions: Definitions,
    place: Place,
    depth: nat,
)
    requires
        is_clean(value, definitions, place),
    ensures
        expand(value, definitions, place, depth) == Some(value),
    decreases value,
{
    match value {
        ValueView::Object(object) => {
            assert forall|key: Seq<char>| #[trigger] object.dom().contains(key) implies expand(
                object[key],
                definitions,
                field_place(place, key),
                depth,
            ) == Some(object[key]) by {
                law_clean_is_unchanged(object[key], definitions, field_place(place, key), depth);
            }
            lemma_expand_object(object, definitions, place, depth, object);
        },
        ValueView::Array(items) => {
            assert forall|i: int| 0 <= i < items.len() implies expand(
                #[trigger] items[i],
                definitions,
                item_place(place),
                depth,
            ) == Some(items[i]) by {
                law_clean_is_unchanged(items[i], definitions, item_place(place), depth);
            }
            lemma_expand_array(items, definitions, place, depth, items);
        },
        _ => {},
    }
}

/// A schema that has been made self-contained is free of meta-fields and of
/// references to its definitions, and resolving it again changes nothing.
pub proof fn law_normalised_is_self_contained(root: ValueView)
    requires
        can_normalise(root),
        are_schemas(definitions_of(root)),
        no_named_refs(root, definitions_of(root), Place::Schema),
    ensures
        is_clean(normalised(root), definitions_of(root), Place::Schema),
        is_expandable(normalised(root), definitions_of(root)),
        expansion(normalised(root), definitions_of(root)) == normalised(root),
{
    let definitions = definitions_of(root);
    let depth = choose|depth: nat| #[trigger] expand(root, definitions, Place::Schema, depth) is Some;
    law_expansion_is_clean(root, definitions, Place::Schema, depth);
    law_clean_is_unchanged(normalised(root), definitions, Place::Schema, depth);
    lemma_expansion(normalised(root), definitions, depth);
}

/// `object` has a `$ref` that spells out the definition called `name`.
pub open spec fn points_to(object: Map<Seq<char>, ValueView>, name: Seq<char>) -> bool {
    &&& object.dom().contains("$ref"@)
    &&& object["$ref"@] == ValueView::String("#/definitions/"@ + name) || object["$ref"@]
        == ValueView::String("#/$defs/"@ + name)
}

/// A text that spells out a definition names that one.
proof fn lemma_spelled_name(name: Seq<char>)
    ensures
        definition_name("#/definitions/"@ + name) == Some(name),
        definition_name("#/$defs/"@ + name) == Some(name),
{
    reveal_strlit("#/definitions/");
    reveal_strlit("#/$defs/");
    let long = "#/definitions/"@ + name;
    let short = "#/$defs/"@ + name;
    assert(long.skip("#/definitions/"@.len() as int) =~= name);
    assert("#/definitions/"@.is_prefix_of(long)) by {
        assert("#/definitions/"@ =~= long.subrange(0, "#/definitions/"@.len() as int));
    }
    assert(!"#/definitions/"@.is_prefix_of(short)) by {
        assert("#/definitions/"@[2] == 'd');
        assert(short[2] == '$');
        if "#/definitions/"@.is_prefix_of(short) {
            assert(short.subrange(0, "#/definitions/"@.len() as int)[2] == short[2]);
        }
    }
    assert(short.skip("#/$defs/"@.len() as int) =~= name);
    assert("#/$defs/"@.is_prefix_of(short)) by {
        assert("#/$defs/"@ =~= short.subrange(0, "#/$defs/"@.len() as int));
    }
}

/// A text that names a definition spells it out.
proof fn lemma_name_is_spelled(reference: Seq<char>)
    requires
        definition_name(reference) is Some,
    ensures
        reference == "#/definitions/"@ + definition_name(reference)->0 || reference == "#/$defs/"@
            + definition_name(reference)->0,
{
    let name = definition_name(reference)->0;
    if "#/definitions/"@.is_prefix_of(reference) {
        let cut = "#/definitions/"@.len() as int;
        assert(reference =~= reference.subrange(0, cut) + reference.skip(cut));
    } else {
        let cut = "#/$defs/"@.len() as int;
        assert(reference =~= reference.subrange(0, cut) + reference.skip(cut));
    }
}

/// An object stands for a definition exactly if it spells out a known one.
proof fn lemma_ref_target(object: Map<Seq<char>, ValueView>, definitions: Definitions)
    ensures
        ref_target(object, definitions) is None <==> forall|name: Seq<char>| #[trigger]
            definitions.dom().contains(name) ==> !points_to(object, name),
        forall|name: Seq<char>| #[trigger]
            definitions.dom().contains(name) && points_to(object, name) ==> ref_target(
                object,
                definitions,
            ) == Some(definitions[name]),
{
    assert forall|name: Seq<char>| #[trigger]
        definitions.dom().contains(name) && points_to(object, name) implies ref_target(
        object,
        definitions,
    ) == Some(definitions[name]) by {
        lemma_spelled_name(name);
    }
    if ref_target(object, definitions) is Some {
        let reference = object["$ref"@]->String_0;
        lemma_name_is_spelled(reference);
        let name = definition_name(reference)->0;
        assert(definitions.dom().contains(name) && points_to(object, name));
    }
}

/// An object that spells out a known definition gives way to it: what comes out is what
/// comes out of the definition, which is data where the object was data and a schema
/// otherwise, with one step less to go. Without a step to go nothing comes out.
pub proof fn law_reference_gives_way(
    object: Map<Seq<char>, ValueView>,
    definitions: Definitions,
    place: Place,
    depth: nat,
    name: Seq<char>,
)
    requires
        definitions.dom().contains(name),
        points_to(object, name),
    ensures
        expand(ValueView::Object(object), definitions, place, 0) is None,
        expand(ValueView::Object(object), definitions, place, depth + 1) == expand(
            definitions[name],
            definitions,
            if place == Place::Data {
                Place::Data
            } else {
                Place::Schema
            },
            depth,
        ),
{
    lemma_ref_target(object, definitions);
}

/// Where what stands under a key of a schema belongs.
pub open spec fn under_keyword(key: Seq<char>) -> Place {
    if key == "default"@ || key == "const"@ || key == "enum"@ || key == "examples"@ {
        Place::Data
    } else if key == "properties"@ || key == "patternProperties"@ || key == "dependentSchemas"@ {
        Place::Names
    } else {
        Place::Schema
    }
}

/// An object without a known reference expands exactly if every field that stays does,
/// and then it has those fields and no others, each expanded.
proof fn lemma_fields(
    object: Map<Seq<char>, ValueView>,
    definitions: Definitions,
    place: Place,
    depth: nat,
)
    requires
        ref_target(object, definitions) is None,
    ensures
        expand(ValueView::Object(object), definitions, place, depth) is Some <==> forall|
            key: Seq<char>,
        | #[trigger]
            object.dom().contains(key) && !is_meta_field(place, key, object[key]) ==> expand(
                object[key],
                definitions,
                field_place(place, key),
                depth,
            ) is Some,
        expand(ValueView::Object(object), definitions, place, depth) matches Some(expanded) ==> {
            &&& expanded is Object
            &&& forall|key: Seq<char>| #[trigger]
                expanded->Object_0.dom().contains(key) <==> object.dom().contains(key)
                    && !is_meta_field(place, key, object[key])
            &&& forall|key: Seq<char>| #[trigger]
                expanded->Object_0.dom().contains(key) ==> expand(
                    object[key],
                    definitions,
                    field_place(place, key),
                    depth,
                ) == Some(expanded->Object_0[key])
        },
{
    if forall|key: Seq<char>| #[trigger]
        object.dom().contains(key) && !is_meta_field(place, key, object[key]) ==> expand(
            object[key],
            definitions,
            field_place(place, key),
            depth,
        ) is Some {
        assert forall|key: Seq<char>| #[trigger] is_kept(object, place, key) implies expand(
            object[key],
            definitions,
            field_place(place, key),
            depth,
        ) is Some by {
            assert(object.dom().contains(key));
        }
    } else {
        let key = choose|key: Seq<char>| #[trigger]
            object.dom().contains(key) && !is_meta_field(place, key, object[key]) && expand(
                object[key],
                definitions,
                field_place(place, key),
                depth,
            ) is None;
        assert(is_kept(object, place, key));
    }
    if let Some(expanded) = expand(ValueView::Object(object), definitions, place, depth) {
        assert forall|key: Seq<char>| #[trigger]
            expanded->Object_0.dom().contains(key) implies expand(
            object[key],
            definitions,
            field_place(place, key),
            depth,
        ) == Some(expanded->Object_0[key]) by {
            assert(is_kept(object, place, key));
        }
    }
}

/// A schema that is no known reference keeps every key but `$schema`, `definitions` and
/// `$defs`, and a `title` that is a text: `type`, `required`, `description`, `properties`,
/// `items`, `enum` and all others stay, nothing else comes in, and under each key stands
/// what the value there expands to. It expands exactly if all those values do.
pub proof fn law_schema_keeps_its_keys(
    object: Map<Seq<char>, ValueView>,
    definitions: Definitions,
    depth: nat,
)
    requires
        forall|name: Seq<char>| #[trigger]
            definitions.dom().contains(name) ==> !points_to(object, name),
    ensures
        (forall|key: Seq<char>| #[trigger]
            object.dom().contains(key) && key != "$schema"@ && key != "definitions"@ && key
                != "$defs"@ && !(key == "title"@ && object[key] is String) ==> expand(
                object[key],
                definitions,
                under_keyword(key),
                depth,
            ) is Some) <==> expand(ValueView::Object(object), definitions, Place::Schema, depth) is Some,
        expand(ValueView::Object(object), definitions, Place::Schema, depth) matches Some(
            expanded,
        ) ==> {
            &&& expanded is Object
            &&& forall|key: Seq<char>| #[trigger]
                object.dom().contains(key) && key != "$schema"@ && key != "title"@ && key
                    != "definitions"@ && key != "$defs"@ ==> expanded->Object_0.dom().contains(key)
                    && expand(object[key], definitions, under_keyword(key), depth) == Some(
                    expanded->Object_0[key],
                )
            &&& object.dom().contains("title"@) && !(object["title"@] is String)
                ==> expanded->Object_0.dom().contains("title"@) && expand(
                object["title"@],
                definitions,
                Place::Schema,
                depth,
            ) == Some(expanded->Object_0["title"@])
            &&& object["title"@] is String ==> !expanded->Object_0.dom().contains("title"@)
            &&& !expanded->Object_0.dom().contains("$schema"@)
            &&& !expanded->Object_0.dom().contains("definitions"@)
            &&& !expanded->Object_0.dom().contains("$defs"@)
            &&& forall|key: Seq<char>| #[trigger]
                expanded->Object_0.dom().contains(key) ==> object.dom().contains(key)
        },
{
    reveal_strlit("title");
    reveal_strlit("$schema");
    reveal_strlit("definitions");
    reveal_strlit("$defs");
    reveal_strlit("default");
    reveal_strlit("const");
    reveal_strlit("enum");
    reveal_strlit("examples");
    reveal_strlit("properties");
    reveal_strlit("patternProperties");
    reveal_strlit("dependentSchemas");
    assert("title"@[0] == 't');
    assert("$schema"@[0] == '$');
    assert("definitions"@[0] == 'd');
    assert("$defs"@[0] == '$');
    assert("default"@[0] == 'd');
    assert("const"@[0] == 'c');
    assert("enum"@[0] == 'e');
    assert("examples"@[0] == 'e');
    assert("properties"@[0] == 'p');
    assert("patternProperties"@[0] == 'p');
    assert("dependentSchemas"@[0] == 'd');
    lemma_ref_target(object, definitions);
    lemma_fields(object, definitions, Place::Schema, depth);
}

/// Schemas by name, with no known reference among them, keep every name but `$schema`
/// (a property may well be called `title` or `definitions`), and each is expanded as a
/// schema.
pub proof fn law_named_schemas_stay(
    object: Map<Seq<char>, ValueView>,
    definitions: Definitions,
    depth: nat,
)
    requires
        forall|name: Seq<char>| #[trigger]
            definitions.dom().contains(name) ==> !points_to(object, name),
    ensures
        (forall|key: Seq<char>| #[trigger]
            object.dom().contains(key) && key != "$schema"@ ==> expand(
                object[key],
                definitions,
                Place::Schema,
                depth,
            ) is Some) <==> expand(ValueView::Object(object), definitions, Place::Names, depth) is Some,
        expand(ValueView::Object(object), definitions, Place::Names, depth) matches Some(
            expanded,
        ) ==> {
            &&& expanded is Object
            &&& forall|key: Seq<char>| #[trigger]
                expanded->Object_0.dom().contains(key) <==> object.dom().contains(key) && key
                    != "$schema"@
            &&& forall|key: Seq<char>| #[trigger]
                expanded->Object_0.dom().contains(key) ==> expand(
                    object[key],
                    definitions,
                    Place::Schema,
                    depth,
                ) == Some(expanded->Object_0[key])
        },
{
    lemma_ref_target(object, definitions);
    lemma_fields(object, definitions, Place::Names, depth);
}

/// Data that is no known reference keeps every key but `$schema`, with what the value
/// there expands to as data.
pub proof fn law_data_stays(
    object: Map<Seq<char>, ValueView>,
    definitions: Definitions,
    depth: nat,
)
    requires
        forall|name: Seq<char>| #[trigger]
            definitions.dom().contains(name) ==> !points_to(object, name),
    ensures
        (forall|key: Seq<char>| #[trigger]
            object.dom().contains(key) && key != "$schema"@ ==> expand(
                object[key],
                definitions,
                Place::Data,
                depth,
            ) is Some) <==> expand(ValueView::Object(object), definitions, Place::Data, depth) is Some,
        expand(ValueView::Object(object), definitions, Place::Data, depth) matches Some(
            expanded,
        ) ==> {
            &&& expanded is Object
            &&& forall|key: Seq<char>| #[trigger]
                expanded->Object_0.dom().contains(key) <==> object.dom().contains(key) && key
                    != "$schema"@
            &&& forall|key: Seq<char>| #[trigger]
                expanded->Object_0.dom().contains(key) ==> expand(
                    object[key],
                    definitions,
                    Place::Data,
                    depth,
                ) == Some(expanded->Object_0[key])
        },
{
    lemma_ref_target(object, definitions);
    lemma_fields(object, definitions, Place::Data, depth);
}

/// An array expands exactly if each of its items does, and to as many items in the same
/// order: schemas, or data among data.
pub proof fn law_items_stay(
    items: Seq<ValueView>,
    definitions: Definitions,
    place: Place,
    depth: nat,
)
    ensures
        ({
            let inner = if place == Place::Data {
                Place::Data
            } else {
                Place::Schema
            };
            &&& expand(ValueView::Array(items), definitions, place, depth) is Some <==> forall|
                i: int,
            |
                0 <= i < items.len() ==> expand(#[trigger] items[i], definitions, inner, depth) is Some
            &&& expand(ValueView::Array(items), definitions, place, depth) matches Some(
                expanded,
            ) ==> {
                &&& expanded is Array
                &&& expanded->Array_0.len() == items.len()
                &&& forall|i: int|
                    0 <= i < items.len() ==> expand(
                        #[trigger] items[i],
                        definitions,
                        inner,
                        depth,
                    ) == Some(expanded->Array_0[i])
            }
        }),
{
}

/// A text, a number, a boolean or nothing stays what it is.
pub proof fn law_scalar_stays(
    value: ValueView,
    definitions: Definitions,
    place: Place,
    depth: nat,
)
    requires
        !(value is Object),
        !(value is Array),
    ensures
        expand(value, definitions, place, depth) == Some(value),
{
}

/// No object anywhere in `value` has one of the keys that a rewriting may act on.
pub open spec fn is_plain(value: ValueView) -> bool
    decreases value,
{
    match value {
        ValueView::Object(object) => {
            &&& !object.dom().contains("$ref"@)
            &&& !object.dom().contains("$schema"@)
            &&& !object.dom().contains("title"@)
            &&& !object.dom().contains("definitions"@)
            &&& !object.dom().contains("$defs"@)
            &&& forall|key: Seq<char>| #[trigger]
                object.dom().contains(key) ==> is_plain(object[key])
        },
        ValueView::Array(items) => forall|i: int|
            0 <= i < items.len() ==> is_plain(#[trigger] items[i]),
        _ => true,
    }
}

/// A value without `$ref`, `$schema`, `title`, `definitions` and `$defs` anywhere comes
/// out exactly as it went in, whatever it is and whatever is defined.
pub proof fn law_plain_is_unchanged(
    value: ValueView,
    definitions: Definitions,
    place: Place,
    depth: nat,
)
    requires
        is_plain(value),
    ensures
        expand(value, definitions, place, depth) == Some(value),
    decreases value,
{
    match value {
        ValueView::Object(object) => {
            assert forall|key: Seq<char>| #[trigger] object.dom().contains(key) implies expand(
                object[key],
                definitions,
                field_place(place, key),
                depth,
            ) == Some(object[key]) && !is_meta_field(place, key, object[key]) by {
                law_plain_is_unchanged(object[key], definitions, field_place(place, key), depth);
            }
            lemma_expand_object(object, definitions, place, depth, object);
        },
        ValueView::Array(items) => {
            assert forall|i: int| 0 <= i < items.len() implies expand(
                #[trigger] items[i],
                definitions,
                item_place(place),
                depth,
            ) == Some(items[i]) by {
                law_plain_is_unchanged(items[i], definitions, item_place(place), depth);
            }
            lemma_expand_array(items, definitions, place, depth, items);
        },
        _ => {},
    }
}

/// `fields` has under `key` an object with an entry `name`.
pub open spec fn defines(fields: Map<Seq<char>, ValueView>, key: Seq<char>, name: Seq<char>) -> bool {
    fields.dom().contains(key) && fields[key] is Object && fields[key]->Object_0.dom().contains(name)
}

/// The definitions of a schema are the entries of its `definitions` and of its `$defs`,
/// and nothing else; a name in both means the one in `definitions`. What is no object
/// brings none.
pub proof fn law_definitions(fields: Map<Seq<char>, ValueView>, other: ValueView)
    requires
        !(other is Object),
    ensures
        forall|name: Seq<char>| #[trigger]
            definitions_of(ValueView::Object(fields)).dom().contains(name) <==> defines(
                fields,
                "definitions"@,
                name,
            ) || defines(fields, "$defs"@, name),
        forall|name: Seq<char>| #[trigger]
            defines(fields, "definitions"@, name) ==> definitions_of(
                ValueView::Object(fields),
            )[name] == fields["definitions"@]->Object_0[name],
        forall|name: Seq<char>|
            !defines(fields, "definitions"@, name) && #[trigger] defines(fields, "$defs"@, name)
                ==> definitions_of(ValueView::Object(fields))[name]
                == fields["$defs"@]->Object_0[name],
        definitions_of(other) == Definitions::empty(),
        table(ValueView::Object(fields)) == fields,
        table(other) == Definitions::empty(),
{
}

/// A self-contained schema keeps the keys of the schema that it was made of: if that is
/// no reference to one of its own definitions, every key other than `$schema`, `title`,
/// `definitions` and `$defs` is there, and under it stands what the value there expands
/// to with those definitions.
pub proof fn law_normalised_keeps_its_keys(object: Map<Seq<char>, ValueView>)
    requires
        can_normalise(ValueView::Object(object)),
        forall|name: Seq<char>|
            defines(object, "definitions"@, name) || defines(object, "$defs"@, name)
                ==> !#[trigger] points_to(object, name),
    ensures
        normalised(ValueView::Object(object)) is Object,
        forall|key: Seq<char>| #[trigger]
            object.dom().contains(key) && key != "$schema"@ && key != "title"@ && key
                != "definitions"@ && key != "$defs"@ ==> normalised(
                ValueView::Object(object),
            )->Object_0.dom().contains(key) && (exists|depth: nat| #[trigger]
                expand(
                    object[key],
                    definitions_of(ValueView::Object(object)),
                    under_keyword(key),
                    depth,
                ) == Some(normalised(ValueView::Object(object))->Object_0[key])),
        forall|key: Seq<char>| #[trigger]
            normalised(ValueView::Object(object))->Object_0.dom().contains(key)
                ==> object.dom().contains(key) && key != "$schema"@ && key != "definitions"@ && key
                != "$defs"@,
{
    let root = ValueView::Object(object);
    let definitions = definitions_of(root);
    let depth = choose|depth: nat| #[trigger] expand(root, definitions, Place::Schema, depth) is Some;
    lemma_expansion(root, definitions, depth);
    law_definitions(object, ValueView::Null);
    assert forall|name: Seq<char>| #[trigger] definitions.dom().contains(name) implies !points_to(
        object,
        name,
    ) by {}
    law_schema_keeps_its_keys(object, definitions, depth);
    assert(expand(root, definitions, Place::Schema, depth) == Some(normalised(root)));
    assert forall|key: Seq<char>| #[trigger]
        object.dom().contains(key) && key != "$schema"@ && key != "title"@ && key != "definitions"@
            && key != "$defs"@ implies normalised(root)->Object_0.dom().contains(key) && (exists|
        depth: nat,
    | #[trigger]
        expand(object[key], definitions, under_keyword(key), depth) == Some(
            normalised(root)->Object_0[key],
        )) by {
        assert(expand(object[key], definitions, under_keyword(key), depth) == Some(
            normalised(root)->Object_0[key],
        ));
    }
}

/// Without references no schema is refused: a plain one is its own self-contained form.
pub proof fn law_normalised_plain(root: ValueView)
    requires
        is_plain(root),
    ensures
        can_normalise(root),
        normalised(root) == root,
{
    law_plain_is_unchanged(root, definitions_of(root), Place::Schema, 0);
    lemma_expansion(root, definitions_of(root), 0);
}

/// A schema can be made self-contained exactly if it expands with its own definitions
/// within some depth, and its self-contained form is what it then expands to.
pub proof fn law_normalised_is_expansion(root: ValueView, depth: nat)
    ensures
        can_normalise(root) <==> exists|some_depth: nat| #[trigger]
            expand(root, definitions_of(root), Place::Schema, some_depth) is Some,
        expand(root, definitions_of(root), Place::Schema, depth) matches Some(expanded)
            ==> normalised(root) == expanded,
{
    if expand(root, definitions_of(root), Place::Schema, depth) is Some {
        lemma_expansion(root, definitions_of(root), depth);
    }
}

} // verus!
