//! JSON values.
//!
//! [`Value`] is the JSON tree that tool arguments, tool results and schemas are
//! made of. Its model, [`ValueView`], treats an object as a finite map from keys
//! to values: two objects that hold the same keys with the same values are the
//! same JSON, whatever order the keys were written in.
use vstd::prelude::*;

verus! {

/// A JSON number. Numbers are carried through, never computed with.
#[verifier::external_type_specification]
#[verifier::external_body]
pub struct ExNumber(serde_json::Number);

/// `serde_json::Number` derives `Clone`: a clone is the same number.
pub assume_specification[ <serde_json::Number as Clone>::clone ](
    number: &serde_json::Number,
) -> (res: serde_json::Number)
    ensures
        res == *number,
;

/// Whether `serde_json` takes two numbers for equal.
pub uninterp spec fn numbers_equal(left: serde_json::Number, right: serde_json::Number) -> bool;

/// Compares two numbers (`serde_json::Number` derives `PartialEq`). Whether they are
/// equal follows from the numbers.
#[verifier::external_body]
fn compare_numbers(left: &serde_json::Number, right: &serde_json::Number) -> (res: bool)
    ensures
        res == numbers_equal(*left, *right),
{
    left == right
}

/// What `serde_json` makes of a natural number.
pub uninterp spec fn unsigned_number(n: u64) -> serde_json::Number;

/// Makes a number (`serde_json::Number::from`, of a `u64`). Which one follows from `n`.
#[verifier::external_body]
fn number_from_unsigned(n: u64) -> (res: serde_json::Number)
    ensures
        res == unsigned_number(n),
{
    serde_json::Number::from(n)
}

/// What `serde_json` makes of an integer.
pub uninterp spec fn signed_number(n: i64) -> serde_json::Number;

/// Makes a number (`serde_json::Number::from`, of an `i64`). Which one follows from
/// `n`; an integer that is not negative makes the same number as the natural one.
#[verifier::external_body]
fn number_from_signed(n: i64) -> (res: serde_json::Number)
    ensures
        res == signed_number(n),
        n >= 0 ==> res == unsigned_number(n as u64),
{
    serde_json::Number::from(n)
}

/// What a JSON value is, mathematically.
#[verifier::ext_equal]
pub ghost enum ValueView {
    Null,
    Bool(bool),
    Number(serde_json::Number),
    String(Seq<char>),
    Array(Seq<ValueView>),
    Object(Map<Seq<char>, ValueView>),
}

/// A JSON value.
#[derive(Debug, Eq)]
pub enum Value {
    Null,
    Bool(bool),
    Number(serde_json::Number),
    String(String),
    Array(Vec<Value>),
    Object(Object),
}

/// A JSON object: entries in insertion order, each key at most once.
#[derive(Debug, Eq)]
pub struct Object {
    entries: Vec<(String, Value)>,
}

/// No key occurs twice.
pub open spec fn distinct_keys<T>(entries: Seq<(String, T)>) -> bool {
    forall|i: int, j: int|
        0 <= i < j < entries.len() ==> #[trigger] entries[i].0@ != #[trigger] entries[j].0@
}

/// `key` is the key of some entry.
pub open spec fn has_key<T>(entries: Seq<(String, T)>, key: Seq<char>) -> bool {
    exists|i: int| 0 <= i < entries.len() && #[trigger] entries[i].0@ == key
}

/// An entry that has `key`, where there is one.
pub open spec fn index_of_key<T>(entries: Seq<(String, T)>, key: Seq<char>) -> int {
    choose|i: int| 0 <= i < entries.len() && #[trigger] entries[i].0@ == key
}

/// The model of a value.
pub open spec fn value_view(value: Value) -> ValueView
    decreases value,
{
    match value {
        Value::Null => ValueView::Null,
        Value::Bool(b) => ValueView::Bool(b),
        Value::Number(n) => ValueView::Number(n),
        Value::String(s) => ValueView::String(s@),
        Value::Array(items) => ValueView::Array(array_view(items@)),
        Value::Object(object) => ValueView::Object(object_view(object.spec_entries())),
    }
}

/// The model of an array's items.
pub open spec fn array_view(items: Seq<Value>) -> Seq<ValueView>
    decreases items,
{
    Seq::new(
        items.len(),
        |i: int|
            if 0 <= i < items.len() {
                value_view(items[i])
            } else {
                ValueView::Null
            },
    )
}

/// The model of an object's entries.
pub open spec fn object_view(entries: Seq<(String, Value)>) -> Map<Seq<char>, ValueView>
    decreases entries,
{
    Map::new(
        |key: Seq<char>| has_key(entries, key),
        |key: Seq<char>|
            {
                let i = index_of_key(entries, key);
                if 0 <= i < entries.len() {
                    value_view(entries[i].1)
                } else {
                    ValueView::Null
                }
            },
    )
}

impl View for Value {
    type V = ValueView;

    open spec fn view(&self) -> ValueView {
        value_view(*self)
    }
}

impl View for Object {
    type V = Map<Seq<char>, ValueView>;

    open spec fn view(&self) -> Map<Seq<char>, ValueView> {
        object_view(self.spec_entries())
    }
}

/// An entry's value is what the object's model has at the entry's key.
pub proof fn lemma_entry(entries: Seq<(String, Value)>, i: int)
    requires
        distinct_keys(entries),
        0 <= i < entries.len(),
    ensures
        object_view(entries).dom().contains(entries[i].0@),
        object_view(entries)[entries[i].0@] == entries[i].1@,
{
    let key = entries[i].0@;
    assert(has_key(entries, key));
    let j = index_of_key(entries, key);
    assert(entries[j].0@ == entries[i].0@);
    assert(i == j);
}

/// An object's model is finite: it has one key for each entry.
pub proof fn lemma_object_view_finite(entries: Seq<(String, Value)>)
    requires
        distinct_keys(entries),
    ensures
        object_view(entries).dom().finite(),
        object_view(entries).len() == entries.len(),
{
    let keys = entries.map_values(|entry: (String, Value)| entry.0@);
    assert(object_view(entries).dom() =~= keys.to_set()) by {
        assert forall|key: Seq<char>| has_key(entries, key) implies keys.contains(key) by {
            let i = index_of_key(entries, key);
            assert(keys[i] == key);
        }
        assert forall|key: Seq<char>| keys.contains(key) implies has_key(entries, key) by {
            let i = choose|i: int| 0 <= i < keys.len() && keys[i] == key;
            assert(entries[i].0@ == key);
        }
    }
    assert(keys.no_duplicates());
    keys.unique_seq_to_set();
}

/// Appending an entry with a new key inserts it into the model.
proof fn lemma_push_entry(entries: Seq<(String, Value)>, entry: (String, Value))
    requires
        distinct_keys(entries),
        !has_key(entries, entry.0@),
    ensures
        distinct_keys(entries.push(entry)),
        object_view(entries.push(entry)) == object_view(entries).insert(entry.0@, entry.1@),
{
    let pushed = entries.push(entry);
    assert(distinct_keys(pushed));
    assert forall|key: Seq<char>| has_key(pushed, key) == (has_key(entries, key) || key == entry.0@) by {
        if has_key(entries, key) {
            let i = index_of_key(entries, key);
            assert(pushed[i].0@ == key);
        }
        if key == entry.0@ {
            assert(pushed[entries.len() as int].0@ == key);
        }
        if has_key(pushed, key) {
            let i = index_of_key(pushed, key);
            if i < entries.len() {
                assert(entries[i].0@ == key);
            }
        }
    }
    let whole = object_view(pushed);
    let expected = object_view(entries).insert(entry.0@, entry.1@);
    assert forall|key: Seq<char>| has_key(pushed, key) implies whole[key] == expected[key] by {
        if key == entry.0@ {
            lemma_entry(pushed, entries.len() as int);
        } else {
            let i = index_of_key(entries, key);
            assert(pushed[i] == entries[i]);
            lemma_entry(pushed, i);
            lemma_entry(entries, i);
        }
    }
    assert(whole =~= expected);
}

/// Dropping an entry removes its key from the model.
proof fn lemma_remove_entry(entries: Seq<(String, Value)>, i: int)
    requires
        distinct_keys(entries),
        0 <= i < entries.len(),
    ensures
        distinct_keys(entries.remove(i)),
        object_view(entries.remove(i)) == object_view(entries).remove(entries[i].0@),
{
    let rest = entries.remove(i);
    assert(distinct_keys(rest));
    assert forall|key: Seq<char>| has_key(rest, key) == (has_key(entries, key) && key
        != entries[i].0@) by {
        if has_key(rest, key) {
            let j = index_of_key(rest, key);
            let k = if j < i { j } else { j + 1 };
            assert(entries[k].0@ == key);
        }
        if has_key(entries, key) && key != entries[i].0@ {
            let k = index_of_key(entries, key);
            let j = if k < i { k } else { k - 1 };
            assert(rest[j].0@ == key);
        }
    }
    assert forall|key: Seq<char>| has_key(rest, key) implies object_view(rest)[key] == object_view(
        entries,
    )[key] by {
        let j = index_of_key(rest, key);
        let k = if j < i { j } else { j + 1 };
        lemma_entry(rest, j);
        lemma_entry(entries, k);
    }
    assert(object_view(rest) =~= object_view(entries).remove(entries[i].0@));
}

impl Object {
    /// The entries, in insertion order.
    pub closed spec fn spec_entries(&self) -> Seq<(String, Value)> {
        self.entries@
    }

    #[verifier::type_invariant]
    spec fn keys_are_distinct(self) -> bool {
        distinct_keys(self.entries@)
    }

    /// The object without entries.
    pub fn new() -> (res: Self)
        ensures
            res@ == Map::<Seq<char>, ValueView>::empty(),
    {
        let res = Object { entries: Vec::new() };
        assert(res@ =~= Map::<Seq<char>, ValueView>::empty());
        res
    }

    /// The number of entries.
    pub fn len(&self) -> (res: usize)
        ensures
            res == self.spec_entries().len(),
            distinct_keys(self.spec_entries()),
            res == self@.len(),
            self@.dom().finite(),
    {
        proof {
            use_type_invariant(self);
            lemma_object_view_finite(self.entries@);
        }
        self.entries.len()
    }

    /// The entry at `index`, counted in insertion order.
    pub fn entry(&self, index: usize) -> (res: (&str, &Value))
        requires
            index < self.spec_entries().len(),
        ensures
            res.0@ == self.spec_entries()[index as int].0@,
            *res.1 == self.spec_entries()[index as int].1,
            self@.dom().contains(res.0@),
            self@[res.0@] == res.1@,
    {
        proof {
            use_type_invariant(self);
            lemma_entry(self.entries@, index as int);
        }
        (self.entries[index].0.as_str(), &self.entries[index].1)
    }

    /// The position of `key`.
    fn position(&self, key: &str) -> (res: Option<usize>)
        ensures
            match res {
                Some(i) => i < self.spec_entries().len() && self.spec_entries()[i as int].0@ == key@,
                None => !has_key(self.spec_entries(), key@),
            },
    {
        let wanted: String = key.to_owned();
        let mut i: usize = 0;
        while i < self.entries.len()
            invariant
                i <= self.entries@.len(),
                wanted@ == key@,
                forall|j: int| 0 <= j < i ==> #[trigger] self.entries@[j].0@ != key@,
            decreases self.entries@.len() - i,
        {
            if self.entries[i].0 == wanted {
                return Some(i);
            }
            i = i + 1;
        }
        None
    }

    /// The value at `key`, if there is one.
    pub fn get(&self, key: &str) -> (res: Option<&Value>)
        ensures
            res is Some <==> self@.dom().contains(key@),
            res matches Some(value) ==> value@ == self@[key@],
            res matches Some(value) ==> exists|i: int| 0 <= i < self.spec_entries().len() && *value == #[trigger] self.spec_entries()[i].1,
    {
        proof {
            use_type_invariant(self);
        }
        match self.position(key) {
            Some(i) => {
                proof {
                    lemma_entry(self.entries@, i as int);
                }
                Some(&self.entries[i].1)
            },
            None => None,
        }
    }

    /// Takes `key` out of the object.
    pub fn remove(&mut self, key: &str) -> (res: Option<Value>)
        ensures
            final(self)@ == old(self)@.remove(key@),
            res is Some <==> old(self)@.dom().contains(key@),
            res matches Some(value) ==> value@ == old(self)@[key@],
    {
        proof {
            use_type_invariant(&*self);
        }
        match self.position(key) {
            Some(i) => {
                let mut entries: Vec<(String, Value)> = Vec::new();
                std::mem::swap(&mut entries, &mut self.entries);
                let ghost before = entries@;
                let (_, value) = entries.remove(i);
                proof {
                    lemma_entry(before, i as int);
                    lemma_remove_entry(before, i as int);
                }
                self.entries = entries;
                Some(value)
            },
            None => {
                assert(self@.remove(key@) =~= self@);
                None
            },
        }
    }

    /// Sets `key` to `value`, replacing what was there.
    pub fn insert(&mut self, key: String, value: Value)
        ensures
            final(self)@ == old(self)@.insert(key@, value@),
    {
        proof {
            use_type_invariant(&*self);
        }
        let mut rest: Vec<(String, Value)> = Vec::new();
        std::mem::swap(&mut rest, &mut self.entries);
        let ghost before = rest@;
        let object = Object { entries: rest };
        match object.position(key.as_str()) {
            Some(i) => {
                let mut entries = object.entries;
                entries.set(i, (key, value));
                proof {
                    assert(entries@ == before.update(i as int, (key, value)));
                    let now = entries@;
                    assert(distinct_keys(now));
                    assert forall|k: Seq<char>| has_key(now, k) == has_key(before, k) by {
                        if has_key(before, k) {
                            assert(now[index_of_key(before, k)].0@ == k);
                        }
                        if has_key(now, k) {
                            assert(before[index_of_key(now, k)].0@ == k);
                        }
                    }
                    assert forall|k: Seq<char>| has_key(now, k) implies object_view(now)[k]
                        == object_view(before).insert(key@, value@)[k] by {
                        let j = index_of_key(now, k);
                        lemma_entry(now, j);
                        lemma_entry(before, j);
                        lemma_entry(now, i as int);
                    }
                    lemma_entry(before, i as int);
                    assert(object_view(now) =~= object_view(before).insert(key@, value@));
                }
                self.entries = entries;
            },
            None => {
                let mut entries = object.entries;
                proof {
                    lemma_push_entry(before, (key, value));
                }
                entries.push((key, value));
                self.entries = entries;
            },
        }
    }
}

/// An object is larger than each of its entries' values: a function may recurse
/// from the one to the other.
pub proof fn lemma_entry_decreases(value: Value, object: Object, i: int)
    requires
        value == Value::Object(object),
        0 <= i < object.spec_entries().len(),
    ensures
        decreases_to!(value => object.spec_entries()[i].1),
{
    assert(decreases_to!(value => value->Object_0));
    lemma_object_decreases(object, i);
}

/// An object is larger than each of its entries' values.
proof fn lemma_object_decreases(object: Object, i: int)
    requires
        0 <= i < object.spec_entries().len(),
    ensures
        decreases_to!(object => object.spec_entries()[i].1),
{
    assert(decreases_to!(object => object.entries));
    assert(decreases_to!(object.entries => object.entries@));
    assert(decreases_to!(object.entries@ => object.entries@[i]));
    assert(decreases_to!(object.entries@[i] => object.entries@[i].1));
}

impl Clone for Value {
    /// Copies the whole tree.
    fn clone(&self) -> (res: Self)
        ensures
            res@ == self@,
        decreases *self,
    {
        match self {
            Value::Null => Value::Null,
            Value::Bool(b) => Value::Bool(*b),
            Value::Number(n) => Value::Number(n.clone()),
            Value::String(s) => Value::String(s.clone()),
            Value::Array(items) => {
                let mut copy: Vec<Value> = Vec::new();
                let mut i: usize = 0;
                while i < items.len()
                    invariant
                        *self == Value::Array(*items),
                        i <= items@.len(),
                        copy@.len() == i,
                        forall|j: int| 0 <= j < i ==> (#[trigger] copy@[j])@ == items@[j]@,
                    decreases items@.len() - i,
                {
                    proof {
                        assert(decreases_to!(*self => self->Array_0));
                        assert(decreases_to!(*items => items@));
                    }
                    copy.push(items[i].clone());
                    i = i + 1;
                }
                assert(array_view(copy@) =~= array_view(items@));
                Value::Array(copy)
            },
            Value::Object(object) => {
                proof {
                    use_type_invariant(object);
                }
                let mut copy: Vec<(String, Value)> = Vec::new();
                let mut i: usize = 0;
                while i < object.entries.len()
                    invariant
                        *self == Value::Object(*object),
                        i <= object.entries@.len(),
                        copy@.len() == i,
                        forall|j: int|
                            0 <= j < i ==> (#[trigger] copy@[j]).0@ == object.entries@[j].0@ && copy@[j].1@
                                == object.entries@[j].1@,
                    decreases object.entries@.len() - i,
                {
                    proof {
                        lemma_entry_decreases(*self, *object, i as int);
                    }
                    copy.push((object.entries[i].0.clone(), object.entries[i].1.clone()));
                    i = i + 1;
                }
                proof {
                    lemma_same_entries(copy@, object.entries@);
                }
                Value::Object(Object { entries: copy })
            },
        }
    }
}

/// Entries that agree key by key and value by value have one model.
proof fn lemma_same_entries(left: Seq<(String, Value)>, right: Seq<(String, Value)>)
    requires
        distinct_keys(right),
        left.len() == right.len(),
        forall|j: int|
            0 <= j < left.len() ==> (#[trigger] left[j]).0@ == right[j].0@ && left[j].1@ == right[j].1@,
    ensures
        distinct_keys(left),
        object_view(left) == object_view(right),
{
    assert(distinct_keys(left));
    assert forall|key: Seq<char>| has_key(left, key) == has_key(right, key) by {
        if has_key(left, key) {
            let i = index_of_key(left, key);
            assert(left[i].0@ == right[i].0@);
        }
        if has_key(right, key) {
            let i = index_of_key(right, key);
            assert(left[i].0@ == right[i].0@);
        }
    }
    assert forall|key: Seq<char>| has_key(left, key) implies object_view(left)[key]
        == object_view(right)[key] by {
        let i = index_of_key(left, key);
        assert(left[i].0@ == right[i].0@);
        lemma_entry(left, i);
        lemma_entry(right, i);
    }
    assert(object_view(left) =~= object_view(right));
}

impl Value {
    /// The empty object.
    pub fn empty_object() -> (res: Value)
        ensures
            res@ == ValueView::Object(Map::empty()),
    {
        Value::Object(Object::new())
    }

    /// The object with the single entry `key: value`.
    pub fn singleton(key: String, value: Value) -> (res: Value)
        ensures
            res@ == ValueView::Object(map![key@ => value@]),
    {
        let mut object = Object::new();
        object.insert(key, value);
        assert(object@ =~= map![key@ => value@]);
        Value::Object(object)
    }

    /// The value at `key`; `None` where there is none or this is no object.
    pub fn get(&self, key: &str) -> (res: Option<&Value>)
        ensures
            match (res, self@) {
                (Some(value), ValueView::Object(m)) => m.dom().contains(key@) && value@ == m[key@],
                (None, ValueView::Object(m)) => !m.dom().contains(key@),
                (found, _) => found is None,
            },
    {
        match self {
            Value::Object(object) => object.get(key),
            _ => None,
        }
    }

    /// The text of a string value.
    pub fn as_str(&self) -> (res: Option<&str>)
        ensures
            match (res, self@) {
                (Some(text), ValueView::String(s)) => text@ == s,
                (None, ValueView::String(_)) => false,
                (found, _) => found is None,
            },
    {
        match self {
            Value::String(s) => Some(s.as_str()),
            _ => None,
        }
    }

    /// Whether this is an object.
    pub fn is_object(&self) -> (res: bool)
        ensures
            res == (self@ is Object),
    {
        match self {
            Value::Object(_) => true,
            _ => false,
        }
    }

    /// A string value.
    pub fn text(text: &str) -> (res: Value)
        ensures
            res@ == ValueView::String(text@),
    {
        Value::String(text.to_owned())
    }
}

/// Anything that can be handed over as a JSON value.
pub trait IntoValue: Sized {
    /// The JSON value it is handed over as.
    spec fn value(&self) -> ValueView;

    /// Gives the JSON value.
    fn into_value(self) -> (res: Value)
        ensures
            res@ == self.value(),
    ;
}

impl IntoValue for Value {
    open spec fn value(&self) -> ValueView {
        self@
    }

    fn into_value(self) -> (res: Value) {
        self
    }
}

impl IntoValue for String {
    open spec fn value(&self) -> ValueView {
        ValueView::String(self@)
    }

    fn into_value(self) -> (res: Value) {
        Value::String(self)
    }
}

impl IntoValue for &str {
    open spec fn value(&self) -> ValueView {
        ValueView::String(self@)
    }

    fn into_value(self) -> (res: Value) {
        Value::text(self)
    }
}

impl IntoValue for bool {
    open spec fn value(&self) -> ValueView {
        ValueView::Bool(*self)
    }

    fn into_value(self) -> (res: Value) {
        Value::Bool(self)
    }
}

impl IntoValue for u8 {
    open spec fn value(&self) -> ValueView {
        ValueView::Number(unsigned_number(*self as u64))
    }

    fn into_value(self) -> (res: Value) {
        Value::Number(number_from_unsigned(self as u64))
    }
}

impl IntoValue for u16 {
    open spec fn value(&self) -> ValueView {
        ValueView::Number(unsigned_number(*self as u64))
    }

    fn into_value(self) -> (res: Value) {
        Value::Number(number_from_unsigned(self as u64))
    }
}

impl IntoValue for u32 {
    open spec fn value(&self) -> ValueView {
        ValueView::Number(unsigned_number(*self as u64))
    }

    fn into_value(self) -> (res: Value) {
        Value::Number(number_from_unsigned(self as u64))
    }
}

impl IntoValue for u64 {
    open spec fn value(&self) -> ValueView {
        ValueView::Number(unsigned_number(*self))
    }

    fn into_value(self) -> (res: Value) {
        Value::Number(number_from_unsigned(self))
    }
}

impl IntoValue for usize {
    open spec fn value(&self) -> ValueView {
        ValueView::Number(unsigned_number(*self as u64))
    }

    fn into_value(self) -> (res: Value) {
        Value::Number(number_from_unsigned(self as u64))
    }
}

impl IntoValue for i8 {
    open spec fn value(&self) -> ValueView {
        ValueView::Number(signed_number(*self as i64))
    }

    fn into_value(self) -> (res: Value) {
        Value::Number(number_from_signed(self as i64))
    }
}

impl IntoValue for i16 {
    open spec fn value(&self) -> ValueView {
        ValueView::Number(signed_number(*self as i64))
    }

    fn into_value(self) -> (res: Value) {
        Value::Number(number_from_signed(self as i64))
    }
}

impl IntoValue for i32 {
    open spec fn value(&self) -> ValueView {
        ValueView::Number(signed_number(*self as i64))
    }

    fn into_value(self) -> (res: Value) {
        Value::Number(number_from_signed(self as i64))
    }
}

impl IntoValue for i64 {
    open spec fn value(&self) -> ValueView {
        ValueView::Number(signed_number(*self))
    }

    fn into_value(self) -> (res: Value) {
        Value::Number(number_from_signed(self))
    }
}

impl IntoValue for isize {
    open spec fn value(&self) -> ValueView {
        ValueView::Number(signed_number(*self as i64))
    }

    fn into_value(self) -> (res: Value) {
        Value::Number(number_from_signed(self as i64))
    }
}

impl IntoValue for serde_json::Number {
    open spec fn value(&self) -> ValueView {
        ValueView::Number(*self)
    }

    fn into_value(self) -> (res: Value) {
        Value::Number(self)
    }
}

impl IntoValue for Object {
    open spec fn value(&self) -> ValueView {
        ValueView::Object(self@)
    }

    fn into_value(self) -> (res: Value) {
        Value::Object(self)
    }
}

impl IntoValue for () {
    open spec fn value(&self) -> ValueView {
        ValueView::Null
    }

    fn into_value(self) -> (res: Value) {
        Value::Null
    }
}

impl<T: IntoValue> IntoValue for Option<T> {
    open spec fn value(&self) -> ValueView {
        match self {
            Some(item) => item.value(),
            None => ValueView::Null,
        }
    }

    fn into_value(self) -> (res: Value) {
        match self {
            Some(item) => item.into_value(),
            None => Value::Null,
        }
    }
}

impl<T: IntoValue> IntoValue for Vec<T> {
    open spec fn value(&self) -> ValueView {
        ValueView::Array(Seq::new(self@.len(), |i: int| self@[i].value()))
    }

    fn into_value(self) -> (res: Value) {
        let ghost all = self@;
        let mut items: Vec<Value> = Vec::new();
        for item in iter: self
            invariant
                iter.seq() == all,
                items@.len() == iter.index(),
                forall|j: int| 0 <= j < items@.len() ==> (#[trigger] items@[j])@ == all[j].value(),
        {
            items.push(item.into_value());
        }
        assert(array_view(items@) =~= Seq::new(all.len(), |i: int| all[i].value()));
        Value::Array(items)
    }
}

/// Two values are the same JSON: objects by their keys, whatever the order, numbers
/// as `serde_json` compares them.
pub open spec fn same_json(left: ValueView, right: ValueView) -> bool
    decreases left,
{
    match (left, right) {
        (ValueView::Null, ValueView::Null) => true,
        (ValueView::Bool(a), ValueView::Bool(b)) => a == b,
        (ValueView::Number(a), ValueView::Number(b)) => numbers_equal(a, b),
        (ValueView::String(a), ValueView::String(b)) => a == b,
        (ValueView::Array(a), ValueView::Array(b)) => a.len() == b.len() && forall|i: int|
            0 <= i < a.len() ==> same_json(#[trigger] a[i], b[i]),
        (ValueView::Object(a), ValueView::Object(b)) => a.dom() == b.dom() && forall|key: Seq<char>|
            #[trigger] a.dom().contains(key) ==> same_json(a[key], b[key]),
        _ => false,
    }
}

impl Value {
    /// Whether this is the same JSON as `other`.
    pub fn same_as(&self, other: &Value) -> (res: bool)
        ensures
            res == same_json(self@, other@),
        decreases *self,
    {
        match (self, other) {
            (Value::Null, Value::Null) => true,
            (Value::Bool(a), Value::Bool(b)) => *a == *b,
            (Value::Number(a), Value::Number(b)) => compare_numbers(a, b),
            (Value::String(a), Value::String(b)) => *a == *b,
            (Value::Array(a), Value::Array(b)) => {
                if a.len() != b.len() {
                    return false;
                }
                let ghost left = array_view(a@);
                let ghost right = array_view(b@);
                let mut i: usize = 0;
                while i < a.len()
                    invariant
                        *self == Value::Array(*a),
                        *other == Value::Array(*b),
                        left == array_view(a@),
                        right == array_view(b@),
                        a@.len() == b@.len(),
                        i <= a@.len(),
                        forall|j: int| 0 <= j < i ==> same_json(#[trigger] left[j], right[j]),
                    decreases a@.len() - i,
                {
                    proof {
                        assert(decreases_to!(*self => self->Array_0));
                        assert(decreases_to!(*a => a@));
                        assert(left[i as int] == a@[i as int]@);
                        assert(right[i as int] == b@[i as int]@);
                    }
                    if !a[i].same_as(&b[i]) {
                        return false;
                    }
                    i = i + 1;
                }
                true
            },
            (Value::Object(a), Value::Object(b)) => {
                assert(decreases_to!(*self => self->Object_0));
                a.same_as(b)
            },
            _ => false,
        }
    }
}

impl Object {
    /// Whether this is the same JSON as `other`.
    pub fn same_as(&self, other: &Object) -> (res: bool)
        ensures
            res == same_json(ValueView::Object(self@), ValueView::Object(other@)),
        decreases *self,
    {
        let ghost left = self@;
        let ghost right = other@;
        if self.len() != other.len() {
            assert(left.dom() == right.dom() ==> left.len() == right.len());
            return false;
        }
        let count: usize = self.len();
        let ghost entries = self.spec_entries();
        let mut i: usize = 0;
        while i < count
            invariant
                left == self@,
                right == other@,
                entries == self.spec_entries(),
                count == entries.len(),
                i <= count,
                forall|j: int|
                    0 <= j < i ==> right.dom().contains((#[trigger] entries[j]).0@) && same_json(
                        left[entries[j].0@],
                        right[entries[j].0@],
                    ),
            decreases count - i,
        {
            proof {
                lemma_object_decreases(*self, i as int);
            }
            let (key, value) = self.entry(i);
            match other.get(key) {
                Some(found) => {
                    if !value.same_as(found) {
                        return false;
                    }
                },
                None => {
                    return false;
                },
            }
            i = i + 1;
        }
        proof {
            assert forall|key: Seq<char>| #[trigger] left.dom().contains(key) implies right.dom().contains(
                key,
            ) && same_json(left[key], right[key]) by {
                let j = index_of_key(entries, key);
                assert(entries[j].0@ == key);
            }
            assert(left.dom().subset_of(right.dom()));
            vstd::set_lib::lemma_subset_equality(left.dom(), right.dom());
        }
        true
    }
}

impl PartialEq for Object {
    fn eq(&self, other: &Object) -> (res: bool) {
        self.same_as(other)
    }
}

impl vstd::std_specs::cmp::PartialEqSpecImpl for Object {
    open spec fn obeys_eq_spec() -> bool {
        true
    }

    open spec fn eq_spec(&self, other: &Object) -> bool {
        same_json(ValueView::Object(self@), ValueView::Object(other@))
    }
}

impl PartialEq for Value {
    fn eq(&self, other: &Value) -> (res: bool) {
        self.same_as(other)
    }
}

impl vstd::std_specs::cmp::PartialEqSpecImpl for Value {
    open spec fn obeys_eq_spec() -> bool {
        true
    }

    open spec fn eq_spec(&self, other: &Value) -> bool {
        same_json(self@, other@)
    }
}

/// No number occurs in `value`.
pub open spec fn has_no_numbers(value: ValueView) -> bool
    decreases value,
{
    match value {
        ValueView::Number(_) => false,
        ValueView::Array(items) => forall|i: int|
            0 <= i < items.len() ==> has_no_numbers(#[trigger] items[i]),
        ValueView::Object(fields) => forall|key: Seq<char>| #[trigger]
            fields.dom().contains(key) ==> has_no_numbers(fields[key]),
        _ => true,
    }
}

/// Apart from numbers, of which one may be written in several ways, two values are the
/// same JSON exactly if they are equal.
pub proof fn law_same_json_is_equality(left: ValueView, right: ValueView)
    requires
        has_no_numbers(left),
    ensures
        same_json(left, right) <==> left == right,
    decreases left,
{
    match (left, right) {
        (ValueView::Array(a), ValueView::Array(b)) => {
            if a.len() == b.len() {
                assert forall|i: int| 0 <= i < a.len() implies (same_json(#[trigger] a[i], b[i])
                    <==> a[i] == b[i]) by {
                    law_same_json_is_equality(a[i], b[i]);
                }
                if same_json(left, right) {
                    assert(a =~= b);
                }
            }
        },
        (ValueView::Object(a), ValueView::Object(b)) => {
            if a.dom() == b.dom() {
                assert forall|key: Seq<char>| #[trigger] a.dom().contains(key) implies (same_json(
                    a[key],
                    b[key],
                ) <==> a[key] == b[key]) by {
                    law_same_json_is_equality(a[key], b[key]);
                }
                if same_json(left, right) {
                    assert(a =~= b);
                }
            }
        },
        _ => {},
    }
}

/// A text, a boolean, a JSON value, nothing, and what may be missing are handed over as
/// what they are; a list item by item, in order.
pub proof fn law_handed_over_as_it_is<T: IntoValue>(
    value: Value,
    text: String,
    flag: bool,
    item: T,
    items: Vec<T>,
)
    ensures
        value.value() == value@,
        text.value() == ValueView::String(text@),
        flag.value() == ValueView::Bool(flag),
        ().value() == ValueView::Null,
        Some(item).value() == item.value(),
        None::<T>.value() == ValueView::Null,
        items.value() is Array,
        items.value()->Array_0.len() == items@.len(),
        forall|i: int|
            0 <= i < items@.len() ==> (#[trigger] items.value()->Array_0[i]) == items@[i].value(),
{
}

/// An integer is handed over as the number that it is, whatever its width.
pub proof fn law_numbers_are_handed_over(a: u8, b: u16, c: u32, d: u64, e: usize, f: i8, g: i16)
    ensures
        a.value() == ValueView::Number(unsigned_number(a as u64)),
        b.value() == ValueView::Number(unsigned_number(b as u64)),
        c.value() == ValueView::Number(unsigned_number(c as u64)),
        d.value() == ValueView::Number(unsigned_number(d)),
        e.value() == ValueView::Number(unsigned_number(e as u64)),
        f.value() == ValueView::Number(signed_number(f as i64)),
        g.value() == ValueView::Number(signed_number(g as i64)),
        forall|h: i32| #[trigger] h.value() == ValueView::Number(signed_number(h as i64)),
        forall|k: i64| #[trigger] k.value() == ValueView::Number(signed_number(k)),
        forall|m: isize| #[trigger] m.value() == ValueView::Number(signed_number(m as i64)),
{
}

} // verus!
