//! Records and the JSON values they carry.
//!
//! A record is what every ingestor emits: an optional collection name and an object of named
//! values. Values are JSON values; a floating-point number is carried by the bits of its `f64`.

use crate::ieee::{finite, is_finite};
use vstd::prelude::*;

verus! {

/// A JSON number: a signed or unsigned integer, or a finite float carried by its bits.
#[derive(Debug, Clone, Copy, PartialEq, Eq, Structural)]
pub enum JsonNumber {
    Integer(i64),
    Unsigned(u64),
    Float(u64),
}

/// A JSON value.
#[derive(Debug)]
pub enum JsonValue {
    Null,
    Bool(bool),
    Number(JsonNumber),
    Text(String),
    Array(Vec<JsonValue>),
    Object(JsonObject),
}

/// A JSON object: named values in the order their names were first inserted, each name once.
#[derive(Debug)]
pub struct JsonObject {
    entries: Vec<(String, JsonValue)>,
}

impl Default for JsonValue {
    /// `null`.
    fn default() -> (value: JsonValue)
        ensures
            value is Null,
    {
        JsonValue::Null
    }
}

/// What a JSON value means: the same shape, with text as character sequences.
pub enum JsonModel {
    Null,
    Bool(bool),
    Number(JsonNumber),
    Text(Seq<char>),
    Array(Seq<JsonModel>),
    Object(Seq<(Seq<char>, JsonModel)>),
}

/// The meaning of a JSON value.
pub open spec fn json_model(value: JsonValue) -> JsonModel
    decreases value, 1int,
{
    match value {
        JsonValue::Null => JsonModel::Null,
        JsonValue::Bool(b) => JsonModel::Bool(b),
        JsonValue::Number(n) => JsonModel::Number(n),
        JsonValue::Text(s) => JsonModel::Text(s@),
        JsonValue::Array(items) => JsonModel::Array(
            Seq::new(
                items@.len(),
                |i: int|
                    {
                        if 0 <= i < items@.len() {
                            proof {
                                vstd::std_specs::vec::axiom_vec_index_decreases(items, i);
                            }
                            json_model(items@[i])
                        } else {
                            JsonModel::Null
                        }
                    },
            ),
        ),
        JsonValue::Object(object) => JsonModel::Object(object_model(object)),
    }
}

/// The meaning of a JSON object: its name/value pairs in order.
pub closed spec fn object_model(object: JsonObject) -> Seq<(Seq<char>, JsonModel)>
    decreases object, 0int,
{
    Seq::new(
        object.entries@.len(),
        |i: int|
            {
                if 0 <= i < object.entries@.len() {
                    proof {
                        vstd::std_specs::vec::axiom_vec_index_decreases(object.entries, i);
                        assert(decreases_to!(object => object.entries));
                        assert(decreases_to!(object.entries@[i] => object.entries@[i].1));
                    }
                    (object.entries@[i].0@, json_model(object.entries@[i].1))
                } else {
                    (Seq::empty(), JsonModel::Null)
                }
            },
    )
}

impl DeepView for JsonValue {
    type V = JsonModel;

    open spec fn deep_view(&self) -> JsonModel {
        json_model(*self)
    }
}

/// The meaning of an optional value.
pub open spec fn optional_model(value: Option<JsonValue>) -> Option<JsonModel> {
    match value {
        Some(v) => Some(json_model(v)),
        None => None,
    }
}

/// Name/value pairs read as their meanings.
pub open spec fn pairs_model(entries: Seq<(String, JsonValue)>) -> Seq<(Seq<char>, JsonModel)> {
    Seq::new(entries.len(), |i: int| (entries[i].0@, json_model(entries[i].1)))
}

/// No name occurs twice.
pub open spec fn names_unique(names: Seq<Seq<char>>) -> bool {
    forall|i: int, j: int| 0 <= i < j < names.len() ==> names[i] != names[j]
}

/// Entry `i` is the first entry named `name`.
pub open spec fn first_named(entries: Seq<(Seq<char>, JsonModel)>, name: Seq<char>, i: int) -> bool {
    &&& 0 <= i < entries.len()
    &&& entries[i].0 == name
    &&& forall|j: int| 0 <= j < i ==> entries[j].0 != name
}

/// The entries after inserting `value` under `name`: the value of the first entry of that name is
/// replaced in place, and otherwise the entry is appended.
pub open spec fn inserted(entries: Seq<(Seq<char>, JsonModel)>, name: Seq<char>, value: JsonModel) -> Seq<
    (Seq<char>, JsonModel),
> {
    if exists|i: int| #[trigger] first_named(entries, name, i) {
        let i = choose|i: int| #[trigger] first_named(entries, name, i);
        entries.update(i, (name, value))
    } else {
        entries.push((name, value))
    }
}

/// The data after inserting each pair in order.
pub open spec fn insert_all(data: Seq<(Seq<char>, JsonModel)>, pairs: Seq<(Seq<char>, JsonModel)>) -> Seq<
    (Seq<char>, JsonModel),
>
    decreases pairs.len(),
{
    if pairs.len() == 0 {
        data
    } else {
        inserted(insert_all(data, pairs.drop_last()), pairs.last().0, pairs.last().1)
    }
}

/// The value stored under `name`, the first such entry's, if any.
pub open spec fn lookup(entries: Seq<(Seq<char>, JsonModel)>, name: Seq<char>) -> Option<JsonModel> {
    if exists|i: int| #[trigger] first_named(entries, name, i) {
        let i = choose|i: int| #[trigger] first_named(entries, name, i);
        Some(entries[i].1)
    } else {
        None
    }
}

/// At most one entry is the first of a name.
pub proof fn lemma_first_named_unique(entries: Seq<(Seq<char>, JsonModel)>, name: Seq<char>, i: int, k: int)
    requires
        first_named(entries, name, i),
        first_named(entries, name, k),
    ensures
        i == k,
{
    if i < k {
        assert(entries[i].0 != name);
    } else if k < i {
        assert(entries[k].0 != name);
    }
}

/// What is read back under a name is what was last inserted under it, and inserting under one
/// name leaves what every other name reads unchanged.
pub proof fn lemma_lookup_inserted(
    entries: Seq<(Seq<char>, JsonModel)>,
    name: Seq<char>,
    value: JsonModel,
    other: Seq<char>,
)
    ensures
        lookup(inserted(entries, name, value), name) == Some(value),
        other != name ==> lookup(inserted(entries, name, value), other) == lookup(entries, other),
{
    let after = inserted(entries, name, value);
    if exists|i: int| #[trigger] first_named(entries, name, i) {
        let i = choose|i: int| #[trigger] first_named(entries, name, i);
        assert(after == entries.update(i, (name, value)));
        assert(first_named(after, name, i));
        let k = choose|k: int| #[trigger] first_named(after, name, k);
        lemma_first_named_unique(after, name, i, k);
        if other != name {
            if exists|j: int| #[trigger] first_named(entries, other, j) {
                let j = choose|j: int| #[trigger] first_named(entries, other, j);
                assert(first_named(after, other, j));
                let m = choose|m: int| #[trigger] first_named(after, other, m);
                lemma_first_named_unique(after, other, j, m);
            } else {
                if exists|m: int| #[trigger] first_named(after, other, m) {
                    let m = choose|m: int| #[trigger] first_named(after, other, m);
                    assert forall|j: int| 0 <= j < m implies entries[j].0 != other by {
                        if j != i {
                            assert(after[j] == entries[j]);
                        }
                    }
                    if m != i {
                        assert(after[m] == entries[m]);
                    }
                    assert(first_named(entries, other, m));
                }
            }
        }
    } else {
        assert(after == entries.push((name, value)));
        assert forall|j: int| 0 <= j < entries.len() implies entries[j].0 != name by {
            if entries[j].0 == name {
                lemma_some_first_named(entries, name, j);
            }
        }
        assert(first_named(after, name, entries.len() as int));
        let k = choose|k: int| #[trigger] first_named(after, name, k);
        lemma_first_named_unique(after, name, entries.len() as int, k);
        if other != name {
            if exists|j: int| #[trigger] first_named(entries, other, j) {
                let j = choose|j: int| #[trigger] first_named(entries, other, j);
                assert(first_named(after, other, j));
                let m = choose|m: int| #[trigger] first_named(after, other, m);
                lemma_first_named_unique(after, other, j, m);
            } else {
                if exists|m: int| #[trigger] first_named(after, other, m) {
                    let m = choose|m: int| #[trigger] first_named(after, other, m);
                    assert(m < entries.len());
                    assert forall|j: int| 0 <= j < m implies entries[j].0 != other by {
                        assert(after[j] == entries[j]);
                    }
                    assert(after[m] == entries[m]);
                    assert(first_named(entries, other, m));
                }
            }
        }
    }
}

/// A name that occurs at some entry has a first entry.
pub proof fn lemma_some_first_named(entries: Seq<(Seq<char>, JsonModel)>, name: Seq<char>, j: int)
    requires
        0 <= j < entries.len(),
        entries[j].0 == name,
    ensures
        exists|i: int| #[trigger] first_named(entries, name, i),
    decreases j,
{
    if exists|k: int| 0 <= k < j && entries[k].0 == name {
        let k = choose|k: int| 0 <= k < j && entries[k].0 == name;
        lemma_some_first_named(entries, name, k);
    } else {
        assert(first_named(entries, name, j));
    }
}

/// A float as a JSON number, or nothing when it is not finite (JSON has no NaN or infinity).
pub open spec fn float_number(bits: u64) -> Option<JsonModel> {
    if is_finite(bits) {
        Some(JsonModel::Number(JsonNumber::Float(bits)))
    } else {
        None
    }
}

impl View for JsonObject {
    type V = Seq<(Seq<char>, JsonModel)>;

    open spec fn view(&self) -> Seq<(Seq<char>, JsonModel)> {
        object_model(*self)
    }
}

/// The meanings of a list of values.
pub open spec fn items_model(items: Seq<JsonValue>) -> Seq<JsonModel> {
    Seq::new(items.len(), |i: int| json_model(items[i]))
}

/// The meaning of an array is the meanings of its items.
pub proof fn lemma_array_model(items: Vec<JsonValue>)
    ensures
        json_model(JsonValue::Array(items)) == JsonModel::Array(items_model(items@)),
{
    assert(json_model(JsonValue::Array(items))->Array_0 =~= items_model(items@));
}

/// The meaning of an object is the meaning of its pairs.
proof fn lemma_object_model(object: JsonObject)
    ensures
        object_model(object) == pairs_model(object.entries@),
{
    assert(object_model(object) =~= pairs_model(object.entries@));
}

impl JsonObject {
    /// Each name occurs once.
    pub open spec fn wf(&self) -> bool {
        names_unique(Seq::new(self@.len(), |i: int| self@[i].0))
    }

    /// An object with no entries.
    pub fn new() -> (object: JsonObject)
        ensures
            object@ == Seq::<(Seq<char>, JsonModel)>::empty(),
            object.wf(),
    {
        let object = JsonObject { entries: Vec::new() };
        proof {
            lemma_object_model(object);
        }
        assert(object@ =~= Seq::<(Seq<char>, JsonModel)>::empty());
        object
    }

    /// The number of entries.
    pub fn len(&self) -> (n: usize)
        ensures
            n == self@.len(),
    {
        proof {
            lemma_object_model(*self);
        }
        self.entries.len()
    }

    /// The position of the entry named `name`, if there is one.
    fn position(&self, name: &str) -> (at: Option<usize>)
        ensures
            match at {
                Some(i) => first_named(self@, name@, i as int),
                None => forall|i: int| 0 <= i < self@.len() ==> #[trigger] self@[i].0 != name@,
            },
    {
        proof {
            lemma_object_model(*self);
        }
        let mut i: usize = 0;
        while i < self.entries.len()
            invariant
                i <= self.entries@.len(),
                self@ == pairs_model(self.entries@),
                forall|j: int| 0 <= j < i ==> #[trigger] self.entries@[j].0@ != name@,
            decreases self.entries@.len() - i,
        {
            if crate::text::same_text(self.entries[i].0.as_str(), name) {
                return Some(i);
            }
            i = i + 1;
        }
        None
    }

    /// Inserts `value` under `name`, replacing the value of an entry of that name in place.
    pub fn insert(&mut self, name: String, value: JsonValue)
        ensures
            old(self).wf() ==> final(self).wf(),
            final(self)@ == inserted(old(self)@, name@, value.deep_view()),
    {
        let ghost before = self@;
        let ghost model = value.deep_view();
        proof {
            lemma_object_model(*self);
        }
        match self.position(name.as_str()) {
            Some(i) => {
                proof {
                    let k = choose|k: int| #[trigger] first_named(before, name@, k);
                    lemma_first_named_unique(before, name@, i as int, k);
                }
                self.entries.set(i, (name, value));
                proof {
                    lemma_object_model(*self);
                }
                assert(self@ =~= before.update(i as int, (name@, model)));
                assert(Seq::new(self@.len(), |j: int| self@[j].0) =~= Seq::new(
                    before.len(),
                    |j: int| before[j].0,
                ));
            },
            None => {
                assert(!exists|k: int| #[trigger] first_named(before, name@, k));
                self.entries.push((name, value));
                proof {
                    lemma_object_model(*self);
                }
                assert(self@ =~= before.push((name@, model)));
                assert(Seq::new(self@.len(), |j: int| self@[j].0) =~= Seq::new(
                    before.len(),
                    |j: int| before[j].0,
                ).push(name@));
            },
        }
    }

    /// The value stored under `name`, if any.
    pub fn get(&self, name: &str) -> (value: Option<&JsonValue>)
        ensures
            match value {
                Some(v) => lookup(self@, name@) == Some(v.deep_view()),
                None => lookup(self@, name@) is None,
            },
    {
        proof {
            lemma_object_model(*self);
        }
        match self.position(name) {
            Some(i) => {
                proof {
                    let k = choose|k: int| #[trigger] first_named(self@, name@, k);
                    lemma_first_named_unique(self@, name@, i as int, k);
                }
                Some(&self.entries[i].1)
            },
            None => None,
        }
    }

    /// The name of entry `i`.
    pub fn name_at(&self, i: usize) -> (name: &str)
        requires
            i < self@.len(),
        ensures
            name@ == self@[i as int].0,
    {
        proof {
            lemma_object_model(*self);
        }
        self.entries[i].0.as_str()
    }

    /// The value of entry `i`.
    pub fn value_at(&self, i: usize) -> (value: &JsonValue)
        requires
            i < self@.len(),
        ensures
            value.deep_view() == self@[i as int].1,
    {
        proof {
            lemma_object_model(*self);
        }
        &self.entries[i].1
    }

    /// Consumes the object, keeping only the value stored under `name`.
    pub fn take_value(self, name: &str) -> (value: Option<JsonValue>)
        ensures
            match value {
                Some(v) => lookup(self@, name@) == Some(v.deep_view()),
                None => lookup(self@, name@) is None,
            },
    {
        proof {
            lemma_object_model(self);
        }
        match self.position(name) {
            Some(i) => {
                proof {
                    let k = choose|k: int| #[trigger] first_named(self@, name@, k);
                    lemma_first_named_unique(self@, name@, i as int, k);
                }
                let ghost model = self@;
                let mut entries = self.entries;
                let (_, value) = entries.swap_remove(i);
                assert(value.deep_view() == model[i as int].1);
                Some(value)
            },
            None => None,
        }
    }

    /// The entries, in order, moved out of the object.
    pub fn into_entries(self) -> (entries: Vec<(String, JsonValue)>)
        ensures
            pairs_model(entries@) == self@,
    {
        proof {
            lemma_object_model(self);
        }
        self.entries
    }
}

/// A copy of a JSON value with the same meaning.
pub fn copy_value(value: &JsonValue) -> (copy: JsonValue)
    ensures
        copy.deep_view() == value.deep_view(),
    decreases value, 1int,
{
    match value {
        JsonValue::Null => JsonValue::Null,
        JsonValue::Bool(b) => JsonValue::Bool(*b),
        JsonValue::Number(n) => JsonValue::Number(*n),
        JsonValue::Text(s) => JsonValue::Text(s.clone()),
        JsonValue::Array(items) => {
            let mut copied: Vec<JsonValue> = Vec::new();
            let mut i: usize = 0;
            while i < items.len()
                invariant
                    *value == JsonValue::Array(*items),
                    i <= items@.len(),
                    copied@.len() == i,
                    forall|j: int|
                        0 <= j < i ==> json_model(#[trigger] copied@[j]) == json_model(items@[j]),
                decreases items@.len() - i,
            {
                proof {
                    vstd::std_specs::vec::axiom_vec_index_decreases(*items, i as int);
                    assert(decreases_to!(*value => (*value)->Array_0));
                }
                copied.push(copy_value(&items[i]));
                i = i + 1;
            }
            proof {
                lemma_array_model(copied);
                lemma_array_model(*items);
                assert(items_model(copied@) =~= items_model(items@));
            }
            JsonValue::Array(copied)
        },
        JsonValue::Object(object) => {
            proof {
                assert(decreases_to!(*value => (*value)->Object_0));
            }
            JsonValue::Object(copy_object(object))
        },
    }
}

/// A copy of a JSON object with the same meaning.
pub fn copy_object(object: &JsonObject) -> (copy: JsonObject)
    ensures
        copy@ == object@,
    decreases object, 0int,
{
    proof {
        lemma_object_model(*object);
    }
    let mut entries: Vec<(String, JsonValue)> = Vec::new();
    let mut i: usize = 0;
    while i < object.entries.len()
        invariant
            object@ == pairs_model(object.entries@),
            i <= object.entries@.len(),
            entries@.len() == i,
            forall|j: int|
                0 <= j < i ==> (#[trigger] entries@[j]).0@ == object.entries@[j].0@ && json_model(
                    entries@[j].1,
                ) == json_model(object.entries@[j].1),
        decreases object.entries@.len() - i,
    {
        proof {
            vstd::std_specs::vec::axiom_vec_index_decreases(object.entries, i as int);
            assert(decreases_to!(*object => object.entries));
            assert(decreases_to!(object.entries@[i as int] => object.entries@[i as int].1));
        }
        let name = object.entries[i].0.clone();
        let value = copy_value(&object.entries[i].1);
        entries.push((name, value));
        i = i + 1;
    }
    let copy = JsonObject { entries };
    proof {
        lemma_object_model(copy);
    }
    assert(copy@ =~= object@);
    copy
}

/// Inserts a float as a JSON number, omitting the field when the value is not finite.
pub fn insert_number(data: &mut JsonObject, name: String, bits: u64)
    ensures
        old(data).wf() ==> final(data).wf(),
        final(data)@ == match float_number(bits) {
            Some(number) => inserted(old(data)@, name@, number),
            None => old(data)@,
        },
{
    if finite(bits) {
        data.insert(name, JsonValue::Number(JsonNumber::Float(bits)));
    }
}

/// One record: an optional collection name and the named values it carries.
#[derive(Debug)]
pub struct Record {
    collection: Option<String>,
    data: JsonObject,
}

/// The text of an optional string.
pub open spec fn optional_text(text: Option<String>) -> Option<Seq<char>> {
    match text {
        Some(s) => Some(s@),
        None => None,
    }
}

impl View for Record {
    type V = (Option<Seq<char>>, Seq<(Seq<char>, JsonModel)>);

    closed spec fn view(&self) -> (Option<Seq<char>>, Seq<(Seq<char>, JsonModel)>) {
        (optional_text(self.collection), self.data@)
    }
}

impl Record {
    /// Each name of the record's data occurs once.
    pub closed spec fn wf(&self) -> bool {
        self.data.wf()
    }

    /// A record of a collection (or of none) carrying `data`.
    pub fn new(collection: Option<String>, data: JsonObject) -> (record: Record)
        ensures
            record@ == (optional_text(collection), data@),
            record.wf() == data.wf(),
    {
        Record { collection, data }
    }

    /// The collection the record belongs to.
    pub fn collection(&self) -> (collection: &Option<String>)
        ensures
            optional_text(*collection) == self@.0,
    {
        &self.collection
    }

    /// The named values the record carries.
    pub fn data(&self) -> (data: &JsonObject)
        ensures
            data@ == self@.1,
            self.wf() ==> data.wf(),
    {
        &self.data
    }

    /// The record taken apart into its collection and data.
    pub fn into_parts(self) -> (parts: (Option<String>, JsonObject))
        ensures
            optional_text(parts.0) == self@.0,
            parts.1@ == self@.1,
    {
        (self.collection, self.data)
    }
}

} // verus!
