//! JSON documents split into records under the lone-array convention.

use crate::ingest::lone_array::{array_members, lone_array_member, CandidateKeys, LoneArrayMember};
use crate::record::{json_model, lookup, JsonModel, JsonObject, JsonValue, Record};
use crate::text::{owned, push_str};
use vstd::prelude::*;

verus! {

/// Errors that can occur while parsing JSON input.
#[derive(Debug)]
pub enum JsonIngestError {
    /// The JSON ingestor was handed an in-memory byte payload; it needs a file.
    RequiresFile,
    /// The JSON file could not be read; the operating system's reason and the path are kept.
    Read { reason: String, path: String },
    /// The input is not valid JSON; the parser's message is kept.
    Parse(String),
    /// The input is `GeoJSON`, which the `GeoJSON` ingestor reads.
    WrongIngestorForGeoJson,
    /// A record-bearing array held an element that is not an object.
    ExpectedObject,
    /// The document is neither an object nor an array.
    ExpectedObjectOrArray,
}

/// What a JSON error reports.
pub open spec fn json_error_message(error: JsonIngestError) -> Seq<char> {
    match error {
        JsonIngestError::RequiresFile => "the JSON ingestor requires a file, not bytes"@,
        JsonIngestError::Read { reason: _, path } => "failed to read the JSON input at '"@ + path@ + "'"@,
        JsonIngestError::Parse(message) => message@,
        JsonIngestError::WrongIngestorForGeoJson => "input is GeoJSON; use the GeoJSON ingestor instead"@,
        JsonIngestError::ExpectedObject => "expected every array element to be a JSON object"@,
        JsonIngestError::ExpectedObjectOrArray => "expected a top-level JSON object or an array of objects"@,
    }
}

impl JsonIngestError {
    /// What the error reports: for a file that could not be read, the file it names.
    pub fn describe(&self) -> (message: String)
        ensures
            message@ == json_error_message(*self),
    {
        match self {
            JsonIngestError::RequiresFile => owned("the JSON ingestor requires a file, not bytes"),
            JsonIngestError::Read { reason: _, path } => {
                let mut message = owned("failed to read the JSON input at '");
                push_str(&mut message, path.as_str());
                push_str(&mut message, "'");
                message
            },
            JsonIngestError::Parse(message) => message.clone(),
            JsonIngestError::WrongIngestorForGeoJson => owned("input is GeoJSON; use the GeoJSON ingestor instead"),
            JsonIngestError::ExpectedObject => owned("expected every array element to be a JSON object"),
            JsonIngestError::ExpectedObjectOrArray => owned(
                "expected a top-level JSON object or an array of objects",
            ),
        }
    }

    /// The underlying cause: for a file that could not be read, the operating system's reason.
    pub fn cause(&self) -> (cause: Option<String>)
        ensures
            match *self {
                JsonIngestError::Read { reason, path: _ } => cause matches Some(c) && c@ == reason@,
                _ => cause is None,
            },
    {
        match self {
            JsonIngestError::Read { reason, path: _ } => Some(reason.clone()),
            _ => None,
        }
    }
}

/// Why a document does not split into records.
#[derive(Debug, Clone, Copy, PartialEq, Eq, Structural)]
pub enum SplitRefusal {
    /// A record-bearing array held an element that is not an object.
    ExpectedObject,
    /// The document is neither an object nor an array.
    ExpectedObjectOrArray,
}

/// The refusal an error reports, if it is one of the splitting refusals.
pub open spec fn refusal_of(error: JsonIngestError) -> Option<SplitRefusal> {
    match error {
        JsonIngestError::ExpectedObject => Some(SplitRefusal::ExpectedObject),
        JsonIngestError::ExpectedObjectOrArray => Some(SplitRefusal::ExpectedObjectOrArray),
        _ => None,
    }
}

/// The record data a list of items becomes: each item's entries, when every item is an object.
pub open spec fn item_records(items: Seq<JsonModel>) -> Result<Seq<Seq<(Seq<char>, JsonModel)>>, SplitRefusal> {
    if forall|i: int| 0 <= i < items.len() ==> #[trigger] items[i] is Object {
        Ok(Seq::new(items.len(), |i: int| items[i]->Object_0))
    } else {
        Err(SplitRefusal::ExpectedObject)
    }
}

/// The record data a parsed JSON document splits into.
///
/// An array's items are the records. An object with exactly one array-valued member splits on
/// that member's items, dropping its siblings; an object with none, or several, is one record. A
/// scalar or null root is refused.
pub open spec fn split_model(document: JsonModel) -> Result<Seq<Seq<(Seq<char>, JsonModel)>>, SplitRefusal> {
    match document {
        JsonModel::Array(items) => item_records(items),
        JsonModel::Object(entries) => {
            let members = array_members(entries, CandidateKeys::Any);
            if members.len() == 1 {
                match lookup(entries, members[0]) {
                    Some(JsonModel::Array(items)) => item_records(items),
                    _ => Ok(seq![entries]),
                }
            } else {
                Ok(seq![entries])
            }
        },
        _ => Err(SplitRefusal::ExpectedObjectOrArray),
    }
}

/// Records selected from one parsed JSON document, converted as they are taken so no second
/// document-sized record list is built.
pub struct JsonRecords {
    source: RecordSource,
}

/// The one-record and many-record shapes accepted by the lone-array convention.
enum RecordSource {
    /// One record, until it is taken.
    Single(Option<JsonObject>),
    /// The items still to be taken, the next one last.
    Multiple(Vec<JsonValue>),
}

impl View for JsonRecords {
    type V = Seq<Seq<(Seq<char>, JsonModel)>>;

    /// The data of the records still to be taken, in order.
    closed spec fn view(&self) -> Seq<Seq<(Seq<char>, JsonModel)>> {
        match self.source {
            RecordSource::Single(Some(object)) => seq![object@],
            RecordSource::Single(None) => Seq::empty(),
            RecordSource::Multiple(items) => Seq::new(
                items@.len(),
                |i: int| json_model(items@[items@.len() - 1 - i])->Object_0,
            ),
        }
    }
}

impl JsonRecords {
    /// Every item still to be taken is an object.
    #[verifier::type_invariant]
    spec fn all_objects(self) -> bool {
        match self.source {
            RecordSource::Multiple(items) => forall|i: int|
                0 <= i < items@.len() ==> #[trigger] items@[i] is Object,
            _ => true,
        }
    }

    /// A one-record stream.
    fn single(record: JsonObject) -> (records: JsonRecords)
        ensures
            records@ == seq![record@],
    {
        JsonRecords { source: RecordSource::Single(Some(record)) }
    }

    /// A record stream over a list of items, refused unless every item is an object.
    fn multiple(items: Vec<JsonValue>) -> (records: Result<JsonRecords, JsonIngestError>)
        ensures
            match records {
                Ok(records) => item_records(
                    Seq::new(items@.len(), |i: int| json_model(items@[i])),
                ) == Ok::<Seq<Seq<(Seq<char>, JsonModel)>>, SplitRefusal>(records@),
                Err(error) => item_records(Seq::new(items@.len(), |i: int| json_model(items@[i])))
                    == Err::<Seq<Seq<(Seq<char>, JsonModel)>>, SplitRefusal>(
                    SplitRefusal::ExpectedObject,
                ) && error is ExpectedObject,
            },
    {
        let ghost models = Seq::new(items@.len(), |i: int| json_model(items@[i]));
        let mut i: usize = 0;
        while i < items.len()
            invariant
                models == Seq::new(items@.len(), |i: int| json_model(items@[i])),
                i <= items@.len(),
                forall|j: int| 0 <= j < i ==> #[trigger] items@[j] is Object,
            decreases items@.len() - i,
        {
            match &items[i] {
                JsonValue::Object(_) => {},
                _ => {
                    assert(models[i as int] == json_model(items@[i as int]));
                    assert(!(models[i as int] is Object));
                    return Err(JsonIngestError::ExpectedObject);
                },
            }
            i = i + 1;
        }
        assert(forall|j: int| 0 <= j < models.len() ==> #[trigger] models[j] is Object);
        let ghost all = items@;
        let mut left = items;
        let mut reversed: Vec<JsonValue> = Vec::new();
        while left.len() > 0
            invariant
                left@ + reversed@.reverse() == all,
            decreases left@.len(),
        {
            let ghost before_left = left@;
            let ghost before_reversed = reversed@;
            let item = left.pop().unwrap();
            reversed.push(item);
            assert(reversed@.reverse() =~= seq![item] + before_reversed.reverse());
            assert(before_left =~= left@.push(item));
            assert(left@ + reversed@.reverse() =~= before_left + before_reversed.reverse());
        }
        assert(left@ =~= Seq::<JsonValue>::empty());
        assert(reversed@.reverse() =~= all);
        assert forall|j: int| 0 <= j < reversed@.len() implies #[trigger] reversed@[j] is Object by {
            assert(reversed@[j] == all[all.len() - 1 - j]);
        }
        let records = JsonRecords { source: RecordSource::Multiple(reversed) };
        assert(records@ =~= Seq::new(models.len(), |j: int| models[j]->Object_0)) by {
            assert forall|j: int| 0 <= j < models.len() implies records@[j] == models[j]->Object_0 by {
                assert(reversed@[reversed@.len() - 1 - j] == all[j]);
            }
        }
        Ok(records)
    }

    /// The number of records still to be taken.
    pub fn len(&self) -> (n: usize)
        ensures
            n == self@.len(),
    {
        match &self.source {
            RecordSource::Single(Some(_)) => 1,
            RecordSource::Single(None) => 0,
            RecordSource::Multiple(items) => items.len(),
        }
    }

    /// Takes the next record.
    pub fn next(&mut self) -> (next: Option<Result<Record, JsonIngestError>>)
        ensures
            old(self)@.len() == 0 ==> next is None && final(self)@ == old(self)@,
            old(self)@.len() > 0 ==> (next matches Some(Ok(record)) && record@ == (
                None::<Seq<char>>,
                old(self)@[0],
            ) && final(self)@ == old(self)@.drop_first()),
    {
        proof {
            use_type_invariant(&*self);
        }
        let ghost before = self@;
        let mut source = RecordSource::Single(None);
        std::mem::swap(&mut self.source, &mut source);
        match source {
            RecordSource::Single(record) => match record {
                Some(data) => {
                    proof {
                        assert(self@ =~= before.drop_first());
                    }
                    Some(Ok(Record::new(None, data)))
                },
                None => None,
            },
            RecordSource::Multiple(mut items) => {
                let ghost all = items@;
                let popped = items.pop();
                self.source = RecordSource::Multiple(items);
                match popped {
                    Some(JsonValue::Object(data)) => {
                        proof {
                            assert(self@ =~= before.drop_first());
                        }
                        Some(Ok(Record::new(None, data)))
                    },
                    Some(_) => {
                        assert(all[all.len() - 1] is Object);
                        Some(Err(JsonIngestError::ExpectedObject))
                    },
                    None => {
                        assert(self@ =~= before);
                        None
                    },
                }
            },
        }
    }
}

/// Splits a parsed JSON document into records under the lone-array convention.
///
/// The rule is deterministic and schema-less: the document is always one collection (no record
/// carries a collection name), and its shape decides the records. An array's items are the
/// records, each of which must be an object. An object with exactly one array-valued member splits
/// on that member's items, dropping the siblings; an object with none, or two or more, is a single
/// record. A scalar or null root can be neither record nor records.
pub fn split(document: JsonValue) -> (records: Result<JsonRecords, JsonIngestError>)
    ensures
        match records {
            Ok(records) => split_model(document.deep_view()) == Ok::<
                Seq<Seq<(Seq<char>, JsonModel)>>,
                SplitRefusal,
            >(records@),
            Err(error) => split_model(document.deep_view()) matches Err(refusal) && refusal_of(error)
                == Some(refusal),
        },
{
    let ghost model = document.deep_view();
    match document {
        JsonValue::Array(items) => {
            proof {
                crate::record::lemma_array_model(items);
            }
            JsonRecords::multiple(items)
        },
        JsonValue::Object(map) => {
            match lone_array_member(&map, CandidateKeys::Any) {
                LoneArrayMember::Found(key) => {
                    let is_array = match map.get(key.as_str()) {
                        Some(JsonValue::Array(_)) => true,
                        _ => false,
                    };
                    if is_array {
                        match map.take_value(key.as_str()) {
                            Some(JsonValue::Array(items)) => {
                                proof {
                                    crate::record::lemma_array_model(items);
                                }
                                JsonRecords::multiple(items)
                            },
                            _ => Err(JsonIngestError::ExpectedObjectOrArray),
                        }
                    } else {
                        Ok(JsonRecords::single(map))
                    }
                },
                LoneArrayMember::NoneOrMany => Ok(JsonRecords::single(map)),
            }
        },
        _ => Err(JsonIngestError::ExpectedObjectOrArray),
    }
}

/// The `type` tokens a `GeoJSON` document can carry.
pub open spec fn geojson_type(token: Seq<char>) -> bool {
    token == "Feature"@ || token == "FeatureCollection"@ || token == "GeometryCollection"@ || token
        == "LineString"@ || token == "MultiLineString"@ || token == "MultiPoint"@ || token == "MultiPolygon"@
        || token == "Point"@ || token == "Polygon"@
}

/// Whether a document could be `GeoJSON`: an object whose `type` member is the text of one of
/// the `GeoJSON` types. Whether it really is takes a `GeoJSON` parse of the document.
pub fn geojson_candidate(document: &JsonValue) -> (candidate: bool)
    ensures
        candidate == (json_model(*document) matches JsonModel::Object(entries) && lookup(entries, "type"@) matches Some(
            JsonModel::Text(token),
        ) && geojson_type(token)),
{
    match document {
        JsonValue::Object(object) => match object.get("type") {
            Some(JsonValue::Text(kind)) => {
                let kind = kind.as_str();
                crate::text::same_text(kind, "Feature") || crate::text::same_text(kind, "FeatureCollection")
                    || crate::text::same_text(kind, "GeometryCollection") || crate::text::same_text(
                    kind,
                    "LineString",
                ) || crate::text::same_text(kind, "MultiLineString") || crate::text::same_text(
                    kind,
                    "MultiPoint",
                ) || crate::text::same_text(kind, "MultiPolygon") || crate::text::same_text(kind, "Point")
                    || crate::text::same_text(kind, "Polygon")
            },
            _ => false,
        },
        _ => false,
    }
}

/// Whether a JSON text is a `GeoJSON` object as the JSON ingestor reads it: the text parsed by
/// `simd-json` into a `serde_json::Value` (its nesting limit, a repeated member name keeping its
/// last value), and that value deserialized as a `geojson::GeoJson`. A function of the bytes
/// alone.
pub uninterp spec fn parses_as_geojson(bytes: Seq<u8>) -> bool;

/// Whether `simd-json` reads the bytes (a copy, since it parses in place) as a JSON value that
/// `serde_json::from_value` deserializes as a `geojson::GeoJson`. The contract claims only that
/// the answer is [`parses_as_geojson`] of the bytes.
#[verifier::external_body]
fn geojson_parse(bytes: &[u8]) -> (parsed: bool)
    ensures
        parsed == parses_as_geojson(bytes@),
{
    match simd_json::serde::from_slice::<serde_json::Value>(&mut bytes.to_vec()) {
        Ok(value) => serde_json::from_value::<geojson::GeoJson>(value).is_ok(),
        Err(_) => false,
    }
}

/// Whether a JSON document, read from `bytes`, is valid `GeoJSON`: a candidate by its `type`
/// member, and then a `GeoJSON` parse, made for candidates only so that an ordinary document is
/// never parsed twice.
pub fn is_geojson(document: &JsonValue, bytes: &[u8]) -> (geojson: bool)
    ensures
        geojson == ((json_model(*document) matches JsonModel::Object(entries) && lookup(entries, "type"@) matches Some(
            JsonModel::Text(token),
        ) && geojson_type(token)) && parses_as_geojson(bytes@)),
{
    geojson_candidate(document) && geojson_parse(bytes)
}

} // verus!
