//! The pivot of per-parameter GRIB fields into per-location records.

use crate::grib::level::{GribLevel, LevelGroupKey};
use crate::grib::parameter::ParameterName;
use crate::ieee::{is_nan, nan};
use crate::record::{
    copy_value, float_number, optional_model, inserted, insert_number, JsonModel, JsonObject, JsonValue, Record,
};
use crate::lists::{joined, lemma_joined_push, reversed};
use crate::text::owned;
use vstd::prelude::*;

verus! {

/// One decoded GRIB field: a single 2D parameter grid with its coordinates, vertical level and
/// times. Both decoders produce this same shape, and everything downstream is identical for both
/// editions. Coordinates and values are the bits of `f64`s; a bitmap-masked cell is a NaN.
pub struct DecodedField {
    /// A stable per-grid identity: byte-equal identities share geometry and cell ordering.
    pub grid: Vec<u8>,
    /// The parameter this field measures, used as the record column key.
    pub parameter: ParameterName,
    /// Per-cell `(latitude, longitude)` in the grid's scanning order, aligned with `values`.
    pub latlons: Vec<(u64, u64)>,
    /// Per-cell values in the same order as `latlons`.
    pub values: Vec<u64>,
    /// The normalized vertical level, when the field carries one.
    pub level: Option<GribLevel>,
    /// RFC 3339 reference (analysis) time, when present.
    pub reference_time: Option<String>,
    /// RFC 3339 forecast valid time, when present.
    pub forecast_time: Option<String>,
}


/// The identity of a grid slice: its grid bytes, level, reference time and forecast time.
pub type KeyModel = (Seq<u8>, Option<(Seq<char>, Option<u64>)>, Option<Seq<char>>, Option<Seq<char>>);

/// The text of an optional string.
pub open spec fn text_of_option(text: Option<String>) -> Option<Seq<char>> {
    match text {
        Some(s) => Some(s@),
        None => None,
    }
}

/// Identity of a grid slice: GRIB fields sharing all of these describe the same locations at the
/// same level and time, so their parameters pivot into columns of one shared set of records.
///
/// Two fields with byte-equal grid identity have identical geometry and cell ordering, so their
/// values line up cell for cell. The level is held as its float-safe [`LevelGroupKey`].
#[derive(Debug, Clone)]
pub struct GridSliceKey {
    grid: Vec<u8>,
    level: Option<LevelGroupKey>,
    reference_time: Option<String>,
    forecast_time: Option<String>,
}

impl View for GridSliceKey {
    type V = KeyModel;

    closed spec fn view(&self) -> KeyModel {
        (
            self.grid@,
            match self.level {
                Some(level) => Some(level@),
                None => None,
            },
            text_of_option(self.reference_time),
            text_of_option(self.forecast_time),
        )
    }
}

/// Whether two optional texts are equal.
fn same_optional_text(a: &Option<String>, b: &Option<String>) -> (same: bool)
    ensures
        same == (text_of_option(*a) == text_of_option(*b)),
{
    match (a, b) {
        (Some(a), Some(b)) => *a == *b,
        (None, None) => true,
        _ => false,
    }
}

/// Whether two byte strings are equal.
fn same_bytes(a: &Vec<u8>, b: &Vec<u8>) -> (same: bool)
    ensures
        same == (a@ == b@),
{
    if a.len() != b.len() {
        return false;
    }
    let mut i: usize = 0;
    while i < a.len()
        invariant
            a@.len() == b@.len(),
            i <= a@.len(),
            forall|j: int| 0 <= j < i ==> a@[j] == b@[j],
        decreases a@.len() - i,
    {
        if a[i] != b[i] {
            return false;
        }
        i = i + 1;
    }
    assert(a@ =~= b@);
    true
}

impl GridSliceKey {
    /// Builds a slice key from the grid identity bytes, the level grouping key, and the two times.
    pub fn new(
        grid: Vec<u8>,
        level: Option<LevelGroupKey>,
        reference_time: Option<String>,
        forecast_time: Option<String>,
    ) -> (key: GridSliceKey)
        ensures
            key@ == (
                grid@,
                match level {
                    Some(level) => Some(level@),
                    None => None,
                },
                text_of_option(reference_time),
                text_of_option(forecast_time),
            ),
    {
        GridSliceKey { grid, level, reference_time, forecast_time }
    }

    /// Whether two keys identify the same slice.
    pub fn same_as(&self, other: &GridSliceKey) -> (same: bool)
        ensures
            same == (self@ == other@),
    {
        if !same_bytes(&self.grid, &other.grid) {
            return false;
        }
        let levels = match (&self.level, &other.level) {
            (Some(a), Some(b)) => a.same_as(b),
            (None, None) => true,
            _ => false,
        };
        if !levels {
            return false;
        }
        same_optional_text(&self.reference_time, &other.reference_time) && same_optional_text(
            &self.forecast_time,
            &other.forecast_time,
        )
    }
}

/// What a grid slice holds: the cell coordinates, the level, the two times and the parameter
/// columns, each a name and per-cell values.
pub struct SliceModel {
    pub latlons: Seq<(u64, u64)>,
    pub level: Option<(Seq<char>, Option<u64>)>,
    pub reference_time: Option<Seq<char>>,
    pub forecast_time: Option<Seq<char>>,
    pub columns: Seq<(Seq<char>, Seq<u64>)>,
}

/// The parameter columns read as names and value sequences.
pub open spec fn columns_model(columns: Seq<(ParameterName, Vec<u64>)>) -> Seq<(Seq<char>, Seq<u64>)> {
    Seq::new(columns.len(), |i: int| (columns[i].0@, columns[i].1@))
}

/// The parameters present at one cell: each column's value there, in column order, skipping a
/// column with no value at that cell or a NaN one (a masked cell).
pub open spec fn present_at(columns: Seq<(Seq<char>, Seq<u64>)>, index: int) -> Seq<(Seq<char>, u64)>
    decreases columns.len(),
{
    if columns.len() == 0 {
        Seq::empty()
    } else {
        let rest = present_at(columns.drop_last(), index);
        let column = columns.last();
        if 0 <= index < column.1.len() && !is_nan(column.1[index]) {
            rest.push((column.0, column.1[index]))
        } else {
            rest
        }
    }
}

/// The data after inserting a float under `name`, left unchanged when the float is not finite.
pub open spec fn put_number(data: Seq<(Seq<char>, JsonModel)>, name: Seq<char>, bits: u64) -> Seq<
    (Seq<char>, JsonModel),
> {
    match float_number(bits) {
        Some(number) => inserted(data, name, number),
        None => data,
    }
}

/// The data after inserting each present parameter in order.
pub open spec fn put_parameters(data: Seq<(Seq<char>, JsonModel)>, present: Seq<(Seq<char>, u64)>) -> Seq<
    (Seq<char>, JsonModel),
>
    decreases present.len(),
{
    if present.len() == 0 {
        data
    } else {
        put_number(put_parameters(data, present.drop_last()), present.last().0, present.last().1)
    }
}

/// The data after inserting an optional text under `name`.
pub open spec fn put_text(data: Seq<(Seq<char>, JsonModel)>, name: Seq<char>, text: Option<Seq<char>>) -> Seq<
    (Seq<char>, JsonModel),
> {
    match text {
        Some(t) => inserted(data, name, JsonModel::Text(t)),
        None => data,
    }
}

/// The record data of one cell: its coordinates as `latitude` and `longitude`, the level's
/// `level_type` and `level`, the `referenceTime` and `forecastTime`, then each present parameter.
pub open spec fn cell_data(slice: SliceModel, level_value: Option<JsonModel>, index: int) -> Seq<
    (Seq<char>, JsonModel),
> {
    let (latitude, longitude) = slice.latlons[index];
    let located = put_number(put_number(Seq::empty(), "latitude"@, latitude), "longitude"@, longitude);
    let typed = put_text(
        located,
        "level_type"@,
        match slice.level {
            Some(level) => Some(level.0),
            None => None,
        },
    );
    let levelled = match level_value {
        Some(value) => inserted(typed, "level"@, value),
        None => typed,
    };
    let timed = put_text(
        put_text(levelled, "referenceTime"@, slice.reference_time),
        "forecastTime"@,
        slice.forecast_time,
    );
    put_parameters(timed, present_at(slice.columns, index))
}

/// The records of the first `n` cells: one per cell where some parameter is present.
pub open spec fn slice_records(slice: SliceModel, level_value: Option<JsonModel>, n: int) -> Seq<
    (Option<Seq<char>>, Seq<(Seq<char>, JsonModel)>),
>
    decreases n,
{
    if n <= 0 {
        Seq::empty()
    } else {
        let rest = slice_records(slice, level_value, n - 1);
        if present_at(slice.columns, n - 1).len() > 0 {
            rest.push((None, cell_data(slice, level_value, n - 1)))
        } else {
            rest
        }
    }
}

/// A record list read as the records' meanings.
pub open spec fn records_model(records: Seq<Record>) -> Seq<(Option<Seq<char>>, Seq<(Seq<char>, JsonModel)>)> {
    Seq::new(records.len(), |i: int| records[i]@)
}

/// Accumulates every parameter measured on one grid slice, then emits one record per grid cell
/// with each parameter as its own column.
///
/// This is the pivot at the heart of the wide model: a GRIB file stores one field per parameter,
/// but an NGSI-LD observation entity carries all co-located parameters as attributes of a single
/// location.
pub struct GridSlice {
    latlons: Vec<(u64, u64)>,
    level: Option<GribLevel>,
    reference_time: Option<String>,
    forecast_time: Option<String>,
    columns: Vec<(ParameterName, Vec<u64>)>,
}

impl View for GridSlice {
    type V = SliceModel;

    closed spec fn view(&self) -> SliceModel {
        SliceModel {
            latlons: self.latlons@,
            level: match self.level {
                Some(level) => Some(level@),
                None => None,
            },
            reference_time: text_of_option(self.reference_time),
            forecast_time: text_of_option(self.forecast_time),
            columns: columns_model(self.columns@),
        }
    }
}

impl GridSlice {
    /// Starts a slice from its grid's cell coordinates and shared level and times.
    pub fn new(
        latlons: Vec<(u64, u64)>,
        level: Option<GribLevel>,
        reference_time: Option<String>,
        forecast_time: Option<String>,
    ) -> (slice: GridSlice)
        ensures
            slice@ == (SliceModel {
                latlons: latlons@,
                level: match level {
                    Some(level) => Some(level@),
                    None => None,
                },
                reference_time: text_of_option(reference_time),
                forecast_time: text_of_option(forecast_time),
                columns: Seq::empty(),
            }),
    {
        let slice = GridSlice { latlons, level, reference_time, forecast_time, columns: Vec::new() };
        assert(columns_model(slice.columns@) =~= Seq::empty());
        slice
    }

    /// Adds one parameter's decoded values as a column, in the same cell order as the slice's
    /// coordinates.
    pub fn add_parameter(&mut self, name: ParameterName, values: Vec<u64>)
        ensures
            final(self)@ == (SliceModel { columns: old(self)@.columns.push((name@, values@)), ..old(self)@ }),
    {
        let ghost before = columns_model(self.columns@);
        self.columns.push((name, values));
        assert(columns_model(self.columns@) =~= before.push((name@, values@)));
    }

    /// The bits of the slice's numeric level value, when it has one.
    pub fn level_value(&self) -> (value: Option<u64>)
        ensures
            value == match self@.level {
                Some(level) => level.1,
                None => None,
            },
    {
        match &self.level {
            Some(level) => level.value(),
            None => None,
        }
    }

    /// The parameters present at one cell, as column positions and values.
    fn present(&self, index: usize) -> (present: Vec<(usize, u64)>)
        ensures
            present@.len() == present_at(self@.columns, index as int).len(),
            forall|k: int|
                #![trigger present@[k]]
                0 <= k < present@.len() ==> {
                    &&& present@[k].0 < self@.columns.len()
                    &&& (present_at(self@.columns, index as int)[k]) == (
                        self@.columns[present@[k].0 as int].0,
                        present@[k].1,
                    )
                },
    {
        let ghost columns = self@.columns;
        let mut present: Vec<(usize, u64)> = Vec::new();
        let mut c: usize = 0;
        while c < self.columns.len()
            invariant
                columns == columns_model(self.columns@),
                c <= self.columns@.len(),
                present@.len() == present_at(columns.take(c as int), index as int).len(),
                forall|k: int|
                    #![trigger present@[k]]
                    0 <= k < present@.len() ==> {
                        &&& present@[k].0 < c
                        &&& (present_at(columns.take(c as int), index as int)[k]) == (
                            columns[present@[k].0 as int].0,
                            present@[k].1,
                        )
                    },
            decreases self.columns@.len() - c,
        {
            assert(columns.take(c + 1).drop_last() =~= columns.take(c as int));
            let values = &self.columns[c].1;
            if index < values.len() && !nan(values[index]) {
                present.push((c, values[index]));
            }
            c = c + 1;
        }
        assert(columns.take(c as int) =~= columns);
        present
    }

    /// Consumes the slice, producing one record per grid cell that has at least one non-masked
    /// value.
    ///
    /// A parameter is omitted from a record where its value is masked, and a cell where every
    /// parameter is masked yields no record at all. Coordinates are emitted as the separate
    /// `longitude` and `latitude` scalars a mapping composes into a `Point`. `level_value` is the
    /// JSON rendering of the slice's numeric level value, which its caller computes: present
    /// exactly when the slice has a level value, so every record carries the level it was measured
    /// at.
    pub fn into_records(self, level_value: Option<JsonValue>) -> (records: Vec<Record>)
        requires
            level_value is Some <==> self.level_value_spec() is Some,
        ensures
            records_model(records@) == slice_records(
                self@,
                optional_model(level_value),
                self@.latlons.len() as int,
            ),
            forall|i: int| 0 <= i < records@.len() ==> (#[trigger] records@[i]).wf(),
    {
        let ghost model = self@;
        let ghost level_model = optional_model(level_value);
        let mut records: Vec<Record> = Vec::new();
        let mut index: usize = 0;
        while index < self.latlons.len()
            invariant
                model == self@,
                level_model == optional_model(level_value),
                index <= self.latlons@.len(),
                records_model(records@) == slice_records(model, level_model, index as int),
                forall|i: int| 0 <= i < records@.len() ==> (#[trigger] records@[i]).wf(),
            decreases self.latlons@.len() - index,
        {
            let present = self.present(index);
            if present.len() > 0 {
                let data = self.cell(index, &level_value, &present);
                let ghost before = records_model(records@);
                records.push(Record::new(None, data));
                assert(records_model(records@) =~= before.push(
                    (None, cell_data(model, level_model, index as int)),
                ));
            } else {
                assert(records_model(records@) == slice_records(model, level_model, index + 1));
            }
            index = index + 1;
        }
        records
    }

    /// The bits of the slice's numeric level value, when it has one.
    pub open spec fn level_value_spec(&self) -> Option<u64> {
        match self@.level {
            Some(level) => level.1,
            None => None,
        }
    }

    /// The record data of one cell whose present parameters are `present`.
    fn cell(&self, index: usize, level_value: &Option<JsonValue>, present: &Vec<(usize, u64)>) -> (data: JsonObject)
        requires
            index < self@.latlons.len(),
            present@.len() == present_at(self@.columns, index as int).len(),
            forall|k: int|
                #![trigger present@[k]]
                0 <= k < present@.len() ==> {
                    &&& present@[k].0 < self@.columns.len()
                    &&& (present_at(self@.columns, index as int)[k]) == (
                        self@.columns[present@[k].0 as int].0,
                        present@[k].1,
                    )
                },
        ensures
            data.wf(),
            data@ == cell_data(
                self@,
                optional_model(*level_value),
                index as int,
            ),
    {
        let ghost model = self@;
        let ghost level_model = optional_model(*level_value);
        let (latitude, longitude) = self.latlons[index];
        let mut data = JsonObject::new();
        insert_number(&mut data, owned("latitude"), latitude);
        insert_number(&mut data, owned("longitude"), longitude);
        if let Some(level) = &self.level {
            data.insert(owned("level_type"), JsonValue::Text(owned(level.type_token())));
        }
        if let Some(value) = level_value {
            data.insert(owned("level"), copy_value(value));
        }
        if let Some(reference_time) = &self.reference_time {
            data.insert(owned("referenceTime"), JsonValue::Text(reference_time.clone()));
        }
        if let Some(forecast_time) = &self.forecast_time {
            data.insert(owned("forecastTime"), JsonValue::Text(forecast_time.clone()));
        }
        let ghost timed = data@;
        let ghost all = present_at(model.columns, index as int);
        let mut k: usize = 0;
        while k < present.len()
            invariant
                model == self@,
                all == present_at(model.columns, index as int),
                present@.len() == all.len(),
                forall|j: int|
                    #![trigger present@[j]]
                    0 <= j < present@.len() ==> {
                        &&& present@[j].0 < model.columns.len()
                        &&& (all[j]) == (
                            model.columns[present@[j].0 as int].0,
                            present@[j].1,
                        )
                    },
                k <= present@.len(),
                data.wf(),
                data@ == put_parameters(timed, all.take(k as int)),
            decreases present@.len() - k,
        {
            let (column, value) = present[k];
            assert(all.take(k + 1).drop_last() =~= all.take(k as int));
            insert_number(&mut data, owned(self.columns[column].0.as_str()), value);
            k = k + 1;
        }
        assert(all.take(k as int) =~= all);
        data
    }
}

/// The slices after folding in one field's column: the slice with the field's key gains the
/// column, or a new slice of the field's grid, level and times opens with it.
pub open spec fn added(
    slices: Seq<(KeyModel, SliceModel)>,
    key: KeyModel,
    opened: SliceModel,
    column: (Seq<char>, Seq<u64>),
) -> Seq<(KeyModel, SliceModel)> {
    if exists|i: int| 0 <= i < slices.len() && #[trigger] slices[i].0 == key {
        let i = choose|i: int| 0 <= i < slices.len() && #[trigger] slices[i].0 == key;
        slices.update(i, (key, SliceModel { columns: slices[i].1.columns.push(column), ..slices[i].1 }))
    } else {
        slices.push((key, SliceModel { columns: seq![column], ..opened }))
    }
}

/// The key a decoded field groups under.
pub open spec fn field_key(field: DecodedField) -> KeyModel {
    (
        field.grid@,
        match field.level {
            Some(level) => Some(level@),
            None => None,
        },
        text_of_option(field.reference_time),
        text_of_option(field.forecast_time),
    )
}

/// The slice a decoded field opens when its key is new, before its column is added.
pub open spec fn field_slice(field: DecodedField) -> SliceModel {
    SliceModel {
        latlons: field.latlons@,
        level: match field.level {
            Some(level) => Some(level@),
            None => None,
        },
        reference_time: text_of_option(field.reference_time),
        forecast_time: text_of_option(field.forecast_time),
        columns: Seq::empty(),
    }
}

/// Accumulates every decoded field, groups them into grid slices, and yields the slices in the
/// order their keys were first seen.
///
/// A GRIB file stores one field per parameter, but a slice's parameters need not be adjacent in
/// the stream, so fields accumulate until the whole file is read before any record is emitted.
/// The grouping is edition-agnostic: both decoders feed it [`DecodedField`]s.
pub struct GridSliceSet {
    slices: Vec<(GridSliceKey, GridSlice)>,
}

/// The keys and slices of a list of keyed slices.
pub closed spec fn entries(slices: Seq<(GridSliceKey, GridSlice)>) -> Seq<(KeyModel, SliceModel)> {
    Seq::new(slices.len(), |i: int| (slices[i].0@, slices[i].1@))
}

/// No key occurs twice.
pub open spec fn distinct_keys(slices: Seq<(KeyModel, SliceModel)>) -> bool {
    forall|i: int, j: int| 0 <= i < j < slices.len() ==> slices[i].0 != slices[j].0
}

impl View for GridSliceSet {
    type V = Seq<(KeyModel, SliceModel)>;

    closed spec fn view(&self) -> Seq<(KeyModel, SliceModel)> {
        entries(self.slices@)
    }
}

/// The position of the slice with this key, if there is one.
fn position(slices: &Vec<(GridSliceKey, GridSlice)>, key: &GridSliceKey) -> (at: Option<usize>)
    ensures
        match at {
            Some(i) => i < slices@.len() && entries(slices@)[i as int].0 == key@,
            None => forall|j: int| 0 <= j < slices@.len() ==> #[trigger] entries(slices@)[j].0 != key@,
        },
{
    let mut i: usize = 0;
    while i < slices.len()
        invariant
            i <= slices@.len(),
            forall|j: int| 0 <= j < i ==> #[trigger] entries(slices@)[j].0 != key@,
        decreases slices@.len() - i,
    {
        if slices[i].0.same_as(key) {
            return Some(i);
        }
        i = i + 1;
    }
    None
}

impl GridSliceSet {
    /// No key occurs twice.
    #[verifier::type_invariant]
    spec fn keys_distinct(self) -> bool {
        distinct_keys(entries(self.slices@))
    }

    /// No key occurs twice.
    pub open spec fn wf(&self) -> bool {
        distinct_keys(self@)
    }

    /// Creates an empty slice set.
    pub fn new() -> (set: GridSliceSet)
        ensures
            set@ == Seq::<(KeyModel, SliceModel)>::empty(),
            set.wf(),
    {
        let set = GridSliceSet { slices: Vec::new() };
        assert(set@ =~= Seq::<(KeyModel, SliceModel)>::empty());
        set
    }

    /// Adds a decoded field to the slice of its key, opening a new slice for an unseen key.
    pub fn add(&mut self, field: DecodedField)
        ensures
            final(self).wf(),
            final(self)@ == added(
                old(self)@,
                field_key(field),
                field_slice(field),
                (field.parameter@, field.values@),
            ),
    {
        proof {
            use_type_invariant(&*self);
        }
        let ghost before = self@;
        let ghost key_model = field_key(field);
        let ghost opened = field_slice(field);
        let ghost column = (field.parameter@, field.values@);
        let DecodedField { grid, parameter, latlons, values, level, reference_time, forecast_time } =
            field;
        let level_key = match &level {
            Some(level) => Some(level.group_key()),
            None => None,
        };
        let key = GridSliceKey::new(grid, level_key, reference_time.clone(), forecast_time.clone());
        assert(key@ == key_model);
        let mut slices: Vec<(GridSliceKey, GridSlice)> = Vec::new();
        std::mem::swap(&mut self.slices, &mut slices);
        assert(entries(slices@) == before);
        match position(&slices, &key) {
            Some(i) => {
                proof {
                    let k = choose|k: int| 0 <= k < before.len() && #[trigger] before[k].0 == key_model;
                    if k != i {
                        assert(before[k].0 == before[i as int].0);
                    }
                }
                let (existing_key, mut slice) = slices.remove(i);
                slice.add_parameter(parameter, values);
                slices.insert(i, (existing_key, slice));
                assert(entries(slices@) =~= added(before, key_model, opened, column));
                assert forall|a: int, b: int| 0 <= a < b < entries(slices@).len() implies entries(slices@)[a].0
                    != entries(slices@)[b].0 by {
                    assert(entries(slices@)[a].0 == before[a].0);
                    assert(entries(slices@)[b].0 == before[b].0);
                }
            },
            None => {
                let mut slice = GridSlice::new(latlons, level, reference_time, forecast_time);
                slice.add_parameter(parameter, values);
                slices.push((key, slice));
                assert(entries(slices@) =~= added(before, key_model, opened, column));
                assert forall|a: int, b: int| 0 <= a < b < entries(slices@).len() implies entries(slices@)[a].0
                    != entries(slices@)[b].0 by {
                    assert(entries(slices@)[a].0 == before[a].0);
                    if b < before.len() {
                        assert(entries(slices@)[b].0 == before[b].0);
                    } else {
                        assert(entries(slices@)[b].0 == key_model);
                    }
                }
            },
        }
        self.slices = slices;
    }

    /// Consumes the set, yielding its slices in the order their keys were first seen.
    pub fn into_slices(self) -> (slices: Vec<GridSlice>)
        ensures
            slices@.len() == self@.len(),
            forall|i: int| 0 <= i < slices@.len() ==> (#[trigger] slices@[i])@ == self@[i].1,
    {
        let ghost model = self@;
        let mut pairs = self.slices;
        let mut slices: Vec<GridSlice> = Vec::new();
        let ghost total = pairs@.len();
        while pairs.len() > 0
            invariant
                model.len() == total,
                slices@.len() + pairs@.len() == total,
                forall|i: int| 0 <= i < slices@.len() ==> (#[trigger] slices@[i])@ == model[i].1,
                forall|i: int|
                    0 <= i < pairs@.len() ==> (#[trigger] pairs@[i]).1@ == model[slices@.len() + i].1,
            decreases pairs@.len(),
        {
            let ghost before = pairs@;
            let (_key, slice) = pairs.remove(0);
            slices.push(slice);
            assert forall|i: int| 0 <= i < pairs@.len() implies (#[trigger] pairs@[i]).1@ == model[slices@.len() + i].1 by {
                assert(pairs@[i] == before[i + 1]);
            }
        }
        slices
    }
}

/// The records of every slice, slice by slice in order: each slice pivoted with its own rendered
/// level value, which its caller computes and which is present exactly when the slice has a level
/// value.
pub fn pivot_slices(slices: Vec<GridSlice>, levels: Vec<Option<JsonValue>>) -> (records: Vec<Record>)
    requires
        levels@.len() == slices@.len(),
        forall|i: int|
            0 <= i < slices@.len() ==> ((#[trigger] levels@[i]) is Some <==> slices@[i].level_value_spec() is Some),
    ensures
        records_model(records@) == joined(
            Seq::new(
                slices@.len(),
                |i: int| slice_records(slices@[i]@, optional_model(levels@[i]), slices@[i]@.latlons.len() as int),
            ),
        ),
        forall|i: int| 0 <= i < records@.len() ==> (#[trigger] records@[i]).wf(),
{
    let ghost all = Seq::new(
        slices@.len(),
        |i: int| slice_records(slices@[i]@, optional_model(levels@[i]), slices@[i]@.latlons.len() as int),
    );
    let ghost total = slices@.len();
    let ghost slices_model = slices@;
    let ghost levels_model = levels@;
    let mut pending_slices = reversed(slices);
    let mut pending_levels = reversed(levels);
    let mut records: Vec<Record> = Vec::new();
    assert(all.take(0) =~= Seq::<Seq<(Option<Seq<char>>, Seq<(Seq<char>, JsonModel)>)>>::empty());
    assert(records_model(records@) =~= Seq::<(Option<Seq<char>>, Seq<(Seq<char>, JsonModel)>)>::empty());
    while pending_slices.len() > 0
        invariant
            total == slices_model.len(),
            levels_model.len() == total,
            all.len() == total,
            forall|i: int|
                0 <= i < total ==> #[trigger] all[i] == slice_records(
                    slices_model[i]@,
                    optional_model(levels_model[i]),
                    slices_model[i]@.latlons.len() as int,
                ),
            forall|i: int|
                0 <= i < total ==> ((#[trigger] levels_model[i]) is Some <==> slices_model[i].level_value_spec() is Some),
            pending_slices@.len() == pending_levels@.len(),
            pending_slices@.len() <= total,
            forall|k: int|
                0 <= k < pending_slices@.len() ==> #[trigger] pending_slices@[k] == slices_model[total - 1 - k],
            forall|k: int|
                0 <= k < pending_levels@.len() ==> #[trigger] pending_levels@[k] == levels_model[total - 1 - k],
            records_model(records@) == joined(all.take(total - pending_slices@.len())),
            forall|i: int| 0 <= i < records@.len() ==> (#[trigger] records@[i]).wf(),
        decreases pending_slices@.len(),
    {
        let ghost done = total - pending_slices@.len();
        let slice = pending_slices.pop().unwrap();
        let level = pending_levels.pop().unwrap();
        assert(slice == slices_model[done] && level == levels_model[done]);
        let ghost before = records@;
        let mut part = slice.into_records(level);
        let ghost part_model = part@;
        records.append(&mut part);
        proof {
            assert(all.take(done + 1) =~= all.take(done).push(all[done]));
            lemma_joined_push(all.take(done), all[done]);
            assert(records@ =~= before + part_model);
            assert(records_model(records@) =~= records_model(before) + records_model(part_model));
        }
    }
    assert(all.take(total as int) =~= all);
    records
}

/// The keys of keyed slices, in order.
pub open spec fn keys_of(slices: Seq<(KeyModel, SliceModel)>) -> Seq<KeyModel> {
    Seq::new(slices.len(), |i: int| slices[i].0)
}

/// What adding a field does to slices whose keys are distinct: when a slice has the field's key,
/// the field's column is appended as that slice's last column and nothing else changes; else
/// one slice with that key, the field's grid, level and times, and that one column is appended
/// after all the others. The keys stay distinct, in the order they were first seen.
pub proof fn lemma_add_appends_or_opens(
    slices: Seq<(KeyModel, SliceModel)>,
    key: KeyModel,
    opened: SliceModel,
    column: (Seq<char>, Seq<u64>),
)
    requires
        distinct_keys(slices),
    ensures
        forall|i: int|
            0 <= i < slices.len() && #[trigger] slices[i].0 == key ==> added(slices, key, opened, column)
                == slices.update(i, (key, SliceModel { columns: slices[i].1.columns.push(column), ..slices[i].1 })),
        (forall|i: int| 0 <= i < slices.len() ==> #[trigger] slices[i].0 != key) ==> added(
            slices,
            key,
            opened,
            column,
        ) == slices.push((key, SliceModel { columns: seq![column], ..opened })),
        distinct_keys(added(slices, key, opened, column)),
        keys_of(added(slices, key, opened, column)) == if exists|i: int|
            0 <= i < slices.len() && #[trigger] slices[i].0 == key {
            keys_of(slices)
        } else {
            keys_of(slices).push(key)
        },
{
    let result = added(slices, key, opened, column);
    if exists|i: int| 0 <= i < slices.len() && #[trigger] slices[i].0 == key {
        let j = choose|i: int| 0 <= i < slices.len() && #[trigger] slices[i].0 == key;
        assert forall|i: int| 0 <= i < slices.len() && #[trigger] slices[i].0 == key implies i == j by {
            if i < j {
                assert(slices[i].0 != slices[j].0);
            } else if j < i {
                assert(slices[j].0 != slices[i].0);
            }
        }
        assert(keys_of(result) =~= keys_of(slices));
        assert forall|a: int, b: int| 0 <= a < b < result.len() implies result[a].0 != result[b].0 by {
            assert(result[a].0 == slices[a].0 && result[b].0 == slices[b].0);
        }
    } else {
        assert(keys_of(result) =~= keys_of(slices).push(key));
        assert forall|a: int, b: int| 0 <= a < b < result.len() implies result[a].0 != result[b].0 by {
            if b == slices.len() {
                assert(result[a].0 == slices[a].0);
            } else {
                assert(result[a].0 == slices[a].0 && result[b].0 == slices[b].0);
            }
        }
    }
}

/// A parameter is left out of a cell exactly when its value there is masked (a NaN) or missing:
/// every other value at the cell, a zero or an infinity included, is present under its column's
/// name, and everything present is such a value, in column order. So a cell yields a record
/// exactly when some parameter has a value there that is not masked.
pub proof fn lemma_present_exactly_when_unmasked(columns: Seq<(Seq<char>, Seq<u64>)>, index: int)
    ensures
        forall|c: int|
            0 <= c < columns.len() && 0 <= index < columns[c].1.len() && !is_nan(#[trigger] columns[c].1[index])
                ==> present_at(columns, index).contains((columns[c].0, columns[c].1[index])),
        forall|k: int|
            0 <= k < present_at(columns, index).len() ==> exists|c: int|
                0 <= c < columns.len() && 0 <= index < columns[c].1.len() && !is_nan(columns[c].1[index])
                    && #[trigger] present_at(columns, index)[k] == (columns[c].0, columns[c].1[index]),
        present_at(columns, index).len() > 0 <==> exists|c: int|
            0 <= c < columns.len() && 0 <= index < columns[c].1.len() && !is_nan(#[trigger] columns[c].1[index]),
    decreases columns.len(),
{
    if columns.len() > 0 {
        let rest = columns.drop_last();
        lemma_present_exactly_when_unmasked(rest, index);
        let present = present_at(columns, index);
        let before = present_at(rest, index);
        let last = columns.len() - 1;
        assert forall|c: int|
            0 <= c < columns.len() && 0 <= index < columns[c].1.len() && !is_nan(#[trigger] columns[c].1[index])
                implies present.contains((columns[c].0, columns[c].1[index])) by {
            if c < last {
                assert(rest[c] == columns[c]);
                assert(!is_nan(rest[c].1[index]));
                let w = choose|w: int| 0 <= w < before.len() && before[w] == (rest[c].0, rest[c].1[index]);
                assert(present[w] == before[w]);
            } else {
                assert(present[present.len() - 1] == (columns[c].0, columns[c].1[index]));
            }
        }
        assert forall|k: int| 0 <= k < present.len() implies exists|c: int|
            0 <= c < columns.len() && 0 <= index < columns[c].1.len() && !is_nan(columns[c].1[index])
                && #[trigger] present[k] == (columns[c].0, columns[c].1[index]) by {
            if k < before.len() {
                assert(present[k] == before[k]);
                let c = choose|c: int|
                    0 <= c < rest.len() && 0 <= index < rest[c].1.len() && !is_nan(rest[c].1[index])
                        && #[trigger] before[k] == (rest[c].0, rest[c].1[index]);
                assert(rest[c] == columns[c]);
            } else {
                assert(present[k] == (columns[last].0, columns[last].1[index]));
            }
        }
        if exists|c: int|
            0 <= c < columns.len() && 0 <= index < columns[c].1.len() && !is_nan(#[trigger] columns[c].1[index]) {
            let c = choose|c: int|
                0 <= c < columns.len() && 0 <= index < columns[c].1.len() && !is_nan(#[trigger] columns[c].1[index]);
            assert(present.contains((columns[c].0, columns[c].1[index])));
        }
        if present.len() > 0 {
            assert(present[0] == present[0]);
        }
    }
}

} // verus!
