//! ESRI shapefiles turned into records: how a carrier is recognized, how layers are named, and how
//! attribute values become JSON.

use crate::ieee::{finite, is_finite};
use crate::record::{inserted, json_model, JsonModel, JsonNumber, JsonObject, JsonValue, Record};
use crate::ingest::csv::{eq_ignore_ascii_case, equal_ignoring_ascii_case};
use crate::text::{chars_of, owned, push_zero_padded, text_of, zero_padded};
use vstd::prelude::*;

verus! {

/// Errors that can occur while ingesting a shapefile.
#[derive(Debug)]
pub enum ShapefileIngestError {
    /// The shapefile ingestor was handed an in-memory byte payload; it needs files.
    RequiresFile,
    /// The carrier is neither a bare `.shp` nor a zip bundle.
    UnknownCarrier,
    /// A layer has no companion `.dbf` attribute file.
    MissingDbf { layer: String },
    /// No shapefile layer was found in the input.
    NoLayers,
    /// A file could not be read or written; the operating system's reason and the path are kept.
    Io { reason: String, path: String },
    /// The shapefile reader failed; its message is kept.
    Read(String),
    /// The zip bundle could not be opened or extracted; its message is kept.
    Zip(String),
    /// A geometry could not be reprojected; the reason is kept.
    Crs(String),
}

/// How a shapefile arrives: a bare `.shp`, or a zip bundle of one or more layers.
#[derive(Debug)]
pub enum ShapefileSource {
    Bare(String),
    Zip(String),
}

/// The four bytes a zip archive starts with.
pub open spec fn zip_magic() -> Seq<u8> {
    seq![0x50u8, 0x4Bu8, 0x03u8, 0x04u8]
}

/// The four bytes a `.shp` main file starts with: its file code, 9994, big-endian.
pub open spec fn shp_file_code() -> Seq<u8> {
    seq![0x00u8, 0x00u8, 0x27u8, 0x0Au8]
}

/// Whether `bytes` begins with `prefix`.
pub open spec fn starts_with(bytes: Seq<u8>, prefix: Seq<u8>) -> bool {
    bytes.len() >= prefix.len() && bytes.take(prefix.len() as int) == prefix
}

/// Whether `bytes` begins with the four bytes `a b c d`.
fn begins_with(bytes: &[u8], a: u8, b: u8, c: u8, d: u8) -> (result: bool)
    ensures
        result == starts_with(bytes@, seq![a, b, c, d]),
{
    if bytes.len() < 4 {
        return false;
    }
    let result = bytes[0] == a && bytes[1] == b && bytes[2] == c && bytes[3] == d;
    assert(result == (bytes@.take(4) =~= seq![a, b, c, d]));
    result
}

impl ShapefileSource {
    /// Recognizes the carrier by its content, not its name: a zip bundle by the zip magic, a bare
    /// layer by the `.shp` file code. `header` holds up to the first four bytes of the file.
    pub fn from_header(path: String, header: &[u8]) -> (source: Result<ShapefileSource, ShapefileIngestError>)
        ensures
            starts_with(header@, zip_magic()) ==> (source matches Ok(ShapefileSource::Zip(p)) && p@ == path@),
            !starts_with(header@, zip_magic()) && starts_with(header@, shp_file_code()) ==> (source matches Ok(
                ShapefileSource::Bare(p),
            ) && p@ == path@),
            !starts_with(header@, zip_magic()) && !starts_with(header@, shp_file_code()) ==> source matches Err(
                ShapefileIngestError::UnknownCarrier,
            ),
    {
        if begins_with(header, 0x50, 0x4B, 0x03, 0x04) {
            Ok(ShapefileSource::Zip(path))
        } else if begins_with(header, 0x00, 0x00, 0x27, 0x0A) {
            Ok(ShapefileSource::Bare(path))
        } else {
            Err(ShapefileIngestError::UnknownCarrier)
        }
    }
}

/// The ingestor of a shapefile carrier: its source until it is read, and the batch size.
#[derive(Debug)]
pub struct ShapefileIngestor {
    source: Option<ShapefileSource>,
    batch_size: usize,
}

impl ShapefileIngestor {
    /// The source still to be read, if it has not been taken.
    pub closed spec fn unread(&self) -> Option<ShapefileSource> {
        self.source
    }

    /// The number of records per batch.
    pub closed spec fn spec_batch_size(&self) -> usize {
        self.batch_size
    }

    /// An ingestor of `source` emitting batches of `batch_size` records.
    pub fn new(source: ShapefileSource, batch_size: usize) -> (ingestor: ShapefileIngestor)
        ensures
            ingestor.unread() == Some(source),
            ingestor.spec_batch_size() == batch_size,
    {
        ShapefileIngestor { source: Some(source), batch_size }
    }

    /// The number of records per batch.
    pub fn batch_size(&self) -> (size: usize)
        ensures
            size == self.spec_batch_size(),
    {
        self.batch_size
    }

    /// Takes the source to read; an ingestor is read once, so a second take finds none.
    pub fn take_source(&mut self) -> (source: Option<ShapefileSource>)
        ensures
            source == old(self).unread(),
            final(self).unread() is None,
            final(self).spec_batch_size() == old(self).spec_batch_size(),
    {
        self.source.take()
    }
}

/// One shapefile layer: its `.shp` path and the collection its records belong to.
#[derive(Debug)]
pub struct Layer {
    pub shp_path: String,
    pub collection: Option<String>,
}

/// The layers of a zip bundle, given its `.shp` members in order with each one's file stem: a
/// lone layer carries no collection, as a bare layer does not; several layers are each tagged
/// with their stem.
pub fn zip_layers(shp_paths: Vec<(String, Option<String>)>) -> (layers: Result<Vec<Layer>, ShapefileIngestError>)
    ensures
        shp_paths@.len() == 0 ==> layers matches Err(ShapefileIngestError::NoLayers),
        shp_paths@.len() > 0 ==> (layers matches Ok(found) && found@.len() == shp_paths@.len() && forall|i: int|
            0 <= i < found@.len() ==> (#[trigger] found@[i]).shp_path@ == shp_paths@[i].0@ && (if shp_paths@.len()
                == 1 {
                found@[i].collection is None
            } else {
                crate::ingest::kml::optional_text(found@[i].collection) == crate::ingest::kml::optional_text(
                    shp_paths@[i].1,
                )
            })),
{
    let count = shp_paths.len();
    if count == 0 {
        return Err(ShapefileIngestError::NoLayers);
    }
    let single = count == 1;
    let ghost initial = shp_paths@;
    let mut rest = crate::lists::reversed(shp_paths);
    let mut layers: Vec<Layer> = Vec::new();
    while rest.len() > 0
        invariant
            initial.len() == count,
            single == (count == 1),
            layers@.len() + rest@.len() == count,
            forall|k: int| 0 <= k < rest@.len() ==> (#[trigger] rest@[k]) == initial[count - 1 - k],
            forall|i: int|
                0 <= i < layers@.len() ==> (#[trigger] layers@[i]).shp_path@ == initial[i].0@ && (if count
                    == 1 {
                    layers@[i].collection is None
                } else {
                    crate::ingest::kml::optional_text(layers@[i].collection)
                        == crate::ingest::kml::optional_text(initial[i].1)
                }),
        decreases rest@.len(),
    {
        let (shp_path, stem) = rest.pop().unwrap();
        let collection = if single {
            None
        } else {
            stem
        };
        layers.push(Layer { shp_path, collection });
    }
    Ok(layers)
}

/// The position of a file name's final `.`, if it has one.
pub open spec fn last_dot(name: Seq<char>) -> Option<int>
    decreases name.len(),
{
    if name.len() == 0 {
        None
    } else if name.last() == '.' {
        Some(name.len() - 1)
    } else {
        last_dot(name.drop_last())
    }
}

/// A file name's extension as `std::path::Path::extension` reads it: the text after the final
/// `.`; none when the name holds no `.`, or its only `.` is the first character.
pub open spec fn extension_of(name: Seq<char>) -> Option<Seq<char>> {
    match last_dot(name) {
        Some(i) => if i > 0 {
            Some(name.skip(i + 1))
        } else {
            None
        },
        None => None,
    }
}

/// A file name's stem as `std::path::Path::file_stem` reads it: the text before the final `.`,
/// or the whole name when it has no extension.
pub open spec fn stem_of(name: Seq<char>) -> Seq<char> {
    match last_dot(name) {
        Some(i) => if i > 0 {
            name.take(i)
        } else {
            name
        },
        None => name,
    }
}

/// Whether a bundle member is a layer's main file: its extension is `shp`, in any case.
pub open spec fn is_layer_file(name: Seq<char>) -> bool {
    extension_of(name) matches Some(extension) && equal_ignoring_ascii_case(extension, "shp"@)
}

/// The names among `names` that are layer files, in order.
pub open spec fn layer_names(names: Seq<Seq<char>>) -> Seq<Seq<char>>
    decreases names.len(),
{
    if names.len() == 0 {
        Seq::empty()
    } else {
        let rest = layer_names(names.drop_last());
        if is_layer_file(names.last()) {
            rest.push(names.last())
        } else {
            rest
        }
    }
}

/// The names of a bundle's layer files, in the order the bundle lists them.
pub open spec fn layer_files(names: Seq<String>) -> Seq<Seq<char>> {
    layer_names(names.map_values(|name: String| name@))
}

/// Whether `a` sorts no later than `b`, comparing character by character as `String`'s order
/// does.
pub open spec fn text_le(a: Seq<char>, b: Seq<char>) -> bool
    decreases a.len(),
{
    if a.len() == 0 {
        true
    } else if b.len() == 0 {
        false
    } else if a[0] != b[0] {
        (a[0] as int) < (b[0] as int)
    } else {
        text_le(a.drop_first(), b.drop_first())
    }
}

/// Of two texts, one sorts no later than the other.
proof fn lemma_text_le_total(a: Seq<char>, b: Seq<char>)
    ensures
        text_le(a, b) || text_le(b, a),
    decreases a.len(),
{
    if a.len() > 0 && b.len() > 0 && a[0] == b[0] {
        lemma_text_le_total(a.drop_first(), b.drop_first());
    }
}

/// Whether `a` sorts no later than `b`.
fn sorts_before(a: &Vec<char>, b: &Vec<char>) -> (result: bool)
    ensures
        result == text_le(a@, b@),
{
    let mut i: usize = 0;
    assert(a@.skip(0) =~= a@);
    assert(b@.skip(0) =~= b@);
    while i < a.len() && i < b.len()
        invariant
            i <= a@.len(),
            i <= b@.len(),
            text_le(a@.skip(i as int), b@.skip(i as int)) == text_le(a@, b@),
        decreases a@.len() - i,
    {
        assert(a@.skip(i as int)[0] == a@[i as int]);
        assert(b@.skip(i as int)[0] == b@[i as int]);
        if a[i] != b[i] {
            return a[i] < b[i];
        }
        assert(a@.skip(i as int).drop_first() =~= a@.skip(i + 1));
        assert(b@.skip(i as int).drop_first() =~= b@.skip(i + 1));
        i = i + 1;
    }
    assert(a@.skip(i as int).len() == a@.len() - i);
    assert(b@.skip(i as int).len() == b@.len() - i);
    i == a.len()
}

/// The final `.` of a name is a `.`, and no `.` follows it.
proof fn lemma_last_dot(name: Seq<char>)
    ensures
        match last_dot(name) {
            Some(i) => 0 <= i < name.len() && name[i] == '.',
            None => true,
        },
    decreases name.len(),
{
    if name.len() > 0 && name.last() != '.' {
        lemma_last_dot(name.drop_last());
    }
}

/// The position of the final `.` of a name.
fn final_dot(name: &Vec<char>) -> (dot: Option<usize>)
    ensures
        match dot {
            Some(i) => last_dot(name@) == Some(i as int),
            None => last_dot(name@) is None,
        },
{
    let mut n: usize = name.len();
    assert(name@.take(name@.len() as int) =~= name@);
    while n > 0
        invariant
            n <= name@.len(),
            last_dot(name@) == last_dot(name@.take(n as int)),
        decreases n,
    {
        assert(name@.take(n as int).drop_last() =~= name@.take(n - 1));
        if name[n - 1] == '.' {
            return Some(n - 1);
        }
        n = n - 1;
    }
    None
}

/// A file name's stem, and whether the name is a layer's main file.
fn stem_and_kind(name: &str) -> (result: (String, bool))
    ensures
        result.0@ == stem_of(name@),
        result.1 == is_layer_file(name@),
{
    let chars = chars_of(name);
    proof {
        lemma_last_dot(chars@);
    }
    match final_dot(&chars) {
        Some(i) => if i > 0 {
            let mut stem: Vec<char> = Vec::new();
            let mut extension: Vec<char> = Vec::new();
            let mut k: usize = 0;
            while k < chars.len()
                invariant
                    i < chars@.len(),
                    k <= chars@.len(),
                    k <= i ==> stem@ == chars@.take(k as int) && extension@.len() == 0,
                    k > i ==> stem@ == chars@.take(i as int) && extension@ == chars@.subrange(i + 1, k as int),
                decreases chars@.len() - k,
            {
                if k < i {
                    stem.push(chars[k]);
                    assert(chars@.take(k + 1) =~= chars@.take(k as int).push(chars@[k as int]));
                } else if k > i {
                    extension.push(chars[k]);
                    assert(chars@.subrange(i + 1, k + 1) =~= chars@.subrange(i + 1, k as int).push(chars@[k as int]));
                } else {
                    assert(chars@.subrange(i + 1, k + 1) =~= Seq::<char>::empty());
                }
                k = k + 1;
            }
            assert(chars@.subrange(i + 1, chars@.len() as int) =~= chars@.skip(i + 1));
            let layer = eq_ignore_ascii_case(&extension, "shp");
            (text_of(&stem), layer)
        } else {
            (text_of(&chars), false)
        },
        None => (text_of(&chars), false),
    }
}

/// The names of `members`' pairs.
pub open spec fn member_names(members: Seq<(String, String)>) -> Seq<Seq<char>> {
    Seq::new(members.len(), |i: int| members[i].0@)
}

/// The layer files of a zip bundle, given the file names of its members: those whose extension
/// is `shp` in any case, ordered by name, each with its file stem.
pub fn bundle_members(names: Vec<String>) -> (members: Vec<(String, String)>)
    ensures
        member_names(members@).to_multiset() == layer_files(names@).to_multiset(),
        forall|i: int|
            0 <= i < members@.len() - 1 ==> text_le(#[trigger] members@[i].0@, members@[i + 1].0@),
        forall|i: int| 0 <= i < members@.len() ==> (#[trigger] members@[i]).1@ == stem_of(members@[i].0@),
{
    let ghost all = names@.map_values(|name: String| name@);
    let mut members: Vec<(String, String)> = Vec::new();
    let mut i: usize = 0;
    assert(member_names(members@) =~= Seq::<Seq<char>>::empty());
    assert(all.take(0) =~= Seq::<Seq<char>>::empty());
    while i < names.len()
        invariant
            all == names@.map_values(|name: String| name@),
            i <= names@.len(),
            member_names(members@).to_multiset() == layer_names(all.take(i as int)).to_multiset(),
            forall|j: int|
                0 <= j < members@.len() - 1 ==> text_le(#[trigger] members@[j].0@, members@[j + 1].0@),
            forall|j: int| 0 <= j < members@.len() ==> (#[trigger] members@[j]).1@ == stem_of(members@[j].0@),
        decreases names@.len() - i,
    {
        let name = names[i].clone();
        let (stem, layer) = stem_and_kind(name.as_str());
        assert(all.take(i + 1).drop_last() =~= all.take(i as int));
        assert(all.take(i + 1).last() == name@);
        if layer {
            let chars = chars_of(name.as_str());
            let mut k: usize = 0;
            let mut searching = true;
            while searching && k < members.len()
                invariant
                    chars@ == name@,
                    k <= members@.len(),
                    forall|j: int| 0 <= j < k ==> text_le(#[trigger] members@[j].0@, name@),
                    !searching ==> k < members@.len() && !text_le(members@[k as int].0@, name@),
                decreases members@.len() - k + if searching { 1int } else { 0int },
            {
                let other = chars_of(members[k].0.as_str());
                if sorts_before(&other, &chars) {
                    k = k + 1;
                } else {
                    searching = false;
                }
            }
            proof {
                if k < members@.len() {
                    lemma_text_le_total(members@[k as int].0@, name@);
                }
            }
            let ghost names_before = member_names(members@);
            let ghost old_members = members@;
            let ghost name_text = name@;
            members.insert(k, (name, stem));
            assert(member_names(members@) =~= names_before.insert(k as int, name_text));
            proof {
                vstd::seq_lib::to_multiset_insert(names_before, k as int, name_text);
                vstd::seq_lib::to_multiset_build(layer_names(all.take(i as int)), name_text);
                assert forall|j: int| 0 <= j < members@.len() - 1 implies text_le(
                    #[trigger] members@[j].0@,
                    members@[j + 1].0@,
                ) by {
                    if j < k - 1 {
                        assert(members@[j] == old_members[j] && members@[j + 1] == old_members[j + 1]);
                    } else if j == k - 1 {
                        assert(members@[j] == old_members[j] && members@[j + 1].0@ == name_text);
                    } else if j == k {
                        assert(members@[j].0@ == name_text && members@[j + 1] == old_members[j]);
                    } else {
                        assert(members@[j] == old_members[j - 1] && members@[j + 1] == old_members[j]);
                    }
                }
                assert forall|j: int| 0 <= j < members@.len() implies (#[trigger] members@[j]).1@ == stem_of(
                    members@[j].0@,
                ) by {
                    if j < k {
                        assert(members@[j] == old_members[j]);
                    } else if j > k {
                        assert(members@[j] == old_members[j - 1]);
                    }
                }
            }
        }
        i = i + 1;
    }
    assert(all.take(i as int) =~= all);
    members
}

/// The position of the last `/` in a path, if any.
pub open spec fn last_slash(path: Seq<char>) -> Option<int>
    decreases path.len(),
{
    if path.len() == 0 {
        None
    } else if path.last() == '/' {
        Some(path.len() - 1)
    } else {
        last_slash(path.drop_last())
    }
}

/// The text after a path's last `/`, or the whole path when it holds none.
pub open spec fn final_segment(path: Seq<char>) -> Seq<char> {
    match last_slash(path) {
        Some(i) => path.skip(i + 1),
        None => path,
    }
}

/// A path that every platform reads alike, ending in a plain file name: no `\` and no `:` in it
/// (the separator and prefix only some platforms have), and text after its last `/` that is
/// neither empty, `.`, nor `..`.
pub open spec fn plain_file_path(path: Seq<char>) -> bool {
    &&& !path.contains('\\')
    &&& !path.contains(':')
    &&& final_segment(path).len() > 0
    &&& final_segment(path) != seq!['.']
    &&& final_segment(path) != seq!['.', '.']
}

/// The file stem `std::path::Path::file_stem` reads from a path, when it is valid text.
///
/// The documentation of `file_name` and `file_stem` fixes the answer for a path ending in a plain
/// file name: the file name is its final component, the text after its last `/`, and the stem is
/// that name before its final `.`, or the whole name when it holds no `.` or only a leading one.
/// For other paths (a trailing separator, `.` or `..`, or the separators and prefixes only some
/// platforms have) the contract claims only that a stem is a piece of the path's own text.
#[verifier::external_body]
fn path_stem(path: &str) -> (stem: Option<String>)
    ensures
        match stem {
            Some(s) => plain_file_path(path@) ==> s@ == stem_of(final_segment(path@)),
            None => !plain_file_path(path@),
        },
        match stem {
            Some(s) => exists|i: int, j: int|
                0 <= i <= j <= path@.len() && s@ == #[trigger] path@.subrange(i, j),
            None => true,
        },
{
    std::path::Path::new(path).file_stem().and_then(|stem| stem.to_str()).map(str::to_string)
}

/// The label naming a layer in an error: the file stem when it has one, else the whole path.
pub fn label_of(path: &str, stem: Option<String>) -> (label: String)
    ensures
        label@ == match stem {
            Some(s) => s@,
            None => path@,
        },
{
    match stem {
        Some(s) => s,
        None => owned(path),
    }
}

/// The label naming a layer in an error: the file stem of its `.shp` path, or the whole path
/// when it has none. For a path ending in a plain file name, that is the name after the last `/`
/// without its extension.
pub fn layer_label(shp_path: &str) -> (label: String)
    ensures
        plain_file_path(shp_path@) ==> label@ == stem_of(final_segment(shp_path@)),
        exists|i: int, j: int|
            0 <= i <= j <= shp_path@.len() && label@ == #[trigger] shp_path@.subrange(i, j),
{
    let stem = path_stem(shp_path);
    let label = label_of(shp_path, stem);
    assert(shp_path@.subrange(0, shp_path@.len() as int) =~= shp_path@);
    label
}

/// One attribute value read from a `.dbf` table; floating-point values are carried by the bits
/// of their `f64`.
#[derive(Debug)]
pub enum DbfValue {
    Character(Option<String>),
    Memo(String),
    Numeric(Option<u64>),
    Float(Option<u64>),
    Double(u64),
    Currency(u64),
    Integer(i32),
    Logical(Option<bool>),
    /// A calendar date: year, month, day.
    Date(Option<(u32, u32, u32)>),
    /// A date and time of day: year, month, day, hours, minutes, seconds.
    DateTime((u32, u32, u32), (u32, u32, u32)),
}

/// A finite float as a JSON number; nothing for a NaN or an infinity.
pub open spec fn number_value(bits: u64) -> Option<JsonModel> {
    if is_finite(bits) {
        Some(JsonModel::Number(JsonNumber::Float(bits)))
    } else {
        None
    }
}

/// `yyyy-mm-dd`, each component zero-padded.
pub open spec fn date_text(date: (u32, u32, u32)) -> Seq<char> {
    zero_padded(date.0 as nat, 4) + seq!['-'] + zero_padded(date.1 as nat, 2) + seq!['-'] + zero_padded(
        date.2 as nat,
        2,
    )
}

/// `yyyy-mm-ddThh:mm:ss`, each component zero-padded.
pub open spec fn date_time_text(date: (u32, u32, u32), time: (u32, u32, u32)) -> Seq<char> {
    date_text(date) + seq!['T'] + zero_padded(time.0 as nat, 2) + seq![':'] + zero_padded(time.1 as nat, 2)
        + seq![':'] + zero_padded(time.2 as nat, 2)
}

/// The JSON value an attribute becomes, or nothing for an absent or unrepresentable value.
pub open spec fn dbf_json(value: DbfValue) -> Option<JsonModel> {
    match value {
        DbfValue::Character(text) => match text {
            Some(t) => Some(JsonModel::Text(t@)),
            None => None,
        },
        DbfValue::Memo(text) => Some(JsonModel::Text(text@)),
        DbfValue::Numeric(number) => match number {
            Some(bits) => number_value(bits),
            None => None,
        },
        DbfValue::Float(number) => match number {
            Some(bits) => number_value(bits),
            None => None,
        },
        DbfValue::Double(bits) => number_value(bits),
        DbfValue::Currency(bits) => number_value(bits),
        DbfValue::Integer(n) => Some(JsonModel::Number(JsonNumber::Integer(n as i64))),
        DbfValue::Logical(flag) => match flag {
            Some(b) => Some(JsonModel::Bool(b)),
            None => None,
        },
        DbfValue::Date(date) => match date {
            Some(d) => Some(JsonModel::Text(date_text(d))),
            None => None,
        },
        DbfValue::DateTime(date, time) => Some(JsonModel::Text(date_time_text(date, time))),
    }
}

/// A float as a JSON number, or nothing when it is not finite.
fn json_number(bits: u64) -> (value: Option<JsonValue>)
    ensures
        match value {
            Some(v) => number_value(bits) == Some(json_model(v)),
            None => number_value(bits) is None,
        },
{
    if finite(bits) {
        Some(JsonValue::Number(JsonNumber::Float(bits)))
    } else {
        None
    }
}

/// Appends `yyyy-mm-dd`.
fn push_date(chars: &mut Vec<char>, date: (u32, u32, u32))
    ensures
        final(chars)@ == old(chars)@ + date_text(date),
{
    push_zero_padded(chars, date.0 as u64, 4);
    chars.push('-');
    push_zero_padded(chars, date.1 as u64, 2);
    chars.push('-');
    push_zero_padded(chars, date.2 as u64, 2);
    assert(chars@ =~= old(chars)@ + date_text(date));
}

/// Converts one attribute value to JSON, or nothing for an absent or unrepresentable value.
pub fn field_value_to_json(value: DbfValue) -> (json: Option<JsonValue>)
    ensures
        match json {
            Some(v) => dbf_json(value) == Some(json_model(v)),
            None => dbf_json(value) is None,
        },
{
    match value {
        DbfValue::Character(text) => match text {
            Some(t) => Some(JsonValue::Text(t)),
            None => None,
        },
        DbfValue::Memo(text) => Some(JsonValue::Text(text)),
        DbfValue::Numeric(number) => match number {
            Some(bits) => json_number(bits),
            None => None,
        },
        DbfValue::Float(number) => match number {
            Some(bits) => json_number(bits),
            None => None,
        },
        DbfValue::Double(bits) => json_number(bits),
        DbfValue::Currency(bits) => json_number(bits),
        DbfValue::Integer(n) => Some(JsonValue::Number(JsonNumber::Integer(n as i64))),
        DbfValue::Logical(flag) => match flag {
            Some(b) => Some(JsonValue::Bool(b)),
            None => None,
        },
        DbfValue::Date(date) => match date {
            Some(d) => {
                let mut chars: Vec<char> = Vec::new();
                push_date(&mut chars, d);
                Some(JsonValue::Text(text_of(&chars)))
            },
            None => None,
        },
        DbfValue::DateTime(date, time) => {
            let mut chars: Vec<char> = Vec::new();
            push_date(&mut chars, date);
            chars.push('T');
            push_zero_padded(&mut chars, time.0 as u64, 2);
            chars.push(':');
            push_zero_padded(&mut chars, time.1 as u64, 2);
            chars.push(':');
            push_zero_padded(&mut chars, time.2 as u64, 2);
            assert(chars@ =~= date_time_text(date, time));
            Some(JsonValue::Text(text_of(&chars)))
        },
    }
}

/// The `properties` of a feature: each attribute that has a JSON value, in table order.
pub open spec fn attribute_properties(attributes: Seq<(String, DbfValue)>) -> Seq<(Seq<char>, JsonModel)>
    decreases attributes.len(),
{
    if attributes.len() == 0 {
        Seq::empty()
    } else {
        let before = attribute_properties(attributes.drop_last());
        match dbf_json(attributes.last().1) {
            Some(json) => inserted(before, attributes.last().0@, json),
            None => before,
        }
    }
}

/// A feature's record data: its `properties`, then its `geometry` when it has one.
pub open spec fn feature_data(attributes: Seq<(String, DbfValue)>, geometry: Option<JsonModel>) -> Seq<
    (Seq<char>, JsonModel),
> {
    let data = inserted(Seq::empty(), "properties"@, JsonModel::Object(attribute_properties(attributes)));
    match geometry {
        Some(g) => inserted(data, "geometry"@, g),
        None => data,
    }
}

/// Builds the record of one feature from its attributes and its geometry, already written as a
/// `GeoJSON` geometry object (none for a null shape).
pub fn shape_and_record_to_record(
    attributes: Vec<(String, DbfValue)>,
    geometry: Option<JsonValue>,
    collection: Option<String>,
) -> (record: Record)
    ensures
        record@ == (
            crate::record::optional_text(collection),
            feature_data(
                attributes@,
                crate::record::optional_model(geometry),
            ),
        ),
{
    let ghost initial = attributes@;
    let ghost geometry_model = crate::record::optional_model(geometry);
    let total = attributes.len();
    let mut rest = crate::lists::reversed(attributes);
    let mut properties = JsonObject::new();
    let mut done: usize = 0;
    while rest.len() > 0
        invariant
            initial.len() == total,
            done + rest@.len() == total,
            forall|k: int| 0 <= k < rest@.len() ==> (#[trigger] rest@[k]) == initial[total - 1 - k],
            properties@ == attribute_properties(initial.take(done as int)),
        decreases rest@.len(),
    {
        let (name, value) = rest.pop().unwrap();
        assert(initial.take(done + 1).drop_last() =~= initial.take(done as int));
        if let Some(json) = field_value_to_json(value) {
            properties.insert(name, json);
        }
        done = done + 1;
    }
    assert(initial.take(done as int) =~= initial);
    let mut data = JsonObject::new();
    data.insert(owned("properties"), JsonValue::Object(properties));
    if let Some(g) = geometry {
        data.insert(owned("geometry"), g);
    }
    Record::new(collection, data)
}

/// A logical attribute keeps its truth value: a present `true` or `false` becomes that JSON
/// boolean, and appears under the attribute's name in the feature's properties whatever came
/// before it; only an unset logical value is left out.
pub proof fn lemma_logical_attributes_keep_their_value(
    before: Seq<(String, DbfValue)>,
    name: String,
    flag: bool,
)
    ensures
        dbf_json(DbfValue::Logical(Some(flag))) == Some(JsonModel::Bool(flag)),
        dbf_json(DbfValue::Logical(None)) is None,
        crate::record::lookup(attribute_properties(before.push((name, DbfValue::Logical(Some(flag))))), name@)
            == Some(JsonModel::Bool(flag)),
        attribute_properties(before.push((name, DbfValue::Logical(None)))) == attribute_properties(before),
{
    let all = before.push((name, DbfValue::Logical(Some(flag))));
    assert(all.drop_last() =~= before);
    crate::record::lemma_lookup_inserted(attribute_properties(before), name@, JsonModel::Bool(flag), name@);
    assert(before.push((name, DbfValue::Logical(None))).drop_last() =~= before);
}

} // verus!
