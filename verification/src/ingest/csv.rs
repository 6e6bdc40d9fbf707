//! CSV fields read into JSON values, and CSV rows into records.

use crate::ieee::{finite, is_finite};
use crate::record::{insert_all, inserted, json_model, JsonModel, JsonNumber, JsonObject, JsonValue};
use crate::text::{
    chars_of, decimal, digit_char, is_white, push_chars_vec, push_decimal, signed_decimal, text_of, trim_chars,
    trim_end, trim_start, trimmed,
};
use vstd::prelude::*;

verus! {

/// Errors that can occur while parsing CSV input.
#[derive(Debug)]
pub enum CsvIngestError {
    /// The CSV ingestor was handed an in-memory byte payload; it needs a file.
    RequiresFile,
    /// The CSV file could not be opened for reading; the operating system's reason and the path
    /// are kept.
    Open { reason: String, path: String },
    /// The underlying CSV reader failed to build or parse a record; its message is kept.
    Reader(String),
}

/// What an error reports.
pub open spec fn csv_error_message(error: CsvIngestError) -> Seq<char> {
    match error {
        CsvIngestError::RequiresFile => "the CSV ingestor requires a file, not bytes"@,
        CsvIngestError::Open { reason, path } => "could not open the CSV file at '"@ + path@ + "'"@,
        CsvIngestError::Reader(message) => message@,
    }
}

impl CsvIngestError {
    /// What the error reports: for a file that could not be opened, the file it names.
    pub fn describe(&self) -> (message: String)
        ensures
            message@ == csv_error_message(*self),
    {
        match self {
            CsvIngestError::RequiresFile => crate::text::owned("the CSV ingestor requires a file, not bytes"),
            CsvIngestError::Open { reason: _, path } => {
                let mut chars = chars_of("could not open the CSV file at '");
                let path_chars = chars_of(path.as_str());
                push_chars_vec(&mut chars, &path_chars);
                let closing = chars_of("'");
                push_chars_vec(&mut chars, &closing);
                text_of(&chars)
            },
            CsvIngestError::Reader(message) => message.clone(),
        }
    }

    /// The underlying cause: for a file that could not be opened, the operating system's reason.
    pub fn cause(&self) -> (cause: Option<String>)
        ensures
            match *self {
                CsvIngestError::Open { reason, path: _ } => cause matches Some(c) && c@ == reason@,
                _ => cause is None,
            },
    {
        match self {
            CsvIngestError::Open { reason, path: _ } => Some(reason.clone()),
            _ => None,
        }
    }
}

/// A header with each embedded newline folded to a space.
pub open spec fn cleaned_header(header: Seq<char>) -> Seq<char> {
    Seq::new(header.len(), |i: int| if header[i] == '\n' { ' ' } else { header[i] })
}

/// Normalizes a header for use as a record key.
///
/// A quoted header field may hold an embedded newline; folding it to a space keeps the key on one
/// line. The header is otherwise preserved verbatim: its Unicode and punctuation are addressable
/// directly from a mapping, so no transliteration is applied.
pub fn clean_header(header: &str) -> (cleaned: String)
    ensures
        cleaned@ == cleaned_header(header@),
{
    let chars = chars_of(header);
    let mut out: Vec<char> = Vec::new();
    let mut i: usize = 0;
    while i < chars.len()
        invariant
            i <= chars@.len(),
            out@ == cleaned_header(chars@).take(i as int),
        decreases chars@.len() - i,
    {
        let c = chars[i];
        out.push(if c == '\n' { ' ' } else { c });
        assert(cleaned_header(chars@).take(i + 1) =~= cleaned_header(chars@).take(i as int).push(
            cleaned_header(chars@)[i as int],
        ));
        i = i + 1;
    }
    assert(cleaned_header(chars@).take(i as int) =~= cleaned_header(chars@));
    text_of(&out)
}

/// Pairs each header with its cleaned record key.
pub fn create_header_mapping(headers: &Vec<String>) -> (mapping: Vec<(String, String)>)
    ensures
        mapping@.len() == headers@.len(),
        forall|i: int|
            0 <= i < headers@.len() ==> (#[trigger] mapping@[i]).0@ == headers@[i]@ && mapping@[i].1@
                == cleaned_header(headers@[i]@),
{
    let mut mapping: Vec<(String, String)> = Vec::new();
    let mut i: usize = 0;
    while i < headers.len()
        invariant
            i <= headers@.len(),
            mapping@.len() == i,
            forall|j: int|
                0 <= j < i ==> (#[trigger] mapping@[j]).0@ == headers@[j]@ && mapping@[j].1@
                    == cleaned_header(headers@[j]@),
        decreases headers@.len() - i,
    {
        mapping.push((headers[i].clone(), clean_header(headers[i].as_str())));
        i = i + 1;
    }
    mapping
}

/// Whether a character is an ASCII digit.
pub open spec fn is_digit(c: char) -> bool {
    '0' <= c && c <= '9'
}

/// The value of a run of ASCII digits.
pub open spec fn digits_value(digits: Seq<char>) -> int
    decreases digits.len(),
{
    if digits.len() == 0 {
        0
    } else {
        digits_value(digits.drop_last()) * 10 + (digits.last() as int - '0' as int)
    }
}

/// The integer `str::parse::<i64>` reads: an optional `+` or `-`, then one or more ASCII digits,
/// whose value fits an `i64`.
pub open spec fn parsed_integer(text: Seq<char>) -> Option<i64> {
    let digits = sign_stripped(text);
    let negative = text.len() > 0 && text[0] == '-';
    if digits.len() > 0 && forall|i: int| 0 <= i < digits.len() ==> #[trigger] is_digit(digits[i]) {
        let value = if negative { -digits_value(digits) } else { digits_value(digits) };
        if i64::MIN <= value <= i64::MAX {
            Some(value as i64)
        } else {
            None
        }
    } else {
        None
    }
}

/// The digits `str::parse::<i64>` reads: the text after an optional sign.
pub open spec fn sign_stripped(text: Seq<char>) -> Seq<char> {
    if text.len() > 0 && (text[0] == '+' || text[0] == '-') {
        text.drop_first()
    } else {
        text
    }
}

/// A text whose digits hold a non-digit, or whose digits are worth more than `2^63`, is no `i64`.
proof fn lemma_not_integer(text: Seq<char>)
    requires
        !(forall|i: int| 0 <= i < sign_stripped(text).len() ==> #[trigger] is_digit(sign_stripped(text)[i]))
            || digits_value(sign_stripped(text)) > 0x8000_0000_0000_0000,
    ensures
        parsed_integer(text) is None,
{
}

/// Reads an integer the way `str::parse::<i64>` does.
pub fn parse_integer(text: &Vec<char>) -> (value: Option<i64>)
    ensures
        value == parsed_integer(text@),
{
    let n = text.len();
    let signed = n > 0 && (text[0] == '+' || text[0] == '-');
    let negative = n > 0 && text[0] == '-';
    let start: usize = if signed { 1 } else { 0 };
    let ghost digits = if signed { text@.drop_first() } else { text@ };
    if start >= n {
        return None;
    }
    let mut magnitude: u64 = 0;
    let mut i: usize = start;
    while i < n
        invariant
            start <= i <= n,
            n == text@.len(),
            digits == text@.skip(start as int),
            digits == sign_stripped(text@),
            negative == (text@.len() > 0 && text@[0] == '-'),
            forall|k: int| 0 <= k < i - start ==> #[trigger] is_digit(digits[k]),
            magnitude == digits_value(digits.take(i - start)),
            magnitude <= 0x8000_0000_0000_0000u64,
        decreases n - i,
    {
        let c = text[i];
        if !('0' <= c && c <= '9') {
            proof {
                assert(digits[i - start] == text@[i as int]);
                assert(!is_digit(digits[i - start]));
                assert(!(forall|k: int| 0 <= k < digits.len() ==> #[trigger] is_digit(digits[k])));
                lemma_not_integer(text@);
            }
            return None;
        }
        let d = (c as u32 - '0' as u32) as u64;
        assert(digits.take(i - start + 1).drop_last() =~= digits.take(i - start));
        if magnitude > 922337203685477580u64 || (magnitude == 922337203685477580u64 && d > 8) {
            proof {
                let taken = digits.take(i - start + 1);
                assert(taken.drop_last() =~= digits.take(i - start));
                assert(taken.last() == c);
                assert(digits_value(taken) == magnitude * 10 + d);
                assert(digits_value(taken) > 0x8000_0000_0000_0000);
                if forall|k: int| 0 <= k < digits.len() ==> #[trigger] is_digit(digits[k]) {
                    lemma_digits_value_grows(digits, i - start + 1);
                    assert(digits_value(digits) > 0x8000_0000_0000_0000);
                }
                lemma_not_integer(text@);
            }
            return None;
        }
        magnitude = magnitude * 10 + d;
        i = i + 1;
    }
    assert(digits.take(n - start) =~= digits);
    if negative {
        if magnitude == 0x8000_0000_0000_0000u64 {
            Some(i64::MIN)
        } else {
            Some(-(magnitude as i64))
        }
    } else {
        if magnitude > 0x7fff_ffff_ffff_ffffu64 {
            None
        } else {
            Some(magnitude as i64)
        }
    }
}

/// The value of a digit run never falls as digits are added.
proof fn lemma_digits_value_grows(digits: Seq<char>, n: int)
    requires
        0 <= n <= digits.len(),
        forall|i: int| 0 <= i < digits.len() ==> #[trigger] is_digit(digits[i]),
    ensures
        digits_value(digits.take(n)) <= digits_value(digits),
    decreases digits.len() - n,
{
    if n < digits.len() {
        lemma_digits_value_grows(digits, n + 1);
        let longer = digits.take(n + 1);
        assert(longer.drop_last() =~= digits.take(n));
        assert(longer.last() == digits[n]);
        assert(is_digit(digits[n]));
        lemma_digits_value_nonnegative(digits.take(n));
        assert(digits_value(longer) == digits_value(digits.take(n)) * 10 + (digits[n] as int - '0' as int));
    } else {
        assert(digits.take(n) =~= digits);
    }
}

/// The value of a digit run is never negative.
proof fn lemma_digits_value_nonnegative(digits: Seq<char>)
    requires
        forall|i: int| 0 <= i < digits.len() ==> #[trigger] is_digit(digits[i]),
    ensures
        digits_value(digits) >= 0,
    decreases digits.len(),
{
    if digits.len() > 0 {
        assert(is_digit(digits[digits.len() - 1]));
        lemma_digits_value_nonnegative(digits.drop_last());
    }
}

/// A character folded to ASCII lower case.
pub open spec fn ascii_lower(c: char) -> char {
    if 'A' <= c && c <= 'Z' {
        ((c as u32) + 32) as char
    } else {
        c
    }
}

/// Whether two texts are equal ignoring ASCII case, as `str::eq_ignore_ascii_case` compares.
pub open spec fn equal_ignoring_ascii_case(a: Seq<char>, b: Seq<char>) -> bool {
    a.len() == b.len() && forall|i: int| 0 <= i < a.len() ==> ascii_lower(#[trigger] a[i]) == ascii_lower(
        b[i],
    )
}

/// A character folded to ASCII lower case.
fn lower(c: char) -> (l: char)
    ensures
        l == ascii_lower(c),
{
    if 'A' <= c && c <= 'Z' {
        let code = c as u8;
        assert(code == c as u32);
        (code + 32) as char
    } else {
        c
    }
}

/// Whether two texts are equal ignoring ASCII case.
pub fn eq_ignore_ascii_case(a: &Vec<char>, b: &str) -> (same: bool)
    ensures
        same == equal_ignoring_ascii_case(a@, b@),
{
    let other = chars_of(b);
    if a.len() != other.len() {
        return false;
    }
    let mut i: usize = 0;
    while i < a.len()
        invariant
            other@ == b@,
            a@.len() == other@.len(),
            i <= a@.len(),
            forall|j: int| 0 <= j < i ==> ascii_lower(#[trigger] a@[j]) == ascii_lower(other@[j]),
        decreases a@.len() - i,
    {
        if lower(a[i]) != lower(other[i]) {
            return false;
        }
        i = i + 1;
    }
    true
}

/// The value a field that is neither an integer nor a finite float reads as: a boolean word
/// (`true`, `yes`, `on`, `false`, `no`, `off`, in any ASCII case), else the text itself.
pub open spec fn word_value(field: Seq<char>) -> JsonModel {
    if equal_ignoring_ascii_case(field, "true"@) || equal_ignoring_ascii_case(field, "yes"@)
        || equal_ignoring_ascii_case(field, "on"@) {
        JsonModel::Bool(true)
    } else if equal_ignoring_ascii_case(field, "false"@) || equal_ignoring_ascii_case(field, "no"@)
        || equal_ignoring_ascii_case(field, "off"@) {
        JsonModel::Bool(false)
    } else {
        JsonModel::Text(field)
    }
}

/// A trimmed field that keeps its leading zero and so stays text: `0` followed by more, unless it
/// starts `0.`; or a sign, a `0` and anything but a `.` after it.
pub open spec fn keeps_leading_zero(field: Seq<char>) -> bool {
    ||| field.len() > 1 && field[0] == '0' && !(field[1] == '.')
    ||| (field.len() > 2 && (field[0] == '+' || field[0] == '-') && field[1] == '0' && field[2] != '.')
}

/// How a trimmed field reads before any floating-point parse: decided, or still to be tried as a
/// float.
pub open spec fn field_reading(field: Seq<char>) -> Option<JsonModel> {
    if field.len() == 0 {
        Some(JsonModel::Null)
    } else if field == seq!['\\', 'N'] {
        Some(JsonModel::Null)
    } else if keeps_leading_zero(field) {
        Some(JsonModel::Text(field))
    } else {
        match parsed_integer(field) {
            Some(i) => Some(JsonModel::Number(JsonNumber::Integer(i))),
            None => None,
        }
    }
}

/// The value a field reads as, given the bits `float` gives of the float the trimmed field parses
/// to, if any. JSON has no number for an infinity or a NaN, so such a parse reads as no number.
pub open spec fn inferred(field: Seq<char>, float: Option<u64>) -> JsonModel {
    let trimmed_field = trimmed(field);
    match field_reading(trimmed_field) {
        Some(value) => value,
        None => match float {
            Some(bits) => if is_finite(bits) {
                JsonModel::Number(JsonNumber::Float(bits))
            } else {
                word_value(trimmed_field)
            },
            None => word_value(trimmed_field),
        },
    }
}

/// Smart value inference for a CSV field.
///
/// The field is trimmed. An empty field and the `\N` null token of SQL-style dumps are null.
/// Leading-zero numbers are kept as text (identifiers such as postal codes); otherwise integers,
/// finite floats and boolean words are read out, and anything else stays text. `float_of` is the
/// floating-point parse: the bits of the `f64` a text reads as, if any; an infinity or a NaN is
/// no JSON number, so the field is then read as a word.
pub fn infer_value<F: Fn(&str) -> Option<u64>>(field: &str, float_of: F) -> (value: JsonValue)
    requires
        forall|t: &str| float_of.requires((t,)),
    ensures
        field_reading(trimmed(field@)) is Some ==> json_model(value) == inferred(field@, None),
        field_reading(trimmed(field@)) is None ==> exists|t: &str, float: Option<u64>|
            t@ == trimmed(field@) && float_of.ensures((t,), float) && json_model(value) == inferred(
                field@,
                float,
            ),
{
    let chars = chars_of(field);
    let kept = trim_chars(&chars);
    let ghost t = kept@;
    let n = kept.len();
    if n == 0 {
        return JsonValue::Null;
    }
    if n == 2 && kept[0] == '\\' && kept[1] == 'N' {
        assert(t =~= seq!['\\', 'N']);
        return JsonValue::Null;
    }
    if n > 1 && kept[0] == '0' && !(kept[1] == '.') {
        return JsonValue::Text(text_of(&kept));
    }
    if (kept[0] == '+' || kept[0] == '-') && n > 2 && kept[1] == '0' && kept[2] != '.' {
        return JsonValue::Text(text_of(&kept));
    }
    assert(t != seq!['\\', 'N']);
    if let Some(i) = parse_integer(&kept) {
        return JsonValue::Number(JsonNumber::Integer(i));
    }
    let text = text_of(&kept);
    let float = float_of(text.as_str());
    let number = match float {
        Some(bits) => finite(bits),
        None => false,
    };
    match float {
        Some(bits) if number => JsonValue::Number(JsonNumber::Float(bits)),
        _ => {
            if eq_ignore_ascii_case(&kept, "true") || eq_ignore_ascii_case(&kept, "yes")
                || eq_ignore_ascii_case(&kept, "on") {
                JsonValue::Bool(true)
            } else if eq_ignore_ascii_case(&kept, "false") || eq_ignore_ascii_case(&kept, "no")
                || eq_ignore_ascii_case(&kept, "off") {
                JsonValue::Bool(false)
            } else {
                JsonValue::Text(text)
            }
        },
    }
}

/// `value` is what `field` reads as, for some outcome `float_of` may give for the trimmed field.
pub open spec fn infers<F: Fn(&str) -> Option<u64>>(float_of: F, field: Seq<char>, value: JsonModel) -> bool {
    if field_reading(trimmed(field)) is Some {
        value == inferred(field, None)
    } else {
        exists|t: &str, float: Option<u64>|
            t@ == trimmed(field) && float_of.ensures((t,), float) && value == inferred(field, float)
    }
}

/// The record key of a header: the cleaned key the mapping pairs with it (its first pair), or
/// the header itself when the mapping holds none.
pub open spec fn mapped_name(mapping: Seq<(String, String)>, header: Seq<char>) -> Seq<char>
    decreases mapping.len(),
{
    if mapping.len() == 0 {
        header
    } else if mapping[0].0@ == header {
        mapping[0].1@
    } else {
        mapped_name(mapping.drop_first(), header)
    }
}

/// `data` is a row's record data: each field read (by `infers`) into `values`, inserted under
/// `names` in column order.
pub open spec fn keyed_row<F: Fn(&str) -> Option<u64>>(
    float_of: F,
    fields: Seq<Seq<char>>,
    names: Seq<Seq<char>>,
    values: Seq<JsonModel>,
    data: Seq<(Seq<char>, JsonModel)>,
) -> bool {
    &&& values.len() == fields.len()
    &&& names.len() == fields.len()
    &&& forall|i: int| 0 <= i < values.len() ==> infers(float_of, fields[i], #[trigger] values[i])
    &&& data == insert_all(Seq::empty(), keyed(names, values))
}

/// The number of columns a row and a header row share.
pub open spec fn shared_columns(headers: Seq<String>, record: Seq<String>) -> nat {
    if headers.len() < record.len() {
        headers.len()
    } else {
        record.len()
    }
}

/// The texts of the first `n` fields of a row.
pub open spec fn field_texts(record: Seq<String>, n: nat) -> Seq<Seq<char>> {
    Seq::new(n, |i: int| record[i]@)
}

/// The record keys of the first `n` headers.
pub open spec fn header_names(mapping: Seq<(String, String)>, headers: Seq<String>, n: nat) -> Seq<Seq<char>> {
    Seq::new(n, |i: int| mapped_name(mapping, headers[i]@))
}

/// The record keys of the first `n` positions: their decimal renderings.
pub open spec fn position_names(n: nat) -> Seq<Seq<char>> {
    Seq::new(n, |i: int| decimal(i as nat))
}

/// The key and value pairs of a row, inserted in column order.
pub open spec fn keyed(names: Seq<Seq<char>>, values: Seq<JsonModel>) -> Seq<(Seq<char>, JsonModel)> {
    Seq::new(names.len(), |i: int| (names[i], values[i]))
}

/// The record key `header` maps to.
fn map_header(mapping: &Vec<(String, String)>, header: &String) -> (name: String)
    ensures
        name@ == mapped_name(mapping@, header@),
{
    let mut i: usize = 0;
    assert(mapping@.skip(0) =~= mapping@);
    while i < mapping.len()
        invariant
            i <= mapping@.len(),
            mapped_name(mapping@.skip(i as int), header@) == mapped_name(mapping@, header@),
        decreases mapping@.len() - i,
    {
        assert(mapping@.skip(i as int).drop_first() =~= mapping@.skip(i + 1));
        if mapping[i].0 == *header {
            return mapping[i].1.clone();
        }
        i = i + 1;
    }
    assert(mapping@.skip(i as int) =~= Seq::<(String, String)>::empty());
    header.clone()
}

/// Builds a record's data from a header row, keying each value by its header's record key.
///
/// Columns pair up with headers by position; a row longer or shorter than the header row keeps
/// only the columns both have.
pub fn keyed_by_header<F: Fn(&str) -> Option<u64>>(
    headers: &Vec<String>,
    header_mapping: &Vec<(String, String)>,
    record: &Vec<String>,
    float_of: &F,
) -> (data: JsonObject)
    requires
        forall|t: &str| float_of.requires((t,)),
    ensures
        exists|values: Seq<JsonModel>|
            #[trigger] keyed_row(
                *float_of,
                field_texts(
                    record@,
                    shared_columns(headers@, record@),
                ),
                header_names(
                    header_mapping@,
                    headers@,
                    shared_columns(headers@, record@),
                ),
                values,
                data@,
            ),
{
    let count = if headers.len() < record.len() {
        headers.len()
    } else {
        record.len()
    };
    assert(count == shared_columns(headers@, record@));
    let mut data = JsonObject::new();
    let ghost mut values: Seq<JsonModel> = Seq::empty();
    let ghost names = header_names(header_mapping@, headers@, count as nat);
    let mut i: usize = 0;
    while i < count
        invariant
            count <= headers@.len(),
            count <= record@.len(),
            forall|t: &str| float_of.requires((t,)),
            names == header_names(header_mapping@, headers@, count as nat),
            i <= count,
            values.len() == i,
            forall|k: int| 0 <= k < i ==> infers(*float_of, record@[k]@, #[trigger] values[k]),
            data@ == insert_all(Seq::empty(), keyed(names.take(i as int), values)),
        decreases count - i,
    {
        let name = map_header(header_mapping, &headers[i]);
        let value = infer_value(record[i].as_str(), float_of);
        let ghost model = json_model(value);
        assert(infers(*float_of, record@[i as int]@, model));
        let ghost before_values = values;
        proof {
            values = values.push(model);
        }
        assert(keyed(names.take(i + 1), values).drop_last() =~= keyed(names.take(i as int), before_values));
        assert(keyed(names.take(i + 1), values).last() == (name@, model));
        data.insert(name, value);
        i = i + 1;
    }
    assert(names.take(count as int) =~= names);
    assert(keyed_row(*float_of, field_texts(record@, count as nat), names, values, data@));
    data
}

/// Builds a record's data for a headerless source, keying each value by its zero-based column
/// position, so a mapping reads column `n` as `this[n]`.
pub fn keyed_by_position<F: Fn(&str) -> Option<u64>>(record: &Vec<String>, float_of: &F) -> (data: JsonObject)
    requires
        forall|t: &str| float_of.requires((t,)),
    ensures
        exists|values: Seq<JsonModel>|
            #[trigger] keyed_row(
                *float_of,
                field_texts(record@, record@.len()),
                position_names(record@.len()),
                values,
                data@,
            ),
{
    let mut data = JsonObject::new();
    let ghost mut values: Seq<JsonModel> = Seq::empty();
    let ghost names = position_names(record@.len());
    let mut i: usize = 0;
    while i < record.len()
        invariant
            forall|t: &str| float_of.requires((t,)),
            names == position_names(record@.len()),
            i <= record@.len(),
            values.len() == i,
            forall|k: int| 0 <= k < i ==> infers(*float_of, record@[k]@, #[trigger] values[k]),
            data@ == insert_all(Seq::empty(), keyed(names.take(i as int), values)),
        decreases record@.len() - i,
    {
        let mut digits: Vec<char> = Vec::new();
        push_decimal(&mut digits, i as u64);
        let name = text_of(&digits);
        let value = infer_value(record[i].as_str(), float_of);
        let ghost model = json_model(value);
        let ghost before_values = values;
        proof {
            values = values.push(model);
        }
        assert(keyed(names.take(i + 1), values).drop_last() =~= keyed(names.take(i as int), before_values));
        assert(keyed(names.take(i + 1), values).last() == (name@, model));
        data.insert(name, value);
        i = i + 1;
    }
    assert(names.take(i as int) =~= names);
    assert(keyed_row(*float_of, field_texts(record@, record@.len()), names, values, data@));
    data
}

/// A decimal digit's character is a digit worth that digit.
proof fn lemma_digit_char(d: nat)
    requires
        d < 10,
    ensures
        is_digit(digit_char(d)),
        digit_char(d) as int - '0' as int == d,
        d > 0 ==> digit_char(d) != '0',
{
}

/// The decimal rendering of a natural number is a non-empty run of digits worth that number,
/// starting with a zero only when the number is zero.
proof fn lemma_decimal_digits(m: nat)
    ensures
        decimal(m).len() >= 1,
        forall|i: int| 0 <= i < decimal(m).len() ==> #[trigger] is_digit(decimal(m)[i]),
        digits_value(decimal(m)) == m,
        m >= 1 ==> decimal(m)[0] != '0',
    decreases m,
{
    if m < 10 {
        lemma_digit_char(m);
        assert(decimal(m) == seq![digit_char(m)]);
        assert(decimal(m).drop_last() =~= Seq::<char>::empty());
        assert(digits_value(decimal(m).drop_last()) == 0);
        assert(digits_value(decimal(m)) == digits_value(decimal(m).drop_last()) * 10 + (decimal(m).last() as int
            - '0' as int));
    } else {
        lemma_decimal_digits(m / 10);
        lemma_digit_char(m % 10);
        let rest = decimal(m / 10);
        assert(decimal(m) == rest.push(digit_char(m % 10)));
        assert(decimal(m).drop_last() =~= rest);
        assert(decimal(m)[0] == rest[0]);
        assert(digits_value(decimal(m)) == digits_value(rest) * 10 + (digit_char(m % 10) as int - '0' as int));
        assert(m == (m / 10) * 10 + m % 10);
    }
}

/// A text of digits and signs has no white space to trim.
proof fn lemma_trim_keeps(text: Seq<char>)
    requires
        forall|i: int| 0 <= i < text.len() ==> !is_white(#[trigger] text[i]),
    ensures
        trimmed(text) == text,
{
    if text.len() > 0 {
        assert(!is_white(text[0]));
        assert(trim_start(text) == text);
        assert(!is_white(text.last()));
        assert(trim_end(text) == text);
    } else {
        assert(trim_start(text) == text);
        assert(trim_end(text) == text);
    }
}

/// An integer written in decimal reads back as that integer, whatever a floating-point parse
/// would say: the field is neither null, nor a kept leading zero, and parses as an `i64`.
pub proof fn lemma_integer_reads_back(n: i64, float: Option<u64>)
    ensures
        field_reading(signed_decimal(n as int)) == Some(JsonModel::Number(JsonNumber::Integer(n))),
        inferred(signed_decimal(n as int), float) == JsonModel::Number(JsonNumber::Integer(n)),
{
    let text = signed_decimal(n as int);
    if n < 0 {
        let m = (-(n as int)) as nat;
        lemma_decimal_digits(m);
        let digits = decimal(m);
        assert(text == seq!['-'] + digits);
        assert(text.drop_first() =~= digits);
        assert(sign_stripped(text) == digits);
        assert forall|i: int| 0 <= i < text.len() implies !is_white(#[trigger] text[i]) by {
            if i > 0 {
                assert(text[i] == digits[i - 1]);
                assert(is_digit(digits[i - 1]));
            }
        }
        lemma_trim_keeps(text);
        assert(text[1] == digits[0]);
        assert(!keeps_leading_zero(text));
        assert(text != seq!['\\', 'N']) by {
            if text.len() == 2 {
                assert(text[0] == '-');
            }
        }
        assert(parsed_integer(text) == Some(n));
    } else {
        let m = n as nat;
        lemma_decimal_digits(m);
        assert(text == decimal(m));
        assert(sign_stripped(text) == text) by {
            assert(is_digit(text[0]));
        }
        assert forall|i: int| 0 <= i < text.len() implies !is_white(#[trigger] text[i]) by {
            assert(is_digit(text[i]));
        }
        lemma_trim_keeps(text);
        assert(!keeps_leading_zero(text)) by {
            if text.len() > 1 {
                assert(m >= 10) by {
                    if m < 10 {
                        assert(decimal(m).len() == 1);
                    }
                }
            }
            assert(is_digit(text[0]));
        }
        assert(text != seq!['\\', 'N']) by {
            if text.len() == 2 {
                assert(is_digit(text[0]));
            }
        }
        assert(parsed_integer(text) == Some(n));
    }
}

/// A word spelled with letters only (any ASCII case) is neither null, nor a kept leading zero, nor
/// an integer, so it reaches the word reading.
proof fn lemma_letters_read_as_words(field: Seq<char>, word: Seq<char>)
    requires
        equal_ignoring_ascii_case(field, word),
        word.len() > 0,
        forall|i: int| 0 <= i < word.len() ==> 'a' <= #[trigger] word[i] && word[i] <= 'z',
    ensures
        field_reading(field) is None,
{
    assert(ascii_lower(field[0]) == ascii_lower(word[0]));
    assert(!is_digit(field[0]));
    assert(field[0] != '+' && field[0] != '-' && field[0] != '0' && field[0] != '\\');
    assert(sign_stripped(field) == field);
    assert(!(forall|i: int| 0 <= i < field.len() ==> #[trigger] is_digit(field[i])));
}

/// The boolean words read as booleans whatever their ASCII case, once trimmed: `true`, `yes` and
/// `on` as true, `false`, `no` and `off` as false, whenever the text is no finite float (as none of
/// these words is).
pub proof fn lemma_boolean_words(field: Seq<char>, float: Option<u64>)
    requires
        float matches Some(bits) ==> !is_finite(bits),
    ensures
        equal_ignoring_ascii_case(trimmed(field), "true"@) || equal_ignoring_ascii_case(trimmed(field), "yes"@)
            || equal_ignoring_ascii_case(trimmed(field), "on"@) ==> inferred(field, float) == JsonModel::Bool(true),
        equal_ignoring_ascii_case(trimmed(field), "false"@) || equal_ignoring_ascii_case(trimmed(field), "no"@)
            || equal_ignoring_ascii_case(trimmed(field), "off"@) ==> inferred(field, float) == JsonModel::Bool(false),
{
    reveal_strlit("true");
    reveal_strlit("yes");
    reveal_strlit("on");
    reveal_strlit("false");
    reveal_strlit("no");
    reveal_strlit("off");
    let w = trimmed(field);
    assert("true"@ =~= seq!['t', 'r', 'u', 'e']);
    assert("yes"@ =~= seq!['y', 'e', 's']);
    assert("on"@ =~= seq!['o', 'n']);
    assert("false"@ =~= seq!['f', 'a', 'l', 's', 'e']);
    assert("no"@ =~= seq!['n', 'o']);
    assert("off"@ =~= seq!['o', 'f', 'f']);
    if equal_ignoring_ascii_case(w, "true"@) {
        lemma_letters_read_as_words(w, "true"@);
    } else if equal_ignoring_ascii_case(w, "yes"@) {
        lemma_letters_read_as_words(w, "yes"@);
    } else if equal_ignoring_ascii_case(w, "on"@) {
        lemma_letters_read_as_words(w, "on"@);
    } else if equal_ignoring_ascii_case(w, "false"@) {
        lemma_letters_read_as_words(w, "false"@);
    } else if equal_ignoring_ascii_case(w, "no"@) {
        lemma_letters_read_as_words(w, "no"@);
        assert(ascii_lower(w[0]) == 'n');
    } else if equal_ignoring_ascii_case(w, "off"@) {
        lemma_letters_read_as_words(w, "off"@);
        assert(ascii_lower(w[1]) == 'f');
    }
}

} // verus!
