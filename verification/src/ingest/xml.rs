//! XML documents folded into JSON values under the library's convention, and split into records.
//!
//! The fold is schema-less: a name occurring once becomes an object or string and a name occurring
//! N times becomes an array, because XML cannot tell "one" from "an array of one" without a schema.
//! The parser that reads the events lives outside this module; [`XmlFold`] takes them one by one.

use crate::ingest::lone_array::{array_members, element_key, is_element_key, lone_array_member, CandidateKeys, LoneArrayMember};
use crate::lists::reversed;
use crate::record::{
    insert_all, inserted, items_model, json_model, lemma_array_model, lookup, JsonModel, JsonObject, JsonValue,
    Record,
};
use crate::text::{chars_of, owned, push_str, same_text, text_of, trim_chars, trimmed};
use vstd::prelude::*;

verus! {

/// Errors that can occur while parsing XML input.
#[derive(Debug)]
pub enum XmlIngestError {
    /// The XML ingestor was handed an in-memory byte payload; it needs a file.
    RequiresFile,
    /// The XML file could not be read; the operating system's reason and the path are kept.
    Read { reason: String, path: String },
    /// The input is not well-formed XML; the parser's message is kept.
    Parse(String),
    /// An attribute is malformed; the parser's message is kept.
    Attr(String),
    /// The input is not valid in the named encoding.
    Decode(String),
    /// A custom entity was referenced; it is never expanded.
    UnknownEntity(String),
    /// The document had no root element.
    EmptyDocument,
}

/// What an XML error says, with texts as character sequences.
pub enum XmlFailure {
    RequiresFile,
    Read(Seq<char>, Seq<char>),
    Parse(Seq<char>),
    Attr(Seq<char>),
    Decode(Seq<char>),
    UnknownEntity(Seq<char>),
    EmptyDocument,
}

impl View for XmlIngestError {
    type V = XmlFailure;

    open spec fn view(&self) -> XmlFailure {
        match self {
            XmlIngestError::RequiresFile => XmlFailure::RequiresFile,
            XmlIngestError::Read { reason, path } => XmlFailure::Read(reason@, path@),
            XmlIngestError::Parse(message) => XmlFailure::Parse(message@),
            XmlIngestError::Attr(message) => XmlFailure::Attr(message@),
            XmlIngestError::Decode(encoding) => XmlFailure::Decode(encoding@),
            XmlIngestError::UnknownEntity(name) => XmlFailure::UnknownEntity(name@),
            XmlIngestError::EmptyDocument => XmlFailure::EmptyDocument,
        }
    }
}

/// What an XML error reports.
pub open spec fn xml_error_message(error: XmlIngestError) -> Seq<char> {
    match error {
        XmlIngestError::RequiresFile => "the XML ingestor requires a file, not bytes"@,
        XmlIngestError::Read { reason: _, path } => "failed to read the XML input at '"@ + path@ + "'"@,
        XmlIngestError::Parse(message) => message@,
        XmlIngestError::Attr(message) => message@,
        XmlIngestError::Decode(encoding) => "input is not valid "@ + encoding@,
        XmlIngestError::UnknownEntity(name) => "unknown XML entity: "@ + name@,
        XmlIngestError::EmptyDocument => "the XML document had no root element"@,
    }
}

impl XmlIngestError {
    /// What the error reports: for a file that could not be read, the file it names.
    pub fn describe(&self) -> (message: String)
        ensures
            message@ == xml_error_message(*self),
    {
        match self {
            XmlIngestError::RequiresFile => owned("the XML ingestor requires a file, not bytes"),
            XmlIngestError::Read { reason: _, path } => {
                let mut message = owned("failed to read the XML input at '");
                push_str(&mut message, path.as_str());
                push_str(&mut message, "'");
                message
            },
            XmlIngestError::Parse(message) => message.clone(),
            XmlIngestError::Attr(message) => message.clone(),
            XmlIngestError::Decode(encoding) => {
                let mut message = owned("input is not valid ");
                push_str(&mut message, encoding.as_str());
                message
            },
            XmlIngestError::UnknownEntity(name) => {
                let mut message = owned("unknown XML entity: ");
                push_str(&mut message, name.as_str());
                message
            },
            XmlIngestError::EmptyDocument => owned("the XML document had no root element"),
        }
    }

    /// The underlying cause: for a file that could not be read, the operating system's reason.
    pub fn cause(&self) -> (cause: Option<String>)
        ensures
            match *self {
                XmlIngestError::Read { reason, path: _ } => cause matches Some(c) && c@ == reason@,
                _ => cause is None,
            },
    {
        match self {
            XmlIngestError::Read { reason, path: _ } => Some(reason.clone()),
            _ => None,
        }
    }
}

/// What an element under construction holds.
pub struct ElementModel {
    pub name: Seq<char>,
    pub attributes: Seq<(Seq<char>, JsonModel)>,
    pub children: Seq<(Seq<char>, JsonModel)>,
    pub text: Seq<char>,
    pub pis: Seq<JsonModel>,
}

/// The child names in order of first occurrence.
pub open spec fn distinct_names(children: Seq<(Seq<char>, JsonModel)>) -> Seq<Seq<char>>
    decreases children.len(),
{
    if children.len() == 0 {
        Seq::empty()
    } else {
        let names = distinct_names(children.drop_last());
        if names.contains(children.last().0) {
            names
        } else {
            names.push(children.last().0)
        }
    }
}

/// The values of the children named `name`, in document order.
pub open spec fn values_named(children: Seq<(Seq<char>, JsonModel)>, name: Seq<char>) -> Seq<JsonModel>
    decreases children.len(),
{
    if children.len() == 0 {
        Seq::empty()
    } else {
        let values = values_named(children.drop_last(), name);
        if children.last().0 == name {
            values.push(children.last().1)
        } else {
            values
        }
    }
}

/// A single value stays itself; several become an array.
pub open spec fn collapse(values: Seq<JsonModel>) -> JsonModel {
    if values.len() == 1 {
        values[0]
    } else {
        JsonModel::Array(values)
    }
}

/// Child elements grouped by name in document order, a repeated name collapsing into an array.
pub open spec fn grouped(children: Seq<(Seq<char>, JsonModel)>) -> Seq<(Seq<char>, JsonModel)> {
    let names = distinct_names(children);
    Seq::new(names.len(), |i: int| (names[i], collapse(values_named(children, names[i]))))
}

/// An element collapsed into its name and value.
///
/// An element with no attributes, children or processing instructions is a leaf: its trimmed
/// text when non-empty, otherwise null. Anything richer becomes an object holding the
/// `@`-prefixed attributes, a `#text` entry, the grouped child elements, and a `#pi` array.
pub open spec fn finished(element: ElementModel) -> (Seq<char>, JsonModel) {
    let text = trimmed(element.text);
    if element.attributes.len() == 0 && element.children.len() == 0 && element.pis.len() == 0 {
        (element.name, if text.len() == 0 { JsonModel::Null } else { JsonModel::Text(text) })
    } else {
        let attributed = insert_all(Seq::empty(), element.attributes);
        let texted = if text.len() > 0 {
            inserted(attributed, "#text"@, JsonModel::Text(text))
        } else {
            attributed
        };
        let grouped_in = insert_all(texted, grouped(element.children));
        let with_pis = if element.pis.len() > 0 {
            inserted(grouped_in, "#pi"@, JsonModel::Array(element.pis))
        } else {
            grouped_in
        };
        (element.name, JsonModel::Object(with_pis))
    }
}

/// The `@`-prefixed attribute entries of a start tag's raw attributes.
pub open spec fn attribute_entries(attributes: Seq<(Seq<char>, Seq<char>)>) -> Seq<(Seq<char>, JsonModel)> {
    Seq::new(
        attributes.len(),
        |i: int| (seq!['@'] + attributes[i].0, JsonModel::Text(attributes[i].1)),
    )
}

/// An element started from its name and raw attributes, with nothing inside yet.
pub open spec fn opened(name: Seq<char>, attributes: Seq<(Seq<char>, Seq<char>)>) -> ElementModel {
    ElementModel {
        name,
        attributes: attribute_entries(attributes),
        children: Seq::empty(),
        text: Seq::empty(),
        pis: Seq::empty(),
    }
}

/// The value of one processing instruction: its target and its content with white space trimmed.
pub open spec fn pi_model(target: Seq<char>, content: Seq<char>) -> JsonModel {
    JsonModel::Object(
        inserted(
            inserted(Seq::empty(), "target"@, JsonModel::Text(target)),
            "content"@,
            JsonModel::Text(trimmed(content)),
        ),
    )
}

/// The state of a fold: the open elements (the innermost last), the finished root, and the
/// processing instructions outside any element.
pub struct FoldModel {
    pub stack: Seq<ElementModel>,
    pub root: Option<(Seq<char>, JsonModel)>,
    pub document_pis: Seq<JsonModel>,
}

/// A finished element attached to its parent, or made the root when no element is open.
pub open spec fn attached(state: FoldModel, entry: (Seq<char>, JsonModel)) -> FoldModel {
    if state.stack.len() > 0 {
        let parent = state.stack.last();
        FoldModel {
            stack: state.stack.drop_last().push(
                ElementModel { children: parent.children.push(entry), ..parent },
            ),
            ..state
        }
    } else {
        FoldModel { root: Some(entry), ..state }
    }
}

/// Text appended to the innermost open element; text outside any element is ignored.
pub open spec fn with_text(state: FoldModel, text: Seq<char>) -> FoldModel {
    if state.stack.len() > 0 {
        let top = state.stack.last();
        FoldModel {
            stack: state.stack.drop_last().push(ElementModel { text: top.text + text, ..top }),
            ..state
        }
    } else {
        state
    }
}

/// A resolved character or entity reference, or why it could not be resolved.
#[derive(Debug)]
pub enum EntityReference {
    /// A numeric reference or one of the five predefined entities, resolved to its text.
    Resolved(String),
    /// A custom entity, which is never expanded; its name is kept.
    Unknown(String),
}

/// An element under construction as the parser descends through its children.
struct ElementBuilder {
    name: String,
    attributes: Vec<(String, JsonValue)>,
    children: Vec<(String, JsonValue)>,
    text: Vec<char>,
    pis: Vec<JsonValue>,
}

/// Name/value pairs read as their meanings.
pub open spec fn pairs_of(pairs: Seq<(String, JsonValue)>) -> Seq<(Seq<char>, JsonModel)> {
    Seq::new(pairs.len(), |i: int| (pairs[i].0@, json_model(pairs[i].1)))
}

impl ElementBuilder {
    spec fn model(&self) -> ElementModel {
        ElementModel {
            name: self.name@,
            attributes: pairs_of(self.attributes@),
            children: pairs_of(self.children@),
            text: self.text@,
            pis: items_model(self.pis@),
        }
    }

    /// Starts an element from its name and raw attributes, each key `@`-prefixed.
    fn new(name: String, attributes: Vec<(String, String)>) -> (builder: ElementBuilder)
        ensures
            builder.model() == opened(
                name@,
                Seq::new(attributes@.len(), |i: int| (attributes@[i].0@, attributes@[i].1@)),
            ),
    {
        let ghost raw = Seq::new(attributes@.len(), |i: int| (attributes@[i].0@, attributes@[i].1@));
        let mut entries: Vec<(String, JsonValue)> = Vec::new();
        let mut i: usize = 0;
        while i < attributes.len()
            invariant
                raw == Seq::new(attributes@.len(), |i: int| (attributes@[i].0@, attributes@[i].1@)),
                i <= attributes@.len(),
                pairs_of(entries@) == attribute_entries(raw).take(i as int),
            decreases attributes@.len() - i,
        {
            let mut key: Vec<char> = Vec::new();
            key.push('@');
            let rest = chars_of(attributes[i].0.as_str());
            crate::text::push_chars_vec(&mut key, &rest);
            let value = JsonValue::Text(attributes[i].1.clone());
            let ghost before = pairs_of(entries@);
            entries.push((text_of(&key), value));
            assert(pairs_of(entries@) =~= before.push(attribute_entries(raw)[i as int]));
            assert(attribute_entries(raw).take(i + 1) =~= attribute_entries(raw).take(i as int).push(
                attribute_entries(raw)[i as int],
            ));
            i = i + 1;
        }
        assert(attribute_entries(raw).take(i as int) =~= attribute_entries(raw));
        let builder = ElementBuilder {
            name,
            attributes: entries,
            children: Vec::new(),
            text: Vec::new(),
            pis: Vec::new(),
        };
        assert(pairs_of(builder.children@) =~= Seq::empty());
        assert(items_model(builder.pis@) =~= Seq::empty());
        builder
    }

    /// Collapses the element into its name and value.
    fn finish(self) -> (entry: (String, JsonValue))
        ensures
            (entry.0@, json_model(entry.1)) == finished(self.model()),
    {
        let ghost model = self.model();
        let ElementBuilder { name, attributes, children, text, pis } = self;
        let trimmed_text = trim_chars(&text);
        if attributes.len() == 0 && children.len() == 0 && pis.len() == 0 {
            let value = if trimmed_text.len() == 0 {
                JsonValue::Null
            } else {
                JsonValue::Text(text_of(&trimmed_text))
            };
            return (name, value);
        }
        let mut map = JsonObject::new();
        let ghost attribute_pairs = pairs_of(attributes@);
        let attributes = reversed(attributes);
        let mut attributes = attributes;
        let ghost total = attributes@.len();
        while attributes.len() > 0
            invariant
                total == attribute_pairs.len(),
                attributes@.len() <= total,
                forall|k: int|
                    0 <= k < attributes@.len() ==> (#[trigger] attributes@[k]).0@ == attribute_pairs[total
                        - 1 - k].0 && json_model(attributes@[k].1) == attribute_pairs[total - 1 - k].1,
                map@ == insert_all(Seq::empty(), attribute_pairs.take(total - attributes@.len())),
            decreases attributes@.len(),
        {
            let ghost done: int = total - attributes@.len();
            let (key, value) = attributes.pop().unwrap();
            assert(attribute_pairs.take(done + 1).drop_last() =~= attribute_pairs.take(done));
            map.insert(key, value);
        }
        assert(attribute_pairs.take(total as int) =~= attribute_pairs);
        if trimmed_text.len() > 0 {
            map.insert(owned("#text"), JsonValue::Text(text_of(&trimmed_text)));
        }
        let groups = group_children(children);
        let ghost grouped_pairs = pairs_of(groups@);
        let ghost texted = map@;
        let mut groups = reversed(groups);
        let ghost count = groups@.len();
        while groups.len() > 0
            invariant
                count == grouped_pairs.len(),
                groups@.len() <= count,
                forall|k: int|
                    0 <= k < groups@.len() ==> (#[trigger] groups@[k]).0@ == grouped_pairs[count - 1
                        - k].0 && json_model(groups@[k].1) == grouped_pairs[count - 1 - k].1,
                map@ == insert_all(texted, grouped_pairs.take(count - groups@.len())),
            decreases groups@.len(),
        {
            let ghost done: int = count - groups@.len();
            let (key, value) = groups.pop().unwrap();
            assert(grouped_pairs.take(done + 1).drop_last() =~= grouped_pairs.take(done));
            map.insert(key, value);
        }
        assert(grouped_pairs.take(count as int) =~= grouped_pairs);
        if pis.len() > 0 {
            proof {
                lemma_array_model(pis);
            }
            map.insert(owned("#pi"), JsonValue::Array(pis));
        }
        (name, JsonValue::Object(map))
    }
}

/// A name that does not occur among the distinct names has no values.
proof fn lemma_values_named_absent(children: Seq<(Seq<char>, JsonModel)>, name: Seq<char>)
    requires
        !distinct_names(children).contains(name),
    ensures
        values_named(children, name) == Seq::<JsonModel>::empty(),
    decreases children.len(),
{
    if children.len() > 0 {
        let names = distinct_names(children.drop_last());
        if !names.contains(children.last().0) {
            assert(distinct_names(children) == names.push(children.last().0));
            assert(distinct_names(children)[names.len() as int] == children.last().0);
            if children.last().0 == name {
                assert(distinct_names(children).contains(name));
            }
        }
        if names.contains(name) {
            let k = choose|k: int| 0 <= k < names.len() && names[k] == name;
            assert(distinct_names(children)[k] == name);
        }
        lemma_values_named_absent(children.drop_last(), name);
    }
}

/// No name occurs twice among the distinct names.
proof fn lemma_distinct_names_unique(children: Seq<(Seq<char>, JsonModel)>)
    ensures
        forall|i: int, j: int|
            0 <= i < j < distinct_names(children).len() ==> distinct_names(children)[i]
                != distinct_names(children)[j],
    decreases children.len(),
{
    if children.len() > 0 {
        lemma_distinct_names_unique(children.drop_last());
        let names = distinct_names(children.drop_last());
        if !names.contains(children.last().0) {
            assert forall|i: int, j: int|
                0 <= i < j < distinct_names(children).len() implies distinct_names(children)[i]
                != distinct_names(children)[j] by {
                if j == names.len() {
                    assert(distinct_names(children)[i] == names[i]);
                    assert(distinct_names(children)[j] == children.last().0);
                }
            }
        }
    }
}

/// The position of the name among `names`, if it occurs.
fn find_name(names: &Vec<String>, name: &String) -> (at: Option<usize>)
    ensures
        match at {
            Some(g) => g < names@.len() && names@[g as int]@ == name@,
            None => forall|j: int| 0 <= j < names@.len() ==> (#[trigger] names@[j])@ != name@,
        },
{
    let mut g: usize = 0;
    while g < names.len()
        invariant
            g <= names@.len(),
            forall|j: int| 0 <= j < g ==> (#[trigger] names@[j])@ != name@,
        decreases names@.len() - g,
    {
        if names[g] == *name {
            return Some(g);
        }
        g = g + 1;
    }
    None
}

/// Groups child elements by name in document order, collapsing a name that repeats into an array.
///
/// A single occurrence stays an object or string and a repeated name becomes an array: the
/// record-splitting convention keys off exactly this "a child element repeated" signal.
fn group_children(children: Vec<(String, JsonValue)>) -> (groups: Vec<(String, JsonValue)>)
    ensures
        pairs_of(groups@) == grouped(pairs_of(children@)),
{
    let ghost all = pairs_of(children@);
    let mut rest = reversed(children);
    let ghost total = rest@.len();
    let mut names: Vec<String> = Vec::new();
    let mut values: Vec<Vec<JsonValue>> = Vec::new();
    assert(distinct_names(all.take(0)) =~= Seq::<Seq<char>>::empty());
    assert(Seq::new(names@.len(), |i: int| names@[i]@) =~= Seq::<Seq<char>>::empty());
    while rest.len() > 0
        invariant
            total == all.len(),
            rest@.len() <= total,
            forall|k: int|
                0 <= k < rest@.len() ==> (#[trigger] rest@[k]).0@ == all[total - 1 - k].0 && json_model(
                    rest@[k].1,
                ) == all[total - 1 - k].1,
            names@.len() == values@.len(),
            Seq::new(names@.len(), |i: int| names@[i]@) == distinct_names(all.take(total - rest@.len())),
            forall|i: int|
                0 <= i < values@.len() ==> items_model((#[trigger] values@[i])@) == values_named(
                    all.take(total - rest@.len()),
                    names@[i]@,
                ),
        decreases rest@.len(),
    {
        let ghost done: int = total - rest@.len();
        let ghost prefix = all.take(done);
        let ghost distinct = Seq::new(names@.len(), |i: int| names@[i]@);
        let ghost old_values = values@;
        assert(rest@[rest@.len() - 1].0@ == all[done].0);
        let (name, value) = rest.pop().unwrap();
        let ghost extended = all.take(done + 1);
        assert(extended.drop_last() =~= prefix);
        assert(extended.last() == (name@, json_model(value)));
        match find_name(&names, &name) {
            Some(g) => {
                assert(distinct[g as int] == name@);
                assert(distinct.contains(name@));
                let mut bucket: Vec<JsonValue> = Vec::new();
                std::mem::swap(&mut values[g], &mut bucket);
                let ghost before_bucket = items_model(bucket@);
                bucket.push(value);
                assert(items_model(bucket@) =~= before_bucket.push(json_model(value)));
                values.set(g, bucket);
                assert(Seq::new(names@.len(), |i: int| names@[i]@) =~= distinct);
                assert forall|i: int| 0 <= i < values@.len() implies items_model(
                    (#[trigger] values@[i])@,
                ) == values_named(extended, names@[i]@) by {
                    if i != g {
                        assert(values@[i] == old_values[i]);
                        assert(distinct[i] != distinct[g as int]) by {
                            lemma_distinct_names_unique(prefix);
                        }
                    }
                }
            },
            None => {
                assert(!distinct.contains(name@));
                proof {
                    lemma_values_named_absent(prefix, name@);
                }
                let mut bucket: Vec<JsonValue> = Vec::new();
                bucket.push(value);
                names.push(name);
                values.push(bucket);
                assert(Seq::new(names@.len(), |i: int| names@[i]@) =~= distinct.push(name@));
            },
        }
    }
    assert(all.take(total as int) =~= all);
    let ghost names_model = Seq::new(names@.len(), |i: int| names@[i]@);
    let mut names = reversed(names);
    let mut values = reversed(values);
    let ghost count = names@.len();
    let mut groups: Vec<(String, JsonValue)> = Vec::new();
    while names.len() > 0
        invariant
            names_model == distinct_names(all),
            count == names_model.len(),
            names@.len() == values@.len(),
            groups@.len() + names@.len() == count,
            forall|k: int| 0 <= k < names@.len() ==> (#[trigger] names@[k])@ == names_model[count - 1 - k],
            forall|k: int|
                0 <= k < values@.len() ==> items_model((#[trigger] values@[k])@) == values_named(
                    all,
                    names_model[count - 1 - k],
                ),
            pairs_of(groups@) == grouped(all).take(groups@.len() as int),
        decreases names@.len(),
    {
        let done = groups.len();
        let name = names.pop().unwrap();
        let mut bucket = values.pop().unwrap();
        let ghost bucket_model = items_model(bucket@);
        let value = if bucket.len() == 1 {
            let single = bucket.pop().unwrap();
            assert(json_model(single) == bucket_model[0]);
            single
        } else {
            proof {
                lemma_array_model(bucket);
            }
            JsonValue::Array(bucket)
        };
        let ghost before = pairs_of(groups@);
        groups.push((name, value));
        assert(pairs_of(groups@) =~= before.push(grouped(all)[done as int]));
        assert(grouped(all).take(done + 1) =~= grouped(all).take(done as int).push(grouped(all)[done as int]));
    }
    assert(grouped(all).take(count as int) =~= grouped(all));
    groups
}

/// The fold of an XML document, fed one parser event at a time.
///
/// Elements are collected on a stack as the parser descends; an element is collapsed into its
/// value when it ends and attached to its parent, or becomes the document root. Comments,
/// declarations and doctypes carry nothing the fold keeps, so they have no method here.
pub struct XmlFold {
    stack: Vec<ElementBuilder>,
    root: Option<(String, JsonValue)>,
    document_pis: Vec<JsonValue>,
}

/// The meaning of an optional finished element.
pub open spec fn root_model(root: Option<(String, JsonValue)>) -> Option<(Seq<char>, JsonModel)> {
    match root {
        Some((name, value)) => Some((name@, json_model(value))),
        None => None,
    }
}

/// The raw attributes of a start tag read as texts.
pub open spec fn raw_attributes(attributes: Seq<(String, String)>) -> Seq<(Seq<char>, Seq<char>)> {
    Seq::new(attributes.len(), |i: int| (attributes[i].0@, attributes[i].1@))
}

impl View for XmlFold {
    type V = FoldModel;

    closed spec fn view(&self) -> FoldModel {
        FoldModel {
            stack: Seq::new(self.stack@.len(), |i: int| self.stack@[i].model()),
            root: root_model(self.root),
            document_pis: items_model(self.document_pis@),
        }
    }
}

impl XmlFold {
    /// A fold that has seen nothing yet.
    pub fn new() -> (fold: XmlFold)
        ensures
            fold@.stack.len() == 0,
            fold@.root is None,
            fold@.document_pis.len() == 0,
    {
        XmlFold { stack: Vec::new(), root: None, document_pis: Vec::new() }
    }

    /// Attaches a finished element to the innermost open element, or makes it the root.
    fn attach(&mut self, name: String, value: JsonValue)
        ensures
            final(self)@ == attached(old(self)@, (name@, json_model(value))),
    {
        let ghost before = self@;
        let n = self.stack.len();
        if n > 0 {
            let mut top = self.stack.pop().unwrap();
            let ghost children = pairs_of(top.children@);
            top.children.push((name, value));
            assert(pairs_of(top.children@) =~= children.push((name@, json_model(value))));
            self.stack.push(top);
            assert(self@.stack =~= before.stack.drop_last().push(
                ElementModel { children: before.stack.last().children.push((name@, json_model(value))), ..before.stack.last() },
            ));
        } else {
            self.root = Some((name, value));
        }
    }

    /// A start tag: an element with this name and these raw attributes opens.
    pub fn start(&mut self, name: String, attributes: Vec<(String, String)>)
        ensures
            final(self)@ == (FoldModel {
                stack: old(self)@.stack.push(opened(name@, raw_attributes(attributes@))),
                ..old(self)@
            }),
    {
        let ghost before = self@;
        let builder = ElementBuilder::new(name, attributes);
        self.stack.push(builder);
        assert(self@.stack =~= before.stack.push(opened(name@, raw_attributes(attributes@))));
    }

    /// A self-closing tag: an element with this name and these raw attributes, and nothing inside.
    pub fn empty(&mut self, name: String, attributes: Vec<(String, String)>)
        ensures
            final(self)@ == attached(old(self)@, finished(opened(name@, raw_attributes(attributes@)))),
    {
        let builder = ElementBuilder::new(name, attributes);
        let (name, value) = builder.finish();
        self.attach(name, value);
    }

    /// An end tag: the innermost open element is finished and attached. The parser checks that
    /// tags match, so an end tag with no open element changes nothing.
    pub fn end(&mut self)
        ensures
            old(self)@.stack.len() > 0 ==> final(self)@ == attached(
                FoldModel { stack: old(self)@.stack.drop_last(), ..old(self)@ },
                finished(old(self)@.stack.last()),
            ),
            old(self)@.stack.len() == 0 ==> final(self)@ == old(self)@,
    {
        let ghost before = self@;
        match self.stack.pop() {
            Some(builder) => {
                assert(self@.stack =~= before.stack.drop_last());
                let (name, value) = builder.finish();
                self.attach(name, value);
            },
            None => {},
        }
    }

    /// Text, already decoded, appended to the innermost open element.
    pub fn text(&mut self, text: &str)
        ensures
            final(self)@ == with_text(old(self)@, text@),
    {
        let ghost before = self@;
        let n = self.stack.len();
        if n > 0 {
            let mut top = self.stack.pop().unwrap();
            let chars = chars_of(text);
            crate::text::push_chars_vec(&mut top.text, &chars);
            self.stack.push(top);
            assert(self@.stack =~= before.stack.drop_last().push(
                ElementModel { text: before.stack.last().text + text@, ..before.stack.last() },
            ));
        }
    }

    /// A character or entity reference, by the name written between `&` and `;`. A numeric or
    /// predefined one appends its text to the innermost open element; a custom entity is refused,
    /// never expanded, as is a numeric reference that names no character. A reference outside
    /// any element is ignored, as bare text is, whatever it is.
    pub fn reference(&mut self, name: &str) -> (result: Result<(), XmlIngestError>)
        ensures
            old(self)@.stack.len() == 0 ==> result is Ok && final(self)@ == old(self)@,
            old(self)@.stack.len() > 0 ==> match reference_resolution(name@) {
                Ok(text) => result is Ok && final(self)@ == with_text(old(self)@, text),
                Err(failure) => result matches Err(error) && error@ == failure,
            },
    {
        if self.stack.len() == 0 {
            return Ok(());
        }
        match resolve_reference(name) {
            Ok(EntityReference::Resolved(text)) => {
                self.text(text.as_str());
                Ok(())
            },
            Ok(EntityReference::Unknown(unknown)) => Err(XmlIngestError::UnknownEntity(unknown)),
            Err(error) => Err(error),
        }
    }

    /// A processing instruction: its target and content, kept on the innermost open element or,
    /// outside any element, on the document.
    pub fn processing_instruction(&mut self, target: &str, content: &str)
        ensures
            old(self)@.stack.len() > 0 ==> final(self)@ == (FoldModel {
                stack: old(self)@.stack.drop_last().push(
                    ElementModel {
                        pis: old(self)@.stack.last().pis.push(pi_model(target@, content@)),
                        ..old(self)@.stack.last()
                    },
                ),
                ..old(self)@
            }),
            old(self)@.stack.len() == 0 ==> final(self)@ == (FoldModel {
                document_pis: old(self)@.document_pis.push(pi_model(target@, content@)),
                ..old(self)@
            }),
    {
        let ghost before = self@;
        let mut map = JsonObject::new();
        map.insert(owned("target"), JsonValue::Text(owned(target)));
        map.insert(owned("content"), JsonValue::Text(crate::text::trim_text(content)));
        let value = JsonValue::Object(map);
        assert(json_model(value) == pi_model(target@, content@));
        let n = self.stack.len();
        if n > 0 {
            let mut top = self.stack.pop().unwrap();
            let ghost pis = items_model(top.pis@);
            top.pis.push(value);
            assert(items_model(top.pis@) =~= pis.push(pi_model(target@, content@)));
            self.stack.push(top);
            assert(self@.stack =~= before.stack.drop_last().push(
                ElementModel {
                    pis: before.stack.last().pis.push(pi_model(target@, content@)),
                    ..before.stack.last()
                },
            ));
        } else {
            let ghost pis = items_model(self.document_pis@);
            self.document_pis.push(value);
            assert(items_model(self.document_pis@) =~= pis.push(pi_model(target@, content@)));
        }
    }

    /// The folded document: an object keyed by the root element's name, with a `#pi` entry for
    /// the processing instructions outside any element, or the refusal of a document with no root.
    pub fn finish(self) -> (document: Result<JsonValue, XmlIngestError>)
        ensures
            match self@.root {
                Some(root) => document matches Ok(value) && json_model(value) == JsonModel::Object(
                    if self@.document_pis.len() > 0 {
                        inserted(
                            inserted(Seq::empty(), root.0, root.1),
                            "#pi"@,
                            JsonModel::Array(self@.document_pis),
                        )
                    } else {
                        inserted(Seq::empty(), root.0, root.1)
                    },
                ),
                None => document matches Err(XmlIngestError::EmptyDocument),
            },
    {
        let ghost model = self@;
        let XmlFold { stack: _, root, document_pis } = self;
        match root {
            Some((name, value)) => {
                let mut document = JsonObject::new();
                document.insert(name, value);
                if document_pis.len() > 0 {
                    proof {
                        lemma_array_model(document_pis);
                    }
                    document.insert(owned("#pi"), JsonValue::Array(document_pis));
                }
                Ok(JsonValue::Object(document))
            },
            None => Err(XmlIngestError::EmptyDocument),
        }
    }
}

/// The encoding a byte-order mark at the start of the input names, and the mark's length:
/// `EF BB BF` is UTF-8, `FF FE` UTF-16LE, `FE FF` UTF-16BE.
pub open spec fn bom_named(bytes: Seq<u8>) -> Option<(Seq<char>, nat)> {
    if bytes.len() >= 3 && bytes[0] == 0xEFu8 && bytes[1] == 0xBBu8 && bytes[2] == 0xBFu8 {
        Some(("UTF-8"@, 3))
    } else if bytes.len() >= 2 && bytes[0] == 0xFFu8 && bytes[1] == 0xFEu8 {
        Some(("UTF-16LE"@, 2))
    } else if bytes.len() >= 2 && bytes[0] == 0xFEu8 && bytes[1] == 0xFFu8 {
        Some(("UTF-16BE"@, 2))
    } else {
        None
    }
}

/// The byte-order mark at the start of the input, as `encoding_rs::Encoding::for_bom` reads it:
/// the name of the encoding it marks and its length. That function is these three prefix tests,
/// in order, and nothing more, so it is written and proved here.
fn byte_order_mark(bytes: &[u8]) -> (found: Option<(String, usize)>)
    ensures
        match found {
            Some((name, length)) => bom_named(bytes@) == Some((name@, length as nat)),
            None => bom_named(bytes@) is None,
        },
{
    let n = bytes.len();
    if n >= 3 && bytes[0] == 0xEFu8 && bytes[1] == 0xBBu8 && bytes[2] == 0xBFu8 {
        Some((owned("UTF-8"), 3))
    } else if n >= 2 && bytes[0] == 0xFFu8 && bytes[1] == 0xFEu8 {
        Some((owned("UTF-16LE"), 2))
    } else if n >= 2 && bytes[0] == 0xFEu8 && bytes[1] == 0xFFu8 {
        Some((owned("UTF-16BE"), 2))
    } else {
        None
    }
}

/// The label the `encoding` attribute of the XML declaration opening a document gives, as
/// `quick-xml` reads the document's first event: a function of the bytes alone.
pub uninterp spec fn declared_label(bytes: Seq<u8>) -> Option<Seq<char>>;

/// The label of the encoding the document's XML declaration names, when its first event (read
/// by `quick-xml`'s `Reader`) is a declaration carrying a readable `encoding` attribute. The
/// contract claims only that the result is [`declared_label`] of the bytes.
#[verifier::external_body]
fn declaration_label(bytes: &[u8]) -> (label: Option<String>)
    ensures
        match label {
            Some(l) => declared_label(bytes@) == Some(l@),
            None => declared_label(bytes@) is None,
        },
{
    let mut reader = quick_xml::Reader::from_reader(bytes);
    let mut buffer = Vec::new();
    match reader.read_event_into(&mut buffer) {
        Ok(quick_xml::events::Event::Decl(declaration)) => match declaration.encoding() {
            Some(Ok(label)) => Some(label.into_owned()),
            _ => None,
        },
        _ => None,
    }
}

/// What decoding `body` in the encoding a label names gives, by `encoding_rs`: `None` for a label
/// no encoding answers to, else the encoding's name and the text, `None` where the bytes are
/// malformed for it. A function of the label and the bytes alone.
pub uninterp spec fn label_decoding(label: Seq<char>, body: Seq<u8>) -> Option<(Seq<char>, Option<Seq<char>>)>;

/// Decodes `body` in the encoding `encoding_rs::Encoding::for_label` finds for the label, with
/// `decode_without_bom_handling_and_without_replacement`: malformed bytes are refused rather than
/// replaced. The contract claims only that the result is [`label_decoding`] of the arguments.
#[verifier::external_body]
fn decode_by_label(label: &str, body: &[u8]) -> (decoded: Option<(String, Option<String>)>)
    ensures
        match decoded {
            Some((name, text)) => label_decoding(label@, body@) == Some(
                (
                    name@,
                    match text {
                        Some(t) => Some(t@),
                        None => None::<Seq<char>>,
                    },
                ),
            ),
            None => label_decoding(label@, body@) is None,
        },
{
    match encoding_rs::Encoding::for_label(label.as_bytes()) {
        Some(encoding) => Some((
            encoding.name().to_string(),
            encoding.decode_without_bom_handling_and_without_replacement(body).map(|text| text.into_owned()),
        )),
        None => None,
    }
}

/// The text of `body` in the encoding a label names, or the name of the encoding it is malformed
/// for (the label itself when no encoding answers to it).
pub open spec fn decoded_by(label: Seq<char>, body: Seq<u8>) -> Result<Seq<char>, Seq<char>> {
    match label_decoding(label, body) {
        Some((_, Some(text))) => Ok(text),
        Some((name, None)) => Err(name),
        None => Err(label),
    }
}

/// A document's text: decoded in the encoding its byte-order mark names (the mark dropped), else
/// in the encoding its XML declaration names when that label names one, else as UTF-8; or the
/// name of the encoding its bytes are malformed for.
pub open spec fn document_text(bytes: Seq<u8>) -> Result<Seq<char>, Seq<char>> {
    match bom_named(bytes) {
        Some((name, length)) => decoded_by(name, bytes.skip(length as int)),
        None => match declared_label(bytes) {
            Some(label) => match label_decoding(label, bytes) {
                Some(_) => decoded_by(label, bytes),
                None => decoded_by("utf-8"@, bytes),
            },
            None => decoded_by("utf-8"@, bytes),
        },
    }
}

/// Decodes `body` in the encoding a label names, refusing malformed bytes.
fn decode_as(label: &str, body: &[u8]) -> (text: Result<String, XmlIngestError>)
    ensures
        match decoded_by(label@, body@) {
            Ok(t) => text matches Ok(s) && s@ == t,
            Err(name) => text matches Err(XmlIngestError::Decode(n)) && n@ == name,
        },
{
    match decode_by_label(label, body) {
        Some((_, Some(text))) => Ok(text),
        Some((name, None)) => Err(XmlIngestError::Decode(name)),
        None => Err(XmlIngestError::Decode(owned(label))),
    }
}

/// Transcodes an XML document to text: a byte-order mark decides the encoding and is dropped;
/// failing that, the encoding the XML declaration names, when a supported encoding answers to its
/// label; failing that, UTF-8. Bytes malformed for the chosen encoding are refused with its name,
/// never replaced.
pub fn decode_document(bytes: &[u8]) -> (text: Result<String, XmlIngestError>)
    ensures
        match document_text(bytes@) {
            Ok(t) => text matches Ok(s) && s@ == t,
            Err(name) => text matches Err(XmlIngestError::Decode(n)) && n@ == name,
        },
{
    match byte_order_mark(bytes) {
        Some((name, length)) => {
            let (_, body) = bytes.split_at(length);
            assert(body@ =~= bytes@.skip(length as int));
            decode_as(name.as_str(), body)
        },
        None => match declaration_label(bytes) {
            Some(label) => match decode_by_label(label.as_str(), bytes) {
                Some((_, Some(text))) => Ok(text),
                Some((name, None)) => Err(XmlIngestError::Decode(name)),
                None => decode_as("utf-8", bytes),
            },
            None => decode_as("utf-8", bytes),
        },
    }
}

/// The text a predefined XML entity stands for, by its name: `quick_xml`'s
/// `resolve_predefined_entity`, which without the `escape-html` feature (not enabled here) is
/// these five entities and nothing more.
pub open spec fn predefined_text(name: Seq<char>) -> Option<Seq<char>> {
    if name == "lt"@ {
        Some("<"@)
    } else if name == "gt"@ {
        Some(">"@)
    } else if name == "amp"@ {
        Some("&"@)
    } else if name == "apos"@ {
        Some("'"@)
    } else if name == "quot"@ {
        Some("\""@)
    } else {
        None
    }
}

/// The text a predefined entity stands for, as `quick_xml::escape::resolve_predefined_entity`
/// gives it; that function is these five cases, so it is written and proved here.
fn predefined_entity(name: &str) -> (text: Option<String>)
    ensures
        match text {
            Some(t) => predefined_text(name@) == Some(t@),
            None => predefined_text(name@) is None,
        },
{
    if same_text(name, "lt") {
        Some(owned("<"))
    } else if same_text(name, "gt") {
        Some(owned(">"))
    } else if same_text(name, "amp") {
        Some(owned("&"))
    } else if same_text(name, "apos") {
        Some(owned("'"))
    } else if same_text(name, "quot") {
        Some(owned("\""))
    } else {
        None
    }
}

/// What `quick_xml`'s `BytesRef::resolve_char_ref` reads from a reference's name: the character a
/// numeric reference (`#49`, `#x30`) names, none for a name not starting with `#`, or the text of
/// the error for a numeric reference naming no character. A function of the name alone.
pub uninterp spec fn char_reference_of(name: Seq<char>) -> Result<Option<char>, Seq<char>>;

/// The character a numeric reference names, by `BytesRef::resolve_char_ref`. The contract claims
/// that the result is [`char_reference_of`] of the name and, as the source shows, that a name not
/// starting with `#` is no character reference.
#[verifier::external_body]
fn char_reference(name: &str) -> (character: Result<Option<char>, String>)
    ensures
        match character {
            Ok(c) => char_reference_of(name@) == Ok::<Option<char>, Seq<char>>(c),
            Err(message) => char_reference_of(name@) == Err::<Option<char>, Seq<char>>(message@),
        },
        match character {
            Ok(None) => true,
            _ => name@.len() > 0 && name@[0] == '#',
        },
{
    quick_xml::events::BytesRef::new(name).resolve_char_ref().map_err(|error| error.to_string())
}

/// The text a reference in element content stands for, or its refusal: the character a numeric
/// reference names (a malformed one refused as a parse error), the text of a predefined entity,
/// or, for any other name, a custom entity refused as unknown.
pub open spec fn reference_resolution(name: Seq<char>) -> Result<Seq<char>, XmlFailure> {
    let entity = match predefined_text(name) {
        Some(text) => Ok(text),
        None => Err(XmlFailure::UnknownEntity(name)),
    };
    if name.len() > 0 && name[0] == '#' {
        match char_reference_of(name) {
            Err(message) => Err(XmlFailure::Parse(message)),
            Ok(Some(c)) => Ok(seq![c]),
            Ok(None) => entity,
        }
    } else {
        entity
    }
}

/// The five entities XML predefines resolve, wherever they are referenced, to the characters they
/// stand for: `lt` to `<`, `gt` to `>`, `amp` to `&`, `apos` to an apostrophe and `quot` to a
/// double quote; every other name that is not a numeric reference is a custom entity, refused by
/// its name and never expanded.
pub proof fn lemma_predefined_entities_resolve(name: Seq<char>)
    ensures
        reference_resolution("lt"@) == Ok::<Seq<char>, XmlFailure>(seq!['<']),
        reference_resolution("gt"@) == Ok::<Seq<char>, XmlFailure>(seq!['>']),
        reference_resolution("amp"@) == Ok::<Seq<char>, XmlFailure>(seq!['&']),
        reference_resolution("apos"@) == Ok::<Seq<char>, XmlFailure>(seq!['\'']),
        reference_resolution("quot"@) == Ok::<Seq<char>, XmlFailure>(seq!['"']),
        !(name.len() > 0 && name[0] == '#') && name != "lt"@ && name != "gt"@ && name != "amp"@ && name != "apos"@
            && name != "quot"@ ==> reference_resolution(name) == Err::<Seq<char>, XmlFailure>(
            XmlFailure::UnknownEntity(name),
        ),
{
    reveal_strlit("lt");
    reveal_strlit("gt");
    reveal_strlit("amp");
    reveal_strlit("apos");
    reveal_strlit("quot");
    reveal_strlit("<");
    reveal_strlit(">");
    reveal_strlit("&");
    reveal_strlit("'");
    reveal_strlit("\"");
    assert("lt"@.len() == 2 && "lt"@[0] == 'l' && "lt"@[1] == 't');
    assert("gt"@.len() == 2 && "gt"@[0] == 'g' && "gt"@[1] == 't');
    assert("amp"@.len() == 3 && "amp"@[0] == 'a' && "amp"@[1] == 'm');
    assert("apos"@.len() == 4 && "apos"@[0] == 'a');
    assert("quot"@.len() == 4 && "quot"@[0] == 'q');
    assert("<"@ =~= seq!['<']);
    assert(">"@ =~= seq!['>']);
    assert("&"@ =~= seq!['&']);
    assert("'"@ =~= seq!['\'']);
    assert("\""@ =~= seq!['"']);
}

/// Resolves a character or entity reference by its name: numeric references and the five
/// predefined entities resolve to their text; any other name is a custom entity, kept unresolved.
pub fn resolve_reference(name: &str) -> (reference: Result<EntityReference, XmlIngestError>)
    ensures
        match reference_resolution(name@) {
            Ok(text) => reference matches Ok(EntityReference::Resolved(t)) && t@ == text,
            Err(XmlFailure::UnknownEntity(unknown)) => reference matches Ok(EntityReference::Unknown(n)) && n@
                == unknown,
            Err(failure) => reference matches Err(error) && error@ == failure,
        },
{
    match char_reference(name) {
        Err(message) => Err(XmlIngestError::Parse(message)),
        Ok(Some(c)) => {
            let mut text = String::new();
            text.push(c);
            proof {
                assert(text@ =~= seq![c]);
            }
            Ok(EntityReference::Resolved(text))
        },
        Ok(None) => match predefined_entity(name) {
            Some(text) => Ok(EntityReference::Resolved(text)),
            None => Ok(EntityReference::Unknown(owned(name))),
        },
    }
}

/// What `quick_xml`'s `Attribute::normalized_value` makes of a raw attribute value under XML 1.0:
/// whitespace normalized and references resolved, or the refusal (a custom entity as unknown,
/// anything else as a parse error). A function of the raw value alone.
pub uninterp spec fn attribute_normalization(raw: Seq<char>) -> Result<Seq<char>, XmlFailure>;

/// Normalizes a raw attribute value with `Attribute::normalized_value(XmlVersion::Implicit1_0)`,
/// mapping its error to the library's. The contract claims only that the result is
/// [`attribute_normalization`] of the raw value.
#[verifier::external_body]
fn normalize_attribute(raw: &str) -> (value: Result<String, XmlIngestError>)
    ensures
        match value {
            Ok(v) => attribute_normalization(raw@) == Ok::<Seq<char>, XmlFailure>(v@),
            Err(error) => attribute_normalization(raw@) == Err::<Seq<char>, XmlFailure>(error@),
        },
{
    let attribute = quick_xml::events::attributes::Attribute {
        key: quick_xml::name::QName(""),
        value: std::borrow::Cow::Borrowed(raw),
    };
    match attribute.normalized_value(quick_xml::XmlVersion::Implicit1_0) {
        Ok(normalized) => Ok(normalized.into_owned()),
        Err(quick_xml::Error::Escape(quick_xml::escape::EscapeError::UnrecognizedEntity(_, name))) => Err(
            XmlIngestError::UnknownEntity(name),
        ),
        Err(error) => Err(XmlIngestError::Parse(error.to_string())),
    }
}

/// The first `n` raw attributes of a tag, their values normalized in order, or the first refusal.
pub open spec fn normalized_prefix(raw: Seq<(Seq<char>, Seq<char>)>, n: int) -> Result<
    Seq<(Seq<char>, Seq<char>)>,
    XmlFailure,
>
    decreases n,
{
    if n <= 0 {
        Ok(Seq::empty())
    } else {
        match normalized_prefix(raw, n - 1) {
            Err(failure) => Err(failure),
            Ok(done) => match attribute_normalization(raw[n - 1].1) {
                Ok(value) => Ok(done.push((raw[n - 1].0, value))),
                Err(failure) => Err(failure),
            },
        }
    }
}

/// A tag's attributes: each raw value normalized in order, then the refusal the reader met
/// reading further attributes of the tag, if it met one.
pub open spec fn tag_attributes(raw: Seq<(Seq<char>, Seq<char>)>, trailing: Option<XmlFailure>) -> Result<
    Seq<(Seq<char>, Seq<char>)>,
    XmlFailure,
> {
    match normalized_prefix(raw, raw.len() as int) {
        Err(failure) => Err(failure),
        Ok(attributes) => match trailing {
            Some(failure) => Err(failure),
            None => Ok(attributes),
        },
    }
}

/// An optional error, as what it says.
pub open spec fn failure_of(error: Option<XmlIngestError>) -> Option<XmlFailure> {
    match error {
        Some(e) => Some(e@),
        None => None,
    }
}

/// Normalizes a tag's raw attributes in order, then raises the refusal the reader met reading
/// further attributes, if any.
fn normalize_tag(raw: Vec<(String, String)>, trailing: Option<XmlIngestError>) -> (attributes: Result<
    Vec<(String, String)>,
    XmlIngestError,
>)
    ensures
        match tag_attributes(raw_attributes(raw@), failure_of(trailing)) {
            Ok(normalized) => attributes matches Ok(a) && raw_attributes(a@) == normalized,
            Err(failure) => attributes matches Err(error) && error@ == failure,
        },
{
    let ghost all = raw_attributes(raw@);
    let mut pending = reversed(raw);
    let mut done: Vec<(String, String)> = Vec::new();
    let ghost total = all.len();
    assert(raw_attributes(done@) =~= Seq::<(Seq<char>, Seq<char>)>::empty());
    while pending.len() > 0
        invariant
            all == raw_attributes(raw@),
            total == all.len(),
            pending@.len() <= total,
            forall|k: int|
                0 <= k < pending@.len() ==> (#[trigger] pending@[k]).0@ == all[total - 1 - k].0
                    && pending@[k].1@ == all[total - 1 - k].1,
            normalized_prefix(all, total - pending@.len()) == Ok::<Seq<(Seq<char>, Seq<char>)>, XmlFailure>(
                raw_attributes(done@),
            ),
        decreases pending@.len(),
    {
        let ghost i = total - pending@.len();
        let (key, value) = pending.pop().unwrap();
        assert(key@ == all[i].0 && value@ == all[i].1);
        match normalize_attribute(value.as_str()) {
            Ok(normalized) => {
                let ghost before = raw_attributes(done@);
                done.push((key, normalized));
                assert(raw_attributes(done@) =~= before.push((all[i].0, normalized@)));
            },
            Err(error) => {
                proof {
                    assert(normalized_prefix(all, i + 1) == Err::<Seq<(Seq<char>, Seq<char>)>, XmlFailure>(error@));
                    lemma_normalized_refusal_persists(all, i + 1, total as int);
                }
                return Err(error);
            },
        }
    }
    match trailing {
        Some(error) => Err(error),
        None => Ok(done),
    }
}

/// A refusal met normalizing the first attributes is the refusal of every longer prefix.
proof fn lemma_normalized_refusal_persists(raw: Seq<(Seq<char>, Seq<char>)>, i: int, n: int)
    requires
        0 <= i <= n,
        normalized_prefix(raw, i) is Err,
    ensures
        normalized_prefix(raw, n) == normalized_prefix(raw, i),
    decreases n - i,
{
    if i < n {
        lemma_normalized_refusal_persists(raw, i, n - 1);
    }
}

/// A start or self-closing tag as written: the element's name, its attributes (name and raw
/// value), and the refusal the reader met reading a further attribute of the tag, if any.
#[derive(Debug)]
pub struct RawTag {
    pub name: String,
    pub attributes: Vec<(String, String)>,
    pub trailing: Option<XmlIngestError>,
}

/// A `quick-xml` parser event, carried through to the conversion that reads it.
#[verifier::external_type_specification]
#[verifier::external_body]
pub struct ExXmlParserEvent<'a>(quick_xml::events::Event<'a>);

/// A `quick-xml` start tag, carried through to the conversion that reads it.
#[verifier::external_type_specification]
#[verifier::external_body]
pub struct ExXmlStartTag<'a>(quick_xml::events::BytesStart<'a>);

/// One parser event, as the fold reads it.
#[derive(Debug)]
pub enum XmlEvent {
    /// A start tag.
    Start(RawTag),
    /// A self-closing tag, read as a start tag is.
    Empty(RawTag),
    /// An end tag.
    End,
    /// Text or CDATA content, line ends normalized.
    Text(String),
    /// A character or entity reference, by the name written between `&` and `;`.
    Reference(String),
    /// A processing instruction: its target and content.
    Instruction(String, String),
    /// A comment, the XML declaration, or a doctype: nothing the fold keeps.
    Markup,
}

/// What a parser event says, with texts as character sequences.
pub enum XmlEventModel {
    Start(Seq<char>, Seq<(Seq<char>, Seq<char>)>, Option<XmlFailure>),
    Empty(Seq<char>, Seq<(Seq<char>, Seq<char>)>, Option<XmlFailure>),
    End,
    Text(Seq<char>),
    Reference(Seq<char>),
    Instruction(Seq<char>, Seq<char>),
    Markup,
}

impl View for XmlEvent {
    type V = XmlEventModel;

    open spec fn view(&self) -> XmlEventModel {
        match self {
            XmlEvent::Start(tag) => XmlEventModel::Start(
                tag.name@,
                raw_attributes(tag.attributes@),
                failure_of(tag.trailing),
            ),
            XmlEvent::Empty(tag) => XmlEventModel::Empty(
                tag.name@,
                raw_attributes(tag.attributes@),
                failure_of(tag.trailing),
            ),
            XmlEvent::End => XmlEventModel::End,
            XmlEvent::Text(text) => XmlEventModel::Text(text@),
            XmlEvent::Reference(name) => XmlEventModel::Reference(name@),
            XmlEvent::Instruction(target, content) => XmlEventModel::Instruction(target@, content@),
            XmlEvent::Markup => XmlEventModel::Markup,
        }
    }
}

/// What each of a run of events says.
pub open spec fn events_model(events: Seq<XmlEvent>) -> Seq<XmlEventModel> {
    Seq::new(events.len(), |i: int| events[i]@)
}

/// The fold state before any event.
pub open spec fn initial_fold() -> FoldModel {
    FoldModel { stack: Seq::empty(), root: None, document_pis: Seq::empty() }
}

/// A processing instruction kept on the innermost open element or, outside any, on the document.
pub open spec fn with_instruction(state: FoldModel, target: Seq<char>, content: Seq<char>) -> FoldModel {
    if state.stack.len() > 0 {
        FoldModel {
            stack: state.stack.drop_last().push(
                ElementModel { pis: state.stack.last().pis.push(pi_model(target, content)), ..state.stack.last() },
            ),
            ..state
        }
    } else {
        FoldModel { document_pis: state.document_pis.push(pi_model(target, content)), ..state }
    }
}

/// What one event does to the fold, or the refusal it raises.
pub open spec fn fold_step(state: FoldModel, event: XmlEventModel) -> Result<FoldModel, XmlFailure> {
    match event {
        XmlEventModel::Start(name, raw, trailing) => match tag_attributes(raw, trailing) {
            Ok(attributes) => Ok(FoldModel { stack: state.stack.push(opened(name, attributes)), ..state }),
            Err(failure) => Err(failure),
        },
        XmlEventModel::Empty(name, raw, trailing) => match tag_attributes(raw, trailing) {
            Ok(attributes) => Ok(attached(state, finished(opened(name, attributes)))),
            Err(failure) => Err(failure),
        },
        XmlEventModel::End => Ok(
            if state.stack.len() > 0 {
                attached(FoldModel { stack: state.stack.drop_last(), ..state }, finished(state.stack.last()))
            } else {
                state
            },
        ),
        XmlEventModel::Text(text) => Ok(with_text(state, text)),
        XmlEventModel::Reference(name) => if state.stack.len() == 0 {
            Ok(state)
        } else {
            match reference_resolution(name) {
                Ok(text) => Ok(with_text(state, text)),
                Err(failure) => Err(failure),
            }
        },
        XmlEventModel::Instruction(target, content) => Ok(with_instruction(state, target, content)),
        XmlEventModel::Markup => Ok(state),
    }
}

/// The fold after a run of events, or the first refusal among them.
pub open spec fn fold_all(events: Seq<XmlEventModel>) -> Result<FoldModel, XmlFailure>
    decreases events.len(),
{
    if events.len() == 0 {
        Ok(initial_fold())
    } else {
        match fold_all(events.drop_last()) {
            Ok(state) => fold_step(state, events.last()),
            Err(failure) => Err(failure),
        }
    }
}

/// The document a finished fold yields: an object keyed by the root element's name, with a `#pi`
/// entry for the processing instructions outside any element.
pub open spec fn document_entries(root: (Seq<char>, JsonModel), document_pis: Seq<JsonModel>) -> JsonModel {
    JsonModel::Object(
        if document_pis.len() > 0 {
            inserted(inserted(Seq::empty(), root.0, root.1), "#pi"@, JsonModel::Array(document_pis))
        } else {
            inserted(Seq::empty(), root.0, root.1)
        },
    )
}

/// What a document read as these events, with the refusal the reader met after them if any,
/// folds to: the first refusal an event raises; else the reader's refusal; else the document
/// object, or the refusal of a document with no root element.
pub open spec fn reading_outcome(
    events: Seq<XmlEventModel>,
    failure: Option<XmlFailure>,
    document: Result<JsonValue, XmlIngestError>,
) -> bool {
    match fold_all(events) {
        Err(f) => document matches Err(error) && error@ == f,
        Ok(state) => match failure {
            Some(f) => document matches Err(error) && error@ == f,
            None => match state.root {
                Some(root) => document matches Ok(value) && json_model(value) == document_entries(
                    root,
                    state.document_pis,
                ),
                None => document matches Err(XmlIngestError::EmptyDocument),
            },
        },
    }
}

/// A refusal met among the first events is the refusal of every longer run.
proof fn lemma_fold_refusal_persists(events: Seq<XmlEventModel>, i: int)
    requires
        0 <= i <= events.len(),
        fold_all(events.take(i)) is Err,
    ensures
        fold_all(events) == fold_all(events.take(i)),
    decreases events.len() - i,
{
    if i < events.len() {
        assert(events.take(i + 1).drop_last() =~= events.take(i));
        lemma_fold_refusal_persists(events, i + 1);
    } else {
        assert(events.take(i) =~= events);
    }
}

impl XmlFold {
    /// Feeds one parser event to the fold, or refuses it: an attribute or reference that cannot be
    /// read, or a custom entity, inside an element.
    pub fn step(&mut self, event: XmlEvent) -> (result: Result<(), XmlIngestError>)
        ensures
            match fold_step(old(self)@, event@) {
                Ok(state) => result is Ok && final(self)@ == state,
                Err(failure) => result matches Err(error) && error@ == failure,
            },
    {
        match event {
            XmlEvent::Start(tag) => {
                let attributes = normalize_tag(tag.attributes, tag.trailing)?;
                self.start(tag.name, attributes);
                Ok(())
            },
            XmlEvent::Empty(tag) => {
                let attributes = normalize_tag(tag.attributes, tag.trailing)?;
                self.empty(tag.name, attributes);
                Ok(())
            },
            XmlEvent::End => {
                self.end();
                Ok(())
            },
            XmlEvent::Text(text) => {
                self.text(text.as_str());
                Ok(())
            },
            XmlEvent::Reference(name) => self.reference(name.as_str()),
            XmlEvent::Instruction(target, content) => {
                self.processing_instruction(target.as_str(), content.as_str());
                Ok(())
            },
            XmlEvent::Markup => Ok(()),
        }
    }
}

/// Feeds every event to a fresh fold, in order, stopping at the first refusal.
fn fold_in_order(events: Vec<XmlEvent>) -> (fold: Result<XmlFold, XmlIngestError>)
    ensures
        match fold_all(events_model(events@)) {
            Ok(state) => fold matches Ok(f) && f@ == state,
            Err(failure) => fold matches Err(error) && error@ == failure,
        },
{
    let ghost all = events_model(events@);
    let ghost exec_events = events@;
    let mut pending = reversed(events);
    let mut fold = XmlFold::new();
    assert(fold@.stack =~= initial_fold().stack);
    assert(fold@.document_pis =~= initial_fold().document_pis);
    assert(all.take(0) =~= Seq::<XmlEventModel>::empty());
    while pending.len() > 0
        invariant
            all == events_model(events@),
            exec_events == events@,
            all.len() == exec_events.len(),
            pending@.len() <= all.len(),
            forall|k: int| 0 <= k < pending@.len() ==> #[trigger] pending@[k] == exec_events[all.len() - 1 - k],
            fold_all(all.take(all.len() - pending@.len())) == Ok::<FoldModel, XmlFailure>(fold@),
        decreases pending@.len(),
    {
        let ghost done = all.len() - pending@.len();
        let event = pending.pop().unwrap();
        assert(event@ == all[done]);
        assert(all.take(done + 1).drop_last() =~= all.take(done));
        assert(all.take(done + 1).last() == all[done]);
        if let Err(error) = fold.step(event) {
            proof {
                assert(fold_all(all.take(done + 1)) == Err::<FoldModel, XmlFailure>(error@));
                lemma_fold_refusal_persists(all, done + 1);
            }
            return Err(error);
        }
    }
    assert(all.take(all.len() as int) =~= all);
    Ok(fold)
}

/// Folds a document's parser events, in order, into its JSON value, with the refusal the reader
/// met after the last of them, if it met one.
///
/// The first refusal an event raises (an attribute or reference that cannot be read, a custom
/// entity) is the result; failing that, the reader's refusal; otherwise the finished fold: the
/// document object, or the refusal of a document with no root element.
pub fn fold_reading(events: Vec<XmlEvent>, failure: Option<XmlIngestError>) -> (document: Result<
    JsonValue,
    XmlIngestError,
>)
    ensures
        reading_outcome(events_model(events@), failure_of(failure), document),
{
    let fold = fold_in_order(events)?;
    match failure {
        Some(error) => Err(error),
        None => fold.finish(),
    }
}

/// What `quick-xml`'s pull reader (`Reader::read_event`, from a fresh reader over the text) yields
/// for a document's text, up to its end or its first refusal: each event as written, and the
/// refusal if it met one. A function of the text alone.
pub uninterp spec fn xml_reading(text: Seq<char>) -> (Seq<XmlEventModel>, Option<XmlFailure>);

/// Reads a document's text with `quick-xml`'s pull reader until the end of the document or its
/// first refusal, converting each event one for one into the library's (a reader error about a
/// custom entity into `UnknownEntity`, any other into `Parse`). The contract claims only that the
/// result is [`xml_reading`] of the text.
#[verifier::external_body]
fn read_events(text: &str) -> (reading: (Vec<XmlEvent>, Option<XmlIngestError>))
    ensures
        (events_model(reading.0@), failure_of(reading.1)) == xml_reading(text@),
{
    let mut reader = quick_xml::Reader::from_reader(text.as_bytes());
    let mut events = Vec::new();
    loop {
        match reader.read_event() {
            Ok(quick_xml::events::Event::Eof) => return (events, None),
            Ok(event) => events.push(event_of(event)),
            Err(quick_xml::Error::Escape(quick_xml::escape::EscapeError::UnrecognizedEntity(_, name))) => {
                return (events, Some(XmlIngestError::UnknownEntity(name)))
            },
            Err(error) => return (events, Some(XmlIngestError::Parse(error.to_string()))),
        }
    }
}

/// Converts one `quick-xml` event into the library's, one variant to one: text and CDATA by
/// their XML 1.0 content, a reference by its name, a comment, declaration or doctype as markup.
#[verifier::external_body]
fn event_of(event: quick_xml::events::Event<'_>) -> XmlEvent {
    match event {
        quick_xml::events::Event::Start(start) => XmlEvent::Start(raw_tag(&start)),
        quick_xml::events::Event::Empty(start) => XmlEvent::Empty(raw_tag(&start)),
        quick_xml::events::Event::End(_) => XmlEvent::End,
        quick_xml::events::Event::Text(text) => XmlEvent::Text(text.xml10_content().into_owned()),
        quick_xml::events::Event::CData(cdata) => XmlEvent::Text(cdata.xml10_content().into_owned()),
        quick_xml::events::Event::GeneralRef(reference) => XmlEvent::Reference((*reference).to_owned()),
        quick_xml::events::Event::PI(pi) => XmlEvent::Instruction(pi.target().to_owned(), pi.content().to_owned()),
        _ => XmlEvent::Markup,
    }
}

/// Converts a `quick-xml` start tag into its name and its attributes as written, stopping at the
/// first attribute the tag's attribute reader refuses.
#[verifier::external_body]
fn raw_tag(start: &quick_xml::events::BytesStart<'_>) -> RawTag {
    let mut attributes = Vec::new();
    for attribute in start.attributes() {
        match attribute {
            Ok(attribute) => attributes.push((attribute.key.as_ref().to_owned(), attribute.value.into_owned())),
            Err(error) => {
                let trailing = Some(XmlIngestError::Attr(error.to_string()));
                return RawTag { name: start.name().as_ref().to_owned(), attributes, trailing };
            },
        }
    }
    RawTag { name: start.name().as_ref().to_owned(), attributes, trailing: None }
}

/// Folds an XML document under the library's convention: the bytes are transcoded (see
/// [`decode_document`]), the text is read by `quick-xml`'s pull reader (see [`xml_reading`]),
/// and the events are folded (see [`fold_reading`]).
///
/// The result is always an object keyed by the single root element's name, optionally carrying
/// a `#pi` entry for top-level processing instructions.
pub fn document_to_value(bytes: &[u8]) -> (document: Result<JsonValue, XmlIngestError>)
    ensures
        match document_text(bytes@) {
            Err(name) => document matches Err(XmlIngestError::Decode(n)) && n@ == name,
            Ok(t) => reading_outcome(xml_reading(t).0, xml_reading(t).1, document),
        },
{
    let text = decode_document(bytes)?;
    let view = text.as_str();
    let (events, failure) = read_events(view);
    fold_reading(events, failure)
}

/// The first entry of a folded document whose name is a child element's: the root element.
pub open spec fn root_entry(document: JsonModel) -> Option<(Seq<char>, JsonModel)> {
    match document {
        JsonModel::Object(entries) => if exists|i: int| #[trigger] first_element(entries, i) {
            let i = choose|i: int| #[trigger] first_element(entries, i);
            Some(entries[i])
        } else {
            None
        },
        _ => None,
    }
}

/// Entry `i` is the first whose name is a child element's.
pub open spec fn first_element(entries: Seq<(Seq<char>, JsonModel)>, i: int) -> bool {
    &&& 0 <= i < entries.len()
    &&& element_key(entries[i].0)
    &&& forall|j: int| 0 <= j < i ==> !element_key(entries[j].0)
}

/// The record data one repeated-child item becomes: an object's entries, a leaf wrapped as
/// `#text`.
pub open spec fn item_data(item: JsonModel) -> Seq<(Seq<char>, JsonModel)> {
    match item {
        JsonModel::Object(entries) => entries,
        _ => seq![("#text"@, item)],
    }
}

/// The record data an object-valued root splits into: the items of its lone repeated child
/// element, or the whole root as one record.
pub open spec fn object_root_records(entries: Seq<(Seq<char>, JsonModel)>) -> Seq<Seq<(Seq<char>, JsonModel)>> {
    let members = array_members(entries, CandidateKeys::Elements);
    if members.len() == 1 {
        match lookup(entries, members[0]) {
            Some(JsonModel::Array(items)) => Seq::new(items.len(), |i: int| item_data(items[i])),
            _ => seq![entries],
        }
    } else {
        seq![entries]
    }
}

/// The record data a folded XML document splits into.
pub open spec fn xml_records(document: JsonModel) -> Seq<Seq<(Seq<char>, JsonModel)>> {
    match root_entry(document) {
        None => Seq::empty(),
        Some((name, value)) => match value {
            JsonModel::Object(entries) => object_root_records(entries),
            _ => seq![seq![(name, value)]],
        },
    }
}

/// The collection and data of each record, in order.
pub open spec fn records_data(records: Seq<Record>) -> Seq<(Option<Seq<char>>, Seq<(Seq<char>, JsonModel)>)> {
    Seq::new(records.len(), |i: int| records[i]@)
}

/// Every record of a collection-less source: no collection name, and these data.
pub open spec fn collectionless(data: Seq<Seq<(Seq<char>, JsonModel)>>) -> Seq<(Option<Seq<char>>, Seq<(Seq<char>, JsonModel)>)> {
    Seq::new(data.len(), |i: int| (None::<Seq<char>>, data[i]))
}

/// Turns one array item into a record: an object supplies its data directly, a leaf is wrapped as
/// `#text`.
fn item_to_record(item: JsonValue) -> (record: Record)
    ensures
        record@ == (None::<Seq<char>>, item_data(json_model(item))),
{
    match item {
        JsonValue::Object(map) => Record::new(None, map),
        other => {
            let ghost model = json_model(other);
            let mut data = JsonObject::new();
            data.insert(owned("#text"), other);
            assert(data@ =~= seq![("#text"@, model)]);
            Record::new(None, data)
        },
    }
}

/// Splits a folded XML document into records under the library's convention.
///
/// The document is always one collection (no record carries a collection name), and records come
/// from a single repeated child element under the root, never from a heuristic search: a root
/// with exactly one repeated element child splits on its items (an object item is the record's
/// data, a leaf item is wrapped as `#text`); a root with none, or several, is one record; a leaf
/// root is one record keyed by the root element's name.
pub fn split(document: JsonValue) -> (records: Vec<Record>)
    ensures
        records_data(records@) == collectionless(xml_records(json_model(document))),
{
    let ghost model = json_model(document);
    let map = match document {
        JsonValue::Object(map) => map,
        _ => {
            let records: Vec<Record> = Vec::new();
            assert(records_data(records@) =~= collectionless(xml_records(model)));
            return records;
        },
    };
    assert(model == JsonModel::Object(map@));
    match first_element_index(&map) {
        None => {
            let records: Vec<Record> = Vec::new();
            assert(!exists|k: int| #[trigger] first_element(map@, k));
            assert(records_data(records@) =~= collectionless(xml_records(model)));
            records
        },
        Some(i) => {
            proof {
                lemma_root_entry(map@, i as int);
            }
            let ghost entry = map@[i as int];
            let mut entries = map.into_entries();
            let (name, value) = entries.swap_remove(i);
            assert((name@, json_model(value)) == entry);
            match value {
                JsonValue::Object(root_map) => split_object_root(root_map),
                leaf => {
                    let ghost leaf_model = json_model(leaf);
                    assert(!(leaf_model is Object));
                    let ghost name_model = name@;
                    let mut data = JsonObject::new();
                    data.insert(name, leaf);
                    assert(data@ =~= seq![(name_model, leaf_model)]);
                    let mut records: Vec<Record> = Vec::new();
                    records.push(Record::new(None, data));
                    assert(records_data(records@) =~= collectionless(xml_records(model)));
                    records
                },
            }
        },
    }
}

/// The root entry of an object is its first child-element entry.
#[verifier::spinoff_prover]
proof fn lemma_root_entry(entries: Seq<(Seq<char>, JsonModel)>, i: int)
    requires
        first_element(entries, i),
    ensures
        root_entry(JsonModel::Object(entries)) == Some(entries[i]),
{
    let k = choose|k: int| #[trigger] first_element(entries, k);
    lemma_first_element_unique(entries, i, k);
}

/// At most one entry is the first child element.
proof fn lemma_first_element_unique(entries: Seq<(Seq<char>, JsonModel)>, i: int, k: int)
    requires
        first_element(entries, i),
        first_element(entries, k),
    ensures
        i == k,
{
    if i < k {
        assert(!element_key(entries[i].0));
    } else if k < i {
        assert(!element_key(entries[k].0));
    }
}

/// The position of the first entry whose name is a child element's.
fn first_element_index(map: &JsonObject) -> (at: Option<usize>)
    ensures
        match at {
            Some(i) => first_element(map@, i as int),
            None => forall|j: int| 0 <= j < map@.len() ==> !element_key(#[trigger] map@[j].0),
        },
{
    let mut i: usize = 0;
    while i < map.len()
        invariant
            i <= map@.len(),
            forall|j: int| 0 <= j < i ==> !element_key(#[trigger] map@[j].0),
        decreases map@.len() - i,
    {
        if is_element_key(map.name_at(i)) {
            return Some(i);
        }
        i = i + 1;
    }
    None
}

/// Applies the convention to an object-valued root: split on a lone repeated child element, else
/// one record.
fn split_object_root(root_map: JsonObject) -> (records: Vec<Record>)
    ensures
        records_data(records@) == collectionless(object_root_records(root_map@)),
{
    let ghost entries = root_map@;
    match lone_array_member(&root_map, CandidateKeys::Elements) {
        LoneArrayMember::Found(key) => {
            let is_array = match root_map.get(key.as_str()) {
                Some(JsonValue::Array(_)) => true,
                _ => false,
            };
            if is_array {
                match root_map.take_value(key.as_str()) {
                    Some(JsonValue::Array(items)) => {
                        proof {
                            lemma_array_model(items);
                        }
                        let ghost item_models = items_model(items@);
                        let ghost total = items@.len();
                        let mut rest = reversed(items);
                        let mut records: Vec<Record> = Vec::new();
                        while rest.len() > 0
                            invariant
                                total == item_models.len(),
                                records@.len() + rest@.len() == total,
                                forall|k: int|
                                    0 <= k < rest@.len() ==> json_model(#[trigger] rest@[k])
                                        == item_models[total - 1 - k],
                                records_data(records@) == collectionless(
                                    Seq::new(item_models.len(), |i: int| item_data(item_models[i])),
                                ).take(records@.len() as int),
                            decreases rest@.len(),
                        {
                            let ghost done: int = records@.len() as int;
                            let item = rest.pop().unwrap();
                            let ghost before = records_data(records@);
                            records.push(item_to_record(item));
                            assert(records_data(records@) =~= before.push(
                                (None::<Seq<char>>, item_data(item_models[done])),
                            ));
                            assert(collectionless(
                                Seq::new(item_models.len(), |i: int| item_data(item_models[i])),
                            ).take(done + 1) =~= before.push(
                                (None::<Seq<char>>, item_data(item_models[done])),
                            ));
                        }
                        assert(collectionless(
                            Seq::new(item_models.len(), |i: int| item_data(item_models[i])),
                        ).take(total as int) =~= collectionless(
                            Seq::new(item_models.len(), |i: int| item_data(item_models[i])),
                        ));
                        records
                    },
                    _ => Vec::new(),
                }
            } else {
                let mut records: Vec<Record> = Vec::new();
                records.push(Record::new(None, root_map));
                assert(records_data(records@) =~= collectionless(object_root_records(entries)));
                records
            }
        },
        LoneArrayMember::NoneOrMany => {
            let mut records: Vec<Record> = Vec::new();
            records.push(Record::new(None, root_map));
            assert(records_data(records@) =~= collectionless(object_root_records(entries)));
            records
        },
    }
}

} // verus!
