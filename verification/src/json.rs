//! JSON documents of the shape the reports need: an object whose entries
//! are numbers, texts, flat objects, or lists of flat objects.

use crate::text::{decimal, format_int};
use serde_json::Value;
use vstd::prelude::*;
use vstd::string::*;

verus! {

/// A number or a text.
#[derive(Clone, Debug, PartialEq, Eq)]
pub enum JsonScalar {
    /// A whole number.
    Int(i64),
    /// A text.
    Text(String),
}

/// A `JsonScalar` by its value.
pub ghost enum JsonScalarView {
    Int(int),
    Text(Seq<char>),
}

impl View for JsonScalar {
    type V = JsonScalarView;

    open spec fn view(&self) -> JsonScalarView {
        match self {
            JsonScalar::Int(n) => JsonScalarView::Int(*n as int),
            JsonScalar::Text(t) => JsonScalarView::Text(t@),
        }
    }
}

/// A key with its number or text.
#[derive(Clone, Debug, PartialEq, Eq)]
pub struct JsonField {
    pub key: String,
    pub value: JsonScalar,
}

impl View for JsonField {
    type V = (Seq<char>, JsonScalarView);

    open spec fn view(&self) -> (Seq<char>, JsonScalarView) {
        (self.key@, self.value@)
    }
}

/// The fields of a flat object, by their values.
pub open spec fn fields_view(fields: Seq<JsonField>) -> Seq<(Seq<char>, JsonScalarView)> {
    Seq::new(fields.len(), |i: int| fields[i]@)
}

/// Flat objects, by their values.
pub open spec fn objects_view(objects: Seq<Vec<JsonField>>) -> Seq<
    Seq<(Seq<char>, JsonScalarView)>,
> {
    Seq::new(objects.len(), |i: int| fields_view(objects[i]@))
}

/// What a named block of a document holds.
#[derive(Clone, Debug, PartialEq, Eq)]
pub enum JsonContent {
    /// A flat object.
    Object(Vec<JsonField>),
    /// A list of flat objects.
    List(Vec<Vec<JsonField>>),
}

/// A `JsonContent` by its values.
pub ghost enum JsonContentView {
    Object(Seq<(Seq<char>, JsonScalarView)>),
    List(Seq<Seq<(Seq<char>, JsonScalarView)>>),
}

impl View for JsonContent {
    type V = JsonContentView;

    open spec fn view(&self) -> JsonContentView {
        match self {
            JsonContent::Object(fields) => JsonContentView::Object(fields_view(fields@)),
            JsonContent::List(objects) => JsonContentView::List(objects_view(objects@)),
        }
    }
}

/// A key with the object or list that stands under it.
#[derive(Clone, Debug, PartialEq, Eq)]
pub struct JsonBlock {
    pub key: String,
    pub content: JsonContent,
}

impl View for JsonBlock {
    type V = (Seq<char>, JsonContentView);

    open spec fn view(&self) -> (Seq<char>, JsonContentView) {
        (self.key@, self.content@)
    }
}

/// The blocks of a document, by their values.
pub open spec fn blocks_view(blocks: Seq<JsonBlock>) -> Seq<(Seq<char>, JsonContentView)> {
    Seq::new(blocks.len(), |i: int| blocks[i]@)
}

/// A JSON document: an object with numbers and texts of its own, and with
/// named objects and lists.
#[derive(Clone, Debug, PartialEq, Eq)]
pub struct JsonDocument {
    /// The numbers and texts of the document itself.
    pub fields: Vec<JsonField>,
    /// The objects and lists under their keys.
    pub blocks: Vec<JsonBlock>,
}

/// A `JsonDocument` by its values.
pub ghost struct JsonDocumentView {
    pub fields: Seq<(Seq<char>, JsonScalarView)>,
    pub blocks: Seq<(Seq<char>, JsonContentView)>,
}

impl View for JsonDocument {
    type V = JsonDocumentView;

    open spec fn view(&self) -> JsonDocumentView {
        JsonDocumentView { fields: fields_view(self.fields@), blocks: blocks_view(self.blocks@) }
    }
}

/// A number as a JSON document holds it: as a number where it fits in 64
/// bits with sign, and as the text of its decimal form where it does not.
pub open spec fn number_view(n: int) -> JsonScalarView {
    if i64::MIN <= n <= i64::MAX {
        JsonScalarView::Int(n)
    } else {
        JsonScalarView::Text(decimal(n))
    }
}

/// A field with a number.
pub open spec fn number_field(key: Seq<char>, n: int) -> (Seq<char>, JsonScalarView) {
    (key, number_view(n))
}

/// A field with a text.
pub open spec fn text_field(key: Seq<char>, text: Seq<char>) -> (Seq<char>, JsonScalarView) {
    (key, JsonScalarView::Text(text))
}

/// A number as a JSON document holds it.
pub fn json_number(n: i128) -> (scalar: JsonScalar)
    ensures
        scalar@ == number_view(n as int),
{
    if n >= -0x8000_0000_0000_0000 && n <= 0x7fff_ffff_ffff_ffff {
        JsonScalar::Int(n as i64)
    } else {
        JsonScalar::Text(format_int(n))
    }
}

/// Appends a field with a number to a flat object.
pub fn push_number(fields: &mut Vec<JsonField>, key: &str, n: i128)
    ensures
        fields_view(final(fields)@) == fields_view(old(fields)@).push(number_field(key@, n as int)),
{
    fields.push(JsonField { key: String::from_str(key), value: json_number(n) });
    proof {
        assert(fields_view(final(fields)@) =~= fields_view(old(fields)@).push(
            number_field(key@, n as int),
        ));
    }
}

/// Appends a field with a text to a flat object.
pub fn push_text(fields: &mut Vec<JsonField>, key: &str, text: &str)
    ensures
        fields_view(final(fields)@) == fields_view(old(fields)@).push(text_field(key@, text@)),
{
    fields.push(
        JsonField { key: String::from_str(key), value: JsonScalar::Text(String::from_str(text)) },
    );
    proof {
        assert(fields_view(final(fields)@) =~= fields_view(old(fields)@).push(
            text_field(key@, text@),
        ));
    }
}

/// Appends a named object to the blocks of a document.
pub fn push_object(blocks: &mut Vec<JsonBlock>, key: &str, fields: Vec<JsonField>)
    ensures
        blocks_view(final(blocks)@) == blocks_view(old(blocks)@).push(
            (key@, JsonContentView::Object(fields_view(fields@))),
        ),
{
    blocks.push(JsonBlock { key: String::from_str(key), content: JsonContent::Object(fields) });
    proof {
        assert(blocks_view(final(blocks)@) =~= blocks_view(old(blocks)@).push(
            (key@, JsonContentView::Object(fields_view(fields@))),
        ));
    }
}

/// Appends a named list of objects to the blocks of a document.
pub fn push_list(blocks: &mut Vec<JsonBlock>, key: &str, objects: Vec<Vec<JsonField>>)
    ensures
        blocks_view(final(blocks)@) == blocks_view(old(blocks)@).push(
            (key@, JsonContentView::List(objects_view(objects@))),
        ),
{
    blocks.push(JsonBlock { key: String::from_str(key), content: JsonContent::List(objects) });
    proof {
        assert(blocks_view(final(blocks)@) =~= blocks_view(old(blocks)@).push(
            (key@, JsonContentView::List(objects_view(objects@))),
        ));
    }
}

/// The text that `serde_json::to_string_pretty` gives for the object with
/// these fields and blocks.
pub uninterp spec fn pretty_json(doc: JsonDocumentView) -> Seq<char>;

/// The document as indented JSON text.
///
/// Trusted: builds the `serde_json::Value` with the same keys and values
/// (`Value::from` for numbers and texts, a collected array for a list, a
/// collected object for fields, `IndexMut` to put a block under its key) and
/// calls `serde_json::to_string_pretty` on it. The text depends on the
/// document's keys and values alone; the contract gives it the name
/// `pretty_json` and claims nothing else of it. Serialising a `Value` does
/// not fail.
#[verifier::external_body]
fn to_pretty_text(doc: &JsonDocument) -> (text: String)
    ensures
        text@ == pretty_json(doc@),
{
    let object = |o: &Vec<JsonField>| -> Value {
        o.iter().map(|f| (f.key.clone(), match &f.value {
            JsonScalar::Int(n) => Value::from(*n),
            JsonScalar::Text(t) => Value::from(t.clone()),
        })).collect()
    };
    let mut root = object(&doc.fields);
    for b in &doc.blocks {
        root[b.key.as_str()] = match &b.content {
            JsonContent::Object(o) => object(o),
            JsonContent::List(l) => l.iter().map(&object).collect(),
        };
    }
    serde_json::to_string_pretty(&root).unwrap_or_default()
}

impl JsonDocument {
    /// The document as indented JSON text.
    pub fn render(&self) -> (text: String)
        ensures
            text@ == pretty_json(self@),
    {
        to_pretty_text(self)
    }
}

} // verus!
