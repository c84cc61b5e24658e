//! The record's value as JSON text: reading it into a document and writing a
//! document out again.
//!
//! Reading is `serde_json`'s work. Writing frames the fields as one compact
//! JSON object; a number, an array or an object is written as the text that
//! the document holds for it, so that what was read is what is written.

use vstd::prelude::*;
use crate::document::{
    distinct_names, field_views, ConfigDocument, Field, FieldView, Scalar, ScalarView,
};
use crate::error::PatchError;

verus! {

/// The fields that `serde_json` reads from `raw`, where `raw` is the text of
/// one JSON object and nothing else; `None` where it is not.
pub uninterp spec fn json_object_fields(raw: Seq<char>) -> Option<Seq<FieldView>>;

/// The JSON string literal that `serde_json` writes for `text`, quotes
/// included.
pub uninterp spec fn json_string_literal(text: Seq<char>) -> Seq<char>;

/// Reads `raw` with `serde_json::from_str`, as a `serde_json::Map` from
/// `String` to `serde_json::Value`, and hands out the entries in the order of
/// the map's `into_iter`. Each value is moved over by its kind: a string as
/// its characters, a number as the text that its `Display` gives, an array or
/// an object as the compact text that the `Display` of `serde_json::Value`
/// gives; `None` where `from_str` fails.
///
/// Not proved, and all that is claimed: that the outcome depends on the text
/// alone, so that it has a name, `json_object_fields`.
#[verifier::external_body]
fn decode_object(raw: &str) -> (fields: Option<Vec<Field>>)
    ensures
        match fields {
            Some(list) => json_object_fields(raw@) == Some(field_views(list@)),
            None => json_object_fields(raw@) is None,
        },
{
    let object: serde_json::Map<String, serde_json::Value> = serde_json::from_str(raw).ok()?;
    Some(object.into_iter().map(|(name, value)| Field {
        name,
        value: match value {
            serde_json::Value::Null => Scalar::Null,
            serde_json::Value::Bool(flag) => Scalar::Flag(flag),
            serde_json::Value::Number(number) => Scalar::Number(number.to_string()),
            serde_json::Value::String(text) => Scalar::Text(text),
            nested @ (serde_json::Value::Array(_) | serde_json::Value::Object(_)) => {
                Scalar::Nested(nested.to_string())
            },
        },
    }).collect())
}

/// Writes `text` as a JSON string literal, by the `Display` of a
/// `serde_json::Value` that holds `text` as a string.
///
/// Not proved, and all that is claimed: that the outcome depends on the text
/// alone, so that it has a name, `json_string_literal`.
#[verifier::external_body]
fn quote(text: &str) -> (literal: String)
    ensures
        literal@ == json_string_literal(text@),
{
    serde_json::Value::String(text.to_owned()).to_string()
}

/// The document that `fields` make up, where there are fields at all and no
/// two of them share a name; else the record's value is malformed.
pub open spec fn parsed(fields: Option<Seq<FieldView>>) -> Result<Seq<FieldView>, PatchError> {
    match fields {
        Some(list) => if distinct_names(list) {
            Ok(list)
        } else {
            Err(PatchError::MalformedDocument)
        },
        None => Err(PatchError::MalformedDocument),
    }
}

/// The JSON text of one value.
pub open spec fn scalar_text(value: ScalarView) -> Seq<char> {
    match value {
        ScalarView::Null => seq!['n', 'u', 'l', 'l'],
        ScalarView::Flag(on) => if on {
            seq!['t', 'r', 'u', 'e']
        } else {
            seq!['f', 'a', 'l', 's', 'e']
        },
        ScalarView::Number(literal) => literal,
        ScalarView::Text(text) => json_string_literal(text),
        ScalarView::Nested(json) => json,
    }
}

/// The JSON text of one field: its name as a string literal, a colon, its
/// value.
pub open spec fn field_text(field: FieldView) -> Seq<char> {
    json_string_literal(field.name) + seq![':'] + scalar_text(field.value)
}

/// The JSON texts of `fields`, in order, with a comma between two of them.
pub open spec fn fields_text(fields: Seq<FieldView>) -> Seq<char>
    decreases fields.len(),
{
    if fields.len() == 0 {
        Seq::empty()
    } else if fields.len() == 1 {
        field_text(fields[0])
    } else {
        fields_text(fields.drop_last()) + seq![','] + field_text(fields.last())
    }
}

/// The JSON text of the document that `fields` make up: one compact object.
pub open spec fn document_text(fields: Seq<FieldView>) -> Seq<char> {
    seq!['{'] + fields_text(fields) + seq!['}']
}

/// Whether the text that is written for `fields` is read as `fields` again.
pub open spec fn reads_back(fields: Seq<FieldView>) -> bool {
    parsed(json_object_fields(document_text(fields))) == Ok::<Seq<FieldView>, PatchError>(fields)
}

/// Builds the document from what was read of a record's value.
pub fn document_from(fields: Option<Vec<Field>>) -> (outcome: Result<ConfigDocument, PatchError>)
    ensures
        match fields {
            Some(list) => match parsed(Some(field_views(list@))) {
                Ok(views) => outcome is Ok && outcome->Ok_0@ == views,
                Err(error) => outcome is Err && outcome->Err_0 == error,
            },
            None => outcome is Err && outcome->Err_0 == PatchError::MalformedDocument,
        },
        outcome is Ok ==> distinct_names(outcome->Ok_0@),
{
    match fields {
        Some(list) => match ConfigDocument::from_fields(list) {
            Some(doc) => Ok(doc),
            None => Err(PatchError::MalformedDocument),
        },
        None => Err(PatchError::MalformedDocument),
    }
}

/// Reads the text of a record's value into a document.
///
/// Fails with `MalformedDocument` where `raw` is not the text of one JSON
/// object: where it is no JSON, or the JSON of an array, a string, a number,
/// `true`, `false` or `null`.
pub fn parse(raw: &str) -> (outcome: Result<ConfigDocument, PatchError>)
    ensures
        match parsed(json_object_fields(raw@)) {
            Ok(fields) => outcome is Ok && outcome->Ok_0@ == fields,
            Err(error) => outcome is Err && outcome->Err_0 == error,
        },
        outcome is Ok ==> distinct_names(outcome->Ok_0@),
{
    document_from(decode_object(raw))
}

/// Appends the JSON text of `value` to `out`.
fn push_scalar(out: &mut String, value: &Scalar)
    ensures
        final(out)@ == old(out)@ + scalar_text(value@),
{
    proof {
        reveal_strlit("null");
        reveal_strlit("true");
        reveal_strlit("false");
        assert("null"@ =~= seq!['n', 'u', 'l', 'l']);
        assert("true"@ =~= seq!['t', 'r', 'u', 'e']);
        assert("false"@ =~= seq!['f', 'a', 'l', 's', 'e']);
    }
    match value {
        Scalar::Null => out.append("null"),
        Scalar::Flag(on) => if *on {
            out.append("true")
        } else {
            out.append("false")
        },
        Scalar::Number(literal) => out.append(literal.as_str()),
        Scalar::Text(text) => {
            let literal = quote(text.as_str());
            out.append(literal.as_str())
        },
        Scalar::Nested(json) => out.append(json.as_str()),
    }
}

/// Appends the JSON text of `field` to `out`.
fn push_field(out: &mut String, field: &Field)
    ensures
        final(out)@ == old(out)@ + field_text(field@),
{
    let name = quote(field.name.as_str());
    out.append(name.as_str());
    out.append(":");
    proof {
        reveal_strlit(":");
        assert(":"@ =~= seq![':']);
    }
    push_scalar(out, &field.value);
    assert(out@ =~= old(out)@ + field_text(field@));
}

/// Writes `doc` out as the text of one compact JSON object, its fields in the
/// document's order.
pub fn serialize(doc: &ConfigDocument) -> (text: String)
    ensures
        text@ == document_text(doc@),
{
    let mut text = String::from_str("{");
    proof {
        reveal_strlit("{");
        reveal_strlit(",");
        reveal_strlit("}");
        assert("{"@ =~= seq!['{']);
        assert(","@ =~= seq![',']);
        assert("}"@ =~= seq!['}']);
        assert(doc@.take(0) =~= Seq::<FieldView>::empty());
        assert(seq!['{'] + fields_text(doc@.take(0)) =~= seq!['{']);
    }
    let mut at: usize = 0;
    while at < doc.len()
        invariant
            at <= doc@.len(),
            ","@ == seq![','],
            text@ == seq!['{'] + fields_text(doc@.take(at as int)),
        decreases doc@.len() - at,
    {
        let ghost before = text@;
        if at > 0 {
            text.append(",");
        }
        push_field(&mut text, doc.field(at));
        proof {
            let done = doc@.take(at as int);
            let next = doc@.take(at + 1);
            assert(next.drop_last() =~= done);
            assert(next.last() == doc@[at as int]);
            if at == 0 {
                assert(next[0] == doc@[0]);
                assert(text@ =~= seq!['{'] + fields_text(next));
            } else {
                assert(text@ =~= seq!['{'] + (fields_text(done) + seq![','] + field_text(
                    doc@[at as int],
                )));
            }
        }
        at += 1;
    }
    proof {
        assert(doc@.take(at as int) =~= doc@);
    }
    text.append("}");
    text
}

/// Writes `doc` out as `serialize` does, and reads the text again before it
/// hands it out: a text that would not be read as `doc` is never given.
///
/// The text of a document that was read from a record and edited is read
/// back as that document. This function does not take that on trust: where
/// the reading differs, it fails with `MalformedDocument` and the caller
/// writes nothing.
pub fn serialize_checked(doc: &ConfigDocument) -> (outcome: Result<String, PatchError>)
    ensures
        match outcome {
            Ok(text) => text@ == document_text(doc@) && reads_back(doc@),
            Err(error) => error == PatchError::MalformedDocument && !reads_back(doc@),
        },
{
    let text = serialize(doc);
    match parse(text.as_str()) {
        Ok(again) => {
            if again.same_as(doc) {
                Ok(text)
            } else {
                Err(PatchError::MalformedDocument)
            }
        },
        Err(_) => Err(PatchError::MalformedDocument),
    }
}

} // verus!
