//! The whole edit of one record: read the text, set the frame rate, write the
//! text.

use vstd::prelude::*;
use crate::document::{put, whole, ConfigDocument, FieldView};
use crate::edit::{
    edited, frame_rate_accepted, frame_rate_request, lemma_frame_rate_request, set_frame_rate,
    Policy, FRAME_RATE_FIELD, VSYNC_FIELD,
};
use crate::error::PatchError;
use crate::json::{
    document_text, json_object_fields, parse, parsed, reads_back, serialize_checked,
};

verus! {

/// The text of the document that `fields` make up once the frame rate is set
/// to `rate`, or why there is none: the edit is refused, or the text would not
/// be read as the edited document again.
pub open spec fn patched_text(fields: Seq<FieldView>, rate: int, policy: Policy) -> Result<
    Seq<char>,
    PatchError,
> {
    match edited(fields, frame_rate_request(rate), policy) {
        Ok(after) => if reads_back(after) {
            Ok(document_text(after))
        } else {
            Err(PatchError::MalformedDocument)
        },
        Err(error) => Err(error),
    }
}

/// Wherever there is a text to replace a record's value, it is read as the
/// edited document: the frame rate is `rate`, vertical sync is off, and every
/// other field of `fields` has its value and its place.
pub proof fn law_patched_text_reads_as_edited(fields: Seq<FieldView>, rate: int, policy: Policy)
    ensures
        patched_text(fields, rate, policy) is Ok ==> frame_rate_accepted(rate) && parsed(
            json_object_fields(patched_text(fields, rate, policy)->Ok_0),
        ) == Ok::<Seq<FieldView>, PatchError>(
            put(put(fields, FRAME_RATE_FIELD@, whole(rate)), VSYNC_FIELD@, whole(0)),
        ),
{
    lemma_frame_rate_request(fields, rate, policy);
}

/// What a record's value becomes once the frame rate is set to `rate`, given
/// the document that was read from it, or why it cannot be set.
pub open spec fn patched_record(
    read: Result<Seq<FieldView>, PatchError>,
    rate: int,
    policy: Policy,
) -> Result<Seq<char>, PatchError> {
    match read {
        Ok(fields) => patched_text(fields, rate, policy),
        Err(error) => Err(error),
    }
}

/// Sets the frame rate of `doc` to `rate`, switches vertical sync off, and
/// writes the document out. The text that comes out is read as the edited
/// document again, or none comes out.
pub fn patch_document(doc: &ConfigDocument, rate: i64, policy: Policy) -> (outcome: Result<
    String,
    PatchError,
>)
    ensures
        match patched_text(doc@, rate as int, policy) {
            Ok(text) => outcome is Ok && outcome->Ok_0@ == text,
            Err(error) => outcome is Err && outcome->Err_0 == error,
        },
{
    match set_frame_rate(doc, rate, policy) {
        Ok(after) => serialize_checked(&after),
        Err(error) => Err(error),
    }
}

/// Gives the text that is to replace `raw`, the value of the record, so that
/// the frame rate is `rate` and vertical sync is off. Every other field of
/// the record is written as it was read.
///
/// Fails with `MalformedDocument` where `raw` is not the text of a JSON
/// object; if it is, with `InvalidFrameRate` where `rate` is below 1 or above
/// 1000; and if not that, under the strict policy, with
/// `UnknownFieldPolicyViolation` where the record lacks one of the two fields.
/// The text that comes out is read as the edited document again: were it not,
/// `MalformedDocument` would come out in its place.
pub fn patch_record(raw: &str, rate: i64, policy: Policy) -> (outcome: Result<String, PatchError>)
    ensures
        match patched_record(parsed(json_object_fields(raw@)), rate as int, policy) {
            Ok(text) => outcome is Ok && outcome->Ok_0@ == text,
            Err(error) => outcome is Err && outcome->Err_0 == error,
        },
{
    match parse(raw) {
        Ok(doc) => patch_document(&doc, rate, policy),
        Err(error) => Err(error),
    }
}

/// The same for what the store gave for the record's key: where it has no
/// such record, there is nothing to patch, and `RecordNotFound` says so.
pub fn patch_stored(stored: Option<&str>, rate: i64, policy: Policy) -> (outcome: Result<
    String,
    PatchError,
>)
    ensures
        match stored {
            Some(raw) => match patched_record(
                parsed(json_object_fields(raw@)),
                rate as int,
                policy,
            ) {
                Ok(text) => outcome is Ok && outcome->Ok_0@ == text,
                Err(error) => outcome is Err && outcome->Err_0 == error,
            },
            None => outcome is Err && outcome->Err_0 == PatchError::RecordNotFound,
        },
{
    match stored {
        Some(raw) => patch_record(raw, rate, policy),
        None => Err(PatchError::RecordNotFound),
    }
}

} // verus!
