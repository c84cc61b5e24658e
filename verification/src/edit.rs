//! Edits to a configuration document, and the rules that every edit obeys.
//!
//! An edit set names fields and gives each a new value. Applying it writes
//! those fields and leaves every other field as it was. Two rules go with the
//! frame rate: its value must lie in the accepted range, and whenever it is
//! written, vertical sync is switched off.

use vstd::prelude::*;
use crate::document::{
    distinct_names, has_field, lemma_position_is_unique, lemma_put, named_at, position_of, put,
    value_of, whole, whole_of, ConfigDocument, FieldView, Scalar, ScalarView,
};
use crate::decimal::law_integer_text_reads_back;
use crate::error::PatchError;

verus! {

/// The field that holds the target frame rate.
pub const FRAME_RATE_FIELD: &'static str = "KeyCustomFrameRate";

/// The field that switches vertical sync on (1) and off (0).
pub const VSYNC_FIELD: &'static str = "KeyPcVsync";

/// The smallest frame rate that is accepted.
pub const MIN_FRAME_RATE: i64 = 1;

/// The largest frame rate that is accepted.
pub const MAX_FRAME_RATE: i64 = 1000;

/// What to do with an edit that names a field which the document lacks.
#[derive(Clone, Copy, Debug, PartialEq, Eq, Structural)]
pub enum Policy {
    /// Add the field at the end of the document.
    Permissive,
    /// Refuse the whole edit set.
    Strict,
}

/// Whether `rate` may be stored as the target frame rate.
pub open spec fn frame_rate_accepted(rate: int) -> bool {
    MIN_FRAME_RATE <= rate <= MAX_FRAME_RATE
}

/// `fields` after each edit of `edits` was written in turn.
pub open spec fn apply_all(fields: Seq<FieldView>, edits: Seq<FieldView>) -> Seq<FieldView>
    decreases edits.len(),
{
    if edits.len() == 0 {
        fields
    } else {
        put(apply_all(fields, edits.drop_last()), edits.last().name, edits.last().value)
    }
}

/// Whether `edits` writes the frame rate.
pub open spec fn sets_frame_rate(edits: Seq<FieldView>) -> bool {
    has_field(edits, FRAME_RATE_FIELD@)
}

/// Whether the frame rate that `edits` writes, if it writes one, is a whole
/// number in the accepted range.
pub open spec fn frame_rate_edit_accepted(edits: Seq<FieldView>) -> bool {
    match value_of(edits, FRAME_RATE_FIELD@) {
        Some(value) => match whole_of(value) {
            Some(rate) => frame_rate_accepted(rate),
            None => false,
        },
        None => true,
    }
}

/// Whether `fields` has every field that applying `edits` writes: those that
/// `edits` names, and vertical sync where `edits` writes the frame rate.
pub open spec fn writes_known_fields_only(fields: Seq<FieldView>, edits: Seq<FieldView>) -> bool {
    &&& forall|i: int| 0 <= i < edits.len() ==> has_field(fields, (#[trigger] edits[i]).name)
    &&& sets_frame_rate(edits) ==> has_field(fields, VSYNC_FIELD@)
}

/// `fields` with `edits` written, and vertical sync switched off where `edits`
/// writes the frame rate.
pub open spec fn patched(fields: Seq<FieldView>, edits: Seq<FieldView>) -> Seq<FieldView> {
    let written = apply_all(fields, edits);
    if sets_frame_rate(edits) {
        put(written, VSYNC_FIELD@, whole(0))
    } else {
        written
    }
}

/// What applying `edits` to `fields` under `policy` gives.
pub open spec fn edited(fields: Seq<FieldView>, edits: Seq<FieldView>, policy: Policy) -> Result<
    Seq<FieldView>,
    PatchError,
> {
    if !frame_rate_edit_accepted(edits) {
        Err(PatchError::InvalidFrameRate)
    } else if policy == Policy::Strict && !writes_known_fields_only(fields, edits) {
        Err(PatchError::UnknownFieldPolicyViolation)
    } else {
        Ok(patched(fields, edits))
    }
}

/// The edit set that asks for the frame rate `rate` and nothing else.
pub open spec fn frame_rate_request(rate: int) -> Seq<FieldView> {
    seq![FieldView { name: FRAME_RATE_FIELD@, value: whole(rate) }]
}

/// The two fields of the frame-rate rule have different names.
pub proof fn lemma_rule_fields_differ()
    ensures
        FRAME_RATE_FIELD@ != VSYNC_FIELD@,
{
    reveal_strlit("KeyCustomFrameRate");
    reveal_strlit("KeyPcVsync");
    assert(FRAME_RATE_FIELD@.len() == 18);
    assert(VSYNC_FIELD@.len() == 10);
}

/// How the fields of a list relate to those of the list without its last.
proof fn lemma_last_field(fields: Seq<FieldView>, name: Seq<char>)
    requires
        distinct_names(fields),
        fields.len() > 0,
    ensures
        distinct_names(fields.drop_last()),
        has_field(fields, name) == (has_field(fields.drop_last(), name) || fields.last().name
            == name),
        value_of(fields, name) == if fields.last().name == name {
            Some(fields.last().value)
        } else {
            value_of(fields.drop_last(), name)
        },
{
    let front = fields.drop_last();
    let end = fields.len() - 1;
    assert forall|i: int, j: int| 0 <= i < j < front.len() implies (#[trigger] front[i]).name != (
    #[trigger] front[j]).name by {
        assert(front[i] == fields[i]);
        assert(front[j] == fields[j]);
    }
    if fields.last().name == name {
        assert(named_at(fields, end, name));
        lemma_position_is_unique(fields, end, name);
    } else if has_field(fields, name) {
        let at = position_of(fields, name);
        assert(named_at(fields, at, name));
        assert(named_at(front, at, name));
        lemma_position_is_unique(front, at, name);
    } else if has_field(front, name) {
        let at = position_of(front, name);
        assert(named_at(front, at, name));
        assert(named_at(fields, at, name));
    }
}

/// What writing `edits` leaves behind, field by field: an edited field has the
/// edit's value, any other field the value it had, and the document's fields
/// keep their places.
pub proof fn lemma_apply_all(fields: Seq<FieldView>, edits: Seq<FieldView>)
    requires
        distinct_names(fields),
        distinct_names(edits),
    ensures
        distinct_names(apply_all(fields, edits)),
        apply_all(fields, edits).len() >= fields.len(),
        forall|at: int|
            0 <= at < fields.len() ==> (#[trigger] apply_all(fields, edits)[at]).name
                == fields[at].name,
        forall|name: Seq<char>| #[trigger]
            has_field(apply_all(fields, edits), name) == (has_field(fields, name) || has_field(
                edits,
                name,
            )),
        forall|name: Seq<char>| #[trigger]
            value_of(apply_all(fields, edits), name) == if has_field(edits, name) {
                value_of(edits, name)
            } else {
                value_of(fields, name)
            },
    decreases edits.len(),
{
    let after = apply_all(fields, edits);
    if edits.len() == 0 {
        assert forall|name: Seq<char>| !has_field(edits, name) by {
            if has_field(edits, name) {
                assert(named_at(edits, position_of(edits, name), name));
            }
        }
    } else {
        let front = edits.drop_last();
        let last = edits.last();
        let before = apply_all(fields, front);
        lemma_last_field(edits, last.name);
        lemma_apply_all(fields, front);
        lemma_put(before, last.name, last.value);
        assert forall|name: Seq<char>| #[trigger]
            has_field(after, name) == (has_field(fields, name) || has_field(
                edits,
                name,
            )) by {
            lemma_last_field(edits, name);
            if name == last.name {
                assert(value_of(after, name) is Some);
            }
        }
        assert forall|name: Seq<char>| #[trigger]
            value_of(after, name) == if has_field(edits, name) {
                value_of(edits, name)
            } else {
                value_of(fields, name)
            } by {
            lemma_last_field(edits, name);
        }
    }
}

/// Applying no edit gives the document back, whatever the policy.
pub proof fn law_no_edit_is_identity(fields: Seq<FieldView>, policy: Policy)
    ensures
        edited(fields, Seq::<FieldView>::empty(), policy) == Ok::<Seq<FieldView>, PatchError>(
            fields,
        ),
{
    let none = Seq::<FieldView>::empty();
    assert(!has_field(none, FRAME_RATE_FIELD@)) by {
        if has_field(none, FRAME_RATE_FIELD@) {
            assert(named_at(none, position_of(none, FRAME_RATE_FIELD@), FRAME_RATE_FIELD@));
        }
    }
}

/// Applying an edit set leaves every field that it does not write as it was:
/// a field that the set does not name, and that is not vertical sync where the
/// set writes the frame rate, keeps its value; and the fields that the
/// document had keep their places and names.
pub proof fn law_other_fields_are_kept(
    fields: Seq<FieldView>,
    edits: Seq<FieldView>,
    policy: Policy,
    name: Seq<char>,
)
    requires
        distinct_names(fields),
        distinct_names(edits),
        edited(fields, edits, policy) is Ok,
        !has_field(edits, name),
        sets_frame_rate(edits) ==> name != VSYNC_FIELD@,
    ensures
        value_of(edited(fields, edits, policy)->Ok_0, name) == value_of(fields, name),
        edited(fields, edits, policy)->Ok_0.len() >= fields.len(),
        forall|at: int|
            0 <= at < fields.len() ==> (#[trigger] edited(fields, edits, policy)->Ok_0[at]).name
                == fields[at].name,
{
    lemma_apply_all(fields, edits);
    lemma_put(apply_all(fields, edits), VSYNC_FIELD@, whole(0));
}

/// Writing one field that the document has, with a value that is valid for
/// it, changes that field and no other: the document keeps its length, every
/// field its place and name, and every other field its value.
///
/// Writing the frame rate also switches vertical sync off, so for the frame
/// rate this holds of the documents in which vertical sync is off already.
pub proof fn law_single_edit_changes_one_field(
    fields: Seq<FieldView>,
    name: Seq<char>,
    value: ScalarView,
    policy: Policy,
)
    requires
        distinct_names(fields),
        has_field(fields, name),
        name == FRAME_RATE_FIELD@ ==> whole_of(value) is Some && frame_rate_accepted(
            whole_of(value)->0,
        ),
        name == FRAME_RATE_FIELD@ ==> value_of(fields, VSYNC_FIELD@) == Some(whole(0)),
    ensures
        edited(fields, seq![FieldView { name, value }], policy) == Ok::<
            Seq<FieldView>,
            PatchError,
        >(fields.update(position_of(fields, name), FieldView { name, value })),
        value_of(edited(fields, seq![FieldView { name, value }], policy)->Ok_0, name) == Some(
            value,
        ),
        forall|other: Seq<char>|
            other != name ==> #[trigger] value_of(
                edited(fields, seq![FieldView { name, value }], policy)->Ok_0,
                other,
            ) == value_of(fields, other),
{
    let edit = FieldView { name, value };
    let edits = seq![edit];
    assert(edits.drop_last() =~= Seq::<FieldView>::empty());
    assert(apply_all(fields, edits.drop_last()) == fields);
    let written = put(fields, name, value);
    assert(apply_all(fields, edits) == written);
    assert(named_at(edits, 0, name));
    lemma_position_is_unique(edits, 0, name);
    lemma_put(fields, name, value);
    assert forall|i: int| 0 <= i < edits.len() implies has_field(fields, (#[trigger] edits[i]).name) by {
        assert(edits[i] == edit);
    }
    if name == FRAME_RATE_FIELD@ {
        lemma_rule_fields_differ();
        let at = position_of(written, VSYNC_FIELD@);
        assert(has_field(written, VSYNC_FIELD@));
        assert(named_at(written, at, VSYNC_FIELD@));
        assert(written[at] == FieldView { name: VSYNC_FIELD@, value: whole(0) });
        assert(put(written, VSYNC_FIELD@, whole(0)) =~= written);
    } else {
        assert(!has_field(edits, FRAME_RATE_FIELD@)) by {
            if has_field(edits, FRAME_RATE_FIELD@) {
                assert(named_at(edits, position_of(edits, FRAME_RATE_FIELD@), FRAME_RATE_FIELD@));
            }
        }
    }
}

/// Whenever an edit set that writes the frame rate is applied, vertical sync
/// is off afterwards, whatever it was before and whatever the set says of it.
pub proof fn law_frame_rate_switches_vsync_off(
    fields: Seq<FieldView>,
    edits: Seq<FieldView>,
    policy: Policy,
)
    requires
        distinct_names(fields),
        distinct_names(edits),
        sets_frame_rate(edits),
        edited(fields, edits, policy) is Ok,
    ensures
        value_of(edited(fields, edits, policy)->Ok_0, VSYNC_FIELD@) == Some(whole(0)),
        whole_of(value_of(edited(fields, edits, policy)->Ok_0, FRAME_RATE_FIELD@)->0) is Some,
        value_of(edited(fields, edits, policy)->Ok_0, FRAME_RATE_FIELD@) == value_of(
            edits,
            FRAME_RATE_FIELD@,
        ),
{
    lemma_rule_fields_differ();
    lemma_apply_all(fields, edits);
    lemma_put(apply_all(fields, edits), VSYNC_FIELD@, whole(0));
}

/// An edit set is refused for its frame rate exactly when it writes one that
/// is not a whole number from `MIN_FRAME_RATE` to `MAX_FRAME_RATE`; a request
/// for the rate `rate` is refused exactly when `rate` is below 1 or above 1000.
pub proof fn law_frame_rate_range(fields: Seq<FieldView>, rate: int, policy: Policy)
    ensures
        edited(fields, frame_rate_request(rate), policy) == Err::<Seq<FieldView>, PatchError>(
            PatchError::InvalidFrameRate,
        ) <==> rate <= 0 || rate > 1000,
        rate == 30 || rate == 60 || rate == 120 || rate == 144 || rate == 240 ==> frame_rate_accepted(
            rate,
        ),
{
    let edits = frame_rate_request(rate);
    assert(named_at(edits, 0, FRAME_RATE_FIELD@));
    lemma_position_is_unique(edits, 0, FRAME_RATE_FIELD@);
    law_integer_text_reads_back(rate);
}

/// What becomes of an edit that names a field which the document lacks is the
/// policy's to say: the strict policy refuses the edit set, the permissive
/// policy adds the field with the edit's value, behind the fields that the
/// document had.
pub proof fn law_policy_decides_unknown_fields(
    fields: Seq<FieldView>,
    edits: Seq<FieldView>,
    name: Seq<char>,
)
    requires
        distinct_names(fields),
        distinct_names(edits),
        frame_rate_edit_accepted(edits),
        has_field(edits, name),
        !has_field(fields, name),
    ensures
        edited(fields, edits, Policy::Strict) == Err::<Seq<FieldView>, PatchError>(
            PatchError::UnknownFieldPolicyViolation,
        ),
        edited(fields, edits, Policy::Permissive) is Ok,
        has_field(edited(fields, edits, Policy::Permissive)->Ok_0, name),
        !(sets_frame_rate(edits) && name == VSYNC_FIELD@) ==> value_of(
            edited(fields, edits, Policy::Permissive)->Ok_0,
            name,
        ) == value_of(edits, name),
        forall|at: int|
            0 <= at < fields.len() ==> (#[trigger] edited(
                fields,
                edits,
                Policy::Permissive,
            )->Ok_0[at]).name == fields[at].name,
{
    let at = position_of(edits, name);
    assert(named_at(edits, at, name));
    assert(edits[at].name == name);
    lemma_apply_all(fields, edits);
    lemma_put(apply_all(fields, edits), VSYNC_FIELD@, whole(0));
    assert(has_field(apply_all(fields, edits), name));
    if name == VSYNC_FIELD@ {
        assert(value_of(patched(fields, edits), name) is Some);
    }
}

/// Tells whether `rate` may be stored as the target frame rate.
pub fn validate_frame_rate(rate: i64) -> (checked: Result<(), PatchError>)
    ensures
        checked == if frame_rate_accepted(rate as int) {
            Ok::<(), PatchError>(())
        } else {
            Err::<(), PatchError>(PatchError::InvalidFrameRate)
        },
{
    if MIN_FRAME_RATE <= rate && rate <= MAX_FRAME_RATE {
        Ok(())
    } else {
        Err(PatchError::InvalidFrameRate)
    }
}

/// A set of edits: field names, each with the value to write.
#[derive(Debug, PartialEq, Eq)]
pub struct EditSet {
    changes: ConfigDocument,
}

impl View for EditSet {
    type V = Seq<FieldView>;

    closed spec fn view(&self) -> Seq<FieldView> {
        self.changes@
    }
}

impl Clone for EditSet {
    fn clone(&self) -> (copy: EditSet)
        ensures
            copy@ == self@,
    {
        EditSet { changes: self.changes.clone() }
    }
}

impl EditSet {
    /// The set without edits.
    pub fn new() -> (edits: EditSet)
        ensures
            edits@ == Seq::<FieldView>::empty(),
    {
        EditSet { changes: ConfigDocument::new() }
    }

    /// The number of fields that the set writes.
    pub fn len(&self) -> (n: usize)
        ensures
            n == self@.len(),
            distinct_names(self@),
    {
        self.changes.len()
    }

    /// Whether the set writes nothing.
    pub fn is_empty(&self) -> (empty: bool)
        ensures
            empty == (self@.len() == 0),
    {
        self.changes.is_empty()
    }

    /// The value that the set writes to the field called `name`, if it writes
    /// that field.
    pub fn get(&self, name: &str) -> (value: Option<&Scalar>)
        ensures
            match value {
                Some(v) => value_of(self@, name@) == Some(v@),
                None => value_of(self@, name@) is None,
            },
    {
        self.changes.get(name)
    }

    /// This set, with `value` for the field called `name` in place of what it
    /// had for that field.
    pub fn with_value(self, name: &str, value: Scalar) -> (edits: EditSet)
        ensures
            edits@ == put(self@, name@, value@),
    {
        EditSet { changes: self.changes.with_field(name, value) }
    }

    /// This set, with the whole number `value` for the field called `name`.
    pub fn with_whole(self, name: &str, value: i64) -> (edits: EditSet)
        ensures
            edits@ == put(self@, name@, whole(value as int)),
    {
        self.with_value(name, Scalar::integer(value))
    }

    /// This set, with the field called `name` switched on or off: a switch is
    /// written as the number 1 or 0.
    pub fn with_toggle(self, name: &str, on: bool) -> (edits: EditSet)
        ensures
            edits@ == put(
                self@,
                name@,
                whole(
                    if on {
                        1
                    } else {
                        0
                    },
                ),
            ),
    {
        let value: i64 = if on {
            1
        } else {
            0
        };
        self.with_whole(name, value)
    }

    /// The set that asks for the frame rate `rate` and nothing else.
    pub fn frame_rate(rate: i64) -> (edits: EditSet)
        ensures
            edits@ == frame_rate_request(rate as int),
    {
        let edits = EditSet::new().with_whole(FRAME_RATE_FIELD, rate);
        proof {
            let none = Seq::<FieldView>::empty();
            assert(!has_field(none, FRAME_RATE_FIELD@)) by {
                if has_field(none, FRAME_RATE_FIELD@) {
                    assert(named_at(none, position_of(none, FRAME_RATE_FIELD@), FRAME_RATE_FIELD@));
                }
            }
            assert(edits@ =~= frame_rate_request(rate as int));
        }
        edits
    }
}

/// Whether the frame rate that `edits` writes, if it writes one, is accepted.
fn frame_rate_edit_is_accepted(edits: &EditSet) -> (accepted: bool)
    ensures
        accepted == frame_rate_edit_accepted(edits@),
{
    match edits.get(FRAME_RATE_FIELD) {
        Some(value) => match value.as_integer() {
            Some(rate) => MIN_FRAME_RATE <= rate && rate <= MAX_FRAME_RATE,
            None => false,
        },
        None => true,
    }
}

/// Whether `doc` has every field that applying `edits` writes.
fn writes_known_fields(doc: &ConfigDocument, edits: &EditSet) -> (known: bool)
    ensures
        known == writes_known_fields_only(doc@, edits@),
{
    let mut at: usize = 0;
    while at < edits.len()
        invariant
            at <= edits@.len(),
            forall|i: int| 0 <= i < at ==> has_field(doc@, (#[trigger] edits@[i]).name),
        decreases edits@.len() - at,
    {
        if !doc.contains(edits.changes.field(at).name.as_str()) {
            return false;
        }
        at += 1;
    }
    !edits.changes.contains(FRAME_RATE_FIELD) || doc.contains(VSYNC_FIELD)
}

/// Applies `edits` to `doc` under `policy` and gives the edited document;
/// `doc` itself stays as it is.
///
/// Every field that `edits` names gets the edit's value, in its place if the
/// document has it and at the end if not. Where `edits` writes the frame rate,
/// vertical sync is set to 0 after that. The edit set is refused as a whole,
/// with `InvalidFrameRate`, where the frame rate it writes is not a whole
/// number in the accepted range; and, under the strict policy, with
/// `UnknownFieldPolicyViolation` where the document lacks a field that would
/// be written.
pub fn apply_edits(doc: &ConfigDocument, edits: &EditSet, policy: Policy) -> (outcome: Result<
    ConfigDocument,
    PatchError,
>)
    ensures
        match edited(doc@, edits@, policy) {
            Ok(fields) => outcome is Ok && outcome->Ok_0@ == fields,
            Err(error) => outcome is Err && outcome->Err_0 == error,
        },
        outcome is Ok ==> distinct_names(outcome->Ok_0@),
{
    if !frame_rate_edit_is_accepted(edits) {
        return Err(PatchError::InvalidFrameRate);
    }
    if policy == Policy::Strict && !writes_known_fields(doc, edits) {
        return Err(PatchError::UnknownFieldPolicyViolation);
    }
    let mut out = doc.clone();
    let mut at: usize = 0;
    proof {
        assert(edits@.take(0) =~= Seq::<FieldView>::empty());
    }
    while at < edits.len()
        invariant
            at <= edits@.len(),
            out@ == apply_all(doc@, edits@.take(at as int)),
            distinct_names(out@),
        decreases edits@.len() - at,
    {
        let edit = edits.changes.field(at);
        proof {
            let next = edits@.take(at + 1);
            assert(next.drop_last() =~= edits@.take(at as int));
            assert(next.last() == edits@[at as int]);
        }
        out = out.with_field(edit.name.as_str(), edit.value.clone());
        at += 1;
    }
    proof {
        assert(edits@.take(at as int) =~= edits@);
    }
    if edits.changes.contains(FRAME_RATE_FIELD) {
        out = out.with_field(VSYNC_FIELD, Scalar::integer(0));
    }
    Ok(out)
}

/// What a request for the frame rate `rate` gives on `fields`, written out:
/// the frame rate set to `rate`, then vertical sync set to 0.
pub proof fn lemma_frame_rate_request(fields: Seq<FieldView>, rate: int, policy: Policy)
    ensures
        edited(fields, frame_rate_request(rate), policy) == if !frame_rate_accepted(rate) {
            Err::<Seq<FieldView>, PatchError>(PatchError::InvalidFrameRate)
        } else if policy == Policy::Strict && !(has_field(fields, FRAME_RATE_FIELD@) && has_field(
            fields,
            VSYNC_FIELD@,
        )) {
            Err::<Seq<FieldView>, PatchError>(PatchError::UnknownFieldPolicyViolation)
        } else {
            Ok::<Seq<FieldView>, PatchError>(
                put(put(fields, FRAME_RATE_FIELD@, whole(rate)), VSYNC_FIELD@, whole(0)),
            )
        },
{
    let request = frame_rate_request(rate);
    assert(named_at(request, 0, FRAME_RATE_FIELD@));
    lemma_position_is_unique(request, 0, FRAME_RATE_FIELD@);
    law_integer_text_reads_back(rate);
    assert(request.drop_last() =~= Seq::<FieldView>::empty());
    assert(apply_all(fields, request.drop_last()) == fields);
    assert(apply_all(fields, request) == put(fields, FRAME_RATE_FIELD@, whole(rate)));
    assert(forall|i: int|
        0 <= i < request.len() ==> (#[trigger] request[i]).name == FRAME_RATE_FIELD@);
}

/// Sets the frame rate of `doc` to `rate` and switches vertical sync off;
/// `doc` itself stays as it is.
///
/// Refused with `InvalidFrameRate` where `rate` is below 1 or above 1000, and,
/// under the strict policy, with `UnknownFieldPolicyViolation` where the
/// document lacks one of the two fields.
pub fn set_frame_rate(doc: &ConfigDocument, rate: i64, policy: Policy) -> (outcome: Result<
    ConfigDocument,
    PatchError,
>)
    ensures
        match edited(doc@, frame_rate_request(rate as int), policy) {
            Ok(fields) => outcome is Ok && outcome->Ok_0@ == fields,
            Err(error) => outcome is Err && outcome->Err_0 == error,
        },
        outcome is Ok <==> frame_rate_accepted(rate as int) && (policy == Policy::Strict
            ==> has_field(doc@, FRAME_RATE_FIELD@) && has_field(doc@, VSYNC_FIELD@)),
        outcome is Ok ==> outcome->Ok_0@ == put(
            put(doc@, FRAME_RATE_FIELD@, whole(rate as int)),
            VSYNC_FIELD@,
            whole(0),
        ),
        outcome is Ok ==> distinct_names(outcome->Ok_0@),
        outcome is Err ==> outcome->Err_0 == if frame_rate_accepted(rate as int) {
            PatchError::UnknownFieldPolicyViolation
        } else {
            PatchError::InvalidFrameRate
        },
{
    proof {
        lemma_frame_rate_request(doc@, rate as int, policy);
    }
    apply_edits(doc, &EditSet::frame_rate(rate), policy)
}

} // verus!
