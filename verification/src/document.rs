//! The configuration document: named fields in the order in which they were
//! read, each with a JSON value that is kept as it was read.

use vstd::prelude::*;
use crate::decimal::{integer_of_text, integer_string, integer_text, parse_integer};
use crate::text::same_text;

verus! {

/// One JSON value of the document.
///
/// A number is kept as a JSON literal, digit for digit, so a field read as
/// `60` stays `60` and one read as `60.0` stays `60.0`. An array or an object
/// is kept as its JSON text: the patcher carries it through and never looks
/// inside.
#[derive(Debug, PartialEq, Eq)]
pub enum Scalar {
    /// `null`.
    Null,
    /// `true` or `false`.
    Flag(bool),
    /// A number, as its JSON literal.
    Number(String),
    /// A string, as the characters it stands for.
    Text(String),
    /// An array or an object, as compact JSON text.
    Nested(String),
}

/// What a `Scalar` is to a contract.
pub enum ScalarView {
    Null,
    Flag(bool),
    Number(Seq<char>),
    Text(Seq<char>),
    Nested(Seq<char>),
}

impl View for Scalar {
    type V = ScalarView;

    open spec fn view(&self) -> ScalarView {
        match self {
            Scalar::Null => ScalarView::Null,
            Scalar::Flag(b) => ScalarView::Flag(*b),
            Scalar::Number(literal) => ScalarView::Number(literal@),
            Scalar::Text(text) => ScalarView::Text(text@),
            Scalar::Nested(json) => ScalarView::Nested(json@),
        }
    }
}

/// The value that writes the whole number `v`.
pub open spec fn whole(v: int) -> ScalarView {
    ScalarView::Number(integer_text(v))
}

/// The whole number that `value` writes, if it is the canonical text of one.
pub open spec fn whole_of(value: ScalarView) -> Option<int> {
    match value {
        ScalarView::Number(literal) => integer_of_text(literal),
        _ => None,
    }
}

impl Scalar {
    /// The number `v`.
    pub fn integer(v: i64) -> (value: Scalar)
        ensures
            value@ == whole(v as int),
    {
        Scalar::Number(integer_string(v))
    }

    /// The whole number that this value writes, where it writes one that fits.
    pub fn as_integer(&self) -> (v: Option<i64>)
        ensures
            v == match whole_of(self@) {
                Some(n) => if i64::MIN <= n <= i64::MAX {
                    Some(n as i64)
                } else {
                    None
                },
                None => None,
            },
    {
        match self {
            Scalar::Number(literal) => parse_integer(literal.as_str()),
            _ => None,
        }
    }

    /// Tells whether `other` is the same value: of the same kind, and written
    /// the same.
    pub fn same_as(&self, other: &Scalar) -> (same: bool)
        ensures
            same == (self@ == other@),
    {
        match (self, other) {
            (Scalar::Null, Scalar::Null) => true,
            (Scalar::Flag(a), Scalar::Flag(b)) => *a == *b,
            (Scalar::Number(a), Scalar::Number(b)) => same_text(a.as_str(), b.as_str()),
            (Scalar::Text(a), Scalar::Text(b)) => same_text(a.as_str(), b.as_str()),
            (Scalar::Nested(a), Scalar::Nested(b)) => same_text(a.as_str(), b.as_str()),
            _ => false,
        }
    }
}

impl Clone for Scalar {
    fn clone(&self) -> (copy: Scalar)
        ensures
            copy@ == self@,
    {
        match self {
            Scalar::Null => Scalar::Null,
            Scalar::Flag(b) => Scalar::Flag(*b),
            Scalar::Number(literal) => Scalar::Number(literal.clone()),
            Scalar::Text(text) => Scalar::Text(text.clone()),
            Scalar::Nested(json) => Scalar::Nested(json.clone()),
        }
    }
}

/// One field of the document.
#[derive(Debug, PartialEq, Eq)]
pub struct Field {
    pub name: String,
    pub value: Scalar,
}

/// What a `Field` is to a contract.
pub struct FieldView {
    pub name: Seq<char>,
    pub value: ScalarView,
}

impl View for Field {
    type V = FieldView;

    open spec fn view(&self) -> FieldView {
        FieldView { name: self.name@, value: self.value@ }
    }
}

impl Field {
    /// Tells whether `other` has the same name and the same value.
    pub fn same_as(&self, other: &Field) -> (same: bool)
        ensures
            same == (self@ == other@),
    {
        same_text(self.name.as_str(), other.name.as_str()) && self.value.same_as(&other.value)
    }
}

impl Clone for Field {
    fn clone(&self) -> (copy: Field)
        ensures
            copy@ == self@,
    {
        Field { name: self.name.clone(), value: self.value.clone() }
    }
}

/// What a list of fields is to a contract.
pub open spec fn field_views(fields: Seq<Field>) -> Seq<FieldView> {
    fields.map_values(|field: Field| field@)
}

/// Whether position `at` of `fields` holds the field called `name`.
pub open spec fn named_at(fields: Seq<FieldView>, at: int, name: Seq<char>) -> bool {
    0 <= at < fields.len() && fields[at].name == name
}

/// Whether `fields` has a field called `name`.
pub open spec fn has_field(fields: Seq<FieldView>, name: Seq<char>) -> bool {
    exists|at: int| named_at(fields, at, name)
}

/// Where the field called `name` stands in `fields`, if there is one.
pub open spec fn position_of(fields: Seq<FieldView>, name: Seq<char>) -> int {
    choose|at: int| named_at(fields, at, name)
}

/// The value of the field called `name`, if there is one.
pub open spec fn value_of(fields: Seq<FieldView>, name: Seq<char>) -> Option<ScalarView> {
    if has_field(fields, name) {
        Some(fields[position_of(fields, name)].value)
    } else {
        None
    }
}

/// Whether no two fields of `fields` share a name.
pub open spec fn distinct_names(fields: Seq<FieldView>) -> bool {
    forall|i: int, j: int|
        0 <= i < j < fields.len() ==> (#[trigger] fields[i]).name != (#[trigger] fields[j]).name
}

/// `fields` with the field called `name` set to `value`: in its place if
/// there is one, else as a new last field.
pub open spec fn put(fields: Seq<FieldView>, name: Seq<char>, value: ScalarView) -> Seq<
    FieldView,
> {
    if has_field(fields, name) {
        fields.update(position_of(fields, name), FieldView { name, value })
    } else {
        fields.push(FieldView { name, value })
    }
}

/// With distinct names, a field's name tells its position.
pub proof fn lemma_position_is_unique(fields: Seq<FieldView>, at: int, name: Seq<char>)
    requires
        distinct_names(fields),
        named_at(fields, at, name),
    ensures
        has_field(fields, name),
        position_of(fields, name) == at,
        value_of(fields, name) == Some(fields[at].value),
{
    let found = position_of(fields, name);
    assert(named_at(fields, found, name));
    if found < at {
        assert(fields[found].name != fields[at].name);
    } else if at < found {
        assert(fields[at].name != fields[found].name);
    }
}

/// `put` leaves a field of another name as it was.
proof fn lemma_put_keeps(
    fields: Seq<FieldView>,
    name: Seq<char>,
    value: ScalarView,
    other: Seq<char>,
)
    requires
        distinct_names(fields),
        other != name,
    ensures
        has_field(put(fields, name, value), other) == has_field(fields, other),
        value_of(put(fields, name, value), other) == value_of(fields, other),
{
    let after = put(fields, name, value);
    if has_field(fields, name) {
        assert(named_at(fields, position_of(fields, name), name));
    }
    if has_field(fields, other) {
        let at = position_of(fields, other);
        assert(named_at(fields, at, other));
        assert(named_at(after, at, other));
        let found = position_of(after, other);
        assert(named_at(after, found, other));
        assert(named_at(fields, found, other));
        lemma_position_is_unique(fields, found, other);
    } else if has_field(after, other) {
        let at = position_of(after, other);
        assert(named_at(after, at, other));
        assert(named_at(fields, at, other));
    }
}

/// What `put` leaves behind: distinct names, the new value under `name`, and
/// every other field as it was.
pub proof fn lemma_put(fields: Seq<FieldView>, name: Seq<char>, value: ScalarView)
    requires
        distinct_names(fields),
    ensures
        distinct_names(put(fields, name, value)),
        value_of(put(fields, name, value), name) == Some(value),
        forall|other: Seq<char>|
            other != name ==> #[trigger] has_field(put(fields, name, value), other) == has_field(
                fields,
                other,
            ),
        forall|other: Seq<char>|
            other != name ==> #[trigger] value_of(put(fields, name, value), other) == value_of(
                fields,
                other,
            ),
        has_field(fields, name) ==> put(fields, name, value).len() == fields.len(),
        !has_field(fields, name) ==> put(fields, name, value).len() == fields.len() + 1,
        forall|at: int|
            0 <= at < fields.len() ==> (#[trigger] put(fields, name, value)[at]).name
                == fields[at].name,
{
    let after = put(fields, name, value);
    let place = if has_field(fields, name) {
        position_of(fields, name)
    } else {
        fields.len() as int
    };
    if has_field(fields, name) {
        assert(named_at(fields, place, name));
    } else {
        assert forall|at: int| 0 <= at < fields.len() implies fields[at].name != name by {
            if fields[at].name == name {
                assert(named_at(fields, at, name));
            }
        }
    }
    assert(after.len() >= fields.len());
    assert forall|at: int| 0 <= at < fields.len() implies (#[trigger] after[at]).name
        == fields[at].name by {}
    assert(distinct_names(after));
    assert(named_at(after, place, name));
    lemma_position_is_unique(after, place, name);
    assert forall|other: Seq<char>| other != name implies #[trigger] has_field(after, other)
        == has_field(fields, other) by {
        lemma_put_keeps(fields, name, value, other);
    }
    assert forall|other: Seq<char>| other != name implies #[trigger] value_of(after, other)
        == value_of(fields, other) by {
        lemma_put_keeps(fields, name, value, other);
    }
}

/// A configuration document: fields with distinct names, in a fixed order.
#[derive(Debug, PartialEq, Eq)]
pub struct ConfigDocument {
    fields: Vec<Field>,
}

impl View for ConfigDocument {
    type V = Seq<FieldView>;

    closed spec fn view(&self) -> Seq<FieldView> {
        field_views(self.fields@)
    }
}

impl ConfigDocument {
    #[verifier::type_invariant]
    spec fn names_are_distinct(&self) -> bool {
        distinct_names(self@)
    }

    /// The document without fields.
    pub fn new() -> (doc: ConfigDocument)
        ensures
            doc@ == Seq::<FieldView>::empty(),
    {
        let doc = ConfigDocument { fields: Vec::new() };
        assert(doc@ =~= Seq::<FieldView>::empty());
        doc
    }

    /// The document that holds `fields` in their order, if no two of them
    /// share a name.
    pub fn from_fields(fields: Vec<Field>) -> (doc: Option<ConfigDocument>)
        ensures
            match doc {
                Some(d) => d@ == field_views(fields@) && distinct_names(d@),
                None => !distinct_names(field_views(fields@)),
            },
    {
        let ghost all = field_views(fields@);
        let mut doc = ConfigDocument::new();
        let mut at: usize = 0;
        while at < fields.len()
            invariant
                at <= fields.len(),
                all == field_views(fields@),
                doc@ == all.take(at as int),
                distinct_names(doc@),
            decreases fields.len() - at,
        {
            let field = &fields[at];
            match doc.position(field.name.as_str()) {
                Some(earlier) => {
                    assert(all[earlier as int].name == all[at as int].name);
                    return None;
                },
                None => {
                    proof {
                        assert(all.take(at as int).push(all[at as int]) =~= all.take(at + 1));
                    }
                    doc = doc.with_field(field.name.as_str(), field.value.clone());
                },
            }
            at += 1;
        }
        assert(all.take(at as int) =~= all);
        Some(doc)
    }

    /// The number of fields.
    pub fn len(&self) -> (n: usize)
        ensures
            n == self@.len(),
            distinct_names(self@),
    {
        proof {
            use_type_invariant(self);
        }
        self.fields.len()
    }

    /// Whether the document has no field.
    pub fn is_empty(&self) -> (empty: bool)
        ensures
            empty == (self@.len() == 0),
    {
        self.fields.len() == 0
    }

    /// The field at position `at`.
    pub fn field(&self, at: usize) -> (field: &Field)
        requires
            at < self@.len(),
        ensures
            field@ == self@[at as int],
    {
        &self.fields[at]
    }

    /// Where the field called `name` stands, if there is one.
    pub fn position(&self, name: &str) -> (at: Option<usize>)
        ensures
            at is Some == has_field(self@, name@),
            at is Some ==> named_at(self@, at->0 as int, name@) && at->0 == position_of(
                self@,
                name@,
            ),
    {
        proof {
            use_type_invariant(self);
        }
        let mut at: usize = 0;
        while at < self.fields.len()
            invariant
                at <= self.fields.len(),
                distinct_names(self@),
                forall|j: int| 0 <= j < at ==> !named_at(self@, j, name@),
            decreases self.fields.len() - at,
        {
            if same_text(self.fields[at].name.as_str(), name) {
                proof {
                    lemma_position_is_unique(self@, at as int, name@);
                }
                return Some(at);
            }
            at += 1;
        }
        None
    }

    /// Whether the document has a field called `name`.
    pub fn contains(&self, name: &str) -> (found: bool)
        ensures
            found == has_field(self@, name@),
    {
        self.position(name).is_some()
    }

    /// The value of the field called `name`, if there is one.
    pub fn get(&self, name: &str) -> (value: Option<&Scalar>)
        ensures
            match value {
                Some(v) => value_of(self@, name@) == Some(v@),
                None => value_of(self@, name@) is None,
            },
    {
        match self.position(name) {
            Some(at) => Some(&self.fields[at].value),
            None => None,
        }
    }

    /// The whole number that the field called `name` writes, where there is
    /// such a field and it writes one that fits in 64 bits.
    pub fn integer(&self, name: &str) -> (v: Option<i64>)
        ensures
            v == match value_of(self@, name@) {
                Some(value) => match whole_of(value) {
                    Some(n) => if i64::MIN <= n <= i64::MAX {
                        Some(n as i64)
                    } else {
                        None
                    },
                    None => None,
                },
                None => None,
            },
    {
        match self.get(name) {
            Some(value) => value.as_integer(),
            None => None,
        }
    }

    /// Tells whether `other` holds the same fields in the same order.
    pub fn same_as(&self, other: &ConfigDocument) -> (same: bool)
        ensures
            same == (self@ == other@),
    {
        if self.fields.len() != other.fields.len() {
            assert(self@.len() != other@.len());
            return false;
        }
        let mut at: usize = 0;
        while at < self.fields.len()
            invariant
                at <= self.fields.len(),
                self.fields.len() == other.fields.len(),
                forall|j: int| 0 <= j < at ==> self@[j] == other@[j],
            decreases self.fields.len() - at,
        {
            if !self.fields[at].same_as(&other.fields[at]) {
                assert(self@[at as int] != other@[at as int]);
                return false;
            }
            at += 1;
        }
        assert(self@ =~= other@);
        true
    }

    /// This document with the field called `name` set to `value`: in its place
    /// if the document has it, else as a new last field.
    pub fn with_field(self, name: &str, value: Scalar) -> (doc: ConfigDocument)
        ensures
            doc@ == put(self@, name@, value@),
            distinct_names(doc@),
    {
        proof {
            use_type_invariant(&self);
            lemma_put(self@, name@, value@);
        }
        let place = self.position(name);
        let field = Field { name: String::from_str(name), value };
        let mut fields = self.fields;
        match place {
            Some(at) => {
                fields.set(at, field);
            },
            None => {
                fields.push(field);
            },
        }
        assert(field_views(fields@) =~= put(self@, name@, value@));
        ConfigDocument { fields }
    }
}

impl Clone for ConfigDocument {
    fn clone(&self) -> (copy: ConfigDocument)
        ensures
            copy@ == self@,
            distinct_names(copy@),
    {
        proof {
            use_type_invariant(self);
        }
        let mut fields: Vec<Field> = Vec::new();
        let mut at: usize = 0;
        while at < self.fields.len()
            invariant
                at <= self.fields.len(),
                fields@.len() == at,
                forall|j: int| 0 <= j < at ==> fields@[j]@ == self.fields@[j]@,
            decreases self.fields.len() - at,
        {
            fields.push(self.fields[at].clone());
            at += 1;
        }
        assert(field_views(fields@) =~= self@);
        ConfigDocument { fields }
    }
}

} // verus!
