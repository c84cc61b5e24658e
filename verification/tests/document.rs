use wuwa_fps_unlocker::document::{ConfigDocument, Field, Scalar};

fn number(literal: &str) -> Scalar {
    Scalar::Number(literal.to_string())
}

fn field(name: &str, value: Scalar) -> Field {
    Field { name: name.to_string(), value }
}

#[test]
fn scalar_integer_is_the_canonical_literal() {
    assert_eq!(Scalar::integer(0), number("0"));
    assert_eq!(Scalar::integer(120), number("120"));
    assert_eq!(Scalar::integer(-3), number("-3"));
}

#[test]
fn scalar_as_integer_reads_whole_numbers_only() {
    assert_eq!(number("60").as_integer(), Some(60));
    assert_eq!(number("-1").as_integer(), Some(-1));
    assert_eq!(number("60.0").as_integer(), None);
    assert_eq!(number("6e1").as_integer(), None);
    assert_eq!(number("-0").as_integer(), None);
    assert_eq!(number("18446744073709551616").as_integer(), None);
    assert_eq!(Scalar::Text("60".to_string()).as_integer(), None);
    assert_eq!(Scalar::Nested("[60]".to_string()).as_integer(), None);
    assert_eq!(Scalar::Flag(true).as_integer(), None);
    assert_eq!(Scalar::Null.as_integer(), None);
    assert_eq!(Scalar::integer(i64::MIN).as_integer(), Some(i64::MIN));
}

#[test]
fn scalar_clone_is_equal() {
    let values = [
        Scalar::Null,
        Scalar::Flag(false),
        number("1.5"),
        Scalar::Text("x".to_string()),
        Scalar::Nested("{\"a\":[]}".to_string()),
    ];
    for value in values {
        assert_eq!(value.clone(), value);
    }
    let f = field("a", number("1"));
    assert_eq!(f.clone(), f);
}

#[test]
fn new_document_is_empty() {
    let doc = ConfigDocument::new();
    assert_eq!(doc.len(), 0);
    assert!(doc.is_empty());
    assert!(!doc.contains("a"));
    assert_eq!(doc.get("a"), None);
    assert_eq!(doc.position("a"), None);
    assert_eq!(doc.integer("a"), None);
}

#[test]
fn with_field_appends_new_names_in_order() {
    let doc = ConfigDocument::new()
        .with_field("b", Scalar::integer(1))
        .with_field("a", Scalar::Text("x".to_string()))
        .with_field("", Scalar::Null);
    assert_eq!(doc.len(), 3);
    assert!(!doc.is_empty());
    assert_eq!(doc.field(0), &field("b", number("1")));
    assert_eq!(doc.field(1), &field("a", Scalar::Text("x".to_string())));
    assert_eq!(doc.field(2), &field("", Scalar::Null));
    assert_eq!(doc.position("b"), Some(0));
    assert_eq!(doc.position("a"), Some(1));
    assert_eq!(doc.position(""), Some(2));
    assert_eq!(doc.position("c"), None);
}

#[test]
fn with_field_replaces_in_place() {
    let doc = ConfigDocument::new()
        .with_field("a", Scalar::integer(1))
        .with_field("b", Scalar::integer(2))
        .with_field("c", Scalar::integer(3))
        .with_field("b", Scalar::Flag(true));
    assert_eq!(doc.len(), 3);
    assert_eq!(doc.field(0), &field("a", number("1")));
    assert_eq!(doc.field(1), &field("b", Scalar::Flag(true)));
    assert_eq!(doc.field(2), &field("c", number("3")));
}

#[test]
fn get_and_integer_look_fields_up_by_name() {
    let doc = ConfigDocument::new()
        .with_field("rate", number("60"))
        .with_field("sharp", number("0.5"))
        .with_field("name", Scalar::Text("60".to_string()));
    assert!(doc.contains("rate"));
    assert!(!doc.contains("Rate"));
    assert_eq!(doc.get("rate"), Some(&number("60")));
    assert_eq!(doc.get("sharp"), Some(&number("0.5")));
    assert_eq!(doc.get("missing"), None);
    assert_eq!(doc.integer("rate"), Some(60));
    assert_eq!(doc.integer("sharp"), None);
    assert_eq!(doc.integer("name"), None);
    assert_eq!(doc.integer("missing"), None);
}

#[test]
fn from_fields_keeps_order_and_refuses_repeated_names() {
    let doc = ConfigDocument::from_fields(vec![
        field("z", number("1")),
        field("a", Scalar::Null),
        field("m", Scalar::Flag(false)),
    ]);
    let expected = ConfigDocument::new()
        .with_field("z", number("1"))
        .with_field("a", Scalar::Null)
        .with_field("m", Scalar::Flag(false));
    assert_eq!(doc, Some(expected));
    assert_eq!(ConfigDocument::from_fields(Vec::new()), Some(ConfigDocument::new()));
    let repeated = ConfigDocument::from_fields(vec![
        field("a", number("1")),
        field("b", number("2")),
        field("a", number("3")),
    ]);
    assert_eq!(repeated, None);
}

#[test]
fn document_clone_is_equal_and_independent() {
    let doc = ConfigDocument::new().with_field("a", number("1")).with_field("b", Scalar::Null);
    let copy = doc.clone();
    assert_eq!(copy, doc);
    let changed = copy.with_field("a", number("2"));
    assert_eq!(doc.get("a"), Some(&number("1")));
    assert_eq!(changed.get("a"), Some(&number("2")));
}

#[test]
fn same_as_compares_kind_and_text() {
    let values = [
        Scalar::Null,
        Scalar::Flag(false),
        Scalar::Flag(true),
        number("1"),
        number("1.0"),
        Scalar::Text("1".to_string()),
        Scalar::Nested("1".to_string()),
        Scalar::Text(String::new()),
    ];
    for (i, a) in values.iter().enumerate() {
        for (j, b) in values.iter().enumerate() {
            assert_eq!(a.same_as(b), i == j, "{:?} {:?}", a, b);
            assert_eq!(a.same_as(b), a == b);
        }
    }
    assert!(field("a", number("1")).same_as(&field("a", number("1"))));
    assert!(!field("a", number("1")).same_as(&field("b", number("1"))));
    assert!(!field("a", number("1")).same_as(&field("a", number("2"))));
}

#[test]
fn documents_are_the_same_field_by_field_in_order() {
    let ab = ConfigDocument::new().with_field("a", number("1")).with_field("b", number("2"));
    let ba = ConfigDocument::new().with_field("b", number("2")).with_field("a", number("1"));
    let a = ConfigDocument::new().with_field("a", number("1"));
    let ab_other = ConfigDocument::new().with_field("a", number("1")).with_field("b", number("3"));
    assert!(ab.same_as(&ab.clone()));
    assert!(!ab.same_as(&ba));
    assert!(!ab.same_as(&a));
    assert!(!a.same_as(&ab));
    assert!(!ab.same_as(&ab_other));
    assert!(ConfigDocument::new().same_as(&ConfigDocument::new()));
    assert!(!ConfigDocument::new().same_as(&a));
}
