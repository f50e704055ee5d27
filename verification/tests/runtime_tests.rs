use derivegen::classify::{classify_fields, ClassifiedField};
use derivegen::descriptor::{Annotation, FieldDescriptor, Span, TypeExpr};
use derivegen::runtime::{new_builder, FieldValue, MissingFieldError};

fn sp(lo: usize, hi: usize) -> Span {
    Span { lo, hi }
}

fn ty(head: &str, args: Vec<TypeExpr>) -> TypeExpr {
    TypeExpr { head: head.to_string(), args }
}

fn ann(family: &str, key: &str, value: &str, span: Span) -> Annotation {
    Annotation { family: family.to_string(), key: key.to_string(), value: value.to_string(), span }
}

fn field(name: &str, declared_type: TypeExpr, annotations: Vec<Annotation>) -> FieldDescriptor {
    FieldDescriptor { name: name.to_string(), span: sp(1, 2), declared_type, annotations }
}

fn classified(fields: Vec<FieldDescriptor>) -> Vec<ClassifiedField> {
    classify_fields(&fields).unwrap()
}

fn all_plain() -> Vec<ClassifiedField> {
    classified(vec![
        field("first", ty("String", vec![]), vec![]),
        field("second", ty("String", vec![]), vec![]),
    ])
}

fn mixed() -> Vec<ClassifiedField> {
    classified(vec![
        field("name", ty("String", vec![]), vec![]),
        field(
            "tags",
            ty("Vec", vec![ty("String", vec![])]),
            vec![ann("builder", "each", "tag", sp(3, 4))],
        ),
        field("note", ty("Option", vec![ty("String", vec![])]), vec![]),
    ])
}

#[test]
fn finalize_before_any_setter_names_the_first_field() {
    let mut b = new_builder::<String>(&all_plain());
    let e = b.finalize().unwrap_err();
    assert_eq!(e, MissingFieldError { field: "first".to_string() });
    assert_eq!(e.message(), "value is not set: first");
}

#[test]
fn finalize_reports_the_first_missing_in_declaration_order() {
    let mut b = new_builder::<String>(&all_plain());
    b.set(1, "two".to_string());
    let e = b.finalize().unwrap_err();
    assert_eq!(e.field, "first");
}

#[test]
fn setting_every_field_once_finalizes_to_exactly_what_was_set() {
    let mut b = new_builder::<String>(&mixed());
    b.set(0, "zero".to_string());
    b.append(1, "one".to_string());
    b.set(2, "two".to_string());
    let outs = b.finalize().unwrap();
    assert_eq!(
        outs,
        vec![
            FieldValue::Single("zero".to_string()),
            FieldValue::Collected(vec!["one".to_string()]),
            FieldValue::Maybe(Some("two".to_string())),
        ]
    );
}

#[test]
fn optional_field_may_stay_absent() {
    let mut b = new_builder::<String>(&mixed());
    b.set(0, "zero".to_string());
    let outs = b.finalize().unwrap();
    assert_eq!(outs[2], FieldValue::Maybe(None));
}

#[test]
fn appends_accumulate_in_call_order() {
    let mut b = new_builder::<String>(&mixed());
    b.set(0, "n".to_string());
    b.append(1, "v1".to_string());
    b.append(1, "v2".to_string());
    b.append(1, "v2".to_string());
    b.append(1, "v3".to_string());
    let outs = b.finalize().unwrap();
    assert_eq!(
        outs[1],
        FieldValue::Collected(vec![
            "v1".to_string(),
            "v2".to_string(),
            "v2".to_string(),
            "v3".to_string(),
        ])
    );
}

#[test]
fn overwriting_a_plain_slot_keeps_the_last_value() {
    let mut b = new_builder::<String>(&mixed());
    b.set(0, "old".to_string());
    b.set(0, "new".to_string());
    let outs = b.finalize().unwrap();
    assert_eq!(outs[0], FieldValue::Single("new".to_string()));
}

#[test]
fn finalize_consumes_the_builder() {
    let mut b = new_builder::<String>(&mixed());
    b.set(0, "n".to_string());
    b.append(1, "t".to_string());
    b.set(2, "o".to_string());
    assert!(b.finalize().is_ok());
    // Required slots were cleared, so a second finalize fails again on the
    // first required field; the accumulator was reset to empty.
    let e = b.finalize().unwrap_err();
    assert_eq!(e.field, "name");
}

#[test]
fn refilling_after_finalize_succeeds_with_a_fresh_accumulator() {
    let mut b = new_builder::<String>(&mixed());
    b.set(0, "n".to_string());
    b.append(1, "t1".to_string());
    assert!(b.finalize().is_ok());
    b.set(0, "n2".to_string());
    b.append(1, "t2".to_string());
    let outs = b.finalize().unwrap();
    assert_eq!(outs[0], FieldValue::Single("n2".to_string()));
    // Only the element appended after the first finalize is present.
    assert_eq!(outs[1], FieldValue::Collected(vec!["t2".to_string()]));
}

#[test]
fn failed_finalize_consumes_required_slots_before_the_missing_one() {
    let b_fields = classified(vec![
        field("a", ty("String", vec![]), vec![]),
        field("b", ty("String", vec![]), vec![]),
    ]);
    let mut b = new_builder::<String>(&b_fields);
    b.set(0, "present".to_string());
    let e = b.finalize().unwrap_err();
    assert_eq!(e.field, "b");
    // The slot of "a" was taken during the failed walk, so the next
    // finalize reports "a".
    let e2 = b.finalize().unwrap_err();
    assert_eq!(e2.field, "a");
}

#[test]
fn builder_over_non_string_values() {
    let mut b = new_builder::<u64>(&mixed());
    b.set(0, 7);
    b.append(1, 1);
    b.append(1, 2);
    let outs = b.finalize().unwrap();
    assert_eq!(outs[0], FieldValue::Single(7));
    assert_eq!(outs[1], FieldValue::Collected(vec![1, 2]));
    assert_eq!(outs[2], FieldValue::Maybe(None));
}
