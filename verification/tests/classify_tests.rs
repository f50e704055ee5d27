use derivegen::classify::{classify_field, classify_fields, find_each_directive, FieldShape};
use derivegen::descriptor::{Annotation, DeriveError, FieldDescriptor, Span, TypeExpr};

fn sp(lo: usize, hi: usize) -> Span {
    Span { lo, hi }
}

fn ty(head: &str, args: Vec<TypeExpr>) -> TypeExpr {
    TypeExpr { head: head.to_string(), args }
}

fn ann(family: &str, key: &str, value: &str, span: Span) -> Annotation {
    Annotation { family: family.to_string(), key: key.to_string(), value: value.to_string(), span }
}

fn field(name: &str, declared_type: TypeExpr, annotations: Vec<Annotation>) -> FieldDescriptor {
    FieldDescriptor { name: name.to_string(), span: sp(1, 2), declared_type, annotations }
}

#[test]
fn plain_field_classifies_plain() {
    let f = field("executable", ty("String", vec![]), vec![]);
    let c = classify_field(&f).unwrap();
    assert_eq!(c.name, "executable");
    assert!(matches!(c.shape, FieldShape::Plain(ref t) if t.head == "String"));
}

#[test]
fn option_field_classifies_optional_with_inner() {
    let f = field("current_dir", ty("Option", vec![ty("String", vec![])]), vec![]);
    let c = classify_field(&f).unwrap();
    assert!(matches!(c.shape, FieldShape::Optional(ref t) if t.head == "String"));
}

#[test]
fn option_with_two_arguments_is_plain() {
    let inner = vec![ty("String", vec![]), ty("u32", vec![])];
    let f = field("odd", ty("Option", inner), vec![]);
    let c = classify_field(&f).unwrap();
    assert!(matches!(c.shape, FieldShape::Plain(ref t) if t.head == "Option"));
}

#[test]
fn option_with_no_argument_is_plain() {
    let f = field("odd", ty("Option", vec![]), vec![]);
    let c = classify_field(&f).unwrap();
    assert!(matches!(c.shape, FieldShape::Plain(_)));
}

#[test]
fn annotated_vec_classifies_repeated() {
    let anns = vec![ann("builder", "each", "arg", sp(3, 4))];
    let f = field("args", ty("Vec", vec![ty("String", vec![])]), anns);
    let c = classify_field(&f).unwrap();
    match c.shape {
        FieldShape::Repeated(m, t) => {
            assert_eq!(m, "arg");
            assert_eq!(t.head, "String");
        }
        other => panic!("expected a repeated shape, got {:?}", other),
    }
}

#[test]
fn vec_without_annotation_is_plain() {
    // The tie-break: annotation presence activates one-at-a-time semantics;
    // a bare accumulator-typed field is set wholesale.
    let f = field("args", ty("Vec", vec![ty("String", vec![])]), vec![]);
    let c = classify_field(&f).unwrap();
    assert!(matches!(c.shape, FieldShape::Plain(ref t) if t.head == "Vec"));
}

#[test]
fn each_on_non_accumulator_is_shape_mismatch() {
    let anns = vec![ann("builder", "each", "arg", sp(3, 4))];
    let f = field("args", ty("String", vec![]), anns);
    let e = classify_field(&f).unwrap_err();
    match e {
        DeriveError::ShapeMismatch { span, field } => {
            assert_eq!(span, sp(1, 2));
            assert_eq!(field, "args");
        }
        other => panic!("expected a shape mismatch, got {:?}", other),
    }
}

#[test]
fn each_on_bare_vec_without_element_is_shape_mismatch() {
    let anns = vec![ann("builder", "each", "arg", sp(3, 4))];
    let f = field("args", ty("Vec", vec![]), anns);
    assert!(matches!(classify_field(&f), Err(DeriveError::ShapeMismatch { .. })));
}

#[test]
fn unknown_builder_key_is_unsupported_attribute() {
    let anns = vec![ann("builder", "eac", "arg", sp(7, 9))];
    let f = field("args", ty("Vec", vec![ty("String", vec![])]), anns);
    let e = classify_field(&f).unwrap_err();
    match e {
        DeriveError::UnsupportedAttribute { span, expected } => {
            assert_eq!(span, sp(7, 9));
            assert_eq!(expected, "expected `builder(each = \"...\")`");
        }
        other => panic!("expected an unsupported attribute, got {:?}", other),
    }
}

#[test]
fn unrelated_family_is_ignored() {
    let anns = vec![ann("serde", "rename", "x", sp(5, 6))];
    let f = field("name", ty("String", vec![]), anns);
    assert!(matches!(classify_field(&f).unwrap().shape, FieldShape::Plain(_)));
}

#[test]
fn last_each_directive_wins() {
    let anns = vec![
        ann("builder", "each", "first", sp(1, 1)),
        ann("builder", "each", "second", sp(2, 2)),
    ];
    let d = find_each_directive(&anns).unwrap();
    assert_eq!(d.unwrap(), "second");
}

#[test]
fn no_builder_annotation_yields_no_directive() {
    let anns = vec![ann("serde", "skip", "", sp(1, 1))];
    assert_eq!(find_each_directive(&anns).unwrap(), None);
}

#[test]
fn classify_fields_fails_fast_on_first_error() {
    let bad1 = field("a", ty("String", vec![]), vec![ann("builder", "x", "v", sp(10, 11))]);
    let bad2 = field("b", ty("String", vec![]), vec![ann("builder", "y", "v", sp(20, 21))]);
    let e = classify_fields(&vec![bad1, bad2]).unwrap_err();
    match e {
        DeriveError::UnsupportedAttribute { span, .. } => assert_eq!(span, sp(10, 11)),
        other => panic!("expected an unsupported attribute, got {:?}", other),
    }
}

#[test]
fn classify_fields_keeps_declaration_order() {
    let fs = vec![
        field("executable", ty("String", vec![]), vec![]),
        field(
            "args",
            ty("Vec", vec![ty("String", vec![])]),
            vec![ann("builder", "each", "arg", sp(3, 4))],
        ),
        field("current_dir", ty("Option", vec![ty("String", vec![])]), vec![]),
    ];
    let cs = classify_fields(&fs).unwrap();
    assert_eq!(cs.len(), 3);
    assert_eq!(cs[0].name, "executable");
    assert!(matches!(cs[0].shape, FieldShape::Plain(_)));
    assert!(matches!(cs[1].shape, FieldShape::Repeated(_, _)));
    assert!(matches!(cs[2].shape, FieldShape::Optional(_)));
}

#[test]
fn shape_mismatch_message_names_the_field() {
    let anns = vec![ann("builder", "each", "arg", sp(3, 4))];
    let f = field("args", ty("String", vec![]), anns);
    let e = classify_field(&f).unwrap_err();
    assert_eq!(
        e.message(),
        "an accumulation directive requires an accumulator-typed field: args"
    );
}
