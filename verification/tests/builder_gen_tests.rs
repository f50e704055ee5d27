use derivegen::builder_gen::{expand, AssignKind, InitKind, SetterKind, StorageTy};
use derivegen::descriptor::{
    Annotation, DeriveError, FieldDescriptor, RecordDescriptor, RecordShape, Span, TypeExpr,
};

fn sp(lo: usize, hi: usize) -> Span {
    Span { lo, hi }
}

fn ty(head: &str, args: Vec<TypeExpr>) -> TypeExpr {
    TypeExpr { head: head.to_string(), args }
}

fn ann(family: &str, key: &str, value: &str, span: Span) -> Annotation {
    Annotation { family: family.to_string(), key: key.to_string(), value: value.to_string(), span }
}

fn field(name: &str, declared_type: TypeExpr, annotations: Vec<Annotation>) -> FieldDescriptor {
    FieldDescriptor { name: name.to_string(), span: sp(1, 2), declared_type, annotations }
}

fn command_record() -> RecordDescriptor {
    RecordDescriptor {
        name: "Command".to_string(),
        span: sp(0, 100),
        generics: vec![],
        shape: RecordShape::Named(vec![
            field("executable", ty("String", vec![]), vec![]),
            field(
                "args",
                ty("Vec", vec![ty("String", vec![])]),
                vec![ann("builder", "each", "arg", sp(3, 4))],
            ),
            field(
                "env",
                ty("Vec", vec![ty("String", vec![])]),
                vec![ann("builder", "each", "env", sp(5, 6))],
            ),
            field("current_dir", ty("Option", vec![ty("String", vec![])]), vec![]),
        ]),
        annotations: vec![],
    }
}

#[test]
fn builder_name_appends_builder() {
    let f = expand(&command_record()).unwrap();
    assert_eq!(f.record_name, "Command");
    assert_eq!(f.builder_name, "CommandBuilder");
}

#[test]
fn storage_is_one_slot_per_field() {
    let f = expand(&command_record()).unwrap();
    assert_eq!(f.storage.len(), 4);
    assert_eq!(f.storage[0].name, "executable");
    assert!(matches!(f.storage[0].ty, StorageTy::OptionOf(ref t) if t.head == "String"));
    assert!(matches!(f.storage[1].ty, StorageTy::Accumulator(ref t) if t.head == "String"));
    assert!(matches!(f.storage[2].ty, StorageTy::Accumulator(_)));
    // An optional field is stored as its own optional-wrapper type: an
    // optional slot over the unwrapped inner type.
    assert!(matches!(f.storage[3].ty, StorageTy::OptionOf(ref t) if t.head == "String"));
}

#[test]
fn initializer_starts_absent_or_empty() {
    let f = expand(&command_record()).unwrap();
    let inits: Vec<InitKind> = f.initializer.iter().map(|i| i.init).collect();
    assert_eq!(
        inits,
        vec![
            InitKind::Absent,
            InitKind::EmptyAccumulator,
            InitKind::EmptyAccumulator,
            InitKind::Absent,
        ]
    );
}

#[test]
fn setters_follow_the_collision_rules() {
    let f = expand(&command_record()).unwrap();
    let surface: Vec<(String, String, SetterKind)> = f
        .setters
        .iter()
        .map(|s| (s.method.clone(), s.field.clone(), s.kind))
        .collect();
    assert_eq!(
        surface,
        vec![
            ("executable".to_string(), "executable".to_string(), SetterKind::SetSlot),
            // "arg" differs from "args" and collides with no other field, so
            // both the whole-container setter and the appender exist.
            ("args".to_string(), "args".to_string(), SetterKind::SetContainer),
            ("arg".to_string(), "args".to_string(), SetterKind::AppendElem),
            // "env" equals the field's own name, so only the appender exists.
            ("env".to_string(), "env".to_string(), SetterKind::AppendElem),
            ("current_dir".to_string(), "current_dir".to_string(), SetterKind::SetSlot),
        ]
    );
}

#[test]
fn no_whole_container_setter_when_method_equals_field_name() {
    let f = expand(&command_record()).unwrap();
    let env_setters: Vec<_> = f.setters.iter().filter(|s| s.field == "env").collect();
    assert_eq!(env_setters.len(), 1);
    assert_eq!(env_setters[0].kind, SetterKind::AppendElem);
}

#[test]
fn whole_container_setter_suppressed_when_method_names_another_field() {
    // The accumulation name "other" differs from the field's own name but
    // equals a sibling field's name, so the whole-container setter is still
    // suppressed.
    let record = RecordDescriptor {
        name: "R".to_string(),
        span: sp(0, 1),
        generics: vec![],
        shape: RecordShape::Named(vec![
            field(
                "items",
                ty("Vec", vec![ty("u32", vec![])]),
                vec![ann("builder", "each", "other", sp(2, 3))],
            ),
            field("other", ty("String", vec![]), vec![]),
        ]),
        annotations: vec![],
    };
    let f = expand(&record).unwrap();
    let items_setters: Vec<_> = f.setters.iter().filter(|s| s.field == "items").collect();
    assert_eq!(items_setters.len(), 1);
    assert_eq!(items_setters[0].method, "other");
    assert_eq!(items_setters[0].kind, SetterKind::AppendElem);
}

#[test]
fn whole_container_setter_takes_the_accumulator_type() {
    let f = expand(&command_record()).unwrap();
    let whole = f
        .setters
        .iter()
        .find(|s| s.kind == SetterKind::SetContainer)
        .unwrap();
    assert_eq!(whole.arg_type.head, "Vec");
    assert_eq!(whole.arg_type.args.len(), 1);
    assert_eq!(whole.arg_type.args[0].head, "String");
}

#[test]
fn finalize_checks_only_plain_fields_in_order() {
    let f = expand(&command_record()).unwrap();
    assert_eq!(f.finalize.record_name, "Command");
    assert_eq!(f.finalize.required, vec!["executable".to_string()]);
    let kinds: Vec<AssignKind> = f.finalize.assigns.iter().map(|a| a.kind).collect();
    assert_eq!(
        kinds,
        vec![
            AssignKind::TakeRequired,
            AssignKind::TakeAccumulated,
            AssignKind::TakeAccumulated,
            AssignKind::TakeOptional,
        ]
    );
}

#[test]
fn non_record_shape_is_refused_at_the_record_span() {
    let record = RecordDescriptor {
        name: "E".to_string(),
        span: sp(40, 60),
        generics: vec![],
        shape: RecordShape::Other,
        annotations: vec![],
    };
    let e = expand(&record).unwrap_err();
    match e {
        DeriveError::UnsupportedShape { span } => assert_eq!(span, sp(40, 60)),
        other => panic!("expected an unsupported shape, got {:?}", other),
    }
    assert_eq!(e.message(), "expected a struct with named fields");
}

#[test]
fn derivation_error_propagates_from_classification() {
    let record = RecordDescriptor {
        name: "R".to_string(),
        span: sp(0, 1),
        generics: vec![],
        shape: RecordShape::Named(vec![field(
            "xs",
            ty("String", vec![]),
            vec![ann("builder", "each", "x", sp(9, 10))],
        )]),
        annotations: vec![],
    };
    assert!(matches!(expand(&record), Err(DeriveError::ShapeMismatch { .. })));
}
