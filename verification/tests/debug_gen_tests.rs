use derivegen::debug_gen::{custom_clauses, expand, split_bound, Constraint, DebugField};
use derivegen::descriptor::{
    Annotation, DeriveError, FieldDescriptor, RecordDescriptor, RecordShape, Span, TypeExpr,
};
use derivegen::generics::{default_markers, used_type_params};

fn sp(lo: usize, hi: usize) -> Span {
    Span { lo, hi }
}

fn ty(head: &str, args: Vec<TypeExpr>) -> TypeExpr {
    TypeExpr { head: head.to_string(), args }
}

fn ann(family: &str, key: &str, value: &str, span: Span) -> Annotation {
    Annotation { family: family.to_string(), key: key.to_string(), value: value.to_string(), span }
}

fn field(name: &str, declared_type: TypeExpr, annotations: Vec<Annotation>) -> FieldDescriptor {
    FieldDescriptor { name: name.to_string(), span: sp(1, 2), declared_type, annotations }
}

fn record(
    generics: Vec<&str>,
    fields: Vec<FieldDescriptor>,
    annotations: Vec<Annotation>,
) -> RecordDescriptor {
    RecordDescriptor {
        name: "Wrapper".to_string(),
        span: sp(0, 9),
        generics: generics.into_iter().map(|g| g.to_string()).collect(),
        shape: RecordShape::Named(fields),
        annotations,
    }
}

#[test]
fn field_format_override_is_carried() {
    let f = field("bitmask", ty("u8", vec![]), vec![ann("debug", "debug", "0b{:08b}", sp(3, 4))]);
    let d = DebugField::try_from(&f).unwrap();
    assert_eq!(d.name, "bitmask");
    assert_eq!(d.fmt_arg.unwrap(), "0b{:08b}");
}

#[test]
fn field_without_override_renders_default() {
    let f = field("value", ty("u8", vec![]), vec![]);
    let d = DebugField::try_from(&f).unwrap();
    assert_eq!(d.fmt_arg, None);
}

#[test]
fn malformed_field_debug_annotation_is_refused() {
    let f = field("value", ty("u8", vec![]), vec![ann("debug", "bound", "T: X", sp(8, 9))]);
    let e = DebugField::try_from(&f).unwrap_err();
    match e {
        DeriveError::UnsupportedAttribute { span, expected } => {
            assert_eq!(span, sp(8, 9));
            assert_eq!(expected, "expected `debug = \"...\"`");
        }
        other => panic!("expected an unsupported attribute, got {:?}", other),
    }
}

#[test]
fn used_parameter_is_inferred_into_the_clause() {
    let r = record(
        vec!["T"],
        vec![field("value", ty("T", vec![]), vec![])],
        vec![],
    );
    let f = expand(&r).unwrap();
    assert_eq!(f.record_name, "Wrapper");
    assert_eq!(f.constraints, vec![Constraint::DebugBound("T".to_string())]);
}

#[test]
fn marker_only_parameter_is_not_constrained() {
    // The parameter occurs only inside the marker type, so the walk does not
    // count it and the clause stays empty.
    let r = record(
        vec!["T"],
        vec![field("marker", ty("PhantomData", vec![ty("T", vec![])]), vec![])],
        vec![],
    );
    let f = expand(&r).unwrap();
    assert_eq!(f.constraints, vec![]);
}

#[test]
fn used_set_follows_declaration_order_not_traversal() {
    let r = record(
        vec!["A", "B"],
        vec![
            field("second", ty("B", vec![]), vec![]),
            field("first", ty("A", vec![]), vec![]),
        ],
        vec![],
    );
    let f = expand(&r).unwrap();
    assert_eq!(
        f.constraints,
        vec![
            Constraint::DebugBound("A".to_string()),
            Constraint::DebugBound("B".to_string()),
        ]
    );
}

#[test]
fn parameter_under_non_marker_wrapper_is_used() {
    let r = record(
        vec!["T"],
        vec![field("values", ty("Vec", vec![ty("T", vec![])]), vec![])],
        vec![],
    );
    let f = expand(&r).unwrap();
    assert_eq!(f.constraints, vec![Constraint::DebugBound("T".to_string())]);
}

#[test]
fn visitor_directly_reports_used_parameters() {
    let generics = vec!["T".to_string(), "U".to_string()];
    let fields = vec![
        field("a", ty("PhantomData", vec![ty("T", vec![])]), vec![]),
        field("b", ty("U", vec![]), vec![]),
    ];
    let used = used_type_params(&generics, &fields, &default_markers());
    assert_eq!(used, vec!["U".to_string()]);
}

#[test]
fn override_is_emitted_verbatim() {
    let r = record(
        vec!["T"],
        vec![field("value", ty("T", vec![]), vec![])],
        vec![ann("debug", "bound", "T: SomeTrait, U: Other", sp(2, 3))],
    );
    let f = expand(&r).unwrap();
    assert_eq!(
        f.constraints,
        vec![
            Constraint::Custom("T: SomeTrait".to_string()),
            Constraint::Custom("U: Other".to_string()),
        ]
    );
}

#[test]
fn empty_override_yields_an_empty_clause() {
    // The override is all or nothing: an empty list suppresses the inferred
    // constraints entirely.
    let r = record(
        vec!["T"],
        vec![field("value", ty("T", vec![]), vec![])],
        vec![ann("debug", "bound", "", sp(2, 3))],
    );
    let f = expand(&r).unwrap();
    assert_eq!(f.constraints, vec![]);
}

#[test]
fn several_bound_annotations_accumulate() {
    let anns = vec![
        ann("debug", "bound", "T: A", sp(1, 1)),
        ann("debug", "bound", "U: B", sp(2, 2)),
    ];
    let o = custom_clauses(&anns).unwrap().unwrap();
    assert_eq!(o, vec!["T: A".to_string(), "U: B".to_string()]);
}

#[test]
fn no_debug_annotation_means_no_override() {
    let anns = vec![ann("serde", "bound", "T: A", sp(1, 1))];
    assert_eq!(custom_clauses(&anns).unwrap(), None);
}

#[test]
fn malformed_record_debug_annotation_is_refused() {
    let anns = vec![ann("debug", "bounds", "T: A", sp(6, 7))];
    let e = custom_clauses(&anns).unwrap_err();
    match e {
        DeriveError::UnsupportedAttribute { span, expected } => {
            assert_eq!(span, sp(6, 7));
            assert_eq!(expected, "expected `debug(bound = \"...\")`");
        }
        other => panic!("expected an unsupported attribute, got {:?}", other),
    }
}

#[test]
fn split_respects_nested_commas() {
    let pieces = split_bound("T: Into<(A, B)>, U: Fn(X, Y) -> Z");
    assert_eq!(
        pieces,
        vec!["T: Into<(A, B)>".to_string(), "U: Fn(X, Y) -> Z".to_string()]
    );
}

#[test]
fn split_trims_and_drops_trailing_comma() {
    let pieces = split_bound("  T: A ,U: B, ");
    assert_eq!(pieces, vec!["T: A".to_string(), "U: B".to_string()]);
}

#[test]
fn split_of_blank_is_empty() {
    assert_eq!(split_bound(""), Vec::<String>::new());
    assert_eq!(split_bound("   "), Vec::<String>::new());
}

#[test]
fn field_calls_keep_order_and_formats() {
    let r = record(
        vec![],
        vec![
            field("plain", ty("u8", vec![]), vec![]),
            field("fancy", ty("u8", vec![]), vec![ann("debug", "debug", "{:x}", sp(1, 1))]),
        ],
        vec![],
    );
    let f = expand(&r).unwrap();
    assert_eq!(f.field_calls.len(), 2);
    assert_eq!(f.field_calls[0].label, "plain");
    assert_eq!(f.field_calls[0].fmt, None);
    assert_eq!(f.field_calls[1].label, "fancy");
    assert_eq!(f.field_calls[1].fmt, Some("{:x}".to_string()));
}

#[test]
fn record_level_error_wins_over_field_level_error() {
    // The constraint override is examined before the fields, so a malformed
    // record-level annotation is the one reported.
    let r = RecordDescriptor {
        name: "R".to_string(),
        span: sp(0, 1),
        generics: vec![],
        shape: RecordShape::Named(vec![field(
            "value",
            ty("u8", vec![]),
            vec![ann("debug", "bad", "x", sp(50, 51))],
        )]),
        annotations: vec![ann("debug", "bad", "y", sp(40, 41))],
    };
    let e = expand(&r).unwrap_err();
    assert!(matches!(e, DeriveError::UnsupportedAttribute { span, .. } if span == sp(40, 41)));
}

#[test]
fn non_record_shape_is_refused_for_the_dump_too() {
    let r = RecordDescriptor {
        name: "E".to_string(),
        span: sp(30, 31),
        generics: vec![],
        shape: RecordShape::Other,
        annotations: vec![],
    };
    assert!(matches!(expand(&r), Err(DeriveError::UnsupportedShape { span }) if span == sp(30, 31)));
}
