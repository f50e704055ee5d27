//! The attribute parser and the type-shape classifier: every field maps to
//! exactly one shape — plain (required, set once), optional (may be absent),
//! or repeated (accumulates one element at a time) — as a pure function of
//! its declared type and its annotations.
use crate::descriptor::{
    Annotation, AnnotationV, DeriveError, DeriveErrorV, FieldDescriptor, FieldDescriptorV, Span,
    TypeExpr, TypeExprV,
};
use vstd::prelude::*;
use vstd::string::StringExecFns;

verus! {

/// The classification of one field.
#[derive(Debug, PartialEq)]
pub enum FieldShape {
    /// Required: must be supplied exactly once before finalize; the declared
    /// type is carried as-is.
    Plain(TypeExpr),
    /// May be absent; carries the unwrapped inner type.
    Optional(TypeExpr),
    /// Accumulates elements one at a time under the carried method name;
    /// carries the element type.
    Repeated(String, TypeExpr),
}

/// Spec-level model of a `FieldShape`.
#[verifier::ext_equal]
pub enum FieldShapeV {
    Plain(TypeExprV),
    Optional(TypeExprV),
    Repeated(Seq<char>, TypeExprV),
}

impl DeepView for FieldShape {
    type V = FieldShapeV;

    open spec fn deep_view(&self) -> FieldShapeV {
        match self {
            FieldShape::Plain(t) => FieldShapeV::Plain(t.deep_view()),
            FieldShape::Optional(t) => FieldShapeV::Optional(t.deep_view()),
            FieldShape::Repeated(m, t) => FieldShapeV::Repeated(m@, t.deep_view()),
        }
    }
}

/// A field together with its classification.
#[derive(Debug, PartialEq)]
pub struct ClassifiedField {
    pub name: String,
    pub span: Span,
    pub shape: FieldShape,
}

/// Spec-level model of a `ClassifiedField`.
#[verifier::ext_equal]
pub struct ClassifiedFieldV {
    pub name: Seq<char>,
    pub span: Span,
    pub shape: FieldShapeV,
}

impl DeepView for ClassifiedField {
    type V = ClassifiedFieldV;

    open spec fn deep_view(&self) -> ClassifiedFieldV {
        ClassifiedFieldV { name: self.name@, span: self.span, shape: self.shape.deep_view() }
    }
}

/// The head name of the accumulator type that repeated fields must declare.
pub open spec fn accumulator_head() -> Seq<char> {
    "Vec"@
}

/// The head name of the optional-wrapper type.
pub open spec fn optional_head() -> Seq<char> {
    "Option"@
}

/// The annotation family the builder derivation recognizes.
pub open spec fn builder_family() -> Seq<char> {
    "builder"@
}

/// The one key recognized under the builder family.
pub open spec fn each_key() -> Seq<char> {
    "each"@
}

/// The form echoed when a builder-family annotation is malformed.
pub open spec fn builder_expected_form() -> Seq<char> {
    "expected `builder(each = \"...\")`"@
}

/// A type expression shaped like the accumulator: the accumulator head with
/// at least one type argument (the first argument is the element type).
pub open spec fn is_accumulator_shaped(t: TypeExprV) -> bool {
    t.head == accumulator_head() && t.args.len() >= 1
}

/// A type expression shaped like the optional wrapper: the optional head
/// with exactly one type argument.
pub open spec fn is_optional_shaped(t: TypeExprV) -> bool {
    t.head == optional_head() && t.args.len() == 1
}

/// The accumulation directive carried by an annotation list: scanning in
/// order, the value of the last well-formed `each` directive of the builder
/// family wins; the first builder-family annotation with any other key is an
/// error, reported at its span. Annotations of other families are ignored.
pub open spec fn spec_find_each(anns: Seq<AnnotationV>) -> Result<Option<Seq<char>>, Span>
    decreases anns.len(),
{
    if anns.len() == 0 {
        Ok(None)
    } else {
        match spec_find_each(anns.subrange(0, anns.len() - 1)) {
            Err(sp) => Err(sp),
            Ok(cur) => {
                let a = anns[anns.len() - 1];
                if a.family != builder_family() {
                    Ok(cur)
                } else if a.key == each_key() {
                    Ok(Some(a.value))
                } else {
                    Err(a.span)
                }
            },
        }
    }
}

/// Once a prefix of the annotation list fails, the whole list fails the
/// same way: later annotations cannot recover the error.
proof fn lemma_find_each_err_prefix(anns: Seq<AnnotationV>, j: int)
    requires
        0 <= j <= anns.len(),
        spec_find_each(anns.subrange(0, j)) is Err,
    ensures
        spec_find_each(anns) == spec_find_each(anns.subrange(0, j)),
    decreases anns.len() - j,
{
    if j < anns.len() {
        assert(anns.subrange(0, j + 1).subrange(0, j) =~= anns.subrange(0, j));
        assert(spec_find_each(anns.subrange(0, j + 1)) == spec_find_each(anns.subrange(0, j)));
        lemma_find_each_err_prefix(anns, j + 1);
    } else {
        assert(anns.subrange(0, anns.len() as int) =~= anns);
    }
}

/// Parse a field's annotation list down to at most one accumulation
/// directive (the name of the one-at-a-time setter), or fail on the first
/// malformed builder-family annotation.
pub fn find_each_directive(anns: &Vec<Annotation>) -> (r: Result<Option<String>, DeriveError>)
    ensures
        (r is Ok) == (spec_find_each(anns.deep_view()) is Ok),
        r matches Ok(o) ==> spec_find_each(anns.deep_view()) matches Ok(so) && o.deep_view()
            == so,
        r matches Err(e) ==> spec_find_each(anns.deep_view()) matches Err(sp) && e.deep_view()
            == (DeriveErrorV::UnsupportedAttribute { span: sp, expected: builder_expected_form() }),
{
    let family = String::from_str("builder");
    let key = String::from_str("each");
    let mut cur: Option<String> = None;
    let mut i: usize = 0;
    while i < anns.len()
        invariant
            i <= anns@.len(),
            family@ == builder_family(),
            key@ == each_key(),
            spec_find_each(anns.deep_view().subrange(0, i as int)) == Ok::<
                Option<Seq<char>>,
                Span,
            >(cur.deep_view()),
        decreases anns@.len() - i,
    {
        let a = &anns[i];
        proof {
            assert(anns.deep_view().subrange(0, i + 1 as int).subrange(0, i as int)
                =~= anns.deep_view().subrange(0, i as int));
            assert(anns.deep_view().subrange(0, i + 1 as int)[i as int] == a.deep_view());
        }
        if a.family == family {
            if a.key == key {
                cur = Some(a.value.clone());
            } else {
                proof {
                    assert(spec_find_each(anns.deep_view().subrange(0, i + 1 as int)) == Err::<
                        Option<Seq<char>>,
                        Span,
                    >(a.span));
                    lemma_find_each_err_prefix(anns.deep_view(), i + 1 as int);
                }
                return Err(
                    DeriveError::UnsupportedAttribute {
                        span: a.span,
                        expected: String::from_str("expected `builder(each = \"...\")`"),
                    },
                );
            }
        }
        i = i + 1;
    }
    proof {
        assert(anns.deep_view().subrange(0, anns@.len() as int) =~= anns.deep_view());
    }
    Ok(cur)
}

/// The shape a field classifies to, or the error that classification fails
/// with: a malformed builder-family annotation fails first; then a present
/// accumulation directive demands an accumulator-shaped declared type;
/// otherwise an optional-shaped type yields `Optional`, and anything else —
/// including an accumulator-shaped type without the directive — is `Plain`.
pub open spec fn spec_classify_field(f: FieldDescriptorV) -> Result<ClassifiedFieldV, DeriveErrorV> {
    match spec_find_each(f.annotations) {
        Err(sp) => Err(
            DeriveErrorV::UnsupportedAttribute { span: sp, expected: builder_expected_form() },
        ),
        Ok(Some(m)) => if is_accumulator_shaped(f.declared_type) {
            Ok(
                ClassifiedFieldV {
                    name: f.name,
                    span: f.span,
                    shape: FieldShapeV::Repeated(m, f.declared_type.args[0]),
                },
            )
        } else {
            Err(DeriveErrorV::ShapeMismatch { span: f.span, field: f.name })
        },
        Ok(None) => if is_optional_shaped(f.declared_type) {
            Ok(
                ClassifiedFieldV {
                    name: f.name,
                    span: f.span,
                    shape: FieldShapeV::Optional(f.declared_type.args[0]),
                },
            )
        } else {
            Ok(
                ClassifiedFieldV {
                    name: f.name,
                    span: f.span,
                    shape: FieldShapeV::Plain(f.declared_type),
                },
            )
        },
    }
}

/// Classify one field.
pub fn classify_field(field: &FieldDescriptor) -> (r: Result<ClassifiedField, DeriveError>)
    ensures
        (r is Ok) == (spec_classify_field(field.deep_view()) is Ok),
        r matches Ok(c) ==> spec_classify_field(field.deep_view()) matches Ok(cv) && c.deep_view()
            == cv,
        r matches Err(e) ==> spec_classify_field(field.deep_view()) matches Err(ev)
            && e.deep_view() == ev,
{
    proof {
        crate::descriptor::lemma_deep_view_args(field.declared_type.args@);
    }
    match find_each_directive(&field.annotations) {
        Err(e) => Err(e),
        Ok(Some(m)) => {
            let vec_head = String::from_str("Vec");
            if field.declared_type.head == vec_head && field.declared_type.args.len() >= 1 {
                let elem = field.declared_type.args[0].clone();
                Ok(
                    ClassifiedField {
                        name: field.name.clone(),
                        span: field.span,
                        shape: FieldShape::Repeated(m, elem),
                    },
                )
            } else {
                Err(DeriveError::ShapeMismatch { span: field.span, field: field.name.clone() })
            }
        },
        Ok(None) => {
            let option_head = String::from_str("Option");
            if field.declared_type.head == option_head && field.declared_type.args.len() == 1 {
                let inner = field.declared_type.args[0].clone();
                Ok(
                    ClassifiedField {
                        name: field.name.clone(),
                        span: field.span,
                        shape: FieldShape::Optional(inner),
                    },
                )
            } else {
                Ok(
                    ClassifiedField {
                        name: field.name.clone(),
                        span: field.span,
                        shape: FieldShape::Plain(field.declared_type.clone()),
                    },
                )
            }
        },
    }
}

/// Every field maps to exactly one shape, and the mapping is a pure
/// function of the declared type and the annotations: two fields that share
/// them classify alike — same shape on success, same kind of failure
/// otherwise — whatever their names and spans.
pub proof fn lemma_classification_pure(f1: FieldDescriptorV, f2: FieldDescriptorV)
    requires
        f1.declared_type == f2.declared_type,
        f1.annotations == f2.annotations,
    ensures
        (spec_classify_field(f1) is Ok) == (spec_classify_field(f2) is Ok),
        spec_classify_field(f1) matches Ok(c1) ==> spec_classify_field(f2) matches Ok(c2)
            && c1.shape == c2.shape,
{
}

/// The classification of a whole field list: every field's shape in
/// declaration order, failing fast at the first field that does not
/// classify.
pub open spec fn spec_classify_fields(fields: Seq<FieldDescriptorV>) -> Result<
    Seq<ClassifiedFieldV>,
    DeriveErrorV,
>
    decreases fields.len(),
{
    if fields.len() == 0 {
        Ok(Seq::empty())
    } else {
        match spec_classify_fields(fields.subrange(0, fields.len() - 1)) {
            Err(e) => Err(e),
            Ok(s) => match spec_classify_field(fields[fields.len() - 1]) {
                Err(e) => Err(e),
                Ok(c) => Ok(s.push(c)),
            },
        }
    }
}

/// Once a prefix of the field list fails to classify, the whole list fails
/// the same way.
proof fn lemma_classify_fields_err_prefix(fields: Seq<FieldDescriptorV>, j: int)
    requires
        0 <= j <= fields.len(),
        spec_classify_fields(fields.subrange(0, j)) is Err,
    ensures
        spec_classify_fields(fields) == spec_classify_fields(fields.subrange(0, j)),
    decreases fields.len() - j,
{
    if j < fields.len() {
        assert(fields.subrange(0, j + 1).subrange(0, j) =~= fields.subrange(0, j));
        assert(spec_classify_fields(fields.subrange(0, j + 1)) == spec_classify_fields(
            fields.subrange(0, j),
        ));
        lemma_classify_fields_err_prefix(fields, j + 1);
    } else {
        assert(fields.subrange(0, fields.len() as int) =~= fields);
    }
}

/// Classify every field of a record, in declaration order, stopping at the
/// first error.
pub fn classify_fields(fields: &Vec<FieldDescriptor>) -> (r: Result<
    Vec<ClassifiedField>,
    DeriveError,
>)
    ensures
        (r is Ok) == (spec_classify_fields(fields.deep_view()) is Ok),
        r matches Ok(cs) ==> spec_classify_fields(fields.deep_view()) matches Ok(sv)
            && cs.deep_view() == sv,
        r matches Err(e) ==> spec_classify_fields(fields.deep_view()) matches Err(ev)
            && e.deep_view() == ev,
{
    let mut out: Vec<ClassifiedField> = Vec::new();
    proof {
        assert(out.deep_view() =~= Seq::<ClassifiedFieldV>::empty());
    }
    let mut i: usize = 0;
    while i < fields.len()
        invariant
            i <= fields@.len(),
            spec_classify_fields(fields.deep_view().subrange(0, i as int)) == Ok::<
                Seq<ClassifiedFieldV>,
                DeriveErrorV,
            >(out.deep_view()),
        decreases fields@.len() - i,
    {
        proof {
            assert(fields.deep_view().subrange(0, i + 1 as int).subrange(0, i as int)
                =~= fields.deep_view().subrange(0, i as int));
            assert(fields.deep_view().subrange(0, i + 1 as int)[i as int] == fields@[i as int]
                .deep_view());
        }
        match classify_field(&fields[i]) {
            Err(e) => {
                proof {
                    assert(spec_classify_fields(fields.deep_view().subrange(0, i + 1 as int))
                        == Err::<Seq<ClassifiedFieldV>, DeriveErrorV>(e.deep_view()));
                    lemma_classify_fields_err_prefix(fields.deep_view(), i + 1 as int);
                }
                return Err(e);
            },
            Ok(c) => {
                let ghost prev = out.deep_view();
                let ghost cv = c.deep_view();
                out.push(c);
                proof {
                    assert(out.deep_view() =~= prev.push(cv));
                }
            },
        }
        i = i + 1;
    }
    proof {
        assert(fields.deep_view().subrange(0, fields@.len() as int) =~= fields.deep_view());
    }
    Ok(out)
}

} // verus!
