//! The data model a derivation request is made of: type expressions,
//! annotations, field descriptors, and record descriptors, together with
//! their spec-level (deep view) counterparts.
use vstd::prelude::*;
use vstd::string::StringExecFns;

verus! {

/// A source location hint, handed in by the front end and carried on errors.
#[derive(Clone, Copy, PartialEq, Eq, Structural, Debug)]
pub struct Span {
    pub lo: usize,
    pub hi: usize,
}

/// A type expression: a head name with zero or more type arguments.
/// Deeper structure than one level is never interpreted, only carried.
#[derive(Debug, PartialEq)]
pub struct TypeExpr {
    pub head: String,
    pub args: Vec<TypeExpr>,
}

/// Spec-level model of a `TypeExpr`.
#[verifier::ext_equal]
pub struct TypeExprV {
    pub head: Seq<char>,
    pub args: Seq<TypeExprV>,
}

/// Spec-level model of a sequence of `TypeExpr` arguments.
pub open spec fn deep_view_args(s: Seq<TypeExpr>) -> Seq<TypeExprV>
    decreases s,
{
    if s.len() == 0 {
        Seq::empty()
    } else {
        deep_view_args(s.subrange(0, s.len() - 1)).push(s[s.len() - 1].deep_view())
    }
}

impl DeepView for TypeExpr {
    type V = TypeExprV;

    open spec fn deep_view(&self) -> TypeExprV
        decreases self,
    {
        TypeExprV { head: self.head@, args: deep_view_args(self.args@) }
    }
}

/// Each element of `deep_view_args` is the deep view of the matching element.
pub proof fn lemma_deep_view_args(s: Seq<TypeExpr>)
    ensures
        deep_view_args(s).len() == s.len(),
        forall|i: int| 0 <= i < s.len() ==> deep_view_args(s)[i] == s[i].deep_view(),
    decreases s.len(),
{
    if s.len() > 0 {
        let pre = s.subrange(0, s.len() - 1);
        lemma_deep_view_args(pre);
        assert(deep_view_args(s) == deep_view_args(pre).push(s[s.len() - 1].deep_view()));
        assert forall|i: int| 0 <= i < s.len() implies deep_view_args(s)[i] == s[i].deep_view() by {
            if i < s.len() - 1 {
                assert(deep_view_args(s)[i] == deep_view_args(pre)[i]);
                assert(pre[i] == s[i]);
            }
        }
    }
}

impl DeepView for Span {
    type V = Span;

    open spec fn deep_view(&self) -> Span {
        *self
    }
}

impl Clone for TypeExpr {
    fn clone(&self) -> (res: Self)
        ensures
            res.deep_view() == self.deep_view(),
        decreases self,
    {
        let mut args: Vec<TypeExpr> = Vec::new();
        let mut i: usize = 0;
        while i < self.args.len()
            invariant
                i <= self.args@.len(),
                args@.len() == i as int,
                forall|j: int|
                    0 <= j < i as int ==> args@[j].deep_view() == self.args@[j].deep_view(),
            decreases self.args@.len() - i,
        {
            args.push(self.args[i].clone());
            i = i + 1;
        }
        let res = TypeExpr { head: self.head.clone(), args };
        proof {
            lemma_deep_view_args(res.args@);
            lemma_deep_view_args(self.args@);
            assert(res.deep_view().args =~= self.deep_view().args);
            assert(res.deep_view() =~= self.deep_view());
        }
        res
    }
}

/// One annotation, already tokenized by the front end: `family` is the
/// attribute's outer name, `key` the directive key inside it (for a bare
/// `name = "..."` annotation the front end repeats the name as the key),
/// and `value` the literal text bound to the key.
#[derive(Debug, PartialEq)]
pub struct Annotation {
    pub family: String,
    pub key: String,
    pub value: String,
    pub span: Span,
}

/// Spec-level model of an `Annotation`.
#[verifier::ext_equal]
pub struct AnnotationV {
    pub family: Seq<char>,
    pub key: Seq<char>,
    pub value: Seq<char>,
    pub span: Span,
}

impl DeepView for Annotation {
    type V = AnnotationV;

    open spec fn deep_view(&self) -> AnnotationV {
        AnnotationV { family: self.family@, key: self.key@, value: self.value@, span: self.span }
    }
}

/// One field of a record: its name, declared type, and annotations.
#[derive(Debug, PartialEq)]
pub struct FieldDescriptor {
    pub name: String,
    pub span: Span,
    pub declared_type: TypeExpr,
    pub annotations: Vec<Annotation>,
}

/// Spec-level model of a `FieldDescriptor`.
#[verifier::ext_equal]
pub struct FieldDescriptorV {
    pub name: Seq<char>,
    pub span: Span,
    pub declared_type: TypeExprV,
    pub annotations: Seq<AnnotationV>,
}

impl DeepView for FieldDescriptor {
    type V = FieldDescriptorV;

    open spec fn deep_view(&self) -> FieldDescriptorV {
        FieldDescriptorV {
            name: self.name@,
            span: self.span,
            declared_type: self.declared_type.deep_view(),
            annotations: self.annotations.deep_view(),
        }
    }
}

/// The body of a record: either a list of named fields, or some other shape
/// that the engine does not derive for.
#[derive(Debug, PartialEq)]
pub enum RecordShape {
    Named(Vec<FieldDescriptor>),
    Other,
}

/// Spec-level model of a `RecordShape`.
#[verifier::ext_equal]
pub enum RecordShapeV {
    Named(Seq<FieldDescriptorV>),
    Other,
}

impl DeepView for RecordShape {
    type V = RecordShapeV;

    open spec fn deep_view(&self) -> RecordShapeV {
        match self {
            RecordShape::Named(fields) => RecordShapeV::Named(fields.deep_view()),
            RecordShape::Other => RecordShapeV::Other,
        }
    }
}

/// A parsed, type-resolved record to derive for: name, generic parameters in
/// declaration order, body, and record-level annotations (these carry an
/// explicit constraint override, when one was written).
#[derive(Debug, PartialEq)]
pub struct RecordDescriptor {
    pub name: String,
    pub span: Span,
    pub generics: Vec<String>,
    pub shape: RecordShape,
    pub annotations: Vec<Annotation>,
}

/// Spec-level model of a `RecordDescriptor`.
#[verifier::ext_equal]
pub struct RecordDescriptorV {
    pub name: Seq<char>,
    pub span: Span,
    pub generics: Seq<Seq<char>>,
    pub shape: RecordShapeV,
    pub annotations: Seq<AnnotationV>,
}

impl DeepView for RecordDescriptor {
    type V = RecordDescriptorV;

    open spec fn deep_view(&self) -> RecordDescriptorV {
        RecordDescriptorV {
            name: self.name@,
            span: self.span,
            generics: self.generics.deep_view(),
            shape: self.shape.deep_view(),
            annotations: self.annotations.deep_view(),
        }
    }
}

/// A derivation-time failure, attached to the span it arose at. These are
/// terminal for the record's derivation and are surfaced to the invoking
/// toolchain as a build-time diagnostic.
#[derive(Debug, PartialEq)]
pub enum DeriveError {
    /// The record is not a plain list of named fields.
    UnsupportedShape { span: Span },
    /// An annotation of a recognized family has an unrecognized key or value
    /// shape; `expected` echoes the form the directive should have had.
    UnsupportedAttribute { span: Span, expected: String },
    /// An accumulation directive sits on a field whose declared type is not
    /// the accumulator type; `field` names the offending field.
    ShapeMismatch { span: Span, field: String },
}

/// Spec-level model of a `DeriveError`.
#[verifier::ext_equal]
pub enum DeriveErrorV {
    UnsupportedShape { span: Span },
    UnsupportedAttribute { span: Span, expected: Seq<char> },
    ShapeMismatch { span: Span, field: Seq<char> },
}

impl DeepView for DeriveError {
    type V = DeriveErrorV;

    open spec fn deep_view(&self) -> DeriveErrorV {
        match self {
            DeriveError::UnsupportedShape { span } => DeriveErrorV::UnsupportedShape { span: *span },
            DeriveError::UnsupportedAttribute { span, expected } => DeriveErrorV::UnsupportedAttribute {
                span: *span,
                expected: expected@,
            },
            DeriveError::ShapeMismatch { span, field } => DeriveErrorV::ShapeMismatch {
                span: *span,
                field: field@,
            },
        }
    }
}

/// The span a derivation error is attached to.
pub open spec fn spec_error_span(e: DeriveErrorV) -> Span {
    match e {
        DeriveErrorV::UnsupportedShape { span } => span,
        DeriveErrorV::UnsupportedAttribute { span, .. } => span,
        DeriveErrorV::ShapeMismatch { span, .. } => span,
    }
}

/// The diagnostic text of a derivation error.
pub open spec fn spec_error_message(e: DeriveErrorV) -> Seq<char> {
    match e {
        DeriveErrorV::UnsupportedShape { .. } => "expected a struct with named fields"@,
        DeriveErrorV::UnsupportedAttribute { expected, .. } => expected,
        DeriveErrorV::ShapeMismatch { field, .. } => "an accumulation directive requires an accumulator-typed field: "@
            + field,
    }
}

impl DeriveError {
    /// The span the error is attached to.
    pub fn span(&self) -> (s: Span)
        ensures
            s == spec_error_span(self.deep_view()),
    {
        match self {
            DeriveError::UnsupportedShape { span } => *span,
            DeriveError::UnsupportedAttribute { span, .. } => *span,
            DeriveError::ShapeMismatch { span, .. } => *span,
        }
    }

    /// The diagnostic text, to be rendered at the error's span.
    pub fn message(&self) -> (m: String)
        ensures
            m@ == spec_error_message(self.deep_view()),
    {
        match self {
            DeriveError::UnsupportedShape { .. } => String::from_str(
                "expected a struct with named fields",
            ),
            DeriveError::UnsupportedAttribute { expected, .. } => expected.clone(),
            DeriveError::ShapeMismatch { field, .. } => String::from_str(
                "an accumulation directive requires an accumulator-typed field: ",
            ).concat(field.as_str()),
        }
    }
}

} // verus!
