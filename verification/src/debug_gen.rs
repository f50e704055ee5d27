//! The debug synthesizer: from a record's fields (each optionally carrying a
//! per-field format override) and either an explicit constraint override or
//! the generic-usage visitor's inferred set, it emits the abstract fragment
//! of a structured-dump implementation with its constraint clause.
use crate::descriptor::{
    Annotation, AnnotationV, DeriveError, DeriveErrorV, FieldDescriptor, FieldDescriptorV,
    RecordDescriptor, RecordDescriptorV, RecordShape, RecordShapeV, Span,
};
use crate::generics::{marker_head, spec_used_params, used_type_params};
use vstd::prelude::*;
use vstd::string::{StrSliceExecFns, StringExecFns};

verus! {

/// The annotation family the debug derivation recognizes.
pub open spec fn debug_family() -> Seq<char> {
    "debug"@
}

/// On a field, the recognized directive is the bare `debug = "..."` form:
/// the front end repeats the family name as the key.
pub open spec fn fmt_key() -> Seq<char> {
    "debug"@
}

/// On the record, the recognized directive key is `bound`.
pub open spec fn bound_key() -> Seq<char> {
    "bound"@
}

/// The form echoed when a debug-family annotation on a field is malformed.
pub open spec fn fmt_expected_form() -> Seq<char> {
    "expected `debug = \"...\"`"@
}

/// The form echoed when a debug-family annotation on the record is
/// malformed.
pub open spec fn bound_expected_form() -> Seq<char> {
    "expected `debug(bound = \"...\")`"@
}

/// A field prepared for the dump: its name and, when one was written, the
/// custom format pattern its value renders through.
#[derive(Debug, PartialEq)]
pub struct DebugField {
    pub name: String,
    pub fmt_arg: Option<String>,
}

/// Spec-level model of a `DebugField`.
#[verifier::ext_equal]
pub struct DebugFieldV {
    pub name: Seq<char>,
    pub fmt_arg: Option<Seq<char>>,
}

impl DeepView for DebugField {
    type V = DebugFieldV;

    open spec fn deep_view(&self) -> DebugFieldV {
        DebugFieldV { name: self.name@, fmt_arg: self.fmt_arg.deep_view() }
    }
}

/// The format override carried by a field's annotation list: the value of
/// the last `debug = "..."` annotation wins; the first debug-family
/// annotation of any other form is an error, reported at its span.
pub open spec fn spec_find_fmt(anns: Seq<AnnotationV>) -> Result<Option<Seq<char>>, Span>
    decreases anns.len(),
{
    if anns.len() == 0 {
        Ok(None)
    } else {
        match spec_find_fmt(anns.subrange(0, anns.len() - 1)) {
            Err(sp) => Err(sp),
            Ok(cur) => {
                let a = anns[anns.len() - 1];
                if a.family != debug_family() {
                    Ok(cur)
                } else if a.key == fmt_key() {
                    Ok(Some(a.value))
                } else {
                    Err(a.span)
                }
            },
        }
    }
}

/// Once a prefix of the annotation list fails, the whole list fails the
/// same way.
proof fn lemma_find_fmt_err_prefix(anns: Seq<AnnotationV>, j: int)
    requires
        0 <= j <= anns.len(),
        spec_find_fmt(anns.subrange(0, j)) is Err,
    ensures
        spec_find_fmt(anns) == spec_find_fmt(anns.subrange(0, j)),
    decreases anns.len() - j,
{
    if j < anns.len() {
        assert(anns.subrange(0, j + 1).subrange(0, j) =~= anns.subrange(0, j));
        assert(spec_find_fmt(anns.subrange(0, j + 1)) == spec_find_fmt(anns.subrange(0, j)));
        lemma_find_fmt_err_prefix(anns, j + 1);
    } else {
        assert(anns.subrange(0, anns.len() as int) =~= anns);
    }
}

/// The debug field a field descriptor prepares to, or the error its
/// annotations fail with.
pub open spec fn spec_debug_field(f: FieldDescriptorV) -> Result<DebugFieldV, DeriveErrorV> {
    match spec_find_fmt(f.annotations) {
        Err(sp) => Err(
            DeriveErrorV::UnsupportedAttribute { span: sp, expected: fmt_expected_form() },
        ),
        Ok(fmt) => Ok(DebugFieldV { name: f.name, fmt_arg: fmt }),
    }
}

impl DebugField {
    /// Prepare one field for the dump, extracting its format override.
    pub fn try_from(field: &FieldDescriptor) -> (r: Result<DebugField, DeriveError>)
        ensures
            (r is Ok) == (spec_debug_field(field.deep_view()) is Ok),
            r matches Ok(d) ==> spec_debug_field(field.deep_view()) matches Ok(dv)
                && d.deep_view() == dv,
            r matches Err(e) ==> spec_debug_field(field.deep_view()) matches Err(ev)
                && e.deep_view() == ev,
    {
        let family = String::from_str("debug");
        let mut fmt: Option<String> = None;
        let anns = &field.annotations;
        let mut i: usize = 0;
        while i < anns.len()
            invariant
                i <= anns@.len(),
                family@ == debug_family(),
                anns.deep_view() == field.deep_view().annotations,
                spec_find_fmt(anns.deep_view().subrange(0, i as int)) == Ok::<
                    Option<Seq<char>>,
                    Span,
                >(fmt.deep_view()),
            decreases anns@.len() - i,
        {
            let a = &anns[i];
            proof {
                assert(anns.deep_view().subrange(0, i + 1 as int).subrange(0, i as int)
                    =~= anns.deep_view().subrange(0, i as int));
                assert(anns.deep_view().subrange(0, i + 1 as int)[i as int] == a.deep_view());
            }
            if a.family == family {
                if a.key == family {
                    fmt = Some(a.value.clone());
                } else {
                    proof {
                        assert(spec_find_fmt(anns.deep_view().subrange(0, i + 1 as int)) == Err::<
                            Option<Seq<char>>,
                            Span,
                        >(a.span));
                        lemma_find_fmt_err_prefix(anns.deep_view(), i + 1 as int);
                    }
                    return Err(
                        DeriveError::UnsupportedAttribute {
                            span: a.span,
                            expected: String::from_str("expected `debug = \"...\"`"),
                        },
                    );
                }
            }
            i = i + 1;
        }
        proof {
            assert(anns.deep_view().subrange(0, anns@.len() as int) =~= anns.deep_view());
        }
        Ok(DebugField { name: field.name.clone(), fmt_arg: fmt })
    }
}

/// The debug fields of a whole field list, in declaration order, failing
/// fast at the first field whose annotations are malformed.
pub open spec fn spec_debug_fields(fields: Seq<FieldDescriptorV>) -> Result<
    Seq<DebugFieldV>,
    DeriveErrorV,
>
    decreases fields.len(),
{
    if fields.len() == 0 {
        Ok(Seq::empty())
    } else {
        match spec_debug_fields(fields.subrange(0, fields.len() - 1)) {
            Err(e) => Err(e),
            Ok(s) => match spec_debug_field(fields[fields.len() - 1]) {
                Err(e) => Err(e),
                Ok(d) => Ok(s.push(d)),
            },
        }
    }
}

/// Once a prefix of the field list fails, the whole list fails the same
/// way.
proof fn lemma_debug_fields_err_prefix(fields: Seq<FieldDescriptorV>, j: int)
    requires
        0 <= j <= fields.len(),
        spec_debug_fields(fields.subrange(0, j)) is Err,
    ensures
        spec_debug_fields(fields) == spec_debug_fields(fields.subrange(0, j)),
    decreases fields.len() - j,
{
    if j < fields.len() {
        assert(fields.subrange(0, j + 1).subrange(0, j) =~= fields.subrange(0, j));
        assert(spec_debug_fields(fields.subrange(0, j + 1)) == spec_debug_fields(
            fields.subrange(0, j),
        ));
        lemma_debug_fields_err_prefix(fields, j + 1);
    } else {
        assert(fields.subrange(0, fields.len() as int) =~= fields);
    }
}

/// Prepare every field of the record, in declaration order, stopping at the
/// first error.
pub fn debug_fields(fields: &Vec<FieldDescriptor>) -> (r: Result<Vec<DebugField>, DeriveError>)
    ensures
        (r is Ok) == (spec_debug_fields(fields.deep_view()) is Ok),
        r matches Ok(ds) ==> spec_debug_fields(fields.deep_view()) matches Ok(sv)
            && ds.deep_view() == sv,
        r matches Err(e) ==> spec_debug_fields(fields.deep_view()) matches Err(ev)
            && e.deep_view() == ev,
{
    let mut out: Vec<DebugField> = Vec::new();
    proof {
        assert(out.deep_view() =~= Seq::<DebugFieldV>::empty());
    }
    let mut i: usize = 0;
    while i < fields.len()
        invariant
            i <= fields@.len(),
            spec_debug_fields(fields.deep_view().subrange(0, i as int)) == Ok::<
                Seq<DebugFieldV>,
                DeriveErrorV,
            >(out.deep_view()),
        decreases fields@.len() - i,
    {
        proof {
            assert(fields.deep_view().subrange(0, i + 1 as int).subrange(0, i as int)
                =~= fields.deep_view().subrange(0, i as int));
            assert(fields.deep_view().subrange(0, i + 1 as int)[i as int] == fields@[i as int]
                .deep_view());
        }
        match DebugField::try_from(&fields[i]) {
            Err(e) => {
                proof {
                    assert(spec_debug_fields(fields.deep_view().subrange(0, i + 1 as int))
                        == Err::<Seq<DebugFieldV>, DeriveErrorV>(e.deep_view()));
                    lemma_debug_fields_err_prefix(fields.deep_view(), i + 1 as int);
                }
                return Err(e);
            },
            Ok(d) => {
                let ghost prev = out.deep_view();
                let ghost dv = d.deep_view();
                out.push(d);
                proof {
                    assert(out.deep_view() =~= prev.push(dv));
                }
            },
        }
        i = i + 1;
    }
    proof {
        assert(fields.deep_view().subrange(0, fields@.len() as int) =~= fields.deep_view());
    }
    Ok(out)
}

/// Strip leading and trailing spaces.
pub open spec fn spec_trim(s: Seq<char>) -> Seq<char>
    decreases s.len(),
{
    if s.len() == 0 {
        s
    } else if s[0] == ' ' {
        spec_trim(s.subrange(1, s.len() as int))
    } else if s[s.len() - 1] == ' ' {
        spec_trim(s.subrange(0, s.len() - 1))
    } else {
        s
    }
}

/// Strip leading and trailing spaces from a piece of a bound literal.
fn trim_str(s: &str) -> (r: String)
    ensures
        r@ == spec_trim(s@),
    decreases s@.len(),
{
    let n = s.unicode_len();
    if n == 0 {
        s.to_owned()
    } else if s.get_char(0) == ' ' {
        trim_str(s.substring_char(1, n))
    } else if s.get_char(n - 1) == ' ' {
        trim_str(s.substring_char(0, n - 1))
    } else {
        s.to_owned()
    }
}

/// How one character changes the bracket depth of a constraint-list
/// literal: angle brackets and parentheses nest; a `>` that closes an arrow
/// (`->`) does not.
pub open spec fn spec_depth_delta(s: Seq<char>, i: int) -> int {
    if s[i] == '<' || s[i] == '(' {
        1
    } else if s[i] == ')' {
        -1
    } else if s[i] == '>' && !(i > 0 && s[i - 1] == '-') {
        -1
    } else {
        0
    }
}

/// The constraints written in a bound literal, from position `i` on, given
/// the bracket depth so far and the start of the current piece: the pieces
/// between top-level commas, each trimmed, empty pieces dropped.
pub open spec fn spec_split_from(s: Seq<char>, i: int, depth: int, start: int) -> Seq<Seq<char>>
    decreases s.len() - i,
{
    if i >= s.len() {
        let piece = spec_trim(s.subrange(start, s.len() as int));
        if piece.len() == 0 {
            Seq::empty()
        } else {
            seq![piece]
        }
    } else if s[i] == ',' && depth == 0 {
        let piece = spec_trim(s.subrange(start, i));
        (if piece.len() == 0 {
            Seq::empty()
        } else {
            seq![piece]
        }) + spec_split_from(s, i + 1, 0, i + 1)
    } else {
        spec_split_from(s, i + 1, depth + spec_depth_delta(s, i), start)
    }
}

/// The constraint list a bound literal denotes.
pub open spec fn spec_split_bound(s: Seq<char>) -> Seq<Seq<char>> {
    spec_split_from(s, 0, 0, 0)
}

/// Split a bound literal at its top-level commas, from position `i` on.
fn split_from(s: &str, i: usize, depth: i128, start: usize) -> (r: Vec<String>)
    requires
        start as int <= i as int <= s@.len(),
        -(i as int) <= depth as int <= i as int,
    ensures
        r.deep_view() == spec_split_from(s@, i as int, depth as int, start as int),
    decreases s@.len() - i as int,
{
    let n = s.unicode_len();
    if i >= n {
        let piece = trim_str(s.substring_char(start, n));
        let mut out: Vec<String> = Vec::new();
        if piece.unicode_len() != 0 {
            out.push(piece);
            proof {
                assert(out.deep_view() =~= spec_split_from(s@, i as int, depth as int, start as int));
            }
        } else {
            proof {
                assert(out.deep_view() =~= spec_split_from(s@, i as int, depth as int, start as int));
            }
        }
        out
    } else {
        let c = s.get_char(i);
        if c == ',' && depth == 0 {
            let piece = trim_str(s.substring_char(start, i));
            let mut rest = split_from(s, i + 1, 0, i + 1);
            if piece.unicode_len() != 0 {
                let ghost restv = rest.deep_view();
                rest.insert(0, piece);
                proof {
                    assert(rest.deep_view() =~= seq![spec_trim(s@.subrange(start as int, i as int))]
                        + restv);
                }
            }
            rest
        } else {
            let prev_is_dash = i > 0 && s.get_char(i - 1) == '-';
            let delta: i128 = if c == '<' || c == '(' {
                1
            } else if c == ')' {
                -1
            } else if c == '>' && !prev_is_dash {
                -1
            } else {
                0
            };
            split_from(s, i + 1, depth + delta, start)
        }
    }
}

/// Split a bound literal into its constraint list.
pub fn split_bound(s: &str) -> (r: Vec<String>)
    ensures
        r.deep_view() == spec_split_bound(s@),
{
    split_from(s, 0, 0, 0)
}

/// The explicit constraint override carried by the record's annotations:
/// each `debug(bound = "...")` annotation appends the constraints its
/// literal denotes, in order; the first debug-family annotation with any
/// other key is an error, reported at its span. No annotation at all yields
/// no override — which is different from an override that is empty.
pub open spec fn spec_collect_bounds(anns: Seq<AnnotationV>) -> Result<
    Option<Seq<Seq<char>>>,
    Span,
>
    decreases anns.len(),
{
    if anns.len() == 0 {
        Ok(None)
    } else {
        match spec_collect_bounds(anns.subrange(0, anns.len() - 1)) {
            Err(sp) => Err(sp),
            Ok(cur) => {
                let a = anns[anns.len() - 1];
                if a.family != debug_family() {
                    Ok(cur)
                } else if a.key == bound_key() {
                    let sofar = match cur {
                        Some(cs) => cs,
                        None => Seq::empty(),
                    };
                    Ok(Some(sofar + spec_split_bound(a.value)))
                } else {
                    Err(a.span)
                }
            },
        }
    }
}

/// Once a prefix of the annotation list fails, the whole list fails the
/// same way.
proof fn lemma_collect_bounds_err_prefix(anns: Seq<AnnotationV>, j: int)
    requires
        0 <= j <= anns.len(),
        spec_collect_bounds(anns.subrange(0, j)) is Err,
    ensures
        spec_collect_bounds(anns) == spec_collect_bounds(anns.subrange(0, j)),
    decreases anns.len() - j,
{
    if j < anns.len() {
        assert(anns.subrange(0, j + 1).subrange(0, j) =~= anns.subrange(0, j));
        assert(spec_collect_bounds(anns.subrange(0, j + 1)) == spec_collect_bounds(
            anns.subrange(0, j),
        ));
        lemma_collect_bounds_err_prefix(anns, j + 1);
    } else {
        assert(anns.subrange(0, anns.len() as int) =~= anns);
    }
}

/// Extract the explicit constraint override from the record's annotations,
/// if one was written.
pub fn custom_clauses(anns: &Vec<Annotation>) -> (r: Result<Option<Vec<String>>, DeriveError>)
    ensures
        (r is Ok) == (spec_collect_bounds(anns.deep_view()) is Ok),
        r matches Ok(o) ==> spec_collect_bounds(anns.deep_view()) matches Ok(so) && o.deep_view()
            == so,
        r matches Err(e) ==> spec_collect_bounds(anns.deep_view()) matches Err(sp)
            && e.deep_view() == (DeriveErrorV::UnsupportedAttribute {
            span: sp,
            expected: bound_expected_form(),
        }),
{
    let family = String::from_str("debug");
    let key = String::from_str("bound");
    let mut cur: Option<Vec<String>> = None;
    let mut i: usize = 0;
    while i < anns.len()
        invariant
            i <= anns@.len(),
            family@ == debug_family(),
            key@ == bound_key(),
            spec_collect_bounds(anns.deep_view().subrange(0, i as int)) == Ok::<
                Option<Seq<Seq<char>>>,
                Span,
            >(cur.deep_view()),
        decreases anns@.len() - i,
    {
        let a = &anns[i];
        proof {
            assert(anns.deep_view().subrange(0, i + 1 as int).subrange(0, i as int)
                =~= anns.deep_view().subrange(0, i as int));
            assert(anns.deep_view().subrange(0, i + 1 as int)[i as int] == a.deep_view());
        }
        if a.family == family {
            if a.key == key {
                let mut pieces = split_bound(a.value.as_str());
                let mut sofar = match cur {
                    Some(cs) => cs,
                    None => Vec::new(),
                };
                let ghost sofarv = sofar.deep_view();
                let ghost piecesv = pieces.deep_view();
                sofar.append(&mut pieces);
                proof {
                    assert(sofar.deep_view() =~= sofarv + piecesv);
                    assert(Option::Some(sofar).deep_view() == Some(sofarv + piecesv));
                }
                cur = Some(sofar);
            } else {
                proof {
                    assert(spec_collect_bounds(anns.deep_view().subrange(0, i + 1 as int))
                        == Err::<Option<Seq<Seq<char>>>, Span>(a.span));
                    lemma_collect_bounds_err_prefix(anns.deep_view(), i + 1 as int);
                }
                return Err(
                    DeriveError::UnsupportedAttribute {
                        span: a.span,
                        expected: String::from_str("expected `debug(bound = \"...\")`"),
                    },
                );
            }
        }
        i = i + 1;
    }
    proof {
        assert(anns.deep_view().subrange(0, anns@.len() as int) =~= anns.deep_view());
    }
    Ok(cur)
}

/// One constraint of the emitted clause.
#[derive(Debug, PartialEq)]
pub enum Constraint {
    /// An inferred constraint: the named generic parameter must support the
    /// structured dump.
    DebugBound(String),
    /// A constraint written by the user, carried verbatim.
    Custom(String),
}

/// Spec-level model of a `Constraint`.
#[verifier::ext_equal]
pub enum ConstraintV {
    DebugBound(Seq<char>),
    Custom(Seq<char>),
}

impl DeepView for Constraint {
    type V = ConstraintV;

    open spec fn deep_view(&self) -> ConstraintV {
        match self {
            Constraint::DebugBound(p) => ConstraintV::DebugBound(p@),
            Constraint::Custom(c) => ConstraintV::Custom(c@),
        }
    }
}

/// One field call of the dump: the label printed, and the format pattern
/// the value renders through, when one was written.
#[derive(Debug, PartialEq)]
pub struct DebugFieldCall {
    pub label: String,
    pub fmt: Option<String>,
}

/// Spec-level model of a `DebugFieldCall`.
#[verifier::ext_equal]
pub struct DebugFieldCallV {
    pub label: Seq<char>,
    pub fmt: Option<Seq<char>>,
}

impl DeepView for DebugFieldCall {
    type V = DebugFieldCallV;

    open spec fn deep_view(&self) -> DebugFieldCallV {
        DebugFieldCallV { label: self.label@, fmt: self.fmt.deep_view() }
    }
}

/// The whole emitted dump fragment: the record's name, the constraint
/// clause that gates which instantiations the dump is available for, and
/// one call per field in declaration order.
#[derive(Debug, PartialEq)]
pub struct DebugFragment {
    pub record_name: String,
    pub constraints: Vec<Constraint>,
    pub field_calls: Vec<DebugFieldCall>,
}

/// Spec-level model of a `DebugFragment`.
#[verifier::ext_equal]
pub struct DebugFragmentV {
    pub record_name: Seq<char>,
    pub constraints: Seq<ConstraintV>,
    pub field_calls: Seq<DebugFieldCallV>,
}

impl DeepView for DebugFragment {
    type V = DebugFragmentV;

    open spec fn deep_view(&self) -> DebugFragmentV {
        DebugFragmentV {
            record_name: self.record_name@,
            constraints: self.constraints.deep_view(),
            field_calls: self.field_calls.deep_view(),
        }
    }
}

/// The field call one debug field emits.
pub open spec fn spec_field_call_of(d: DebugFieldV) -> DebugFieldCallV {
    DebugFieldCallV { label: d.name, fmt: d.fmt_arg }
}

/// The field calls, one per field, in declaration order.
pub open spec fn spec_field_calls(ds: Seq<DebugFieldV>) -> Seq<DebugFieldCallV> {
    Seq::new(ds.len(), |i: int| spec_field_call_of(ds[i]))
}

/// Emit the dump's field calls, one per field, in declaration order.
pub fn make_field_calls(fields: &Vec<DebugField>) -> (r: Vec<DebugFieldCall>)
    ensures
        r.deep_view() == spec_field_calls(fields.deep_view()),
{
    let mut out: Vec<DebugFieldCall> = Vec::new();
    let mut i: usize = 0;
    while i < fields.len()
        invariant
            i <= fields@.len(),
            out@.len() == i as int,
            forall|j: int|
                0 <= j < i as int ==> out.deep_view()[j] == spec_field_call_of(
                    #[trigger] fields.deep_view()[j],
                ),
        decreases fields@.len() - i,
    {
        let f = &fields[i];
        let fmt = match &f.fmt_arg {
            Some(p) => Some(p.clone()),
            None => None,
        };
        out.push(DebugFieldCall { label: f.name.clone(), fmt });
        i = i + 1;
    }
    proof {
        assert(out.deep_view() =~= spec_field_calls(fields.deep_view()));
    }
    out
}

/// The constraint clause: an explicit override is emitted verbatim — all or
/// nothing, never merged, even when empty — and only in its absence does
/// the inferred used-parameter set decide, one debug bound per used
/// parameter, in the record's declared parameter order.
pub open spec fn spec_constraints(
    override_list: Option<Seq<Seq<char>>>,
    generics: Seq<Seq<char>>,
    fields: Seq<FieldDescriptorV>,
) -> Seq<ConstraintV> {
    match override_list {
        Some(cs) => cs.map_values(|c: Seq<char>| ConstraintV::Custom(c)),
        None => spec_used_params(generics, fields, seq![marker_head()]).map_values(
            |p: Seq<char>| ConstraintV::DebugBound(p),
        ),
    }
}

/// An explicit constraint override is emitted verbatim as the whole clause
/// — one constraint per supplied entry, in order, regardless of what the
/// visitor would have inferred, even when the override is empty. It is all
/// or nothing: nothing inferred is ever merged in.
pub proof fn lemma_override_emitted_verbatim(
    override_list: Seq<Seq<char>>,
    generics: Seq<Seq<char>>,
    fields: Seq<FieldDescriptorV>,
)
    ensures
        spec_constraints(Some(override_list), generics, fields) == override_list.map_values(
            |c: Seq<char>| ConstraintV::Custom(c),
        ),
        spec_constraints(Some(override_list), generics, fields).len() == override_list.len(),
        forall|i: int|
            0 <= i < override_list.len() ==> spec_constraints(
                Some(override_list),
                generics,
                fields,
            )[i] == ConstraintV::Custom(override_list[i]),
{
}

/// The dump fragment a record derives to, or the error derivation fails
/// with: a record that is not a plain list of named fields is refused at
/// its own span; a malformed record-level debug annotation fails next; then
/// the fields' own annotations decide.
pub open spec fn spec_expand_debug(r: RecordDescriptorV) -> Result<DebugFragmentV, DeriveErrorV> {
    match r.shape {
        RecordShapeV::Other => Err(DeriveErrorV::UnsupportedShape { span: r.span }),
        RecordShapeV::Named(fields) => match spec_collect_bounds(r.annotations) {
            Err(sp) => Err(
                DeriveErrorV::UnsupportedAttribute { span: sp, expected: bound_expected_form() },
            ),
            Ok(ob) => match spec_debug_fields(fields) {
                Err(e) => Err(e),
                Ok(ds) => Ok(
                    DebugFragmentV {
                        record_name: r.name,
                        constraints: spec_constraints(ob, r.generics, fields),
                        field_calls: spec_field_calls(ds),
                    },
                ),
            },
        },
    }
}

/// Derive the dump fragment for one record.
pub fn expand(record: &RecordDescriptor) -> (r: Result<DebugFragment, DeriveError>)
    ensures
        (r is Ok) == (spec_expand_debug(record.deep_view()) is Ok),
        r matches Ok(f) ==> spec_expand_debug(record.deep_view()) matches Ok(fv) && f.deep_view()
            == fv,
        r matches Err(e) ==> spec_expand_debug(record.deep_view()) matches Err(ev)
            && e.deep_view() == ev,
{
    let fields = match &record.shape {
        RecordShape::Other => {
            return Err(DeriveError::UnsupportedShape { span: record.span });
        },
        RecordShape::Named(fields) => fields,
    };
    let override_list = match custom_clauses(&record.annotations) {
        Err(e) => {
            return Err(e);
        },
        Ok(o) => o,
    };
    let ds = match debug_fields(fields) {
        Err(e) => {
            return Err(e);
        },
        Ok(ds) => ds,
    };
    let mut constraints: Vec<Constraint> = Vec::new();
    match override_list {
        Some(cs) => {
            let mut i: usize = 0;
            while i < cs.len()
                invariant
                    i <= cs@.len(),
                    constraints@.len() == i as int,
                    forall|j: int|
                        0 <= j < i as int ==> constraints.deep_view()[j] == ConstraintV::Custom(
                            #[trigger] cs.deep_view()[j],
                        ),
                decreases cs@.len() - i,
            {
                constraints.push(Constraint::Custom(cs[i].clone()));
                i = i + 1;
            }
            proof {
                assert(constraints.deep_view() =~= cs.deep_view().map_values(
                    |c: Seq<char>| ConstraintV::Custom(c),
                ));
            }
        },
        None => {
            let markers = crate::generics::default_markers();
            let used = used_type_params(&record.generics, fields, &markers);
            let mut i: usize = 0;
            while i < used.len()
                invariant
                    i <= used@.len(),
                    constraints@.len() == i as int,
                    forall|j: int|
                        0 <= j < i as int ==> constraints.deep_view()[j]
                            == ConstraintV::DebugBound(#[trigger] used.deep_view()[j]),
                decreases used@.len() - i,
            {
                constraints.push(Constraint::DebugBound(used[i].clone()));
                i = i + 1;
            }
            proof {
                assert(constraints.deep_view() =~= used.deep_view().map_values(
                    |p: Seq<char>| ConstraintV::DebugBound(p),
                ));
            }
        },
    }
    let field_calls = make_field_calls(&ds);
    Ok(
        DebugFragment { record_name: record.name.clone(), constraints, field_calls },
    )
}

} // verus!
