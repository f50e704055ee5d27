//! The builder synthesizer: from a record's classified fields it emits the
//! abstract fragment of a companion builder type — storage slots, an
//! initializer, setters, and a finalize operation with required-field
//! validation. The fragment is abstract code: the back-end renderer turns it
//! into concrete syntax.
use crate::classify::{
    accumulator_head, spec_classify_fields, classify_fields, ClassifiedField, ClassifiedFieldV,
    FieldShape, FieldShapeV,
};
use crate::descriptor::{
    DeriveError, DeriveErrorV, RecordDescriptor, RecordDescriptorV, RecordShape, RecordShapeV,
    TypeExpr, TypeExprV,
};
use vstd::prelude::*;
use vstd::string::StringExecFns;

verus! {

/// The storage slot a builder keeps for one field.
#[derive(Debug, PartialEq)]
pub enum StorageTy {
    /// An optional slot over the carried type, absent initially. Used both
    /// for plain fields (over the declared type) and for optional fields
    /// (over the unwrapped inner type, which re-forms the field's own
    /// optional-wrapper type).
    OptionOf(TypeExpr),
    /// The accumulator type over the carried element type, empty initially.
    Accumulator(TypeExpr),
}

/// Spec-level model of a `StorageTy`.
#[verifier::ext_equal]
pub enum StorageTyV {
    OptionOf(TypeExprV),
    Accumulator(TypeExprV),
}

impl DeepView for StorageTy {
    type V = StorageTyV;

    open spec fn deep_view(&self) -> StorageTyV {
        match self {
            StorageTy::OptionOf(t) => StorageTyV::OptionOf(t.deep_view()),
            StorageTy::Accumulator(t) => StorageTyV::Accumulator(t.deep_view()),
        }
    }
}

/// One storage-field declaration of the builder type.
#[derive(Debug, PartialEq)]
pub struct StorageField {
    pub name: String,
    pub ty: StorageTy,
}

/// Spec-level model of a `StorageField`.
#[verifier::ext_equal]
pub struct StorageFieldV {
    pub name: Seq<char>,
    pub ty: StorageTyV,
}

impl DeepView for StorageField {
    type V = StorageFieldV;

    open spec fn deep_view(&self) -> StorageFieldV {
        StorageFieldV { name: self.name@, ty: self.ty.deep_view() }
    }
}

/// How the initializer fills one slot.
#[derive(Debug, PartialEq, Eq, Structural, Clone, Copy)]
pub enum InitKind {
    /// The slot starts absent.
    Absent,
    /// The slot starts as an empty accumulator.
    EmptyAccumulator,
}

/// One field of the builder's initializer.
#[derive(Debug, PartialEq)]
pub struct InitField {
    pub name: String,
    pub init: InitKind,
}

/// Spec-level model of an `InitField`.
#[verifier::ext_equal]
pub struct InitFieldV {
    pub name: Seq<char>,
    pub init: InitKind,
}

impl DeepView for InitField {
    type V = InitFieldV;

    open spec fn deep_view(&self) -> InitFieldV {
        InitFieldV { name: self.name@, init: self.init }
    }
}

/// What a setter's body does to its field's slot.
#[derive(Debug, PartialEq, Eq, Structural, Clone, Copy)]
pub enum SetterKind {
    /// Overwrite the optional slot with the given value.
    SetSlot,
    /// Overwrite the whole accumulator with the given container.
    SetContainer,
    /// Append one element to the accumulator.
    AppendElem,
}

/// One setter declaration: a method that takes one argument of `arg_type`,
/// updates the slot of `field`, and returns a mutable self-reference for
/// chaining.
#[derive(Debug, PartialEq)]
pub struct SetterDecl {
    pub method: String,
    pub field: String,
    pub arg_type: TypeExpr,
    pub kind: SetterKind,
}

/// Spec-level model of a `SetterDecl`.
#[verifier::ext_equal]
pub struct SetterDeclV {
    pub method: Seq<char>,
    pub field: Seq<char>,
    pub arg_type: TypeExprV,
    pub kind: SetterKind,
}

impl DeepView for SetterDecl {
    type V = SetterDeclV;

    open spec fn deep_view(&self) -> SetterDeclV {
        SetterDeclV {
            method: self.method@,
            field: self.field@,
            arg_type: self.arg_type.deep_view(),
            kind: self.kind,
        }
    }
}

/// How finalize moves one field out of the builder and into the record.
#[derive(Debug, PartialEq, Eq, Structural, Clone, Copy)]
pub enum AssignKind {
    /// The validated value of a plain field; the slot is consumed.
    TakeRequired,
    /// The current slot of an optional field, as-is; the slot is consumed.
    TakeOptional,
    /// The accumulated contents of a repeated field; the slot is reset to
    /// empty.
    TakeAccumulated,
}

/// One field assignment of the finalize operation.
#[derive(Debug, PartialEq)]
pub struct AssignField {
    pub field: String,
    pub kind: AssignKind,
}

/// Spec-level model of an `AssignField`.
#[verifier::ext_equal]
pub struct AssignFieldV {
    pub field: Seq<char>,
    pub kind: AssignKind,
}

impl DeepView for AssignField {
    type V = AssignFieldV;

    open spec fn deep_view(&self) -> AssignFieldV {
        AssignFieldV { field: self.field@, kind: self.kind }
    }
}

/// The finalize operation: check each required field in declaration order,
/// failing fast on the first absent one, then construct the record.
#[derive(Debug, PartialEq)]
pub struct FinalizeDecl {
    pub record_name: String,
    /// The plain fields' names, in declaration order; finalize fails with a
    /// missing-field error naming the first of these whose slot is absent.
    pub required: Vec<String>,
    pub assigns: Vec<AssignField>,
}

/// Spec-level model of a `FinalizeDecl`.
#[verifier::ext_equal]
pub struct FinalizeDeclV {
    pub record_name: Seq<char>,
    pub required: Seq<Seq<char>>,
    pub assigns: Seq<AssignFieldV>,
}

impl DeepView for FinalizeDecl {
    type V = FinalizeDeclV;

    open spec fn deep_view(&self) -> FinalizeDeclV {
        FinalizeDeclV {
            record_name: self.record_name@,
            required: self.required.deep_view(),
            assigns: self.assigns.deep_view(),
        }
    }
}

/// The whole emitted builder fragment.
#[derive(Debug, PartialEq)]
pub struct BuilderFragment {
    pub record_name: String,
    pub builder_name: String,
    pub storage: Vec<StorageField>,
    pub initializer: Vec<InitField>,
    pub setters: Vec<SetterDecl>,
    pub finalize: FinalizeDecl,
}

/// Spec-level model of a `BuilderFragment`.
#[verifier::ext_equal]
pub struct BuilderFragmentV {
    pub record_name: Seq<char>,
    pub builder_name: Seq<char>,
    pub storage: Seq<StorageFieldV>,
    pub initializer: Seq<InitFieldV>,
    pub setters: Seq<SetterDeclV>,
    pub finalize: FinalizeDeclV,
}

impl DeepView for BuilderFragment {
    type V = BuilderFragmentV;

    open spec fn deep_view(&self) -> BuilderFragmentV {
        BuilderFragmentV {
            record_name: self.record_name@,
            builder_name: self.builder_name@,
            storage: self.storage.deep_view(),
            initializer: self.initializer.deep_view(),
            setters: self.setters.deep_view(),
            finalize: self.finalize.deep_view(),
        }
    }
}

/// The storage slot one classified field gets.
pub open spec fn spec_storage_of(c: ClassifiedFieldV) -> StorageFieldV {
    match c.shape {
        FieldShapeV::Plain(t) => StorageFieldV { name: c.name, ty: StorageTyV::OptionOf(t) },
        FieldShapeV::Optional(t) => StorageFieldV { name: c.name, ty: StorageTyV::OptionOf(t) },
        FieldShapeV::Repeated(_, e) => StorageFieldV { name: c.name, ty: StorageTyV::Accumulator(e) },
    }
}

/// The storage-field list: one slot per field, in declaration order.
pub open spec fn spec_storage(fields: Seq<ClassifiedFieldV>) -> Seq<StorageFieldV> {
    Seq::new(fields.len(), |i: int| spec_storage_of(fields[i]))
}

/// The initializer entry one classified field gets.
pub open spec fn spec_initializer_of(c: ClassifiedFieldV) -> InitFieldV {
    match c.shape {
        FieldShapeV::Repeated(_, _) => InitFieldV { name: c.name, init: InitKind::EmptyAccumulator },
        _ => InitFieldV { name: c.name, init: InitKind::Absent },
    }
}

/// The initializer: every slot starts absent, accumulators start empty.
pub open spec fn spec_initializer(fields: Seq<ClassifiedFieldV>) -> Seq<InitFieldV> {
    Seq::new(fields.len(), |i: int| spec_initializer_of(fields[i]))
}

/// Whether the accumulation method name of field `i` collides with another
/// field's own name somewhere else in the record.
pub open spec fn spec_name_collides(fields: Seq<ClassifiedFieldV>, m: Seq<char>, i: int) -> bool {
    exists|j: int| 0 <= j < fields.len() && j != i && fields[j].name == m
}

/// The setters emitted for field `i`. A plain or optional field gets one
/// setter named after the field, over the declared (respectively unwrapped)
/// value type. A repeated field always gets the one-at-a-time setter under
/// its accumulation method name; it also gets a whole-container setter named
/// after the field, unless that would collide — with its own accumulation
/// method name, or with any other field's name — in which case only the
/// one-at-a-time setter survives.
pub open spec fn spec_setters_of(fields: Seq<ClassifiedFieldV>, i: int) -> Seq<SetterDeclV> {
    let c = fields[i];
    match c.shape {
        FieldShapeV::Plain(t) => seq![
            SetterDeclV { method: c.name, field: c.name, arg_type: t, kind: SetterKind::SetSlot },
        ],
        FieldShapeV::Optional(t) => seq![
            SetterDeclV { method: c.name, field: c.name, arg_type: t, kind: SetterKind::SetSlot },
        ],
        FieldShapeV::Repeated(m, e) => {
            let single = SetterDeclV {
                method: m,
                field: c.name,
                arg_type: e,
                kind: SetterKind::AppendElem,
            };
            if m == c.name || spec_name_collides(fields, m, i) {
                seq![single]
            } else {
                let whole = SetterDeclV {
                    method: c.name,
                    field: c.name,
                    arg_type: TypeExprV { head: accumulator_head(), args: seq![e] },
                    kind: SetterKind::SetContainer,
                };
                seq![whole, single]
            }
        },
    }
}

/// The setters of the first `n` fields, concatenated in declaration order.
pub open spec fn spec_setters_up_to(fields: Seq<ClassifiedFieldV>, n: int) -> Seq<SetterDeclV>
    decreases n,
{
    if n <= 0 {
        Seq::empty()
    } else {
        spec_setters_up_to(fields, n - 1) + spec_setters_of(fields, n - 1)
    }
}

/// All setters of the record.
pub open spec fn spec_setters(fields: Seq<ClassifiedFieldV>) -> Seq<SetterDeclV> {
    spec_setters_up_to(fields, fields.len() as int)
}

/// When a repeated field's accumulation method name equals the field's own
/// name — or collides with any other field's name — no whole-container
/// setter is emitted for that field: its entire emitted surface is the one
/// one-at-a-time appender, so a caller cannot set the container wholesale.
pub proof fn lemma_no_whole_setter_on_collision(fields: Seq<ClassifiedFieldV>, i: int)
    requires
        0 <= i < fields.len(),
        fields[i].shape is Repeated,
        fields[i].shape->Repeated_0 == fields[i].name || spec_name_collides(
            fields,
            fields[i].shape->Repeated_0,
            i,
        ),
    ensures
        spec_setters_of(fields, i) == seq![
            SetterDeclV {
                method: fields[i].shape->Repeated_0,
                field: fields[i].name,
                arg_type: fields[i].shape->Repeated_1,
                kind: SetterKind::AppendElem,
            },
        ],
{
}

/// When the names do not collide, both setters are emitted: the
/// whole-container setter under the field's name, then the one-at-a-time
/// appender under the accumulation method name.
pub proof fn lemma_both_setters_without_collision(fields: Seq<ClassifiedFieldV>, i: int)
    requires
        0 <= i < fields.len(),
        fields[i].shape is Repeated,
        fields[i].shape->Repeated_0 != fields[i].name,
        !spec_name_collides(fields, fields[i].shape->Repeated_0, i),
    ensures
        spec_setters_of(fields, i) == seq![
            SetterDeclV {
                method: fields[i].name,
                field: fields[i].name,
                arg_type: TypeExprV {
                    head: accumulator_head(),
                    args: seq![fields[i].shape->Repeated_1],
                },
                kind: SetterKind::SetContainer,
            },
            SetterDeclV {
                method: fields[i].shape->Repeated_0,
                field: fields[i].name,
                arg_type: fields[i].shape->Repeated_1,
                kind: SetterKind::AppendElem,
            },
        ],
{
}

/// The names of the plain (required) fields, in declaration order.
pub open spec fn spec_required(fields: Seq<ClassifiedFieldV>) -> Seq<Seq<char>>
    decreases fields.len(),
{
    if fields.len() == 0 {
        Seq::empty()
    } else {
        let pre = spec_required(fields.subrange(0, fields.len() - 1));
        if fields[fields.len() - 1].shape is Plain {
            pre.push(fields[fields.len() - 1].name)
        } else {
            pre
        }
    }
}

/// The finalize assignment one field gets.
pub open spec fn spec_assign_of(c: ClassifiedFieldV) -> AssignFieldV {
    match c.shape {
        FieldShapeV::Plain(_) => AssignFieldV { field: c.name, kind: AssignKind::TakeRequired },
        FieldShapeV::Optional(_) => AssignFieldV { field: c.name, kind: AssignKind::TakeOptional },
        FieldShapeV::Repeated(_, _) => AssignFieldV {
            field: c.name,
            kind: AssignKind::TakeAccumulated,
        },
    }
}

/// The finalize assignments, one per field, in declaration order.
pub open spec fn spec_assigns(fields: Seq<ClassifiedFieldV>) -> Seq<AssignFieldV> {
    Seq::new(fields.len(), |i: int| spec_assign_of(fields[i]))
}

/// Emit the builder's storage-field declarations: one slot per field.
pub fn make_storage(fields: &Vec<ClassifiedField>) -> (r: Vec<StorageField>)
    ensures
        r.deep_view() == spec_storage(fields.deep_view()),
{
    let mut out: Vec<StorageField> = Vec::new();
    let mut i: usize = 0;
    while i < fields.len()
        invariant
            i <= fields@.len(),
            out@.len() == i as int,
            forall|j: int|
                0 <= j < i as int ==> out.deep_view()[j] == spec_storage_of(
                    #[trigger] fields.deep_view()[j],
                ),
        decreases fields@.len() - i,
    {
        let f = &fields[i];
        let ty = match &f.shape {
            FieldShape::Plain(t) => StorageTy::OptionOf(t.clone()),
            FieldShape::Optional(t) => StorageTy::OptionOf(t.clone()),
            FieldShape::Repeated(_, e) => StorageTy::Accumulator(e.clone()),
        };
        out.push(StorageField { name: f.name.clone(), ty });
        i = i + 1;
    }
    proof {
        assert(out.deep_view() =~= spec_storage(fields.deep_view()));
    }
    out
}

/// Emit the builder's initializer: absent slots, empty accumulators.
pub fn make_initializer(fields: &Vec<ClassifiedField>) -> (r: Vec<InitField>)
    ensures
        r.deep_view() == spec_initializer(fields.deep_view()),
{
    let mut out: Vec<InitField> = Vec::new();
    let mut i: usize = 0;
    while i < fields.len()
        invariant
            i <= fields@.len(),
            out@.len() == i as int,
            forall|j: int|
                0 <= j < i as int ==> out.deep_view()[j] == spec_initializer_of(
                    #[trigger] fields.deep_view()[j],
                ),
        decreases fields@.len() - i,
    {
        let f = &fields[i];
        let init = match &f.shape {
            FieldShape::Repeated(_, _) => InitKind::EmptyAccumulator,
            _ => InitKind::Absent,
        };
        out.push(InitField { name: f.name.clone(), init });
        i = i + 1;
    }
    proof {
        assert(out.deep_view() =~= spec_initializer(fields.deep_view()));
    }
    out
}

/// Whether `m` equals the name of any field other than field `i`.
fn name_collides(fields: &Vec<ClassifiedField>, m: &String, i: usize) -> (r: bool)
    ensures
        r == spec_name_collides(fields.deep_view(), m@, i as int),
{
    let mut j: usize = 0;
    while j < fields.len()
        invariant
            j <= fields@.len(),
            forall|k: int|
                0 <= k < j as int && k != i as int ==> (#[trigger] fields.deep_view()[k]).name
                    != m@,
        decreases fields@.len() - j,
    {
        if j != i && fields[j].name == *m {
            assert(fields.deep_view()[j as int].name == m@);
            return true;
        }
        j = j + 1;
    }
    false
}

/// Emit the setters for all fields, in declaration order.
pub fn make_setters(fields: &Vec<ClassifiedField>) -> (r: Vec<SetterDecl>)
    ensures
        r.deep_view() == spec_setters(fields.deep_view()),
{
    let mut out: Vec<SetterDecl> = Vec::new();
    proof {
        assert(out.deep_view() =~= spec_setters_up_to(fields.deep_view(), 0));
    }
    let mut i: usize = 0;
    while i < fields.len()
        invariant
            i <= fields@.len(),
            out.deep_view() == spec_setters_up_to(fields.deep_view(), i as int),
        decreases fields@.len() - i,
    {
        let ghost prev = out.deep_view();
        let f = &fields[i];
        match &f.shape {
            FieldShape::Plain(t) => {
                out.push(
                    SetterDecl {
                        method: f.name.clone(),
                        field: f.name.clone(),
                        arg_type: t.clone(),
                        kind: SetterKind::SetSlot,
                    },
                );
            },
            FieldShape::Optional(t) => {
                out.push(
                    SetterDecl {
                        method: f.name.clone(),
                        field: f.name.clone(),
                        arg_type: t.clone(),
                        kind: SetterKind::SetSlot,
                    },
                );
            },
            FieldShape::Repeated(m, e) => {
                if !(*m == f.name) && !name_collides(fields, m, i) {
                    let mut args: Vec<TypeExpr> = Vec::new();
                    args.push(e.clone());
                    let whole_ty = TypeExpr { head: String::from_str("Vec"), args };
                    proof {
                        crate::descriptor::lemma_deep_view_args(whole_ty.args@);
                        assert(whole_ty.deep_view().args =~= seq![e.deep_view()]);
                    }
                    out.push(
                        SetterDecl {
                            method: f.name.clone(),
                            field: f.name.clone(),
                            arg_type: whole_ty,
                            kind: SetterKind::SetContainer,
                        },
                    );
                }
                out.push(
                    SetterDecl {
                        method: m.clone(),
                        field: f.name.clone(),
                        arg_type: e.clone(),
                        kind: SetterKind::AppendElem,
                    },
                );
            },
        }
        proof {
            assert(fields.deep_view()[i as int] == fields@[i as int].deep_view());
            assert(out.deep_view() =~= prev + spec_setters_of(fields.deep_view(), i as int));
        }
        i = i + 1;
    }
    out
}

/// Emit the finalize operation: required-field checks in declaration order,
/// then the record's field assignments.
pub fn make_buildfn(record_name: &String, fields: &Vec<ClassifiedField>) -> (r: FinalizeDecl)
    ensures
        r.deep_view() == (FinalizeDeclV {
            record_name: record_name@,
            required: spec_required(fields.deep_view()),
            assigns: spec_assigns(fields.deep_view()),
        }),
{
    let mut required: Vec<String> = Vec::new();
    let mut assigns: Vec<AssignField> = Vec::new();
    proof {
        assert(fields.deep_view().subrange(0, 0) =~= Seq::<ClassifiedFieldV>::empty());
        assert(required.deep_view() =~= spec_required(fields.deep_view().subrange(0, 0)));
    }
    let mut i: usize = 0;
    while i < fields.len()
        invariant
            i <= fields@.len(),
            required.deep_view() == spec_required(fields.deep_view().subrange(0, i as int)),
            assigns@.len() == i as int,
            forall|j: int|
                0 <= j < i as int ==> assigns.deep_view()[j] == spec_assign_of(
                    #[trigger] fields.deep_view()[j],
                ),
        decreases fields@.len() - i,
    {
        let ghost prevr = required.deep_view();
        let f = &fields[i];
        proof {
            assert(fields.deep_view().subrange(0, i + 1 as int).subrange(0, i as int)
                =~= fields.deep_view().subrange(0, i as int));
            assert(fields.deep_view().subrange(0, i + 1 as int)[i as int] == f.deep_view());
        }
        let kind = match &f.shape {
            FieldShape::Plain(_) => {
                required.push(f.name.clone());
                proof {
                    assert(required.deep_view() =~= prevr.push(f.name@));
                }
                AssignKind::TakeRequired
            },
            FieldShape::Optional(_) => AssignKind::TakeOptional,
            FieldShape::Repeated(_, _) => AssignKind::TakeAccumulated,
        };
        assigns.push(AssignField { field: f.name.clone(), kind });
        i = i + 1;
    }
    proof {
        assert(fields.deep_view().subrange(0, fields@.len() as int) =~= fields.deep_view());
        assert(assigns.deep_view() =~= spec_assigns(fields.deep_view()));
    }
    FinalizeDecl { record_name: record_name.clone(), required, assigns }
}

/// The builder fragment a record derives to, or the error derivation fails
/// with: a record that is not a plain list of named fields is refused at its
/// own span; otherwise classification decides, and on success every part of
/// the fragment is determined by the classified fields.
pub open spec fn spec_expand_builder(r: RecordDescriptorV) -> Result<
    BuilderFragmentV,
    DeriveErrorV,
> {
    match r.shape {
        RecordShapeV::Other => Err(DeriveErrorV::UnsupportedShape { span: r.span }),
        RecordShapeV::Named(fields) => match spec_classify_fields(fields) {
            Err(e) => Err(e),
            Ok(cs) => Ok(
                BuilderFragmentV {
                    record_name: r.name,
                    builder_name: r.name + "Builder"@,
                    storage: spec_storage(cs),
                    initializer: spec_initializer(cs),
                    setters: spec_setters(cs),
                    finalize: FinalizeDeclV {
                        record_name: r.name,
                        required: spec_required(cs),
                        assigns: spec_assigns(cs),
                    },
                },
            ),
        },
    }
}

/// Derive the builder fragment for one record.
pub fn expand(record: &RecordDescriptor) -> (r: Result<BuilderFragment, DeriveError>)
    ensures
        (r is Ok) == (spec_expand_builder(record.deep_view()) is Ok),
        r matches Ok(f) ==> spec_expand_builder(record.deep_view()) matches Ok(fv)
            && f.deep_view() == fv,
        r matches Err(e) ==> spec_expand_builder(record.deep_view()) matches Err(ev)
            && e.deep_view() == ev,
{
    let fields = match &record.shape {
        RecordShape::Other => {
            return Err(DeriveError::UnsupportedShape { span: record.span });
        },
        RecordShape::Named(fields) => fields,
    };
    let classified = match classify_fields(fields) {
        Err(e) => {
            return Err(e);
        },
        Ok(cs) => cs,
    };
    let storage = make_storage(&classified);
    let initializer = make_initializer(&classified);
    let setters = make_setters(&classified);
    let finalize = make_buildfn(&record.name, &classified);
    let builder_name = record.name.clone().concat("Builder");
    Ok(
        BuilderFragment {
            record_name: record.name.clone(),
            builder_name,
            storage,
            initializer,
            setters,
            finalize,
        },
    )
}

} // verus!
