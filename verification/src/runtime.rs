//! The run-time semantics of a synthesized builder: storage slots that
//! start absent (or empty, for accumulators), setters that overwrite or
//! append, and a consuming finalize that validates required fields in
//! declaration order, fails fast naming the first absent one, and moves the
//! accumulated values out.
use crate::classify::{ClassifiedField, ClassifiedFieldV, FieldShape, FieldShapeV};
use vstd::prelude::*;
use vstd::string::StringExecFns;

verus! {

/// The finalize-time error: a required field was never supplied. Unlike
/// derivation-time errors this is an ordinary recoverable result value.
#[derive(Debug, PartialEq)]
pub struct MissingFieldError {
    pub field: String,
}

/// Spec-level model of a `MissingFieldError`.
#[verifier::ext_equal]
pub struct MissingFieldErrorV {
    pub field: Seq<char>,
}

impl DeepView for MissingFieldError {
    type V = MissingFieldErrorV;

    open spec fn deep_view(&self) -> MissingFieldErrorV {
        MissingFieldErrorV { field: self.field@ }
    }
}

impl MissingFieldError {
    /// The diagnostic text of the error.
    pub fn message(&self) -> (m: String)
        ensures
            m@ == "value is not set: "@ + self.field@,
    {
        String::from_str("value is not set: ").concat(self.field.as_str())
    }
}

/// One storage slot of a running builder.
#[derive(Debug, PartialEq)]
pub enum Slot<T> {
    /// A required field's slot: absent until set, consumed by finalize.
    Plain(Option<T>),
    /// An optional field's slot: may stay absent, consumed by finalize.
    Optional(Option<T>),
    /// A repeated field's accumulator: starts empty, reset by finalize.
    Repeated(Vec<T>),
}

/// Spec-level model of a `Slot`.
#[verifier::ext_equal]
pub enum SlotV<T> {
    Plain(Option<T>),
    Optional(Option<T>),
    Repeated(Seq<T>),
}

/// The spec-level value of one slot.
pub open spec fn slot_view<T>(s: Slot<T>) -> SlotV<T> {
    match s {
        Slot::Plain(o) => SlotV::Plain(o),
        Slot::Optional(o) => SlotV::Optional(o),
        Slot::Repeated(v) => SlotV::Repeated(v@),
    }
}

/// The spec-level value of a slot list.
pub open spec fn slots_view<T>(slots: Seq<Slot<T>>) -> Seq<SlotV<T>> {
    Seq::new(slots.len(), |i: int| slot_view(slots[i]))
}

/// One field's value in the finalized record.
#[derive(Debug, PartialEq)]
pub enum FieldValue<T> {
    /// A required field's validated value.
    Single(T),
    /// An optional field's value, as it stood.
    Maybe(Option<T>),
    /// A repeated field's accumulated elements, in the order they were
    /// appended.
    Collected(Vec<T>),
}

/// Spec-level model of a `FieldValue`.
#[verifier::ext_equal]
pub enum FieldValueV<T> {
    Single(T),
    Maybe(Option<T>),
    Collected(Seq<T>),
}

/// The spec-level value of one output field.
pub open spec fn field_value_view<T>(v: FieldValue<T>) -> FieldValueV<T> {
    match v {
        FieldValue::Single(t) => FieldValueV::Single(t),
        FieldValue::Maybe(o) => FieldValueV::Maybe(o),
        FieldValue::Collected(vs) => FieldValueV::Collected(vs@),
    }
}

/// The spec-level value of an output list.
pub open spec fn field_values_view<T>(vs: Seq<FieldValue<T>>) -> Seq<FieldValueV<T>> {
    Seq::new(vs.len(), |i: int| field_value_view(vs[i]))
}

/// A running builder for a classified record: one named slot per field, in
/// declaration order.
#[derive(Debug)]
pub struct BuilderState<T> {
    pub names: Vec<String>,
    pub slots: Vec<Slot<T>>,
}

/// Spec-level model of a `BuilderState`.
#[verifier::ext_equal]
pub struct BuilderStateV<T> {
    pub names: Seq<Seq<char>>,
    pub slots: Seq<SlotV<T>>,
}

impl<T> View for BuilderState<T> {
    type V = BuilderStateV<T>;

    open spec fn view(&self) -> BuilderStateV<T> {
        BuilderStateV { names: self.names.deep_view(), slots: slots_view(self.slots@) }
    }
}

impl<T> BuilderState<T> {
    /// One slot per field, names and slots in step.
    pub open spec fn wf(&self) -> bool {
        self@.names.len() == self@.slots.len()
    }
}

/// The slot a classified field starts with.
pub open spec fn spec_initial_slot<T>(shape: FieldShapeV) -> SlotV<T> {
    match shape {
        FieldShapeV::Plain(_) => SlotV::Plain(None),
        FieldShapeV::Optional(_) => SlotV::Optional(None),
        FieldShapeV::Repeated(_, _) => SlotV::Repeated(Seq::empty()),
    }
}

/// The slots a fresh builder starts with: absent, or empty for
/// accumulators.
pub open spec fn spec_initial_slots<T>(fields: Seq<ClassifiedFieldV>) -> Seq<SlotV<T>> {
    Seq::new(fields.len(), |i: int| spec_initial_slot(fields[i].shape))
}

/// A fresh builder for a classified record.
pub fn new_builder<T>(fields: &Vec<ClassifiedField>) -> (r: BuilderState<T>)
    ensures
        r.wf(),
        r@.names == fields.deep_view().map_values(|c: ClassifiedFieldV| c.name),
        r@.slots == spec_initial_slots::<T>(fields.deep_view()),
{
    let mut names: Vec<String> = Vec::new();
    let mut slots: Vec<Slot<T>> = Vec::new();
    let mut i: usize = 0;
    while i < fields.len()
        invariant
            i <= fields@.len(),
            names@.len() == i as int,
            slots@.len() == i as int,
            forall|j: int| 0 <= j < i as int ==> names.deep_view()[j] == (
            #[trigger] fields.deep_view()[j]).name,
            forall|j: int|
                0 <= j < i as int ==> slot_view(slots@[j]) == spec_initial_slot::<T>(
                    (#[trigger] fields.deep_view()[j]).shape,
                ),
        decreases fields@.len() - i,
    {
        let f = &fields[i];
        names.push(f.name.clone());
        let slot = match &f.shape {
            FieldShape::Plain(_) => Slot::Plain(None),
            FieldShape::Optional(_) => Slot::Optional(None),
            FieldShape::Repeated(_, _) => Slot::Repeated(Vec::new()),
        };
        slots.push(slot);
        i = i + 1;
    }
    let r = BuilderState { names, slots };
    proof {
        assert(r@.names =~= fields.deep_view().map_values(|c: ClassifiedFieldV| c.name));
        assert(r@.slots =~= spec_initial_slots::<T>(fields.deep_view()));
    }
    r
}

/// What a set operation leaves in a plain or optional slot.
pub open spec fn spec_set_slot<T>(s: SlotV<T>, v: T) -> SlotV<T> {
    match s {
        SlotV::Plain(_) => SlotV::Plain(Some(v)),
        SlotV::Optional(_) => SlotV::Optional(Some(v)),
        SlotV::Repeated(vs) => SlotV::Repeated(vs),
    }
}

impl<T> BuilderState<T> {
    /// The setter of a plain or optional field: overwrite the slot with the
    /// given value. Every other slot is untouched.
    pub fn set(&mut self, i: usize, v: T)
        requires
            old(self).wf(),
            i < old(self)@.slots.len(),
            !(old(self)@.slots[i as int] is Repeated),
        ensures
            final(self).wf(),
            final(self)@.names == old(self)@.names,
            final(self)@.slots == old(self)@.slots.update(
                i as int,
                spec_set_slot(old(self)@.slots[i as int], v),
            ),
    {
        let slot = match &self.slots[i] {
            Slot::Plain(_) => Slot::Plain(Some(v)),
            Slot::Optional(_) => Slot::Optional(Some(v)),
            Slot::Repeated(_) => Slot::Plain(Some(v)),
        };
        self.slots.set(i, slot);
        proof {
            assert(self@.slots =~= old(self)@.slots.update(
                i as int,
                spec_set_slot(old(self)@.slots[i as int], v),
            ));
        }
    }

    /// The one-at-a-time setter of a repeated field: append one element to
    /// the accumulator, keeping the order of calls. Every other slot is
    /// untouched.
    pub fn append(&mut self, i: usize, v: T)
        requires
            old(self).wf(),
            i < old(self)@.slots.len(),
            old(self)@.slots[i as int] is Repeated,
        ensures
            final(self).wf(),
            final(self)@.names == old(self)@.names,
            final(self)@.slots == old(self)@.slots.update(
                i as int,
                SlotV::Repeated(old(self)@.slots[i as int]->Repeated_0.push(v)),
            ),
    {
        match &mut self.slots[i] {
            Slot::Repeated(vs) => {
                vs.push(v);
            },
            _ => {
                proof {
                    assert(false);
                }
            },
        }
        proof {
            assert(self@.slots =~= old(self)@.slots.update(
                i as int,
                SlotV::Repeated(old(self)@.slots[i as int]->Repeated_0.push(v)),
            ));
        }
    }
}

/// Whether some required slot is still absent.
pub open spec fn spec_has_missing<T>(slots: Seq<SlotV<T>>) -> bool {
    exists|i: int| 0 <= i < slots.len() && slots[i] == SlotV::<T>::Plain(None)
}

/// The first index at or after `i` whose required slot is absent, or the
/// length when there is none.
pub open spec fn spec_first_missing_from<T>(slots: Seq<SlotV<T>>, i: int) -> int
    decreases slots.len() - i,
{
    if i < 0 || i >= slots.len() {
        slots.len() as int
    } else if slots[i] == SlotV::<T>::Plain(None) {
        i
    } else {
        spec_first_missing_from(slots, i + 1)
    }
}

/// The first absent required slot, in declaration order.
pub open spec fn spec_first_missing<T>(slots: Seq<SlotV<T>>) -> int {
    spec_first_missing_from(slots, 0)
}

/// What finalize leaves behind on failure: every required slot before the
/// first absent one has been taken, everything else is untouched.
pub open spec fn spec_cleared_up_to<T>(slots: Seq<SlotV<T>>, k: int) -> Seq<SlotV<T>> {
    Seq::new(slots.len(), |j: int|
        if j < k && slots[j] is Plain {
            SlotV::Plain(None)
        } else {
            slots[j]
        })
}

/// The record value one slot yields on success. Only used of slot lists
/// with no absent required slot.
pub open spec fn spec_output_of<T>(s: SlotV<T>) -> FieldValueV<T> {
    match s {
        SlotV::Plain(o) => match o {
            Some(v) => FieldValueV::Single(v),
            None => FieldValueV::Maybe(None),
        },
        SlotV::Optional(o) => FieldValueV::Maybe(o),
        SlotV::Repeated(vs) => FieldValueV::Collected(vs),
    }
}

/// The record finalize produces on success, field by field in declaration
/// order.
pub open spec fn spec_outputs<T>(slots: Seq<SlotV<T>>) -> Seq<FieldValueV<T>> {
    Seq::new(slots.len(), |i: int| spec_output_of(slots[i]))
}

/// What finalize leaves behind on success: every slot consumed — required
/// and optional slots absent, accumulators empty.
pub open spec fn spec_consumed<T>(s: SlotV<T>) -> SlotV<T> {
    match s {
        SlotV::Plain(_) => SlotV::Plain(None),
        SlotV::Optional(_) => SlotV::Optional(None),
        SlotV::Repeated(_) => SlotV::Repeated(Seq::empty()),
    }
}

/// All slots consumed.
pub open spec fn spec_all_consumed<T>(slots: Seq<SlotV<T>>) -> Seq<SlotV<T>> {
    Seq::new(slots.len(), |i: int| spec_consumed(slots[i]))
}

/// Properties of the first-missing search.
proof fn lemma_first_missing_from<T>(slots: Seq<SlotV<T>>, i: int)
    requires
        0 <= i <= slots.len(),
    ensures
        i <= spec_first_missing_from(slots, i) <= slots.len(),
        spec_first_missing_from(slots, i) < slots.len() ==> slots[spec_first_missing_from(
            slots,
            i,
        )] == SlotV::<T>::Plain(None),
        forall|j: int|
            i <= j < spec_first_missing_from(slots, i) ==> slots[j] != SlotV::<T>::Plain(None),
        spec_first_missing_from(slots, i) == slots.len() ==> forall|j: int|
            i <= j < slots.len() ==> slots[j] != SlotV::<T>::Plain(None),
    decreases slots.len() - i,
{
    if i < slots.len() && slots[i] != SlotV::<T>::Plain(None) {
        lemma_first_missing_from(slots, i + 1);
    }
}

impl<T> BuilderState<T> {
    /// Finalize: walk the required slots in declaration order, taking each;
    /// fail fast with a missing-field error naming the first absent one —
    /// required slots before it have been consumed, everything else is
    /// untouched. On success, move every field's value out: the produced
    /// record holds, per field, the required value, the optional slot as it
    /// stood, and the accumulated elements in append order; the builder is
    /// left with every slot consumed, so a second finalize without
    /// re-population fails again on the first required field.
    pub fn finalize(&mut self) -> (r: Result<Vec<FieldValue<T>>, MissingFieldError>)
        requires
            old(self).wf(),
        ensures
            final(self).wf(),
            final(self)@.names == old(self)@.names,
            (r is Ok) == !spec_has_missing(old(self)@.slots),
            r matches Err(e) ==> {
                let fm = spec_first_missing(old(self)@.slots);
                &&& e.deep_view().field == old(self)@.names[fm]
                &&& final(self)@.slots == spec_cleared_up_to(old(self)@.slots, fm)
            },
            r matches Ok(outs) ==> {
                &&& field_values_view(outs@) == spec_outputs(old(self)@.slots)
                &&& final(self)@.slots == spec_all_consumed(old(self)@.slots)
            },
    {
        let ghost slots0 = self@.slots;
        let n = self.slots.len();
        // Find the first absent required slot.
        let mut fm: usize = 0;
        while fm < n
            invariant_except_break
                fm <= n,
                spec_first_missing_from(slots0, 0) == spec_first_missing_from(slots0, fm as int),
                forall|j: int| 0 <= j < fm as int ==> slots0[j] != SlotV::<T>::Plain(None),
            invariant
                n == slots0.len(),
                self@.slots == slots0,
                self@.names == old(self)@.names,
                self.wf(),
            ensures
                fm <= n,
                fm as int == spec_first_missing(slots0),
            decreases n - fm,
        {
            let missing = match &self.slots[fm] {
                Slot::Plain(o) => o.is_none(),
                _ => false,
            };
            if missing {
                proof {
                    assert(self@.slots[fm as int] == SlotV::<T>::Plain(None));
                    assert(spec_first_missing_from(slots0, fm as int) == fm as int);
                }
                break ;
            }
            proof {
                assert(self@.slots[fm as int] == slot_view(self.slots@[fm as int]));
                assert(slots0[fm as int] != SlotV::<T>::Plain(None));
                assert(spec_first_missing_from(slots0, fm as int) == spec_first_missing_from(
                    slots0,
                    fm + 1 as int,
                ));
            }
            fm = fm + 1;
        }
        proof {
            lemma_first_missing_from(slots0, 0);
        }
        if fm < n {
            // Fail fast: consume the required slots before the missing one,
            // as the emitted checks do, then report the field by name.
            assert(spec_first_missing(slots0) == fm as int);
            let mut j: usize = 0;
            while j < fm
                invariant
                    fm < n,
                    n == slots0.len(),
                    self@.names == old(self)@.names,
                    self.wf(),
                    j <= fm,
                    self@.slots =~= spec_cleared_up_to(slots0, j as int),
                decreases fm - j,
            {
                let ghost before = self@.slots;
                let is_plain = match &self.slots[j] {
                    Slot::Plain(_) => true,
                    _ => false,
                };
                proof {
                    assert(before[j as int] == slot_view(self.slots@[j as int]));
                    assert(before[j as int] == slots0[j as int]);
                }
                if is_plain {
                    self.slots.set(j, Slot::Plain(None));
                    proof {
                        assert forall|k: int| 0 <= k < n implies self@.slots[k]
                            == spec_cleared_up_to(slots0, j + 1 as int)[k] by {
                            if k != j as int {
                                assert(self@.slots[k] == before[k]);
                            }
                        }
                        assert(self@.slots =~= spec_cleared_up_to(slots0, j + 1 as int));
                    }
                } else {
                    proof {
                        assert(self@.slots =~= spec_cleared_up_to(slots0, j + 1 as int));
                    }
                }
                j = j + 1;
            }
            proof {
                assert(self@.slots =~= spec_cleared_up_to(slots0, fm as int));
            }
            return Err(MissingFieldError { field: self.names[fm].clone() });
        }
        // Every required slot is present: move the values out.
        assert(!spec_has_missing(slots0));
        let mut outs: Vec<FieldValue<T>> = Vec::new();
        let mut i: usize = 0;
        while i < n
            invariant
                n == slots0.len(),
                n == self@.slots.len(),
                self@.names == old(self)@.names,
                self.wf(),
                i <= n,
                outs@.len() == i as int,
                forall|j: int| 0 <= j < n ==> slots0[j] != SlotV::<T>::Plain(None),
                forall|j: int|
                    0 <= j < i as int ==> field_value_view(outs@[j]) == spec_output_of(
                        #[trigger] slots0[j],
                    ),
                forall|j: int|
                    0 <= j < i as int ==> self@.slots[j] == spec_consumed(#[trigger] slots0[j]),
                forall|j: int| i as int <= j < n ==> self@.slots[j] == slots0[j],
            decreases n - i,
        {
            proof {
                assert(self@.slots[i as int] == slot_view(self.slots@[i as int]));
                assert(self@.slots[i as int] == slots0[i as int]);
                assert(slots0[i as int] != SlotV::<T>::Plain(None));
            }
            match &mut self.slots[i] {
                Slot::Plain(o) => {
                    let v = o.take();
                    assert(v is Some);
                    outs.push(FieldValue::Single(v.unwrap()));
                },
                Slot::Optional(o) => {
                    let v = o.take();
                    outs.push(FieldValue::Maybe(v));
                },
                Slot::Repeated(vs) => {
                    let mut taken: Vec<T> = Vec::new();
                    core::mem::swap(vs, &mut taken);
                    outs.push(FieldValue::Collected(taken));
                },
            }
            i = i + 1;
        }
        proof {
            assert(field_values_view(outs@) =~= spec_outputs(slots0));
            assert(self@.slots =~= spec_all_consumed(slots0));
        }
        Ok(outs)
    }
}

/// On a record with only plain fields, finalize before any setter call
/// always fails naming the first declared field: a fresh builder's first
/// required slot is absent and comes first, so by `finalize`'s contract the
/// result is the missing-field error for field 0.
pub proof fn lemma_fresh_all_plain_fails_first<T>(fields: Seq<ClassifiedFieldV>)
    requires
        fields.len() > 0,
        forall|i: int| 0 <= i < fields.len() ==> (#[trigger] fields[i].shape) is Plain,
    ensures
        spec_has_missing(spec_initial_slots::<T>(fields)),
        spec_first_missing(spec_initial_slots::<T>(fields)) == 0,
{
    let slots = spec_initial_slots::<T>(fields);
    assert(slots[0] == SlotV::<T>::Plain(None));
}

/// The slot a field holds after its setter ran exactly once with `v`,
/// starting fresh.
pub open spec fn spec_slot_after_set<T>(shape: FieldShapeV, v: T) -> SlotV<T> {
    match shape {
        FieldShapeV::Plain(_) => SlotV::Plain(Some(v)),
        FieldShapeV::Optional(_) => SlotV::Optional(Some(v)),
        FieldShapeV::Repeated(_, _) => SlotV::Repeated(seq![v]),
    }
}

/// The record value a field yields after its setter ran exactly once with
/// `v`.
pub open spec fn spec_value_after_set<T>(shape: FieldShapeV, v: T) -> FieldValueV<T> {
    match shape {
        FieldShapeV::Plain(_) => FieldValueV::Single(v),
        FieldShapeV::Optional(_) => FieldValueV::Maybe(Some(v)),
        FieldShapeV::Repeated(_, _) => FieldValueV::Collected(seq![v]),
    }
}

/// The slots after the first `k` setter calls described by `order`,
/// starting fresh: call `t` runs field `order[t]`'s setter with
/// `vs[order[t]]` — a plain or optional field is set, a repeated field
/// gets one element appended.
pub open spec fn spec_apply_sets<T>(
    fields: Seq<ClassifiedFieldV>,
    vs: Seq<T>,
    order: Seq<int>,
    k: int,
) -> Seq<SlotV<T>>
    decreases k,
{
    if k <= 0 {
        spec_initial_slots(fields)
    } else {
        let prev = spec_apply_sets(fields, vs, order, k - 1);
        let i = order[k - 1];
        if fields[i].shape is Repeated {
            prev.update(i, SlotV::Repeated(prev[i]->Repeated_0.push(vs[i])))
        } else {
            prev.update(i, spec_set_slot(prev[i], vs[i]))
        }
    }
}

/// After the first `k` calls, the fields already called hold exactly what
/// was set and the rest are still fresh.
proof fn lemma_apply_sets<T>(fields: Seq<ClassifiedFieldV>, vs: Seq<T>, order: Seq<int>, k: int)
    requires
        vs.len() == fields.len(),
        order.no_duplicates(),
        forall|t: int| 0 <= t < order.len() ==> 0 <= #[trigger] order[t] < fields.len(),
        0 <= k <= order.len(),
    ensures
        spec_apply_sets(fields, vs, order, k).len() == fields.len(),
        forall|j: int|
            0 <= j < fields.len() && order.subrange(0, k).contains(j) ==> spec_apply_sets(
                fields,
                vs,
                order,
                k,
            )[j] == spec_slot_after_set((#[trigger] fields[j]).shape, vs[j]),
        forall|j: int|
            0 <= j < fields.len() && !order.subrange(0, k).contains(j) ==> spec_apply_sets(
                fields,
                vs,
                order,
                k,
            )[j] == spec_initial_slot::<T>((#[trigger] fields[j]).shape),
    decreases k,
{
    if k > 0 {
        lemma_apply_sets(fields, vs, order, k - 1);
        let prev = spec_apply_sets(fields, vs, order, k - 1);
        let i = order[k - 1];
        assert(!order.subrange(0, k - 1).contains(i)) by {
            if order.subrange(0, k - 1).contains(i) {
                let t = choose|t: int|
                    0 <= t < k - 1 && #[trigger] order.subrange(0, k - 1)[t] == i;
                assert(order[t] == order[k - 1]);
            }
        }
        assert(prev[i] == spec_initial_slot::<T>(fields[i].shape));
        if fields[i].shape is Repeated {
            assert(Seq::<T>::empty().push(vs[i]) =~= seq![vs[i]]);
        }
        assert forall|j: int| 0 <= j < fields.len() implies (order.subrange(0, k).contains(j) <==> (
        order.subrange(0, k - 1).contains(j) || j == i)) by {
            if order.subrange(0, k).contains(j) {
                let t = choose|t: int| 0 <= t < k && #[trigger] order.subrange(0, k)[t] == j;
                if t < k - 1 {
                    assert(order.subrange(0, k - 1)[t] == j);
                }
            }
            if order.subrange(0, k - 1).contains(j) {
                let t = choose|t: int|
                    0 <= t < k - 1 && #[trigger] order.subrange(0, k - 1)[t] == j;
                assert(order.subrange(0, k)[t] == j);
            }
            if j == i {
                assert(order.subrange(0, k)[k - 1] == j);
            }
        }
    }
}

/// Calling every field's setter exactly once, in any order, with valid
/// values and then finalizing succeeds, and the produced record's field
/// values are exactly what was set: the required value for a plain field,
/// the value wrapped present for an optional field, the one appended
/// element for a repeated field.
pub proof fn lemma_set_all_then_finalize<T>(
    fields: Seq<ClassifiedFieldV>,
    vs: Seq<T>,
    order: Seq<int>,
)
    requires
        vs.len() == fields.len(),
        order.no_duplicates(),
        forall|t: int| 0 <= t < order.len() ==> 0 <= #[trigger] order[t] < fields.len(),
        forall|j: int| 0 <= j < fields.len() ==> order.contains(j),
    ensures
        !spec_has_missing(spec_apply_sets(fields, vs, order, order.len() as int)),
        spec_outputs(spec_apply_sets(fields, vs, order, order.len() as int)) == Seq::new(
            fields.len(),
            |i: int| spec_value_after_set(fields[i].shape, vs[i]),
        ),
{
    let s = spec_apply_sets(fields, vs, order, order.len() as int);
    lemma_apply_sets(fields, vs, order, order.len() as int);
    assert(order.subrange(0, order.len() as int) =~= order);
    assert forall|i: int| 0 <= i < s.len() implies s[i] != SlotV::<T>::Plain(None) by {
        assert(s[i] == spec_slot_after_set(fields[i].shape, vs[i]));
    }
    assert(spec_outputs(s) =~= Seq::new(
        fields.len(),
        |i: int| spec_value_after_set(fields[i].shape, vs[i]),
    ));
}

/// The slots after appending `vs[0]`, ..., `vs[k-1]`, in that order, to the
/// repeated field at `i`.
pub open spec fn spec_apply_appends<T>(
    slots: Seq<SlotV<T>>,
    i: int,
    vs: Seq<T>,
    k: int,
) -> Seq<SlotV<T>>
    decreases k,
{
    if k <= 0 {
        slots
    } else {
        let prev = spec_apply_appends(slots, i, vs, k - 1);
        prev.update(i, SlotV::Repeated(prev[i]->Repeated_0.push(vs[k - 1])))
    }
}

/// Calling a repeated field's one-at-a-time setter with `v1 .. vN` and then
/// finalizing yields those elements after the prior contents, in call
/// order: nothing is deduplicated, dropped, or reordered, no other slot is
/// touched, and whether finalize succeeds is unchanged.
pub proof fn lemma_appends_in_order<T>(slots: Seq<SlotV<T>>, i: int, vs: Seq<T>, k: int)
    requires
        0 <= i < slots.len(),
        slots[i] is Repeated,
        0 <= k <= vs.len(),
    ensures
        spec_apply_appends(slots, i, vs, k).len() == slots.len(),
        spec_apply_appends(slots, i, vs, k)[i] == SlotV::Repeated(
            slots[i]->Repeated_0 + vs.subrange(0, k),
        ),
        forall|j: int|
            0 <= j < slots.len() && j != i ==> spec_apply_appends(slots, i, vs, k)[j] == slots[j],
        spec_has_missing(spec_apply_appends(slots, i, vs, k)) == spec_has_missing(slots),
        !spec_has_missing(slots) ==> spec_outputs(spec_apply_appends(slots, i, vs, k))[i]
            == FieldValueV::Collected(slots[i]->Repeated_0 + vs.subrange(0, k)),
    decreases k,
{
    let s = spec_apply_appends(slots, i, vs, k);
    if k == 0 {
        assert(slots[i]->Repeated_0 + vs.subrange(0, 0) =~= slots[i]->Repeated_0);
    } else {
        lemma_appends_in_order(slots, i, vs, k - 1);
        assert((slots[i]->Repeated_0 + vs.subrange(0, k - 1)).push(vs[k - 1])
            =~= slots[i]->Repeated_0 + vs.subrange(0, k));
    }
    assert forall|j: int| 0 <= j < slots.len() implies (s[j] == SlotV::<T>::Plain(None)) == (
    slots[j] == SlotV::<T>::Plain(None)) by {
        if j == i {
            assert(s[j] is Repeated);
        }
    }
}

} // verus!
