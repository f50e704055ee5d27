//! The generic-usage visitor: a depth-first walk over the fields' type
//! expressions that collects which declared generic parameters are
//! structurally referenced, without descending into designated marker types
//! (a parameter that appears only inside a marker must not force a
//! constraint).
use crate::descriptor::{FieldDescriptor, FieldDescriptorV, TypeExpr, TypeExprV};
use vstd::prelude::*;
use vstd::string::StringExecFns;

verus! {

/// The head name of the non-owning marker type that the walk does not
/// descend into.
pub open spec fn marker_head() -> Seq<char> {
    "PhantomData"@
}

/// Whether the walk of a type expression reaches a node whose head is `p`:
/// true at the node itself, or within the arguments of any node that is not
/// a marker.
pub open spec fn spec_type_uses(t: TypeExprV, p: Seq<char>, markers: Seq<Seq<char>>) -> bool
    decreases t,
{
    ||| t.head == p
    ||| (!markers.contains(t.head) && exists|i: int|
        0 <= i < t.args.len() && spec_type_uses(#[trigger] t.args[i], p, markers))
}

/// Whether any field's declared type uses `p`.
pub open spec fn spec_param_used(
    fields: Seq<FieldDescriptorV>,
    p: Seq<char>,
    markers: Seq<Seq<char>>,
) -> bool {
    exists|i: int| 0 <= i < fields.len() && spec_type_uses(
        #[trigger] fields[i].declared_type,
        p,
        markers,
    )
}

/// The declared generic parameters that the fields use, kept in declaration
/// order: the used-set is a set, but the emitted order follows the record's
/// parameter list, never the traversal.
pub open spec fn spec_used_params(
    generics: Seq<Seq<char>>,
    fields: Seq<FieldDescriptorV>,
    markers: Seq<Seq<char>>,
) -> Seq<Seq<char>> {
    generics.filter(|p: Seq<char>| spec_param_used(fields, p, markers))
}

/// The walk never enters a marker: a type headed by a marker other than the
/// parameter itself never counts as using the parameter, however deeply the
/// parameter occurs inside the marker's arguments.
pub proof fn lemma_marker_blocks(t: TypeExprV, p: Seq<char>, markers: Seq<Seq<char>>)
    requires
        markers.contains(t.head),
        t.head != p,
    ensures
        !spec_type_uses(t, p, markers),
{
}

/// A parameter that stands directly as a type's head is used, marker set or
/// not.
pub proof fn lemma_direct_use(t: TypeExprV, p: Seq<char>, markers: Seq<Seq<char>>)
    requires
        t.head == p,
    ensures
        spec_type_uses(t, p, markers),
{
}

/// The used set keeps exactly the declared parameters that some field uses.
proof fn lemma_filter_membership(s: Seq<Seq<char>>, pred: spec_fn(Seq<char>) -> bool, p: Seq<char>)
    ensures
        s.filter(pred).contains(p) <==> (s.contains(p) && pred(p)),
    decreases s.len(),
{
    reveal(Seq::filter);
    if s.len() > 0 {
        lemma_filter_membership(s.drop_last(), pred, p);
        assert(s.contains(p) <==> (s.drop_last().contains(p) || s.last() == p)) by {
            if s.contains(p) {
                let i = choose|i: int| 0 <= i < s.len() && s[i] == p;
                if i < s.len() - 1 {
                    assert(s.drop_last()[i] == p);
                }
            }
            if s.drop_last().contains(p) {
                let i = choose|i: int| 0 <= i < s.drop_last().len() && s.drop_last()[i] == p;
                assert(s[i] == p);
            }
        }
        if pred(s.last()) {
            assert(s.filter(pred).contains(p) <==> (s.drop_last().filter(pred).contains(p)
                || s.last() == p)) by {
                let f = s.drop_last().filter(pred);
                if s.filter(pred).contains(p) {
                    let i = choose|i: int| 0 <= i < s.filter(pred).len() && s.filter(pred)[i] == p;
                    if i < f.len() {
                        assert(f[i] == p);
                    }
                }
                if f.contains(p) {
                    let i = choose|i: int| 0 <= i < f.len() && f[i] == p;
                    assert(s.filter(pred)[i] == p);
                }
                if s.last() == p {
                    assert(s.filter(pred).last() == p);
                }
            }
        }
    }
}

/// A parameter that occurs, over all fields, only as or inside marker types
/// is left out of the used set; a declared parameter that heads some
/// field's declared type is in it. Order aside, the used set is exactly the
/// declared parameters that some field structurally uses.
pub proof fn lemma_generic_usage_visitor(
    generics: Seq<Seq<char>>,
    fields: Seq<FieldDescriptorV>,
    markers: Seq<Seq<char>>,
    p: Seq<char>,
)
    ensures
        spec_used_params(generics, fields, markers).contains(p) <==> (generics.contains(p)
            && spec_param_used(fields, p, markers)),
        (forall|i: int|
            0 <= i < fields.len() ==> markers.contains(
                (#[trigger] fields[i].declared_type).head,
            ) && fields[i].declared_type.head != p) ==> !spec_used_params(
            generics,
            fields,
            markers,
        ).contains(p),
        (generics.contains(p) && exists|i: int|
            0 <= i < fields.len() && (#[trigger] fields[i].declared_type).head == p)
            ==> spec_used_params(generics, fields, markers).contains(p),
{
    let pred = |q: Seq<char>| spec_param_used(fields, q, markers);
    lemma_filter_membership(generics, pred, p);
    if forall|i: int|
        0 <= i < fields.len() ==> markers.contains((#[trigger] fields[i].declared_type).head)
            && fields[i].declared_type.head != p {
        assert forall|i: int| 0 <= i < fields.len() implies !spec_type_uses(
            #[trigger] fields[i].declared_type,
            p,
            markers,
        ) by {
            lemma_marker_blocks(fields[i].declared_type, p, markers);
        }
    }
    if generics.contains(p) && exists|i: int|
        0 <= i < fields.len() && (#[trigger] fields[i].declared_type).head == p {
        let i = choose|i: int|
            0 <= i < fields.len() && (#[trigger] fields[i].declared_type).head == p;
        lemma_direct_use(fields[i].declared_type, p, markers);
        assert(spec_param_used(fields, p, markers));
    }
}

/// The default stop-set of the walk: just the non-owning marker type.
pub fn default_markers() -> (r: Vec<String>)
    ensures
        r.deep_view() == seq![marker_head()],
{
    let mut out: Vec<String> = Vec::new();
    out.push(String::from_str("PhantomData"));
    proof {
        assert(out.deep_view() =~= seq![marker_head()]);
    }
    out
}

/// Whether `items` holds a string whose characters equal `s`'s.
fn contains_string(items: &Vec<String>, s: &String) -> (r: bool)
    ensures
        r == items.deep_view().contains(s@),
{
    let mut i: usize = 0;
    while i < items.len()
        invariant
            i <= items@.len(),
            forall|j: int| 0 <= j < i as int ==> items.deep_view()[j] != s@,
        decreases items@.len() - i,
    {
        if items[i] == *s {
            assert(items.deep_view()[i as int] == s@);
            return true;
        }
        i = i + 1;
    }
    false
}

/// Walk one type expression, looking for a node headed by `p`; do not
/// descend into the arguments of a marker-headed node.
pub fn type_uses(t: &TypeExpr, p: &String, markers: &Vec<String>) -> (r: bool)
    ensures
        r == spec_type_uses(t.deep_view(), p@, markers.deep_view()),
    decreases *t,
{
    proof {
        crate::descriptor::lemma_deep_view_args(t.args@);
    }
    if t.head == *p {
        return true;
    }
    if contains_string(markers, &t.head) {
        return false;
    }
    let mut i: usize = 0;
    while i < t.args.len()
        invariant
            i <= t.args@.len(),
            t.deep_view().args.len() == t.args@.len(),
            !markers.deep_view().contains(t.deep_view().head),
            forall|j: int|
                0 <= j < i as int ==> !spec_type_uses(
                    #[trigger] t.deep_view().args[j],
                    p@,
                    markers.deep_view(),
                ),
            forall|j: int|
                0 <= j < t.args@.len() ==> t.deep_view().args[j] == t.args@[j].deep_view(),
        decreases t.args@.len() - i,
    {
        if type_uses(&t.args[i], p, markers) {
            proof {
                assert(spec_type_uses(t.deep_view().args[i as int], p@, markers.deep_view()));
            }
            return true;
        }
        i = i + 1;
    }
    false
}

/// Whether any field of the record uses `p`.
pub fn param_used(fields: &Vec<FieldDescriptor>, p: &String, markers: &Vec<String>) -> (r: bool)
    ensures
        r == spec_param_used(fields.deep_view(), p@, markers.deep_view()),
{
    let mut i: usize = 0;
    while i < fields.len()
        invariant
            i <= fields@.len(),
            forall|j: int|
                0 <= j < i as int ==> !spec_type_uses(
                    #[trigger] fields.deep_view()[j].declared_type,
                    p@,
                    markers.deep_view(),
                ),
        decreases fields@.len() - i,
    {
        if type_uses(&fields[i].declared_type, p, markers) {
            assert(fields.deep_view()[i as int].declared_type == fields@[i as int]
                .deep_view().declared_type);
            return true;
        }
        i = i + 1;
    }
    false
}

/// The subset of the declared generic parameters that the fields'
/// type expressions structurally reference, in declaration order.
pub fn used_type_params(
    generics: &Vec<String>,
    fields: &Vec<FieldDescriptor>,
    markers: &Vec<String>,
) -> (r: Vec<String>)
    ensures
        r.deep_view() == spec_used_params(generics.deep_view(), fields.deep_view(), markers.deep_view()),
{
    let ghost pred = |p: Seq<char>| spec_param_used(fields.deep_view(), p, markers.deep_view());
    let mut out: Vec<String> = Vec::new();
    proof {
        reveal(Seq::filter);
        assert(generics.deep_view().subrange(0, 0).filter(pred) =~= Seq::<Seq<char>>::empty());
        assert(out.deep_view() =~= Seq::<Seq<char>>::empty());
    }
    let mut i: usize = 0;
    while i < generics.len()
        invariant
            i <= generics@.len(),
            pred == (|p: Seq<char>| spec_param_used(fields.deep_view(), p, markers.deep_view())),
            out.deep_view() == generics.deep_view().subrange(0, i as int).filter(pred),
        decreases generics@.len() - i,
    {
        let ghost prefix = generics.deep_view().subrange(0, i as int);
        let ghost next = generics.deep_view().subrange(0, i + 1 as int);
        proof {
            reveal(Seq::filter);
            assert(next.drop_last() =~= prefix);
            assert(next.last() == generics@[i as int]@);
        }
        if param_used(fields, &generics[i], markers) {
            let ghost prev = out.deep_view();
            out.push(generics[i].clone());
            proof {
                assert(out.deep_view() =~= prev.push(generics@[i as int]@));
            }
        }
        i = i + 1;
    }
    proof {
        assert(generics.deep_view().subrange(0, generics@.len() as int) =~= generics.deep_view());
    }
    out
}

} // verus!
