//! The prototype composition resolver.
//!
//! Resolution computes the final component list of a prototype: every
//! template's resolved components are pulled in first, in defined order,
//! with later templates overriding earlier ones on type conflicts, and the
//! prototype's own components are layered on top with final precedence.
//! Template references may form cycles; those are detected and reported,
//! never followed.

use vstd::prelude::*;
use vstd::set_lib::lemma_len_subset;

use crate::component::{
    has_type, lemma_merge_disjoint_append, lemma_merge_lookup_absent, lemma_merge_lookup_present,
    lemma_merge_override_unique, merge_override, unique_types, value_of, ComponentList,
    ComponentView,
};
use crate::error::{ErrorView, ProtoError};
use crate::prototype::{
    lookup_has, lookup_proto, lemma_lookup_index_correct, Prototype, PrototypeLookup,
    PrototypeView,
};

verus! {

/// The names under which the prototypes of `ps` can be looked up.
pub open spec fn lookup_names(ps: Seq<PrototypeView>) -> Seq<Seq<char>> {
    ps.map_values(|p: PrototypeView| p.name)
}

/// The shape of a chain of in-progress resolutions: the names are pairwise
/// distinct, and all but the first belong to the lookup.
pub open spec fn visiting_ok(ps: Seq<PrototypeView>, v: Seq<Seq<char>>) -> bool {
    &&& v.no_duplicates()
    &&& forall|i: int| 1 <= i < v.len() ==> lookup_has(ps, #[trigger] v[i])
}

/// A well-shaped chain of in-progress resolutions cannot be longer than the
/// lookup plus the root.
pub proof fn lemma_visiting_bound(ps: Seq<PrototypeView>, v: Seq<Seq<char>>)
    requires
        visiting_ok(ps, v),
    ensures
        v.len() <= ps.len() + 1,
{
    if v.len() > 0 {
        let tail = v.drop_first();
        let names = lookup_names(ps);
        assert(tail.no_duplicates()) by {
            assert forall|i: int, j: int|
                0 <= i < tail.len() && 0 <= j < tail.len() && i != j implies tail[i]
                != tail[j] by {
                assert(tail[i] == v[i + 1] && tail[j] == v[j + 1]);
            }
        }
        tail.unique_seq_to_set();
        names.lemma_cardinality_of_set();
        assert(tail.to_set().subset_of(names.to_set())) by {
            assert forall|x: Seq<char>| tail.to_set().contains(x) implies names.to_set().contains(
                x,
            ) by {
                let i = choose|i: int| 0 <= i < tail.len() && tail[i] == x;
                assert(tail[i] == v[i + 1]);
                assert(lookup_has(ps, x));
                let k = choose|k: int| 0 <= k < ps.len() && ps[k].name == x;
                assert(names[k] == x);
                assert(names.contains(x));
            }
        }
        vstd::seq_lib::seq_to_set_is_finite(names);
        lemma_len_subset(tail.to_set(), names.to_set());
    }
}

/// Extending a well-shaped chain with a fresh name keeps it well shaped.
pub proof fn lemma_visiting_push(ps: Seq<PrototypeView>, v: Seq<Seq<char>>, name: Seq<char>)
    requires
        visiting_ok(ps, v),
        !v.contains(name),
        v.len() > 0 ==> lookup_has(ps, name),
    ensures
        visiting_ok(ps, v.push(name)),
        v.push(name).len() <= ps.len() + 1,
{
    let w = v.push(name);
    assert(w.no_duplicates()) by {
        assert forall|i: int, j: int|
            0 <= i < w.len() && 0 <= j < w.len() && i != j implies w[i] != w[j] by {
            if i < v.len() && j < v.len() {
                assert(w[i] == v[i] && w[j] == v[j]);
            } else if i < v.len() {
                assert(w[i] == v[i] && w[j] == name);
                assert(!v.contains(name));
                assert(v[i] != name);
            } else {
                assert(w[i] == name && w[j] == v[j]);
                assert(v[j] != name);
            }
        }
    }
    assert forall|i: int| 1 <= i < w.len() implies lookup_has(ps, #[trigger] w[i]) by {
        if i < v.len() {
            assert(w[i] == v[i]);
        } else {
            assert(w[i] == name);
        }
    }
    lemma_visiting_bound(ps, w);
}

/// What resolving prototype `p` against the lookup `ps` yields, with `v` the
/// chain of resolutions already in progress: the fully merged component
/// sequence, or the first failure.
pub open spec fn spec_resolve(
    p: PrototypeView,
    ps: Seq<PrototypeView>,
    v: Seq<Seq<char>>,
) -> Result<Seq<ComponentView>, ErrorView>
    decreases ps.len() + 1 - v.len(), 0nat, 0nat,
        when visiting_ok(ps, v) && (v.len() > 0 ==> lookup_has(ps, p.name))
{
    if v.contains(p.name) {
        Err(ErrorView::CyclicTemplateReference(v.push(p.name)))
    } else {
        proof {
            lemma_visiting_push(ps, v, p.name);
        }
        match spec_resolve_templates(p.templates, Seq::empty(), ps, v.push(p.name)) {
            Ok(inherited) => Ok(merge_override(inherited, p.components)),
            Err(e) => Err(e),
        }
    }
}

/// Folds the resolutions of the template names `ts` into `acc`, left to
/// right, so that later templates override earlier ones.
pub open spec fn spec_resolve_templates(
    ts: Seq<Seq<char>>,
    acc: Seq<ComponentView>,
    ps: Seq<PrototypeView>,
    v: Seq<Seq<char>>,
) -> Result<Seq<ComponentView>, ErrorView>
    decreases ps.len() + 1 - v.len(), 1nat, ts.len(),
        when visiting_ok(ps, v) && v.len() > 0
{
    if ts.len() == 0 {
        Ok(acc)
    } else if !lookup_has(ps, ts[0]) {
        Err(ErrorView::UnknownTemplate(ts[0]))
    } else {
        proof {
            lemma_lookup_index_correct(ps, ts[0]);
        }
        match spec_resolve(lookup_proto(ps, ts[0]), ps, v) {
            Ok(c) => spec_resolve_templates(ts.drop_first(), merge_override(acc, c), ps, v),
            Err(e) => Err(e),
        }
    }
}

/// Whether a vector of names contains `name`.
fn names_contain(v: &Vec<String>, name: &str) -> (r: bool)
    ensures
        r == v.deep_view().contains(name@),
{
    let n = v.len();
    let mut i: usize = 0;
    while i < n
        invariant
            0 <= i <= n,
            n == v.deep_view().len(),
            forall|j: int| 0 <= j < i ==> v.deep_view()[j] != name@,
        decreases n - i,
    {
        if crate::strutil::str_eq(v[i].as_str(), name) {
            proof {
                assert(v.deep_view()[i as int] == name@);
            }
            return true;
        }
        proof {
            assert(v.deep_view()[i as int] == v@[i as int]@);
        }
        i += 1;
    }
    false
}

/// A copy of a vector of names, with the same abstract value.
fn copy_names(v: &Vec<String>) -> (r: Vec<String>)
    ensures
        r.deep_view() == v.deep_view(),
{
    let n = v.len();
    let mut r: Vec<String> = Vec::new();
    let mut i: usize = 0;
    while i < n
        invariant
            0 <= i <= n,
            n == v@.len(),
            r@.len() == i,
            forall|j: int| 0 <= j < i ==> r.deep_view()[j] == v.deep_view()[j],
        decreases n - i,
    {
        r.push(v[i].clone());
        i += 1;
    }
    proof {
        assert(r.deep_view() =~= v.deep_view());
    }
    r
}

#[verifier::loop_isolation(false)]
fn resolve_rec(p: &Prototype, lookup: &PrototypeLookup, visiting: &mut Vec<String>) -> (r: Result<
    ComponentList,
    ProtoError,
>)
    requires
        visiting_ok(lookup@, old(visiting).deep_view()),
        old(visiting)@.len() > 0 ==> lookup_has(lookup@, p@.name),
    ensures
        final(visiting)@ == old(visiting)@,
        match r {
            Ok(cl) => spec_resolve(p@, lookup@, old(visiting).deep_view()) == Ok::<
                Seq<ComponentView>,
                ErrorView,
            >(cl@) && unique_types(cl@),
            Err(e) => spec_resolve(p@, lookup@, old(visiting).deep_view()) == Err::<
                Seq<ComponentView>,
                ErrorView,
            >(e@),
        },
    decreases lookup@.len() + 1 - old(visiting)@.len(),
{
    let ghost ps = lookup@;
    let ghost v0 = visiting.deep_view();
    if names_contain(visiting, p.name.as_str()) {
        let mut path = copy_names(visiting);
        path.push(p.name.clone());
        proof {
            assert(path.deep_view() =~= v0.push(p@.name));
        }
        return Err(ProtoError::CyclicTemplateReference(path));
    }
    proof {
        lemma_visiting_push(ps, v0, p@.name);
    }
    visiting.push(p.name.clone());
    let ghost vfull = visiting@;
    let ghost v1 = visiting.deep_view();
    proof {
        assert(v1 =~= v0.push(p@.name));
        assert(vfull.drop_last() =~= old(visiting)@);
    }
    let mut acc = ComponentList::new();
    let tcount = p.templates.len();
    let mut i: usize = 0;
    proof {
        assert(p@.templates.skip(0) =~= p@.templates);
    }
    while i < tcount
        invariant
            0 <= i <= tcount,
            tcount == p@.templates.len(),
            visiting@ == vfull,
            visiting.deep_view() == v1,
            vfull.drop_last() == old(visiting)@,
            visiting_ok(ps, v1),
            ps == lookup@,
            unique_types(acc@),
            spec_resolve_templates(p@.templates, Seq::empty(), ps, v1)
                == spec_resolve_templates(p@.templates.skip(i as int), acc@, ps, v1),
        decreases tcount - i,
    {
        let tname = p.templates.get(i);
        let ghost ts_rest = p@.templates.skip(i as int);
        proof {
            assert(ts_rest[0] == p@.templates[i as int]);
            assert(ts_rest.drop_first() =~= p@.templates.skip(i as int + 1));
        }
        match lookup.get(tname.as_str()) {
            None => {
                visiting.pop();
                proof {
                    assert(visiting@ =~= old(visiting)@);
                    assert(spec_resolve_templates(ts_rest, acc@, ps, v1) == Err::<
                        Seq<ComponentView>,
                        ErrorView,
                    >(ErrorView::UnknownTemplate(ts_rest[0])));
                    assert(spec_resolve(p@, ps, v0) == Err::<Seq<ComponentView>, ErrorView>(
                        ErrorView::UnknownTemplate(tname@),
                    ));
                }
                return Err(ProtoError::UnknownTemplate(tname.clone()));
            },
            Some(tp) => {
                proof {
                    lemma_lookup_index_correct(ps, ts_rest[0]);
                    assert(tp@ == lookup_proto(ps, ts_rest[0]));
                    assert(lookup_has(ps, tp@.name));
                }
                let ghost acc_prev = acc@;
                match resolve_rec(tp, lookup, visiting) {
                    Ok(sub) => {
                        acc.merge_override(&sub);
                        proof {
                            assert(spec_resolve_templates(ts_rest, acc_prev, ps, v1)
                                == spec_resolve_templates(
                                p@.templates.skip(i as int + 1),
                                acc@,
                                ps,
                                v1,
                            ));
                        }
                    },
                    Err(e) => {
                        proof {
                            assert(spec_resolve(tp@, ps, v1) == Err::<
                                Seq<ComponentView>,
                                ErrorView,
                            >(e@));
                            assert(spec_resolve_templates(ts_rest, acc_prev, ps, v1) == Err::<
                                Seq<ComponentView>,
                                ErrorView,
                            >(e@));
                            assert(spec_resolve(p@, ps, v0) == Err::<
                                Seq<ComponentView>,
                                ErrorView,
                            >(e@));
                        }
                        visiting.pop();
                        proof {
                            assert(visiting@ =~= old(visiting)@);
                        }
                        return Err(e);
                    },
                }
            },
        }
        i += 1;
    }
    let ghost inherited = acc@;
    proof {
        assert(p@.templates.skip(tcount as int) =~= Seq::<Seq<char>>::empty());
        assert(spec_resolve_templates(p@.templates, Seq::empty(), ps, v1) == Ok::<
            Seq<ComponentView>,
            ErrorView,
        >(inherited));
    }
    acc.merge_override(&p.components);
    visiting.pop();
    proof {
        assert(visiting@ =~= old(visiting)@);
        assert(spec_resolve(p@, ps, v0) == Ok::<Seq<ComponentView>, ErrorView>(acc@));
    }
    Ok(acc)
}

/// Resolves `p` against `lookup`: the component lists of `p`'s templates,
/// recursively resolved and merged in defined order with later templates
/// overriding earlier ones, with `p`'s own components merged last. A
/// template name that is not in the lookup, or a cyclic template reference,
/// fails the whole resolution; nothing partial is ever returned. The input
/// prototype is untouched and the result is a fresh list.
pub fn resolve(p: &Prototype, lookup: &PrototypeLookup) -> (r: Result<ComponentList, ProtoError>)
    ensures
        match r {
            Ok(cl) => spec_resolve(p@, lookup@, Seq::empty()) == Ok::<
                Seq<ComponentView>,
                ErrorView,
            >(cl@) && unique_types(cl@),
            Err(e) => spec_resolve(p@, lookup@, Seq::empty()) == Err::<
                Seq<ComponentView>,
                ErrorView,
            >(e@),
        },
{
    let mut visiting: Vec<String> = Vec::new();
    proof {
        assert(visiting.deep_view() =~= Seq::<Seq<char>>::empty());
    }
    resolve_rec(p, lookup, &mut visiting)
}

/// Own-always-wins: whenever resolution succeeds, a component type that the
/// prototype itself defines resolves to the prototype's own value,
/// regardless of what any template contributed.
pub proof fn lemma_own_components_win(
    p: PrototypeView,
    ps: Seq<PrototypeView>,
    r: Seq<ComponentView>,
    t: Seq<char>,
)
    requires
        spec_resolve(p, ps, Seq::empty()) == Ok::<Seq<ComponentView>, ErrorView>(r),
        unique_types(p.components),
        has_type(p.components, t),
    ensures
        has_type(r, t),
        value_of(r, t) == value_of(p.components, t),
{
    let v0 = Seq::<Seq<char>>::empty();
    assert(visiting_ok(ps, v0));
    assert(!v0.contains(p.name));
    let v1 = v0.push(p.name);
    match spec_resolve_templates(p.templates, Seq::empty(), ps, v1) {
        Ok(inherited) => {
            assert(r == merge_override(inherited, p.components));
            lemma_merge_lookup_present(inherited, p.components, t);
        },
        Err(e) => {
            assert(false);
        },
    }
}

/// Later-templates-override-earlier: for a prototype with exactly the
/// templates `[a, b]`, where both templates are plain component sets that
/// define type `t` and the prototype itself does not, the resolved
/// component of type `t` is `b`'s, not `a`'s.
pub proof fn lemma_later_template_overrides(
    p: PrototypeView,
    a: PrototypeView,
    b: PrototypeView,
    ps: Seq<PrototypeView>,
    t: Seq<char>,
)
    requires
        lookup_has(ps, a.name),
        lookup_proto(ps, a.name) == a,
        lookup_has(ps, b.name),
        lookup_proto(ps, b.name) == b,
        p.templates == seq![a.name, b.name],
        a.templates.len() == 0,
        b.templates.len() == 0,
        p.name != a.name,
        p.name != b.name,
        a.name != b.name,
        unique_types(a.components),
        unique_types(b.components),
        has_type(a.components, t),
        has_type(b.components, t),
        !has_type(p.components, t),
    ensures
        (spec_resolve(p, ps, Seq::empty()) matches Ok(r) && has_type(r, t) && value_of(r, t)
            == value_of(b.components, t)),
{
    let v0 = Seq::<Seq<char>>::empty();
    assert(visiting_ok(ps, v0));
    assert(!v0.contains(p.name));
    let v1 = v0.push(p.name);
    lemma_visiting_push(ps, v0, p.name);

    // Resolving template `a` from under `p` yields `a`'s own components.
    assert(!v1.contains(a.name)) by {
        assert(v1.len() == 1 && v1[0] == p.name);
    }
    lemma_visiting_push(ps, v1, a.name);
    let v2a = v1.push(a.name);
    assert(a.templates =~= Seq::<Seq<char>>::empty());
    assert(spec_resolve_templates(a.templates, Seq::empty(), ps, v2a) == Ok::<
        Seq<ComponentView>,
        ErrorView,
    >(Seq::<ComponentView>::empty()));
    let ra = merge_override(Seq::<ComponentView>::empty(), a.components);
    assert(spec_resolve(a, ps, v1) == Ok::<Seq<ComponentView>, ErrorView>(ra));

    // Resolving template `b` likewise yields `b`'s own components.
    assert(!v1.contains(b.name)) by {
        assert(v1.len() == 1 && v1[0] == p.name);
    }
    lemma_visiting_push(ps, v1, b.name);
    let v2b = v1.push(b.name);
    assert(b.templates =~= Seq::<Seq<char>>::empty());
    assert(spec_resolve_templates(b.templates, Seq::empty(), ps, v2b) == Ok::<
        Seq<ComponentView>,
        ErrorView,
    >(Seq::<ComponentView>::empty()));
    let rb = merge_override(Seq::<ComponentView>::empty(), b.components);
    assert(spec_resolve(b, ps, v1) == Ok::<Seq<ComponentView>, ErrorView>(rb));

    // The template fold merges `a`'s resolution, then `b`'s.
    let acc1 = merge_override(Seq::<ComponentView>::empty(), ra);
    let acc2 = merge_override(acc1, rb);
    assert(p.templates[0] == a.name && p.templates[1] == b.name);
    assert(p.templates.drop_first() =~= seq![b.name]);
    assert(seq![b.name].drop_first() =~= Seq::<Seq<char>>::empty());
    assert(seq![b.name][0] == b.name);
    assert(spec_resolve_templates(Seq::<Seq<char>>::empty(), acc2, ps, v1) == Ok::<
        Seq<ComponentView>,
        ErrorView,
    >(acc2));
    assert(spec_resolve_templates(seq![b.name], acc1, ps, v1) == Ok::<
        Seq<ComponentView>,
        ErrorView,
    >(acc2));
    assert(spec_resolve_templates(p.templates, Seq::empty(), ps, v1) == Ok::<
        Seq<ComponentView>,
        ErrorView,
    >(acc2));
    let r = merge_override(acc2, p.components);
    assert(spec_resolve(p, ps, v0) == Ok::<Seq<ComponentView>, ErrorView>(r));

    // `t` in the result is `b`'s component of type `t`.
    lemma_merge_override_unique(Seq::<ComponentView>::empty(), b.components);
    lemma_merge_lookup_present(Seq::<ComponentView>::empty(), b.components, t);
    lemma_merge_lookup_present(acc1, rb, t);
    lemma_merge_lookup_absent(acc2, p.components, t);
}

/// Cycle detection: two prototypes that name each other as templates fail
/// to resolve with a cyclic-reference error carrying the chain that closed
/// the cycle; resolution always terminates.
pub proof fn lemma_cycle_detected(x: PrototypeView, y: PrototypeView, ps: Seq<PrototypeView>)
    requires
        lookup_has(ps, x.name),
        lookup_proto(ps, x.name) == x,
        lookup_has(ps, y.name),
        lookup_proto(ps, y.name) == y,
        x.name != y.name,
        x.templates == seq![y.name],
        y.templates == seq![x.name],
    ensures
        spec_resolve(x, ps, Seq::empty()) == Err::<Seq<ComponentView>, ErrorView>(
            ErrorView::CyclicTemplateReference(seq![x.name, y.name, x.name]),
        ),
{
    let v0 = Seq::<Seq<char>>::empty();
    assert(visiting_ok(ps, v0));
    assert(!v0.contains(x.name));
    let v1 = v0.push(x.name);
    lemma_visiting_push(ps, v0, x.name);
    assert(!v1.contains(y.name)) by {
        assert(v1.len() == 1 && v1[0] == x.name);
    }
    let v2 = v1.push(y.name);
    lemma_visiting_push(ps, v1, y.name);
    assert(v2.contains(x.name)) by {
        assert(v2[0] == x.name);
    }
    let path = v2.push(x.name);
    assert(path =~= seq![x.name, y.name, x.name]);
    assert(spec_resolve(x, ps, v2) == Err::<Seq<ComponentView>, ErrorView>(
        ErrorView::CyclicTemplateReference(path),
    ));
    assert(spec_resolve_templates(y.templates, Seq::empty(), ps, v2) == Err::<
        Seq<ComponentView>,
        ErrorView,
    >(ErrorView::CyclicTemplateReference(path)));
    assert(spec_resolve(y, ps, v1) == Err::<Seq<ComponentView>, ErrorView>(
        ErrorView::CyclicTemplateReference(path),
    ));
    assert(spec_resolve_templates(x.templates, Seq::empty(), ps, v1) == Err::<
        Seq<ComponentView>,
        ErrorView,
    >(ErrorView::CyclicTemplateReference(path)));
}


/// Inherited-before-own ordering: for a prototype with one plain template
/// whose component types are all distinct from the prototype's own, the
/// resolved list is the template's components followed by the prototype's
/// own components, in their original orders.
pub proof fn lemma_template_components_precede_own(
    p: PrototypeView,
    a: PrototypeView,
    ps: Seq<PrototypeView>,
)
    requires
        lookup_has(ps, a.name),
        lookup_proto(ps, a.name) == a,
        p.templates == seq![a.name],
        a.templates.len() == 0,
        p.name != a.name,
        unique_types(a.components),
        unique_types(p.components),
        forall|i: int|
            0 <= i < p.components.len() ==> !has_type(
                a.components,
                (#[trigger] p.components[i]).type_id,
            ),
    ensures
        spec_resolve(p, ps, Seq::empty()) == Ok::<Seq<ComponentView>, ErrorView>(
            a.components + p.components,
        ),
{
    let v0 = Seq::<Seq<char>>::empty();
    assert(visiting_ok(ps, v0));
    assert(!v0.contains(p.name));
    let v1 = v0.push(p.name);
    lemma_visiting_push(ps, v0, p.name);

    assert(!v1.contains(a.name)) by {
        assert(v1.len() == 1 && v1[0] == p.name);
    }
    lemma_visiting_push(ps, v1, a.name);
    let v2 = v1.push(a.name);
    assert(a.templates =~= Seq::<Seq<char>>::empty());
    assert(spec_resolve_templates(a.templates, Seq::empty(), ps, v2) == Ok::<
        Seq<ComponentView>,
        ErrorView,
    >(Seq::<ComponentView>::empty()));
    lemma_merge_disjoint_append(Seq::<ComponentView>::empty(), a.components);
    assert(Seq::<ComponentView>::empty() + a.components =~= a.components);
    assert(spec_resolve(a, ps, v1) == Ok::<Seq<ComponentView>, ErrorView>(a.components));

    assert(p.templates[0] == a.name);
    assert(p.templates.drop_first() =~= Seq::<Seq<char>>::empty());
    assert(spec_resolve_templates(
        Seq::<Seq<char>>::empty(),
        merge_override(Seq::<ComponentView>::empty(), a.components),
        ps,
        v1,
    ) == Ok::<Seq<ComponentView>, ErrorView>(a.components));
    assert(spec_resolve_templates(p.templates, Seq::empty(), ps, v1) == Ok::<
        Seq<ComponentView>,
        ErrorView,
    >(a.components));
    lemma_merge_disjoint_append(a.components, p.components);
    assert(spec_resolve(p, ps, v0) == Ok::<Seq<ComponentView>, ErrorView>(
        a.components + p.components,
    ));
}

} // verus!
