//! The reachability engine.
//!
//! Given a seed set of parameters (those mentioned directly by the selected
//! variants' field types) and the dependency list of the declaration's
//! predicates, computes the least set of parameters that contains the seed
//! and is closed under "if a predicate mentions an active parameter, every
//! parameter it mentions is active" — together with exactly the predicates
//! that touch that set.

use vstd::prelude::*;

use crate::param::{contains_param, insert_param, param_set, GParam, Param};
use crate::predicate::{dep_used, PredicateDependency};

verus! {

/// Whether two parameter sets share an element.
pub open spec fn intersects(x: Set<GParam>, y: Set<GParam>) -> bool {
    exists|p: GParam| #[trigger] x.contains(p) && y.contains(p)
}

/// The used-parameter sets of a dependency list, in order.
pub open spec fn used_seq(deps: Seq<PredicateDependency>) -> Seq<Set<GParam>> {
    Seq::new(deps.len(), |i: int| dep_used(deps[i]))
}

/// A parameter set is closed under a dependency list when every dependency
/// that touches the set is wholly contained in it.
pub open spec fn closed(us: Seq<Set<GParam>>, a: Set<GParam>) -> bool {
    forall|i: int| 0 <= i < us.len() && intersects(#[trigger] us[i], a) ==> us[i].subset_of(a)
}

/// The least fixed point: the intersection of every closed superset of the
/// seed.
pub open spec fn closure_set(seed: Set<GParam>, us: Seq<Set<GParam>>) -> Set<GParam> {
    Set::new(
        |p: GParam|
            forall|b: Set<GParam>|
                seed.subset_of(b) && closed(us, b) ==> #[trigger] b.contains(p),
    )
}

/// The closure contains the seed.
pub proof fn lemma_closure_contains_seed(seed: Set<GParam>, us: Seq<Set<GParam>>)
    ensures
        seed.subset_of(closure_set(seed, us)),
{
}

/// The closure is contained in every closed superset of the seed.
pub proof fn lemma_closure_least(seed: Set<GParam>, us: Seq<Set<GParam>>, b: Set<GParam>)
    requires
        seed.subset_of(b),
        closed(us, b),
    ensures
        closure_set(seed, us).subset_of(b),
{
}

/// The closure is itself closed.
pub proof fn lemma_closure_closed(seed: Set<GParam>, us: Seq<Set<GParam>>)
    ensures
        closed(us, closure_set(seed, us)),
{
    let c = closure_set(seed, us);
    assert forall|i: int| 0 <= i < us.len() && intersects(#[trigger] us[i], c) implies (us[
        i
    ]).subset_of(c) by {
        let p = choose|p: GParam| #[trigger] us[i].contains(p) && c.contains(p);
        assert forall|q: GParam| us[i].contains(q) implies c.contains(q) by {
            assert forall|b: Set<GParam>| seed.subset_of(b) && closed(us, b) implies #[trigger] b
                .contains(q) by {
                assert(b.contains(p));
                assert(intersects(us[i], b));
            }
        }
    }
}

/// The closure of a union of seeds is the union of the closures: two
/// children's reductions put together retain exactly the parameters and
/// predicates that a reduction over both variant sets at once retains.
pub proof fn lemma_closure_union(sa: Set<GParam>, sb: Set<GParam>, us: Seq<Set<GParam>>)
    ensures
        closure_set(sa + sb, us) == closure_set(sa, us) + closure_set(sb, us),
{
    let ca = closure_set(sa, us);
    let cb = closure_set(sb, us);
    let cu = ca + cb;
    lemma_closure_closed(sa, us);
    lemma_closure_closed(sb, us);
    lemma_closure_contains_seed(sa, us);
    lemma_closure_contains_seed(sb, us);
    assert forall|i: int| 0 <= i < us.len() && intersects(#[trigger] us[i], cu) implies (us[
        i
    ]).subset_of(cu) by {
        let p = choose|p: GParam| #[trigger] us[i].contains(p) && cu.contains(p);
        if ca.contains(p) {
            assert(intersects(us[i], ca));
        } else {
            assert(cb.contains(p));
            assert(intersects(us[i], cb));
        }
    }
    assert(closed(us, cu));
    assert((sa + sb).subset_of(cu));
    lemma_closure_least(sa + sb, us, cu);
    lemma_closure_closed(sa + sb, us);
    lemma_closure_contains_seed(sa + sb, us);
    assert(sa.subset_of(closure_set(sa + sb, us)));
    assert(sb.subset_of(closure_set(sa + sb, us)));
    lemma_closure_least(sa, us, closure_set(sa + sb, us));
    lemma_closure_least(sb, us, closure_set(sa + sb, us));
    assert(closure_set(sa + sb, us) =~= cu);
}

/// An intersecting set still intersects any superset.
proof fn lemma_intersects_mono(x: Set<GParam>, a: Set<GParam>, b: Set<GParam>)
    requires
        intersects(x, a),
        a.subset_of(b),
    ensures
        intersects(x, b),
{
    let p = choose|p: GParam| #[trigger] x.contains(p) && a.contains(p);
    assert(x.contains(p) && b.contains(p));
}

/// The number of entries still unconsumed.
spec fn count_false(s: Seq<bool>) -> nat
    decreases s,
{
    if s.len() == 0 {
        0
    } else {
        count_false(s.drop_last()) + (if s.last() {
            0nat
        } else {
            1nat
        })
    }
}

proof fn lemma_count_false_update(s: Seq<bool>, i: int)
    requires
        0 <= i < s.len(),
        !s[i],
    ensures
        count_false(s.update(i, true)) + 1 == count_false(s),
    decreases s,
{
    if i == s.len() - 1 {
        assert(s.update(i, true).drop_last() =~= s.drop_last());
        assert(s.update(i, true).last());
    } else {
        assert(s.update(i, true).drop_last() =~= s.drop_last().update(i, true));
        assert(s.update(i, true).last() == s.last());
        lemma_count_false_update(s.drop_last(), i);
    }
}

/// Whether two parameter vectors share an identity.
pub fn vec_intersects(xs: &Vec<Param>, ys: &Vec<Param>) -> (b: bool)
    ensures
        b == intersects(param_set(xs@), param_set(ys@)),
{
    let mut i: usize = 0;
    while i < xs.len()
        invariant
            0 <= i <= xs@.len(),
            forall|j: int| 0 <= j < i ==> !param_set(ys@).contains(#[trigger] xs@[j]@),
        decreases xs@.len() - i,
    {
        if contains_param(ys, &xs[i]) {
            assert(param_set(xs@).contains(xs@[i as int]@));
            return true;
        }
        i += 1;
    }
    proof {
        if intersects(param_set(xs@), param_set(ys@)) {
            let p = choose|p: GParam| #[trigger] param_set(xs@).contains(p) && param_set(
                ys@,
            ).contains(p);
            let j = choose|j: int| 0 <= j < xs@.len() && #[trigger] xs@[j]@ == p;
        }
    }
    false
}

/// Inserts every parameter of `ps` into `active`.
fn absorb_params(active: &mut Vec<Param>, ps: &Vec<Param>)
    ensures
        param_set(final(active)@) == param_set(old(active)@) + param_set(ps@),
{
    let ghost act0 = param_set(old(active)@);
    let mut k: usize = 0;
    proof {
        assert(param_set(active@) =~= act0 + param_set(ps@.take(0)));
    }
    while k < ps.len()
        invariant
            0 <= k <= ps@.len(),
            param_set(active@) == act0 + param_set(ps@.take(k as int)),
        decreases ps@.len() - k,
    {
        insert_param(active, ps[k].clone());
        proof {
            crate::param::lemma_param_set_take(ps@, k as int);
            assert(param_set(active@) =~= act0 + param_set(ps@.take(k as int + 1)));
        }
        k += 1;
    }
    proof {
        assert(ps@.take(ps@.len() as int) =~= ps@);
    }
}

/// Computes the transitive closure of the seed under the dependency list,
/// by fixed-point iteration: whenever a not-yet-consumed dependency shares
/// a parameter with the active set, its parameters join the active set and
/// the dependency is consumed; iteration stops when a full pass changes
/// nothing. Returns the active parameters and the indices (ascending) of
/// the dependencies that touch them.
pub fn compute_closure(seed: &Vec<Param>, dependencies: &Vec<PredicateDependency>) -> (r: (
    Vec<Param>,
    Vec<usize>,
))
    ensures
        param_set(r.0@) == closure_set(param_set(seed@), used_seq(dependencies@)),
        forall|k: int| 0 <= k < r.1@.len() ==> (#[trigger] r.1@[k]) < dependencies@.len(),
        forall|k1: int, k2: int| 0 <= k1 < k2 < r.1@.len() ==> r.1@[k1] < r.1@[k2],
        forall|i: usize|
            i < dependencies@.len() ==> (r.1@.contains(i) <==> intersects(
                used_seq(dependencies@)[i as int],
                closure_set(param_set(seed@), used_seq(dependencies@)),
            )),
{
    let ghost seed_set = param_set(seed@);
    let ghost us = used_seq(dependencies@);
    let n = dependencies.len();

    let mut active: Vec<Param> = Vec::new();
    absorb_params(&mut active, seed);
    proof {
        assert(param_set(active@) =~= seed_set);
    }

    let mut consumed: Vec<bool> = Vec::new();
    let mut c: usize = 0;
    while c < n
        invariant
            0 <= c <= n,
            consumed@.len() == c,
            forall|i: int| 0 <= i < c ==> !(#[trigger] consumed@[i]),
        decreases n - c,
    {
        consumed.push(false);
        c += 1;
    }

    let mut changed = true;
    while changed
        invariant
            n == dependencies@.len(),
            us == used_seq(dependencies@),
            consumed@.len() == n,
            seed_set.subset_of(param_set(active@)),
            forall|i: int|
                0 <= i < n && #[trigger] consumed@[i] ==> us[i].subset_of(param_set(active@)),
            forall|i: int|
                0 <= i < n && #[trigger] consumed@[i] ==> intersects(us[i], param_set(active@)),
            forall|b: Set<GParam>|
                seed_set.subset_of(b) && #[trigger] closed(us, b) ==> param_set(
                    active@,
                ).subset_of(b),
            !changed ==> forall|i: int|
                0 <= i < n && !(#[trigger] consumed@[i]) ==> !intersects(
                    us[i],
                    param_set(active@),
                ),
        decreases count_false(consumed@) + (if changed {
            1int
        } else {
            0int
        }),
    {
        let ghost count0 = count_false(consumed@);
        changed = false;
        let ghost act_pass = active@;
        let ghost cons_pass = consumed@;
        let mut i: usize = 0;
        while i < n
            invariant
                0 <= i <= n,
                n == dependencies@.len(),
                us == used_seq(dependencies@),
                consumed@.len() == n,
                seed_set.subset_of(param_set(active@)),
                forall|j: int|
                    0 <= j < n && #[trigger] consumed@[j] ==> us[j].subset_of(param_set(active@)),
                forall|j: int|
                    0 <= j < n && #[trigger] consumed@[j] ==> intersects(
                        us[j],
                        param_set(active@),
                    ),
                forall|b: Set<GParam>|
                    seed_set.subset_of(b) && #[trigger] closed(us, b) ==> param_set(
                        active@,
                    ).subset_of(b),
                count_false(consumed@) <= count0,
                changed ==> count_false(consumed@) < count0,
                !changed ==> active@ == act_pass && consumed@ == cons_pass,
                !changed ==> forall|j: int|
                    0 <= j < i && !(#[trigger] consumed@[j]) ==> !intersects(
                        us[j],
                        param_set(active@),
                    ),
            decreases n - i,
        {
            let touch = {
                if !consumed[i] {
                    vec_intersects(&dependencies[i].used_params, &active)
                } else {
                    false
                }
            };
            if touch {
                let ghost act_before = param_set(active@);
                proof {
                    assert(us[i as int] == dep_used(dependencies@[i as int]));
                    lemma_count_false_update(consumed@, i as int);
                }
                consumed.set(i, true);
                absorb_params(&mut active, &dependencies[i].used_params);
                changed = true;
                proof {
                    let act_after = param_set(active@);
                    assert(act_after == act_before + us[i as int]);
                    // The lower-bound invariant survives the union.
                    assert forall|b: Set<GParam>|
                        seed_set.subset_of(b) && #[trigger] closed(us, b) implies act_after.subset_of(
                        b,
                    ) by {
                        assert(act_before.subset_of(b));
                        lemma_intersects_mono(us[i as int], act_before, b);
                        assert(us[i as int].subset_of(b));
                    }
                    // Every previously consumed dependency still touches and
                    // is still contained: the active set only grew.
                    assert forall|j: int|
                        0 <= j < n && #[trigger] consumed@[j] implies us[j].subset_of(act_after)
                        && intersects(us[j], act_after) by {
                        if j != i {
                            lemma_intersects_mono(us[j], act_before, act_after);
                        } else {
                            lemma_intersects_mono(us[i as int], act_before, act_after);
                        }
                    }
                }
            }
            i += 1;
        }
    }

    // The active set is now closed, contains the seed, and sits below every
    // closed superset of the seed: it is the least fixed point.
    proof {
        let act = param_set(active@);
        assert forall|i: int| 0 <= i < us.len() && intersects(#[trigger] us[i], act) implies (us[
            i
        ]).subset_of(act) by {
            assert(consumed@[i]);
        }
        assert(closed(us, act));
        lemma_closure_least(seed_set, us, act);
        assert forall|p: GParam| act.contains(p) implies closure_set(seed_set, us).contains(
            p,
        ) by {
            assert forall|b: Set<GParam>|
                seed_set.subset_of(b) && closed(us, b) implies #[trigger] b.contains(p) by {
                assert(act.subset_of(b));
            }
        }
        assert(act =~= closure_set(seed_set, us));
    }

    let mut picked: Vec<usize> = Vec::new();
    let mut i: usize = 0;
    while i < n
        invariant
            0 <= i <= n,
            n == dependencies@.len(),
            consumed@.len() == n,
            forall|k: int| 0 <= k < picked@.len() ==> (#[trigger] picked@[k]) < i,
            forall|k1: int, k2: int| 0 <= k1 < k2 < picked@.len() ==> picked@[k1] < picked@[k2],
            forall|j: usize| j < i ==> (picked@.contains(j) <==> consumed@[j as int]),
        decreases n - i,
    {
        if consumed[i] {
            let ghost picked0 = picked@;
            picked.push(i);
            proof {
                assert forall|j: usize| j < i + 1 implies (picked@.contains(j)
                    <==> consumed@[j as int]) by {
                    if j < i {
                        if picked0.contains(j) {
                            let k = choose|k: int|
                                0 <= k < picked0.len() && #[trigger] picked0[k] == j;
                            assert(picked@[k] == j);
                        }
                        if picked@.contains(j) {
                            let k = choose|k: int|
                                0 <= k < picked@.len() && #[trigger] picked@[k] == j;
                            assert(k < picked0.len());
                        }
                    } else {
                        assert(picked@[picked@.len() - 1] == i);
                    }
                }
            }
        } else {
            proof {
                assert forall|j: usize| j < i + 1 implies (picked@.contains(j)
                    <==> consumed@[j as int]) by {
                    if j == i && picked@.contains(j) {
                        let k = choose|k: int| 0 <= k < picked@.len() && #[trigger] picked@[k] == j;
                    }
                }
            }
        }
        i += 1;
    }

    let ghost cl = closure_set(seed_set, us);
    proof {
        assert forall|i2: usize| i2 < dependencies@.len() implies (picked@.contains(i2)
            <==> intersects(us[i2 as int], cl)) by {
            if consumed@[i2 as int] {
                assert(intersects(us[i2 as int], param_set(active@)));
            } else {
                assert(!intersects(us[i2 as int], param_set(active@)));
            }
        }
    }
    (active, picked)
}

} // verus!
