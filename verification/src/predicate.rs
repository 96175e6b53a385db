//! Dependency analysis of a declaration's constraints.
//!
//! Every inline bound is restated as a where-clause predicate so that all
//! constraints live in one uniform list; each predicate is then paired with
//! the set of declared parameters it mentions. The closure engine consumes
//! these pairs.

use vstd::prelude::*;

use crate::generics::{
    declared_set, has_inline_bounds, inline_pred, inline_preds, normalized_preds, pred_mentions,
    GenericParam, Generics, Predicate,
};
use crate::param::{param_set, GParam, Param};
use crate::visitor::ParamVisitor;
use crate::ExpandError;

verus! {

/// One constraint together with the declared parameters it relies on.
pub struct PredicateDependency {
    /// The normalized predicate, such as `T: Debug` or `Option<T>: Clone`.
    pub predicate: Predicate,
    /// The declared parameters used inside this predicate; for
    /// `Option<T>: Iterator<Item = U>` these are `T` and `U`.
    pub used_params: Vec<Param>,
}

/// The parameters a dependency records, as a set of identities.
pub open spec fn dep_used(d: PredicateDependency) -> Set<GParam> {
    param_set(d.used_params@)
}

/// Whether a dependency list matches a declaration: one entry per
/// normalized predicate, carrying exactly the declared parameters that the
/// predicate mentions.
pub open spec fn deps_match(deps: Seq<PredicateDependency>, g: crate::generics::VGenerics) -> bool {
    &&& deps.len() == normalized_preds(g).len()
    &&& forall|i: int|
        0 <= i < deps.len() ==> (#[trigger] deps[i].predicate)@ == normalized_preds(g)[i]
    &&& forall|i: int|
        0 <= i < deps.len() ==> dep_used(#[trigger] deps[i]) == pred_mentions(
            normalized_preds(g)[i],
        ).intersect(declared_set(g))
}

/// The used-parameter set of each predicate in a list: its mentions
/// restricted to the declared parameters.
pub open spec fn pred_used_seq(norm: Seq<crate::generics::VPredicate>, decl: Set<GParam>) -> Seq<
    Set<GParam>,
> {
    Seq::new(norm.len(), |i: int| pred_mentions(norm[i]).intersect(decl))
}

/// The predicates of a normalized list that touch an active set, verbatim
/// and in order.
pub open spec fn retained_norm(
    norm: Seq<crate::generics::VPredicate>,
    decl: Set<GParam>,
    a: Set<GParam>,
) -> Seq<crate::generics::VPredicate>
    decreases norm,
{
    if norm.len() == 0 {
        Seq::empty()
    } else {
        retained_norm(norm.drop_last(), decl, a) + (if crate::closure::intersects(
            pred_mentions(norm.last()).intersect(decl),
            a,
        ) {
            seq![norm.last()]
        } else {
            Seq::empty()
        })
    }
}

/// On a dependency list that matches a normalized predicate list, the
/// retained predicates agree.
pub proof fn lemma_retained_norm_equiv(
    deps: Seq<PredicateDependency>,
    norm: Seq<crate::generics::VPredicate>,
    decl: Set<GParam>,
    a: Set<GParam>,
)
    requires
        deps.len() == norm.len(),
        forall|i: int| 0 <= i < deps.len() ==> (#[trigger] deps[i].predicate)@ == norm[i],
        forall|i: int|
            0 <= i < deps.len() ==> dep_used(#[trigger] deps[i]) == pred_mentions(
                norm[i],
            ).intersect(decl),
    ensures
        crate::generics::retained_preds(deps, a) == retained_norm(norm, decl, a),
    decreases deps,
{
    if deps.len() > 0 {
        lemma_retained_norm_equiv(deps.drop_last(), norm.drop_last(), decl, a);
        assert(deps.last() == deps[deps.len() - 1]);
        assert(norm.last() == norm[norm.len() - 1]);
    }
}

/// Analyzes a declaration: converts every inline bound into a where
/// predicate, appends the explicit where-clause predicates, and pairs each
/// resulting predicate with the declared parameters it mentions. Fails
/// exactly when the where clause holds an equality predicate, which this
/// analysis has no semantics for.
pub fn analyze_generics(generics: &Generics) -> (r: Result<Vec<PredicateDependency>, ExpandError>)
    ensures
        match r {
            Ok(deps) => {
                &&& deps_match(deps@, generics@)
                &&& forall|i: int|
                    0 <= i < normalized_preds(generics@).len() ==> !(#[trigger] normalized_preds(
                        generics@,
                    )[i] is Equality)
            },
            Err(e) => {
                &&& e == ExpandError::UnsupportedPredicate
                &&& exists|i: int|
                    0 <= i < normalized_preds(generics@).len() && (#[trigger] normalized_preds(
                        generics@,
                    )[i] is Equality)
            },
        },
{
    let ghost gps = crate::generics::gparam_seq_view(generics.params@);
    let ghost norm = normalized_preds(generics@);
    let mut deps: Vec<PredicateDependency> = Vec::new();

    // Inline bounds first, in declaration order.
    let mut i: usize = 0;
    proof {
        assert(inline_preds(gps.take(0)) =~= Seq::<crate::generics::VPredicate>::empty());
    }
    while i < generics.params.len()
        invariant
            0 <= i <= generics.params@.len(),
            gps == crate::generics::gparam_seq_view(generics.params@),
            gps.len() == generics.params@.len(),
            deps@.len() == inline_preds(gps.take(i as int)).len(),
            forall|k: int|
                0 <= k < deps@.len() ==> (#[trigger] deps@[k].predicate)@ == inline_preds(
                    gps.take(i as int),
                )[k],
            forall|k: int|
                0 <= k < deps@.len() ==> dep_used(#[trigger] deps@[k]) == pred_mentions(
                    inline_preds(gps.take(i as int))[k],
                ).intersect(declared_set(generics@)),
        decreases generics.params@.len() - i,
    {
        let has_bounds: bool = match &generics.params[i] {
            GenericParam::Lifetime { bounds, .. } => bounds.len() > 0,
            GenericParam::Type { bounds, .. } => bounds.len() > 0,
            GenericParam::Const { .. } => false,
        };
        proof {
            assert(gps[i as int] == generics.params@[i as int]@);
            assert(has_bounds == has_inline_bounds(gps[i as int]));
            crate::generics::lemma_inline_preds_take(gps, i as int);
        }
        if has_bounds {
            let pr = crate::generics::inline_predicate(&generics.params[i]);
            let mut vis = ParamVisitor::new(generics);
            vis.visit_predicate(&pr);
            proof {
                assert(param_set(vis.found@) =~= pred_mentions(pr@).intersect(
                    declared_set(generics@),
                ));
            }
            deps.push(PredicateDependency { predicate: pr, used_params: vis.found });
        }
        i += 1;
    }
    proof {
        assert(gps.take(gps.len() as int) =~= gps);
    }

    // Then the explicit where-clause predicates, as they stand.
    let ghost ilen = inline_preds(gps).len();
    let mut j: usize = 0;
    while j < generics.where_clause.len()
        invariant
            0 <= j <= generics.where_clause@.len(),
            gps == crate::generics::gparam_seq_view(generics.params@),
            norm == normalized_preds(generics@),
            ilen == inline_preds(gps).len(),
            norm.len() == ilen + generics.where_clause@.len(),
            forall|k: int|
                ilen <= k < norm.len() ==> norm[k] == crate::generics::pred_view(
                    generics.where_clause@[k - ilen],
                ),
            deps@.len() == ilen + j,
            forall|k: int|
                0 <= k < deps@.len() ==> (#[trigger] deps@[k].predicate)@ == norm[k],
            forall|k: int|
                0 <= k < deps@.len() ==> dep_used(#[trigger] deps@[k]) == pred_mentions(
                    norm[k],
                ).intersect(declared_set(generics@)),
            forall|k: int| ilen <= k < ilen + j ==> !(#[trigger] norm[k] is Equality),
        decreases generics.where_clause@.len() - j,
    {
        let p = &generics.where_clause[j];
        match p {
            Predicate::Equality { .. } => {
                proof {
                    assert(norm[ilen + j as int] is Equality);
                }
                return Err(ExpandError::UnsupportedPredicate);
            },
            _ => {},
        }
        let pr = p.clone();
        let mut vis = ParamVisitor::new(generics);
        vis.visit_predicate(&pr);
        proof {
            assert(param_set(vis.found@) =~= pred_mentions(pr@).intersect(
                declared_set(generics@),
            ));
            assert(pr@ == norm[ilen + j as int]);
        }
        deps.push(PredicateDependency { predicate: pr, used_params: vis.found });
        j += 1;
    }
    proof {
        crate::generics::lemma_inline_preds_not_equality(gps);
        assert(forall|k: int| 0 <= k < ilen ==> !(#[trigger] norm[k] is Equality));
    }
    Ok(deps)
}

} // verus!
