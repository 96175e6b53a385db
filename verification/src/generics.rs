//! Generic parameter declarations, bounds and where-clause predicates.

use vstd::prelude::*;

use crate::param::{param_set, GParam, Param};
use crate::ty::{
    bound_seq_view, seg_seq_view, type_view, Bound, PathSeg, SegArgs, TypeExpr, VBound, VPathSeg,
    VSegArgs, VTypeExpr,
};

verus! {

/// One declared generic parameter, with the bounds attached at the
/// declaration site: `'a: 'b`, `T: Clone + 'a`, `const N: usize`.
#[derive(Debug, PartialEq)]
pub enum GenericParam {
    Lifetime { name: String, bounds: Vec<String> },
    Type { name: String, bounds: Vec<Bound> },
    Const { name: String, ty: TypeExpr },
}

/// One where-clause predicate. The bounded subject of a type predicate may
/// be a compound type expression (`Option<T>: Clone`, `P::Out: Eq`).
/// Equality predicates (`T = U`) are representable so that input carrying
/// them can be rejected explicitly; no stage accepts them.
#[derive(Debug, PartialEq)]
pub enum Predicate {
    Type { subject: TypeExpr, bounds: Vec<Bound> },
    Lifetime { lifetime: String, bounds: Vec<String> },
    Equality { lhs: TypeExpr, rhs: TypeExpr },
}

/// A full generic-parameter declaration: the ordered parameter list and the
/// where clause. An empty `where_clause` means the declaration carries no
/// where clause.
#[derive(Debug, PartialEq)]
pub struct Generics {
    pub params: Vec<GenericParam>,
    pub where_clause: Vec<Predicate>,
}

/// Spec model of [`GenericParam`].
pub ghost enum VGenericParam {
    Lifetime { name: Seq<char>, bounds: Seq<Seq<char>> },
    Type { name: Seq<char>, bounds: Seq<VBound> },
    Const { name: Seq<char>, ty: VTypeExpr },
}

/// Spec model of [`Predicate`].
pub ghost enum VPredicate {
    Type { subject: VTypeExpr, bounds: Seq<VBound> },
    Lifetime { lifetime: Seq<char>, bounds: Seq<Seq<char>> },
    Equality { lhs: VTypeExpr, rhs: VTypeExpr },
}

/// Spec model of [`Generics`].
pub ghost struct VGenerics {
    pub params: Seq<VGenericParam>,
    pub where_clause: Seq<VPredicate>,
}

/// View of a sequence of strings as a sequence of character sequences.
pub open spec fn str_seq_view(s: Seq<String>) -> Seq<Seq<char>> {
    Seq::new(s.len(), |i: int| s[i]@)
}

pub open spec fn gparam_view(p: GenericParam) -> VGenericParam {
    match p {
        GenericParam::Lifetime { name, bounds } => VGenericParam::Lifetime {
            name: name@,
            bounds: str_seq_view(bounds@),
        },
        GenericParam::Type { name, bounds } => VGenericParam::Type {
            name: name@,
            bounds: bound_seq_view(bounds@),
        },
        GenericParam::Const { name, ty } => VGenericParam::Const {
            name: name@,
            ty: type_view(ty),
        },
    }
}

pub open spec fn gparam_seq_view(s: Seq<GenericParam>) -> Seq<VGenericParam> {
    Seq::new(s.len(), |i: int| gparam_view(s[i]))
}

pub open spec fn pred_view(p: Predicate) -> VPredicate {
    match p {
        Predicate::Type { subject, bounds } => VPredicate::Type {
            subject: type_view(subject),
            bounds: bound_seq_view(bounds@),
        },
        Predicate::Lifetime { lifetime, bounds } => VPredicate::Lifetime {
            lifetime: lifetime@,
            bounds: str_seq_view(bounds@),
        },
        Predicate::Equality { lhs, rhs } => VPredicate::Equality {
            lhs: type_view(lhs),
            rhs: type_view(rhs),
        },
    }
}

pub open spec fn pred_seq_view(s: Seq<Predicate>) -> Seq<VPredicate> {
    Seq::new(s.len(), |i: int| pred_view(s[i]))
}

impl View for GenericParam {
    type V = VGenericParam;

    open spec fn view(&self) -> VGenericParam {
        gparam_view(*self)
    }
}

impl View for Predicate {
    type V = VPredicate;

    open spec fn view(&self) -> VPredicate {
        pred_view(*self)
    }
}

impl View for Generics {
    type V = VGenerics;

    open spec fn view(&self) -> VGenerics {
        VGenerics { params: gparam_seq_view(self.params@), where_clause: pred_seq_view(self.where_clause@) }
    }
}

/// The parameter identity a declared generic parameter introduces.
pub open spec fn vparam_name(p: VGenericParam) -> GParam {
    match p {
        VGenericParam::Lifetime { name, .. } => GParam::Lifetime(name),
        VGenericParam::Type { name, .. } => GParam::Ident(name),
        VGenericParam::Const { name, .. } => GParam::Ident(name),
    }
}

/// The ordered identities a declaration introduces.
pub open spec fn declared_seq(s: Seq<VGenericParam>) -> Seq<GParam> {
    Seq::new(s.len(), |i: int| vparam_name(s[i]))
}

/// The set of identities a declaration introduces.
pub open spec fn declared_set(g: VGenerics) -> Set<GParam> {
    Set::new(
        |gp: GParam|
            exists|i: int|
                0 <= i < g.params.len() && vparam_name(#[trigger] g.params[i]) == gp,
    )
}

/// The lifetime parameters named by a lifetime-bound list.
pub open spec fn lt_bound_mentions(s: Seq<Seq<char>>) -> Set<GParam> {
    Set::new(
        |gp: GParam|
            exists|i: int| 0 <= i < s.len() && gp == GParam::Lifetime(#[trigger] s[i]),
    )
}

pub proof fn lemma_lt_bound_mentions_push(s: Seq<Seq<char>>, n: Seq<char>)
    ensures
        lt_bound_mentions(s.push(n)) == lt_bound_mentions(s).insert(GParam::Lifetime(n)),
{
    assert forall|gp: GParam| lt_bound_mentions(s.push(n)).contains(gp) implies lt_bound_mentions(
        s,
    ).insert(GParam::Lifetime(n)).contains(gp) by {
        let i = choose|i: int| 0 <= i < s.push(n).len() && gp == GParam::Lifetime(
            #[trigger] s.push(n)[i],
        );
        if i < s.len() {
            assert(gp == GParam::Lifetime(s[i]));
        }
    }
    assert forall|gp: GParam|
        lt_bound_mentions(s).insert(GParam::Lifetime(n)).contains(gp) implies lt_bound_mentions(
        s.push(n),
    ).contains(gp) by {
        if lt_bound_mentions(s).contains(gp) {
            let i = choose|i: int| 0 <= i < s.len() && gp == GParam::Lifetime(#[trigger] s[i]);
            assert(gp == GParam::Lifetime(s.push(n)[i]));
        } else {
            assert(gp == GParam::Lifetime(s.push(n)[s.len() as int]));
        }
    }
    assert(lt_bound_mentions(s.push(n)) =~= lt_bound_mentions(s).insert(GParam::Lifetime(n)));
}

pub proof fn lemma_lt_bound_mentions_take(s: Seq<Seq<char>>, i: int)
    requires
        0 <= i < s.len(),
    ensures
        lt_bound_mentions(s.take(i + 1)) == lt_bound_mentions(s.take(i)).insert(
            GParam::Lifetime(s[i]),
        ),
{
    assert(s.take(i + 1) =~= s.take(i).push(s[i]));
    lemma_lt_bound_mentions_push(s.take(i), s[i]);
}

/// Every parameter a predicate mentions, over both its bounded subject and
/// its bound list.
pub open spec fn pred_mentions(p: VPredicate) -> Set<GParam> {
    match p {
        VPredicate::Type { subject, bounds } => crate::extractor::type_mentions(subject)
            + crate::extractor::bound_seq_mentions(bounds),
        VPredicate::Lifetime { lifetime, bounds } => lt_bound_mentions(bounds).insert(
            GParam::Lifetime(lifetime),
        ),
        VPredicate::Equality { lhs, rhs } => crate::extractor::type_mentions(lhs)
            + crate::extractor::type_mentions(rhs),
    }
}

/// Whether a declared parameter carries inline bounds that normalization
/// must restate as a where-clause predicate.
pub open spec fn has_inline_bounds(p: VGenericParam) -> bool {
    match p {
        VGenericParam::Lifetime { bounds, .. } => bounds.len() > 0,
        VGenericParam::Type { bounds, .. } => bounds.len() > 0,
        VGenericParam::Const { .. } => false,
    }
}

/// A bare single-segment path naming a parameter, used as the subject of a
/// normalized inline bound.
pub open spec fn bare_path(name: Seq<char>) -> VTypeExpr {
    VTypeExpr::Path(
        Option::None,
        seq![VPathSeg { name: name, args: VSegArgs::Absent }],
    )
}

/// The where-clause predicate equivalent to a parameter's inline bounds.
pub open spec fn inline_pred(p: VGenericParam) -> VPredicate {
    match p {
        VGenericParam::Lifetime { name, bounds } => VPredicate::Lifetime {
            lifetime: name,
            bounds: bounds,
        },
        VGenericParam::Type { name, bounds } => VPredicate::Type {
            subject: bare_path(name),
            bounds: bounds,
        },
        VGenericParam::Const { name, .. } => VPredicate::Type {
            subject: bare_path(name),
            bounds: Seq::empty(),
        },
    }
}

/// The predicates contributed by inline bounds, in declaration order.
pub open spec fn inline_preds(s: Seq<VGenericParam>) -> Seq<VPredicate>
    decreases s,
{
    if s.len() == 0 {
        Seq::empty()
    } else {
        inline_preds(s.drop_last()) + (if has_inline_bounds(s.last()) {
            seq![inline_pred(s.last())]
        } else {
            Seq::empty()
        })
    }
}

/// The uniform predicate list of a declaration: every inline bound restated
/// as a where predicate, followed by the explicit where-clause predicates.
pub open spec fn normalized_preds(g: VGenerics) -> Seq<VPredicate> {
    inline_preds(g.params) + g.where_clause
}

pub proof fn lemma_inline_preds_take(s: Seq<VGenericParam>, i: int)
    requires
        0 <= i < s.len(),
    ensures
        inline_preds(s.take(i + 1)) == inline_preds(s.take(i)) + (if has_inline_bounds(s[i]) {
            seq![inline_pred(s[i])]
        } else {
            Seq::<VPredicate>::empty()
        }),
{
    assert(s.take(i + 1).drop_last() =~= s.take(i));
    assert(s.take(i + 1).last() == s[i]);
}

/// No predicate produced from inline bounds is an equality predicate.
pub proof fn lemma_inline_preds_not_equality(s: Seq<VGenericParam>)
    ensures
        forall|i: int|
            0 <= i < inline_preds(s).len() ==> !(#[trigger] inline_preds(s)[i] is Equality),
    decreases s,
{
    if s.len() > 0 {
        lemma_inline_preds_not_equality(s.drop_last());
    }
}

/// Builds the where-clause predicate equivalent to a parameter's inline
/// bounds.
pub fn inline_predicate(p: &GenericParam) -> (r: Predicate)
    ensures
        r@ == inline_pred(p@),
{
    match p {
        GenericParam::Lifetime { name, bounds } => Predicate::Lifetime {
            lifetime: name.clone(),
            bounds: clone_strs(bounds),
        },
        GenericParam::Type { name, bounds } => {
            let subject = TypeExpr::Path(
                Option::None,
                vec![PathSeg { name: name.clone(), args: SegArgs::Absent }],
            );
            proof {
                assert(seg_seq_view(subject->Path_1@) =~= seq![
                    VPathSeg { name: name@, args: VSegArgs::Absent },
                ]);
            }
            Predicate::Type { subject, bounds: clone_bounds(bounds) }
        },
        GenericParam::Const { name, .. } => {
            let subject = TypeExpr::Path(
                Option::None,
                vec![PathSeg { name: name.clone(), args: SegArgs::Absent }],
            );
            let bounds: Vec<Bound> = Vec::new();
            proof {
                assert(seg_seq_view(subject->Path_1@) =~= seq![
                    VPathSeg { name: name@, args: VSegArgs::Absent },
                ]);
                assert(bound_seq_view(bounds@) =~= Seq::<VBound>::empty());
            }
            Predicate::Type { subject, bounds }
        },
    }
}

fn clone_strs(v: &Vec<String>) -> (r: Vec<String>)
    ensures
        str_seq_view(r@) == str_seq_view(v@),
{
    let mut acc: Vec<String> = Vec::new();
    let mut i: usize = 0;
    while i < v.len()
        invariant
            0 <= i <= v@.len(),
            acc@.len() == i,
            forall|j: int| 0 <= j < i ==> acc@[j]@ == v@[j]@,
        decreases v@.len() - i,
    {
        acc.push(v[i].clone());
        i += 1;
    }
    proof {
        assert(str_seq_view(acc@) =~= str_seq_view(v@));
    }
    acc
}

fn clone_bounds(v: &Vec<Bound>) -> (r: Vec<Bound>)
    ensures
        bound_seq_view(r@) == bound_seq_view(v@),
{
    let mut acc: Vec<Bound> = Vec::new();
    let mut i: usize = 0;
    while i < v.len()
        invariant
            0 <= i <= v@.len(),
            acc@.len() == i,
            forall|j: int| 0 <= j < i ==> acc@[j]@ == v@[j]@,
        decreases v@.len() - i,
    {
        acc.push(v[i].clone());
        i += 1;
    }
    proof {
        assert(bound_seq_view(acc@) =~= bound_seq_view(v@));
    }
    acc
}

impl Clone for GenericParam {
    fn clone(&self) -> (r: Self)
        ensures
            r@ == self@,
    {
        match self {
            GenericParam::Lifetime { name, bounds } => GenericParam::Lifetime {
                name: name.clone(),
                bounds: clone_strs(bounds),
            },
            GenericParam::Type { name, bounds } => GenericParam::Type {
                name: name.clone(),
                bounds: clone_bounds(bounds),
            },
            GenericParam::Const { name, ty } => GenericParam::Const {
                name: name.clone(),
                ty: ty.clone(),
            },
        }
    }
}

impl Clone for Predicate {
    fn clone(&self) -> (r: Self)
        ensures
            r@ == self@,
    {
        match self {
            Predicate::Type { subject, bounds } => Predicate::Type {
                subject: subject.clone(),
                bounds: clone_bounds(bounds),
            },
            Predicate::Lifetime { lifetime, bounds } => Predicate::Lifetime {
                lifetime: lifetime.clone(),
                bounds: clone_strs(bounds),
            },
            Predicate::Equality { lhs, rhs } => Predicate::Equality {
                lhs: lhs.clone(),
                rhs: rhs.clone(),
            },
        }
    }
}

/// A declared parameter with its inline bounds removed.
pub open spec fn strip_bounds(p: VGenericParam) -> VGenericParam {
    match p {
        VGenericParam::Lifetime { name, .. } => VGenericParam::Lifetime {
            name: name,
            bounds: Seq::empty(),
        },
        VGenericParam::Type { name, .. } => VGenericParam::Type {
            name: name,
            bounds: Seq::empty(),
        },
        VGenericParam::Const { name, ty } => VGenericParam::Const { name: name, ty: ty },
    }
}

/// The projection of a parameter list to an active set: parameters kept in
/// declaration order, each with its inline bounds stripped.
pub open spec fn reduced_params(s: Seq<VGenericParam>, a: Set<GParam>) -> Seq<VGenericParam>
    decreases s,
{
    if s.len() == 0 {
        Seq::empty()
    } else {
        reduced_params(s.drop_last(), a) + (if a.contains(vparam_name(s.last())) {
            seq![strip_bounds(s.last())]
        } else {
            Seq::empty()
        })
    }
}

pub proof fn lemma_reduced_params_take(s: Seq<VGenericParam>, a: Set<GParam>, i: int)
    requires
        0 <= i < s.len(),
    ensures
        reduced_params(s.take(i + 1), a) == reduced_params(s.take(i), a) + (if a.contains(
            vparam_name(s[i]),
        ) {
            seq![strip_bounds(s[i])]
        } else {
            Seq::<VGenericParam>::empty()
        }),
{
    assert(s.take(i + 1).drop_last() =~= s.take(i));
    assert(s.take(i + 1).last() == s[i]);
}

/// The set of identities a parameter list introduces.
pub open spec fn names_of(s: Seq<VGenericParam>) -> Set<GParam>
    decreases s,
{
    if s.len() == 0 {
        Set::empty()
    } else {
        names_of(s.drop_last()).insert(vparam_name(s.last()))
    }
}

/// The recursive name set agrees with the declared set, member by member.
pub proof fn lemma_names_of_members(s: Seq<VGenericParam>)
    ensures
        forall|gp: GParam|
            names_of(s).contains(gp) <==> exists|i: int|
                0 <= i < s.len() && vparam_name(#[trigger] s[i]) == gp,
    decreases s,
{
    if s.len() > 0 {
        lemma_names_of_members(s.drop_last());
        assert forall|gp: GParam| names_of(s).contains(gp) implies exists|i: int|
            0 <= i < s.len() && vparam_name(#[trigger] s[i]) == gp by {
            if gp == vparam_name(s.last()) {
                assert(vparam_name(s[s.len() - 1]) == gp);
            } else {
                assert(names_of(s.drop_last()).contains(gp));
                assert(exists|i: int|
                    0 <= i < s.drop_last().len() && vparam_name(#[trigger] s.drop_last()[i])
                        == gp);
                let i = choose|i: int|
                    0 <= i < s.drop_last().len() && vparam_name(#[trigger] s.drop_last()[i]) == gp;
                assert(s.drop_last()[i] == s[i]);
                assert(vparam_name(s[i]) == gp);
            }
        }
        assert forall|gp: GParam|
            (exists|i: int| 0 <= i < s.len() && vparam_name(#[trigger] s[i]) == gp) implies names_of(
            s,
        ).contains(gp) by {
            let i = choose|i: int| 0 <= i < s.len() && vparam_name(#[trigger] s[i]) == gp;
            if i < s.len() - 1 {
                assert(vparam_name(s.drop_last()[i]) == gp);
                assert(exists|j: int|
                    0 <= j < s.drop_last().len() && vparam_name(#[trigger] s.drop_last()[j])
                        == gp);
                assert(names_of(s.drop_last()).contains(gp));
            } else {
                assert(gp == vparam_name(s.last()));
            }
        }
    }
}

/// The declared set of a declaration is the name set of its parameters.
pub proof fn lemma_declared_is_names(g: VGenerics)
    ensures
        declared_set(g) == names_of(g.params),
{
    lemma_names_of_members(g.params);
    assert(declared_set(g) =~= names_of(g.params));
}

/// The reduced parameter list introduces exactly the declared names that
/// lie in the active set.
pub proof fn lemma_reduced_params_names(s: Seq<VGenericParam>, a: Set<GParam>)
    ensures
        names_of(reduced_params(s, a)) == names_of(s).intersect(a),
    decreases s,
{
    if s.len() == 0 {
        assert(names_of(reduced_params(s, a)) =~= names_of(s).intersect(a));
    } else {
        lemma_reduced_params_names(s.drop_last(), a);
        if a.contains(vparam_name(s.last())) {
            let r = reduced_params(s.drop_last(), a) + seq![strip_bounds(s.last())];
            assert(reduced_params(s, a) == r);
            assert(r.drop_last() =~= reduced_params(s.drop_last(), a));
            assert(r.last() == strip_bounds(s.last()));
            assert(vparam_name(strip_bounds(s.last())) == vparam_name(s.last()));
            assert(names_of(reduced_params(s, a)) =~= names_of(s).intersect(a));
        } else {
            assert(reduced_params(s, a) =~= reduced_params(s.drop_last(), a));
            assert(names_of(reduced_params(s, a)) =~= names_of(s).intersect(a));
        }
    }
}

/// Every parameter the reducer keeps carries no inline bounds.
pub proof fn lemma_reduced_params_stripped(s: Seq<VGenericParam>, a: Set<GParam>)
    ensures
        forall|k: int|
            0 <= k < reduced_params(s, a).len() ==> !has_inline_bounds(
                #[trigger] reduced_params(s, a)[k],
            ),
    decreases s,
{
    if s.len() > 0 {
        lemma_reduced_params_stripped(s.drop_last(), a);
        assert forall|k: int| 0 <= k < reduced_params(s, a).len() implies !has_inline_bounds(
            #[trigger] reduced_params(s, a)[k],
        ) by {
            if k < reduced_params(s.drop_last(), a).len() {
                assert(reduced_params(s, a)[k] == reduced_params(s.drop_last(), a)[k]);
            } else {
                assert(reduced_params(s, a)[k] == strip_bounds(s.last()));
            }
        }
    }
}

/// The predicates of a dependency list that touch an active set, in order.
pub open spec fn retained_preds(
    deps: Seq<crate::predicate::PredicateDependency>,
    a: Set<GParam>,
) -> Seq<VPredicate>
    decreases deps,
{
    if deps.len() == 0 {
        Seq::empty()
    } else {
        retained_preds(deps.drop_last(), a) + (if crate::closure::intersects(
            crate::predicate::dep_used(deps.last()),
            a,
        ) {
            seq![deps.last().predicate@]
        } else {
            Seq::empty()
        })
    }
}

pub proof fn lemma_retained_preds_take(
    deps: Seq<crate::predicate::PredicateDependency>,
    a: Set<GParam>,
    i: int,
)
    requires
        0 <= i < deps.len(),
    ensures
        retained_preds(deps.take(i + 1), a) == retained_preds(deps.take(i), a) + (
        if crate::closure::intersects(crate::predicate::dep_used(deps[i]), a) {
            seq![deps[i].predicate@]
        } else {
            Seq::<VPredicate>::empty()
        }),
{
    assert(deps.take(i + 1).drop_last() =~= deps.take(i));
    assert(deps.take(i + 1).last() == deps[i]);
}

/// Projects a declaration down to an active parameter set: parameters are
/// kept in declaration order with inline bounds stripped (they live on as
/// where predicates), and the where clause holds exactly the predicates
/// that touch the active set, verbatim and in order. An empty result
/// where-clause means no where clause is emitted.
pub fn reduce(
    generics: &Generics,
    active_params: &Vec<Param>,
    deps: &Vec<crate::predicate::PredicateDependency>,
) -> (r: Generics)
    ensures
        r@.params == reduced_params(gparam_seq_view(generics.params@), param_set(active_params@)),
        r@.where_clause == retained_preds(deps@, param_set(active_params@)),
{
    let ghost act = param_set(active_params@);
    let ghost gps = gparam_seq_view(generics.params@);
    let mut params: Vec<GenericParam> = Vec::new();
    let mut i: usize = 0;
    proof {
        assert(reduced_params(gps.take(0), act) =~= Seq::<VGenericParam>::empty());
        assert(gparam_seq_view(params@) =~= Seq::<VGenericParam>::empty());
    }
    while i < generics.params.len()
        invariant
            0 <= i <= generics.params@.len(),
            act == param_set(active_params@),
            gps == gparam_seq_view(generics.params@),
            gps.len() == generics.params@.len(),
            gparam_seq_view(params@) == reduced_params(gps.take(i as int), act),
        decreases generics.params@.len() - i,
    {
        let p = &generics.params[i];
        let name = param_of_decl(p);
        proof {
            assert(gps[i as int] == generics.params@[i as int]@);
            lemma_reduced_params_take(gps, act, i as int);
        }
        if crate::param::contains_param(active_params, &name) {
            let stripped = match p {
                GenericParam::Lifetime { name, .. } => GenericParam::Lifetime {
                    name: name.clone(),
                    bounds: Vec::new(),
                },
                GenericParam::Type { name, .. } => GenericParam::Type {
                    name: name.clone(),
                    bounds: Vec::new(),
                },
                GenericParam::Const { name, ty } => GenericParam::Const {
                    name: name.clone(),
                    ty: ty.clone(),
                },
            };
            proof {
                assert(str_seq_view(Seq::<String>::empty()) =~= Seq::<Seq<char>>::empty());
                assert(bound_seq_view(Seq::<Bound>::empty()) =~= Seq::<VBound>::empty());
                assert(stripped@ == strip_bounds(gps[i as int]));
            }
            params.push(stripped);
            proof {
                assert(gparam_seq_view(params@) =~= reduced_params(gps.take(i as int + 1), act));
            }
        } else {
            proof {
                assert(gparam_seq_view(params@) =~= reduced_params(gps.take(i as int + 1), act));
            }
        }
        i += 1;
    }
    proof {
        assert(gps.take(gps.len() as int) =~= gps);
    }

    let mut where_clause: Vec<Predicate> = Vec::new();
    let mut j: usize = 0;
    proof {
        assert(retained_preds(deps@.take(0), act) =~= Seq::<VPredicate>::empty());
        assert(pred_seq_view(where_clause@) =~= Seq::<VPredicate>::empty());
    }
    while j < deps.len()
        invariant
            0 <= j <= deps@.len(),
            act == param_set(active_params@),
            pred_seq_view(where_clause@) == retained_preds(deps@.take(j as int), act),
        decreases deps@.len() - j,
    {
        proof {
            lemma_retained_preds_take(deps@, act, j as int);
        }
        if crate::closure::vec_intersects(&deps[j].used_params, active_params) {
            where_clause.push(deps[j].predicate.clone());
            proof {
                assert(pred_seq_view(where_clause@) =~= retained_preds(
                    deps@.take(j as int + 1),
                    act,
                ));
            }
        } else {
            proof {
                assert(pred_seq_view(where_clause@) =~= retained_preds(
                    deps@.take(j as int + 1),
                    act,
                ));
            }
        }
        j += 1;
    }
    proof {
        assert(deps@.take(deps@.len() as int) =~= deps@);
    }
    Generics { params, where_clause }
}

/// The name of one declared parameter, as a [`Param`] value.
pub fn param_of_decl(p: &GenericParam) -> (r: Param)
    ensures
        r@ == vparam_name(p@),
{
    match p {
        GenericParam::Lifetime { name, .. } => Param::Lifetime(name.clone()),
        GenericParam::Type { name, .. } => Param::Ident(name.clone()),
        GenericParam::Const { name, .. } => Param::Ident(name.clone()),
    }
}

} // verus!
