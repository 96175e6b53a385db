//! Child enumerations under construction, and the reduction pipeline.

use vstd::prelude::*;

use crate::closure::{closure_set, compute_closure, used_seq};
use crate::derive::Derive;
use crate::extractor::{collect_type, type_mentions};
use crate::generics::{
    declared_set, gparam_seq_view, names_of, normalized_preds, pred_seq_view, reduce,
    reduced_params, Generics, VGenerics,
};
use crate::param::{param_set, GParam, Param};
use crate::predicate::{analyze_generics, pred_used_seq, retained_norm};
use crate::ty::{type_view, TypeExpr, VTypeExpr};
use crate::visitor::ParamVisitor;
use crate::ExpandError;

verus! {

/// How a variant's fields are written.
#[derive(Clone, Copy, Debug, PartialEq, Eq)]
pub enum FieldsStyle {
    /// Struct-like, named fields: `Variant { x: i32 }`.
    Named,
    /// Tuple-like, positional fields: `Variant(i32, u8)`.
    Positional,
    /// No fields at all: `Variant`.
    Unit,
}

/// One field of a variant: its name, if the fields are named, and its type.
#[derive(Debug, PartialEq)]
pub struct Field {
    pub name: Option<String>,
    pub ty: TypeExpr,
}

/// One variant of an enumeration.
#[derive(Debug, PartialEq)]
pub struct Variant {
    pub ident: String,
    pub style: FieldsStyle,
    pub fields: Vec<Field>,
}

/// Spec model of [`Field`].
pub ghost struct VField {
    pub name: Option<Seq<char>>,
    pub ty: VTypeExpr,
}

/// Spec model of [`Variant`].
pub ghost struct VVariant {
    pub ident: Seq<char>,
    pub style: FieldsStyle,
    pub fields: Seq<VField>,
}

pub open spec fn field_view(f: Field) -> VField {
    VField { name: crate::ty::opt_str_view(f.name), ty: type_view(f.ty) }
}

pub open spec fn field_seq_view(s: Seq<Field>) -> Seq<VField> {
    Seq::new(s.len(), |i: int| field_view(s[i]))
}

pub open spec fn variant_view(v: Variant) -> VVariant {
    VVariant { ident: v.ident@, style: v.style, fields: field_seq_view(v.fields@) }
}

pub open spec fn variant_seq_view(s: Seq<Variant>) -> Seq<VVariant> {
    Seq::new(s.len(), |i: int| variant_view(s[i]))
}

impl View for Field {
    type V = VField;

    open spec fn view(&self) -> VField {
        field_view(*self)
    }
}

impl View for Variant {
    type V = VVariant;

    open spec fn view(&self) -> VVariant {
        variant_view(*self)
    }
}

impl Clone for Field {
    fn clone(&self) -> (r: Self)
        ensures
            r@ == self@,
    {
        Field {
            name: match &self.name {
                Option::Some(n) => Option::Some(n.clone()),
                Option::None => Option::None,
            },
            ty: self.ty.clone(),
        }
    }
}

impl Clone for Variant {
    fn clone(&self) -> (r: Self)
        ensures
            r@ == self@,
    {
        let mut fields: Vec<Field> = Vec::new();
        let mut i: usize = 0;
        while i < self.fields.len()
            invariant
                0 <= i <= self.fields@.len(),
                fields@.len() == i,
                forall|j: int| 0 <= j < i ==> fields@[j]@ == self.fields@[j]@,
            decreases self.fields@.len() - i,
        {
            fields.push(self.fields[i].clone());
            i += 1;
        }
        proof {
            assert(field_seq_view(fields@) =~= field_seq_view(self.fields@));
        }
        Variant { ident: self.ident.clone(), style: self.style, fields }
    }
}

/// Clones a variant list, preserving its spec-level content.
pub fn clone_variants(v: &Vec<Variant>) -> (r: Vec<Variant>)
    ensures
        variant_seq_view(r@) == variant_seq_view(v@),
{
    let mut acc: Vec<Variant> = Vec::new();
    let mut i: usize = 0;
    while i < v.len()
        invariant
            0 <= i <= v@.len(),
            acc@.len() == i,
            forall|j: int| 0 <= j < i ==> acc@[j]@ == v@[j]@,
        decreases v@.len() - i,
    {
        acc.push(v[i].clone());
        i += 1;
    }
    proof {
        assert(variant_seq_view(acc@) =~= variant_seq_view(v@));
    }
    acc
}

/// Parameters mentioned by a field list's types.
pub open spec fn field_seq_mentions(s: Seq<VField>) -> Set<GParam>
    decreases s,
{
    if s.len() == 0 {
        Set::empty()
    } else {
        field_seq_mentions(s.drop_last()) + type_mentions(s.last().ty)
    }
}

/// Parameters mentioned by a variant's field types.
pub open spec fn variant_mentions(v: VVariant) -> Set<GParam> {
    field_seq_mentions(v.fields)
}

/// Parameters mentioned by any selected variant's field types.
pub open spec fn variants_mentions(s: Seq<VVariant>) -> Set<GParam>
    decreases s,
{
    if s.len() == 0 {
        Set::empty()
    } else {
        variants_mentions(s.drop_last()) + variant_mentions(s.last())
    }
}

proof fn lemma_field_seq_mentions_take(s: Seq<VField>, i: int)
    requires
        0 <= i < s.len(),
    ensures
        field_seq_mentions(s.take(i + 1)) == field_seq_mentions(s.take(i)) + type_mentions(
            s[i].ty,
        ),
{
    assert(s.take(i + 1).drop_last() =~= s.take(i));
    assert(s.take(i + 1).last() == s[i]);
}

proof fn lemma_variants_mentions_take(s: Seq<VVariant>, i: int)
    requires
        0 <= i < s.len(),
    ensures
        variants_mentions(s.take(i + 1)) == variants_mentions(s.take(i)) + variant_mentions(s[i]),
{
    assert(s.take(i + 1).drop_last() =~= s.take(i));
    assert(s.take(i + 1).last() == s[i]);
}

/// Collects every parameter mentioned by a variant's field types.
pub fn collect_variant(v: &Variant, acc: &mut Vec<Param>)
    ensures
        param_set(final(acc)@) == param_set(old(acc)@) + variant_mentions(v@),
{
    let ghost entry = param_set(old(acc)@);
    let ghost fs = field_seq_view(v.fields@);
    let mut i: usize = 0;
    proof {
        assert(param_set(acc@) =~= entry + field_seq_mentions(fs.take(0)));
    }
    while i < v.fields.len()
        invariant
            0 <= i <= v.fields@.len(),
            fs == field_seq_view(v.fields@),
            fs.len() == v.fields@.len(),
            param_set(acc@) == entry + field_seq_mentions(fs.take(i as int)),
        decreases v.fields@.len() - i,
    {
        collect_type(&v.fields[i].ty, acc);
        proof {
            lemma_field_seq_mentions_take(fs, i as int);
            assert(fs[i as int] == v.fields@[i as int]@);
            assert(type_view(v.fields@[i as int].ty) == fs[i as int].ty);
            assert(param_set(acc@) =~= entry + field_seq_mentions(fs.take(i as int + 1)));
        }
        i += 1;
    }
    proof {
        assert(fs.take(fs.len() as int) =~= fs);
    }
}

/// Collects every parameter mentioned by any variant in a list.
pub fn collect_variants(vs: &Vec<Variant>, acc: &mut Vec<Param>)
    ensures
        param_set(final(acc)@) == param_set(old(acc)@) + variants_mentions(variant_seq_view(vs@)),
{
    let ghost entry = param_set(old(acc)@);
    let ghost vv = variant_seq_view(vs@);
    let mut i: usize = 0;
    proof {
        assert(param_set(acc@) =~= entry + variants_mentions(vv.take(0)));
    }
    while i < vs.len()
        invariant
            0 <= i <= vs@.len(),
            vv == variant_seq_view(vs@),
            vv.len() == vs@.len(),
            param_set(acc@) == entry + variants_mentions(vv.take(i as int)),
        decreases vs@.len() - i,
    {
        collect_variant(&vs[i], acc);
        proof {
            lemma_variants_mentions_take(vv, i as int);
            assert(vv[i as int] == vs@[i as int]@);
            assert(param_set(acc@) =~= entry + variants_mentions(vv.take(i as int + 1)));
        }
        i += 1;
    }
    proof {
        assert(vv.take(vv.len() as int) =~= vv);
    }
}

/// The generic declaration a child with the selected variants must carry:
/// the parent's parameters projected to the closure of the variants' seed
/// parameters, and exactly the predicates that touch that closure.
pub open spec fn child_generics(g: VGenerics, sel: Seq<VVariant>) -> VGenerics {
    let decl = declared_set(g);
    let norm = normalized_preds(g);
    let us = pred_used_seq(norm, decl);
    let seed = variants_mentions(sel).intersect(decl);
    let cl = closure_set(seed, us);
    VGenerics { params: reduced_params(g.params, cl), where_clause: retained_norm(norm, decl, cl) }
}

/// The seed of a child's closure: the declared parameters its selected
/// variants' field types mention.
pub open spec fn child_seed(g: VGenerics, sel: Seq<VVariant>) -> Set<GParam> {
    variants_mentions(sel).intersect(declared_set(g))
}

/// The used-parameter sets of the parent's normalized predicates.
pub open spec fn child_us(g: VGenerics) -> Seq<Set<GParam>> {
    pred_used_seq(normalized_preds(g), declared_set(g))
}

/// The closure a child's declaration is reduced to.
pub open spec fn child_closure(g: VGenerics, sel: Seq<VVariant>) -> Set<GParam> {
    closure_set(child_seed(g, sel), child_us(g))
}

/// Closure completeness: for every declaration and every variant
/// selection, each parameter mentioned by a selected variant's field types
/// and each parameter used by a retained predicate is present in the
/// reduced declaration's parameter list.
pub proof fn lemma_closure_completeness(g: VGenerics, sel: Seq<VVariant>)
    ensures
        child_seed(g, sel).subset_of(names_of(child_generics(g, sel).params)),
        forall|i: int|
            0 <= i < child_us(g).len() && crate::closure::intersects(
                #[trigger] child_us(g)[i],
                child_closure(g, sel),
            ) ==> child_us(g)[i].subset_of(names_of(child_generics(g, sel).params)),
{
    let cl = child_closure(g, sel);
    crate::generics::lemma_reduced_params_names(g.params, cl);
    crate::generics::lemma_declared_is_names(g);
    crate::closure::lemma_closure_contains_seed(child_seed(g, sel), child_us(g));
    crate::closure::lemma_closure_closed(child_seed(g, sel), child_us(g));
    assert(names_of(child_generics(g, sel).params) == names_of(g.params).intersect(cl));
    assert forall|i: int|
        0 <= i < child_us(g).len() && crate::closure::intersects(
            #[trigger] child_us(g)[i],
            cl,
        ) implies child_us(g)[i].subset_of(names_of(child_generics(g, sel).params)) by {
        assert(child_us(g)[i].subset_of(cl));
        assert(child_us(g)[i].subset_of(declared_set(g)));
    }
}

/// Closure minimality: no parameter of the reduced declaration lies
/// outside the computed closure — unrelated parameters are never retained.
pub proof fn lemma_closure_minimality(g: VGenerics, sel: Seq<VVariant>)
    ensures
        names_of(child_generics(g, sel).params).subset_of(child_closure(g, sel)),
{
    crate::generics::lemma_reduced_params_names(g.params, child_closure(g, sel));
}

/// No duplicate bounds: the reduced declaration never carries both an
/// inline bound and an equivalent where-predicate, because every kept
/// parameter has its inline bounds stripped — the constraints live only in
/// the where clause.
pub proof fn lemma_no_duplicate_bounds(g: VGenerics, sel: Seq<VVariant>)
    ensures
        forall|k: int|
            0 <= k < child_generics(g, sel).params.len()
                ==> !crate::generics::has_inline_bounds(
                #[trigger] child_generics(g, sel).params[k],
            ),
{
    crate::generics::lemma_reduced_params_stripped(g.params, child_closure(g, sel));
}

/// The positions, in the parent's normalized predicate list (inline bounds
/// first, in declaration order, then the explicit where clause), of the
/// predicates a child with these variants retains. Emission layers use the
/// positions to reproduce the retained predicates in their own
/// representation. Fails exactly when the where clause holds an equality
/// predicate.
pub fn retained_indices(parent_generics: &Generics, variants: &Vec<Variant>) -> (r: Result<
    Vec<usize>,
    ExpandError,
>)
    ensures
        match r {
            Ok(picked) => {
                &&& forall|k: int|
                    0 <= k < picked@.len() ==> (#[trigger] picked@[k]) < normalized_preds(
                        parent_generics@,
                    ).len()
                &&& forall|k1: int, k2: int|
                    0 <= k1 < k2 < picked@.len() ==> picked@[k1] < picked@[k2]
                &&& forall|i: usize|
                    i < normalized_preds(parent_generics@).len() ==> (picked@.contains(i)
                        <==> crate::closure::intersects(
                        child_us(parent_generics@)[i as int],
                        child_closure(parent_generics@, variant_seq_view(variants@)),
                    ))
            },
            Err(e) => {
                &&& e == ExpandError::UnsupportedPredicate
                &&& exists|i: int|
                    0 <= i < normalized_preds(parent_generics@).len() && (
                    #[trigger] normalized_preds(parent_generics@)[i] is Equality)
            },
        },
{
    let deps = match analyze_generics(parent_generics) {
        Ok(d) => d,
        Err(e) => {
            return Err(e);
        },
    };
    let mut mentions: Vec<Param> = Vec::new();
    collect_variants(variants, &mut mentions);
    let mut vis = ParamVisitor::new(parent_generics);
    vis.register_all(&mentions);
    let ParamVisitor { declared: _, found: seed } = vis;
    proof {
        assert(param_set(seed@) =~= child_seed(parent_generics@, variant_seq_view(variants@)));
        assert(used_seq(deps@) =~= child_us(parent_generics@));
    }
    let pair = compute_closure(&seed, &deps);
    Ok(pair.1)
}

/// A child enumeration being assembled: its name, the parent variants
/// selected into it, the derived behaviors it inherits, and — once
/// computed — its reduced generic declaration.
#[derive(Debug)]
pub struct Enum {
    pub ident: String,
    pub variants: Vec<Variant>,
    pub derives: Vec<Derive>,
    pub generics: Generics,
}

/// Spec model of [`Enum`].
pub ghost struct VEnum {
    pub ident: Seq<char>,
    pub variants: Seq<VVariant>,
    pub derives: Seq<Derive>,
    pub generics: VGenerics,
}

impl View for Enum {
    type V = VEnum;

    open spec fn view(&self) -> VEnum {
        VEnum {
            ident: self.ident@,
            variants: variant_seq_view(self.variants@),
            derives: self.derives@,
            generics: self.generics@,
        }
    }
}

impl Enum {
    /// A fresh child with no variants and an empty generic declaration.
    pub fn new(ident: String, derives: Vec<Derive>) -> (r: Enum)
        ensures
            r@.ident == ident@,
            r@.variants == Seq::<VVariant>::empty(),
            r@.derives == derives@,
            r@.generics.params == Seq::<crate::generics::VGenericParam>::empty(),
            r@.generics.where_clause == Seq::<crate::generics::VPredicate>::empty(),
    {
        let r = Enum {
            ident,
            variants: Vec::new(),
            derives,
            generics: Generics { params: Vec::new(), where_clause: Vec::new() },
        };
        proof {
            assert(variant_seq_view(r.variants@) =~= Seq::<VVariant>::empty());
            assert(gparam_seq_view(r.generics.params@) =~= Seq::<
                crate::generics::VGenericParam,
            >::empty());
            assert(pred_seq_view(r.generics.where_clause@) =~= Seq::<
                crate::generics::VPredicate,
            >::empty());
        }
        r
    }

    /// Computes this child's reduced generic declaration from the parent's:
    /// analyzes the parent's constraints, seeds the closure with the
    /// parameters mentioned by the selected variants' field types, and
    /// projects the parent declaration to the closure. Fails exactly when
    /// the parent's where clause holds an equality predicate.
    pub fn compute_generics(&mut self, parent_generics: &Generics) -> (r: Result<(), ExpandError>)
        ensures
            final(self).ident == old(self).ident,
            final(self).variants == old(self).variants,
            final(self).derives == old(self).derives,
            match r {
                Ok(()) => final(self).generics@ == child_generics(
                    parent_generics@,
                    variant_seq_view(old(self).variants@),
                ),
                Err(e) => {
                    &&& e == ExpandError::UnsupportedPredicate
                    &&& final(self).generics == old(self).generics
                    &&& exists|i: int|
                        0 <= i < normalized_preds(parent_generics@).len()
                            && (#[trigger] normalized_preds(parent_generics@)[i] is Equality)
                },
            },
    {
        let ghost g = parent_generics@;
        let ghost decl = declared_set(g);
        let ghost norm = normalized_preds(g);
        let ghost sel = variant_seq_view(self.variants@);

        let deps = match analyze_generics(parent_generics) {
            Ok(d) => d,
            Err(e) => {
                return Err(e);
            },
        };

        let mut mentions: Vec<Param> = Vec::new();
        collect_variants(&self.variants, &mut mentions);
        let mut vis = ParamVisitor::new(parent_generics);
        vis.register_all(&mentions);
        let ParamVisitor { declared: _, found: seed } = vis;
        proof {
            assert(param_set(seed@) =~= variants_mentions(sel).intersect(decl));
        }

        let pair = compute_closure(&seed, &deps);
        let active = pair.0;
        proof {
            assert(used_seq(deps@) =~= pred_used_seq(norm, decl));
            assert(param_set(active@) == closure_set(
                variants_mentions(sel).intersect(decl),
                pred_used_seq(norm, decl),
            ));
        }

        let reduced = reduce(parent_generics, &active, &deps);
        proof {
            crate::predicate::lemma_retained_norm_equiv(
                deps@,
                norm,
                decl,
                param_set(active@),
            );
        }
        self.generics = reduced;
        Ok(())
    }
}

} // verus!
