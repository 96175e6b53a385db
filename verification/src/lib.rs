//! Derivation of "child" enumerations from a tagged parent enumeration.
//!
//! Given a parent enumeration with lifetime, type and const generic
//! parameters, arbitrary bounds and where-clause predicates, and a chosen
//! subset of its variants, this crate computes the minimal correct generic
//! declaration that a child enumeration holding just those variants must
//! carry: which parameters stay, which predicates are retained, and how
//! values convert between parent and child.

pub mod closure;
pub mod convert;
pub mod correspond;
pub mod derive;
pub mod enums;
pub mod extractor;
pub mod generics;
pub mod param;
pub mod predicate;
pub mod sibling;
pub mod ty;
pub mod visitor;

use vstd::prelude::*;

verus! {

/// What heck's snake-case conversion returns for a given character
/// sequence. The conversion is a pure function of the characters, so its
/// result can be named without being restated.
pub uninterp spec fn snake_of(s: Seq<char>) -> Seq<char>;

/// Relies on heck's `to_snake_case` for `str`: the result depends on the
/// input characters alone, and an empty input stays empty.
#[verifier::external_body]
fn to_snake(s: &str) -> (r: String)
    ensures
        r@ == snake_of(s@),
        s@.len() == 0 ==> r@.len() == 0,
{
    heck::ToSnakeCase::to_snake_case(s)
}

/// The identifier of a bare, unqualified, single-segment type path — the
/// one shape of type that can lend its name to an unnamed field.
pub open spec fn bare_single_ident(t: ty::VTypeExpr) -> Option<Seq<char>> {
    match t {
        ty::VTypeExpr::Path(q, segs) => {
            if q is None && segs.len() == 1 && segs[0].args is Absent {
                Option::Some(segs[0].name)
            } else {
                Option::None
            }
        },
        _ => Option::None,
    }
}

/// The binder name a field contributes to generated patterns: its own name
/// taken as-is when it has one; otherwise, when only a bare type path can
/// supply a name, that path's identifier normalized to its canonical
/// lowercase form. A nameless field of any other shape is unsupported.
pub fn snake_case(field: &enums::Field) -> (r: Result<String, ExpandError>)
    ensures
        match r {
            Ok(s) => match field@.name {
                Option::Some(n) => s@ == n,
                Option::None => {
                    &&& bare_single_ident(field@.ty) is Some
                    &&& s@ == snake_of(bare_single_ident(field@.ty)->0)
                },
            },
            Err(e) => {
                &&& e == ExpandError::UnsupportedField
                &&& field@.name is None
                &&& bare_single_ident(field@.ty) is None
            },
        },
{
    match &field.name {
        Option::Some(n) => Ok(n.clone()),
        Option::None => {
            match &field.ty {
                ty::TypeExpr::Path(q, segs) => {
                    proof {
                        assert(field@.ty == ty::type_view(field.ty));
                        if segs@.len() > 0 {
                            assert(ty::seg_seq_view(segs@)[0] == segs@[0]@);
                        }
                    }
                    let bare = match q {
                        Option::Some(_) => false,
                        Option::None => segs.len() == 1 && match &segs[0].args {
                            ty::SegArgs::Absent => true,
                            _ => false,
                        },
                    };
                    if bare {
                        Ok(to_snake(segs[0].name.as_str()))
                    } else {
                        Err(ExpandError::UnsupportedField)
                    }
                },
                _ => Err(ExpandError::UnsupportedField),
            }
        },
    }
}

/// One child-membership tag on a parent variant: the child's name and,
/// optionally, replacement types for the variant's fields in that child.
#[derive(Debug, PartialEq)]
pub struct ChildRef {
    pub child: String,
    pub with_types: Option<Vec<ty::TypeExpr>>,
}

/// A parent variant together with its child-membership tags.
#[derive(Debug, PartialEq)]
pub struct ParentVariant {
    pub variant: enums::Variant,
    pub children: Vec<ChildRef>,
}

/// The parsed parent enumeration: name, generic declaration and tagged
/// variants.
#[derive(Debug, PartialEq)]
pub struct ParentDecl {
    pub ident: String,
    pub generics: generics::Generics,
    pub variants: Vec<ParentVariant>,
}

/// Spec model of [`ChildRef`].
pub ghost struct VChildRef {
    pub child: Seq<char>,
    pub with_types: Option<Seq<ty::VTypeExpr>>,
}

/// Spec model of [`ParentVariant`].
pub ghost struct VParentVariant {
    pub variant: enums::VVariant,
    pub children: Seq<VChildRef>,
}

/// Spec model of [`ParentDecl`].
pub ghost struct VParentDecl {
    pub ident: Seq<char>,
    pub generics: generics::VGenerics,
    pub variants: Seq<VParentVariant>,
}

pub open spec fn childref_view(c: ChildRef) -> VChildRef {
    VChildRef {
        child: c.child@,
        with_types: match c.with_types {
            Option::Some(ts) => Option::Some(ty::type_seq_view(ts@)),
            Option::None => Option::None,
        },
    }
}

pub open spec fn parent_variant_view(v: ParentVariant) -> VParentVariant {
    VParentVariant {
        variant: enums::variant_view(v.variant),
        children: Seq::new(v.children@.len(), |i: int| childref_view(v.children@[i])),
    }
}

pub open spec fn parent_variants_view(s: Seq<ParentVariant>) -> Seq<VParentVariant> {
    Seq::new(s.len(), |i: int| parent_variant_view(s[i]))
}

impl View for ChildRef {
    type V = VChildRef;

    open spec fn view(&self) -> VChildRef {
        childref_view(*self)
    }
}

impl View for ParentVariant {
    type V = VParentVariant;

    open spec fn view(&self) -> VParentVariant {
        parent_variant_view(*self)
    }
}

impl View for ParentDecl {
    type V = VParentDecl;

    open spec fn view(&self) -> VParentDecl {
        VParentDecl {
            ident: self.ident@,
            generics: self.generics@,
            variants: parent_variants_view(self.variants@),
        }
    }
}

/// A variant's fields with their types positionally replaced.
pub open spec fn subst_fields(fields: Seq<enums::VField>, ts: Seq<ty::VTypeExpr>) -> Seq<
    enums::VField,
> {
    Seq::new(fields.len(), |i: int| enums::VField { name: fields[i].name, ty: ts[i] })
}

/// The copy of a variant that one tag puts into its child: the variant
/// itself, or the variant with its field types replaced.
pub open spec fn apply_tag(v: enums::VVariant, tag: VChildRef) -> enums::VVariant {
    match tag.with_types {
        Option::Some(ts) => enums::VVariant {
            ident: v.ident,
            style: v.style,
            fields: subst_fields(v.fields, ts),
        },
        Option::None => v,
    }
}

/// Whether a tag's replacement list, if any, matches the variant's field
/// count.
pub open spec fn tag_arity_ok(v: enums::VVariant, tag: VChildRef) -> bool {
    tag.with_types matches Option::Some(ts) ==> ts.len() == v.fields.len()
}

/// The copies one parent variant contributes to the child of this name,
/// one per matching tag, in tag order.
pub open spec fn select_from_tags(
    var: enums::VVariant,
    tags: Seq<VChildRef>,
    c: Seq<char>,
) -> Seq<enums::VVariant>
    decreases tags,
{
    if tags.len() == 0 {
        Seq::empty()
    } else {
        select_from_tags(var, tags.drop_last(), c) + (if tags.last().child == c {
            seq![apply_tag(var, tags.last())]
        } else {
            Seq::empty()
        })
    }
}

/// The ordered variant list of the child with this name: every tagged copy,
/// in parent declaration order.
pub open spec fn selected_variants(vs: Seq<VParentVariant>, c: Seq<char>) -> Seq<enums::VVariant>
    decreases vs,
{
    if vs.len() == 0 {
        Seq::empty()
    } else {
        selected_variants(vs.drop_last(), c) + select_from_tags(
            vs.last().variant,
            vs.last().children,
            c,
        )
    }
}

/// Whether every tag names a declared child.
pub open spec fn tags_known(vs: Seq<VParentVariant>, names: Set<Seq<char>>) -> bool {
    forall|i: int, j: int|
        0 <= i < vs.len() && 0 <= j < vs[i].children.len() ==> names.contains(
            (#[trigger] vs[i].children[j]).child,
        )
}

/// Whether every tag's replacement list matches its variant's field count.
pub open spec fn arities_ok(vs: Seq<VParentVariant>) -> bool {
    forall|i: int, j: int|
        0 <= i < vs.len() && 0 <= j < vs[i].children.len() ==> tag_arity_ok(
            vs[i].variant,
            #[trigger] vs[i].children[j],
        )
}

proof fn lemma_select_from_tags_take(
    var: enums::VVariant,
    tags: Seq<VChildRef>,
    c: Seq<char>,
    j: int,
)
    requires
        0 <= j < tags.len(),
    ensures
        select_from_tags(var, tags.take(j + 1), c) == select_from_tags(var, tags.take(j), c) + (
        if tags[j].child == c {
            seq![apply_tag(var, tags[j])]
        } else {
            Seq::<enums::VVariant>::empty()
        }),
{
    assert(tags.take(j + 1).drop_last() =~= tags.take(j));
    assert(tags.take(j + 1).last() == tags[j]);
}

proof fn lemma_selected_variants_take(vs: Seq<VParentVariant>, c: Seq<char>, i: int)
    requires
        0 <= i < vs.len(),
    ensures
        selected_variants(vs.take(i + 1), c) == selected_variants(vs.take(i), c)
            + select_from_tags(vs[i].variant, vs[i].children, c),
{
    assert(vs.take(i + 1).drop_last() =~= vs.take(i));
    assert(vs.take(i + 1).last() == vs[i]);
}

/// Whether a list of strings holds one with these characters.
pub fn contains_str(v: &Vec<String>, s: &String) -> (r: bool)
    ensures
        r == extractor::str_set(v@).contains(s@),
{
    let mut i: usize = 0;
    while i < v.len()
        invariant
            0 <= i <= v@.len(),
            forall|j: int| 0 <= j < i ==> (#[trigger] v@[j])@ != s@,
        decreases v@.len() - i,
    {
        if v[i].eq(s) {
            assert(v@[i as int]@ == s@);
            return true;
        }
        i += 1;
    }
    proof {
        if extractor::str_set(v@).contains(s@) {
            let j = choose|j: int| 0 <= j < v@.len() && #[trigger] v@[j]@ == s@;
        }
    }
    false
}

fn copy_derives(v: &Vec<derive::Derive>) -> (r: Vec<derive::Derive>)
    ensures
        r@ == v@,
{
    let mut acc: Vec<derive::Derive> = Vec::new();
    let mut i: usize = 0;
    while i < v.len()
        invariant
            0 <= i <= v@.len(),
            acc@.len() == i,
            forall|j: int| 0 <= j < i ==> acc@[j] == v@[j],
        decreases v@.len() - i,
    {
        acc.push(v[i]);
        i += 1;
    }
    proof {
        assert(acc@ =~= v@);
    }
    acc
}

/// The copy of a variant that one tag selects into its child, with field
/// types replaced where the tag asks for it. Fails exactly when the tag's
/// replacement list does not match the variant's field count.
fn apply_child_tag(v: &enums::Variant, tag: &ChildRef) -> (r: Result<enums::Variant, ExpandError>)
    ensures
        match r {
            Ok(out) => {
                &&& tag_arity_ok(v@, tag@)
                &&& out@ == apply_tag(v@, tag@)
            },
            Err(e) => {
                &&& e matches ExpandError::ReplacementArity(n) && n@ == v@.ident
                &&& !tag_arity_ok(v@, tag@)
            },
        },
{
    match &tag.with_types {
        Option::None => Ok(v.clone()),
        Option::Some(ts) => {
            if ts.len() != v.fields.len() {
                return Err(ExpandError::ReplacementArity(v.ident.clone()));
            }
            let mut fields: Vec<enums::Field> = Vec::new();
            let mut i: usize = 0;
            while i < v.fields.len()
                invariant
                    0 <= i <= v.fields@.len(),
                    ts@.len() == v.fields@.len(),
                    fields@.len() == i,
                    forall|j: int|
                        0 <= j < i ==> (#[trigger] fields@[j])@ == (enums::VField {
                            name: v@.fields[j].name,
                            ty: ty::type_seq_view(ts@)[j],
                        }),
                decreases v.fields@.len() - i,
            {
                proof {
                    assert(v@.fields[i as int] == v.fields@[i as int]@);
                    assert(ty::type_seq_view(ts@)[i as int] == ty::type_view(ts@[i as int]));
                }
                fields.push(
                    enums::Field {
                        name: match &v.fields[i].name {
                            Option::Some(n) => Option::Some(n.clone()),
                            Option::None => Option::None,
                        },
                        ty: ts[i].clone(),
                    },
                );
                i += 1;
            }
            proof {
                assert(enums::field_seq_view(fields@) =~= subst_fields(
                    v@.fields,
                    ty::type_seq_view(ts@),
                ));
            }
            Ok(enums::Variant { ident: v.ident.clone(), style: v.style, fields })
        },
    }
}

/// The whole output of one derivation: the child enumerations, in
/// declaration order, and the pairwise sibling conversions of children
/// whose variant sets intersect.
#[derive(Debug)]
pub struct Expansion {
    pub enums: Vec<enums::Enum>,
    pub siblings: Vec<sibling::SiblingConversion>,
}

/// A structural error found while deriving child enumerations. Any such
/// error aborts the whole derivation; no partial output is produced.
#[derive(Debug, PartialEq)]
pub enum ExpandError {
    /// An equality where-predicate (`T = U`): the closure algorithm has no
    /// semantics for it, and ignoring it would under-constrain the output.
    UnsupportedPredicate,
    /// A variant names a child enumeration that was never declared at the
    /// top level; carries the unknown name.
    UnknownChild(String),
    /// A field carries no name and its type is not a bare path that could
    /// supply one.
    UnsupportedField,
    /// A field-type substitution whose length differs from the variant's
    /// field count; carries the variant name.
    ReplacementArity(String),
}

/// One recorded sibling descriptor is justified by an ordered pair of the
/// built children.
pub open spec fn sibling_entry_ok(
    s: sibling::SiblingConversion,
    built: Seq<enums::Enum>,
    g: generics::VGenerics,
) -> bool {
    exists|a: int, b: int|
        0 <= a < b < built.len() && #[trigger] sibling::sibling_ok(s@, built[a]@, built[b]@, g)
            && s@.shared.len() > 0
}

/// An ordered pair of children has a recorded sibling descriptor.
pub open spec fn pair_covered(
    sibs: Seq<sibling::SiblingConversion>,
    ea: enums::Enum,
    eb: enums::Enum,
    g: generics::VGenerics,
) -> bool {
    exists|m: int|
        0 <= m < sibs.len() && #[trigger] sibling::sibling_ok(sibs[m]@, ea@, eb@, g)
}

proof fn lemma_pair_covered_push(
    sibs: Seq<sibling::SiblingConversion>,
    x: sibling::SiblingConversion,
    ea: enums::Enum,
    eb: enums::Enum,
    g: generics::VGenerics,
)
    requires
        pair_covered(sibs, ea, eb, g),
    ensures
        pair_covered(sibs.push(x), ea, eb, g),
{
    let m = choose|m: int|
        0 <= m < sibs.len() && #[trigger] sibling::sibling_ok(sibs[m]@, ea@, eb@, g);
    assert(sibs.push(x)[m] == sibs[m]);
    assert(sibling::sibling_ok(sibs.push(x)[m]@, ea@, eb@, g));
}

/// Selects, for the child of this name, every tagged copy of the parent's
/// variants, in parent declaration order. Fails exactly when a matching
/// tag's replacement list does not fit its variant.
#[verifier::loop_isolation(false)]
fn select_child_variants(parent: &ParentDecl, cname: &String) -> (r: Result<
    Vec<enums::Variant>,
    ExpandError,
>)
    ensures
        match r {
            Ok(sel) => {
                &&& enums::variant_seq_view(sel@) == selected_variants(parent@.variants, cname@)
                &&& forall|j: int, j2: int|
                    0 <= j < parent@.variants.len() && 0 <= j2 < parent@.variants[j].children.len()
                        && (#[trigger] parent@.variants[j].children[j2]).child == cname@
                        ==> tag_arity_ok(
                        parent@.variants[j].variant,
                        parent@.variants[j].children[j2],
                    )
            },
            Err(e) => {
                &&& e matches ExpandError::ReplacementArity(n)
                &&& exists|i: int, j: int|
                    0 <= i < parent@.variants.len() && 0 <= j < parent@.variants[i].children.len()
                        && parent@.variants[i].variant.ident == n@ && !tag_arity_ok(
                        parent@.variants[i].variant,
                        #[trigger] parent@.variants[i].children[j],
                    )
            },
        },
{
    let ghost vsv = parent@.variants;
    let ghost cn = cname@;
    let mut sel: Vec<enums::Variant> = Vec::new();
    let mut i: usize = 0;
    proof {
        assert(enums::variant_seq_view(sel@) =~= selected_variants(vsv.take(0), cn));
    }
    while i < parent.variants.len()
        invariant
            0 <= i <= parent.variants@.len(),
            enums::variant_seq_view(sel@) == selected_variants(vsv.take(i as int), cn),
            forall|j: int, j2: int|
                0 <= j < i && 0 <= j2 < vsv[j].children.len() && (
                #[trigger] vsv[j].children[j2]).child == cn ==> tag_arity_ok(
                    vsv[j].variant,
                    vsv[j].children[j2],
                ),
        decreases parent.variants@.len() - i,
    {
        let pv = &parent.variants[i];
        let tags = &pv.children;
        let ghost var_v = vsv[i as int].variant;
        let ghost tagsv = vsv[i as int].children;
        proof {
            assert(vsv[i as int] == parent_variant_view(parent.variants@[i as int]));
            assert(select_from_tags(var_v, tagsv.take(0), cn) =~= Seq::<
                enums::VVariant,
            >::empty());
        }
        let mut ti: usize = 0;
        while ti < tags.len()
            invariant
                0 <= ti <= tags@.len(),
                0 <= i < vsv.len(),
                tagsv.len() == tags@.len(),
                enums::variant_seq_view(sel@) == selected_variants(vsv.take(i as int), cn)
                    + select_from_tags(var_v, tagsv.take(ti as int), cn),
                forall|j2: int|
                    0 <= j2 < ti && (#[trigger] tagsv[j2]).child == cn ==> tag_arity_ok(
                        var_v,
                        tagsv[j2],
                    ),
            decreases tags@.len() - ti,
        {
            let tag = &tags[ti];
            proof {
                assert(tagsv[ti as int] == childref_view(tags@[ti as int]));
                lemma_select_from_tags_take(var_v, tagsv, cn, ti as int);
            }
            if tag.child.eq(cname) {
                match apply_child_tag(&pv.variant, tag) {
                    Ok(v) => {
                        let ghost vv = v@;
                        let ghost sel0 = sel@;
                        proof {
                            assert((pv.variant)@ == var_v);
                            assert(tag@ == tagsv[ti as int]);
                            assert(vv == apply_tag(var_v, tagsv[ti as int]));
                            assert(tagsv[ti as int].child == cn);
                        }
                        sel.push(v);
                        proof {
                            assert(sel@ == sel0.push(sel@[sel0.len() as int]));
                            assert(enums::variant_view(sel@[sel0.len() as int]) == vv);
                            let lhs = enums::variant_seq_view(sel@);
                            let rhs = selected_variants(vsv.take(i as int), cn)
                                + select_from_tags(var_v, tagsv.take(ti as int + 1), cn);
                            assert(select_from_tags(var_v, tagsv.take(ti as int + 1), cn)
                                =~= select_from_tags(var_v, tagsv.take(ti as int), cn)
                                + seq![vv]);
                            assert(lhs.len() == rhs.len());
                            assert forall|j: int| 0 <= j < lhs.len() implies lhs[j] == rhs[
                                j
                            ] by {
                                if j < sel0.len() {
                                    assert(sel@[j] == sel0[j]);
                                    assert(lhs[j] == enums::variant_seq_view(sel0)[j]);
                                } else {
                                    assert(lhs[j] == vv);
                                }
                            }
                            assert(lhs =~= rhs);
                        }
                    },
                    Err(e) => {
                        return Err(e);
                    },
                }
            } else {
                proof {
                    assert(enums::variant_seq_view(sel@) =~= selected_variants(
                        vsv.take(i as int),
                        cn,
                    ) + select_from_tags(var_v, tagsv.take(ti as int + 1), cn));
                }
            }
            ti += 1;
        }
        proof {
            assert(tagsv.take(tagsv.len() as int) =~= tagsv);
            lemma_selected_variants_take(vsv, cn, i as int);
            assert(enums::variant_seq_view(sel@) =~= selected_variants(
                vsv.take(i as int + 1),
                cn,
            ));
        }
        i += 1;
    }
    proof {
        assert(vsv.take(vsv.len() as int) =~= vsv);
    }
    Ok(sel)
}

/// Derives every declared child enumeration from the parent declaration,
/// and the sibling conversions between children that share variants.
///
/// Each child receives, in parent declaration order, a copy of every
/// variant tagged with its name (with field types replaced where the tag
/// asks for it), and the minimal generic declaration those variants need:
/// the closure of the parameters their field types mention, under the
/// parent's constraint graph. The derivation fails, producing nothing,
/// when the parent's where clause holds an equality predicate, when a tag
/// names an undeclared child, or when a replacement list does not match
/// its variant's field count.
#[verifier::loop_isolation(false)]
pub fn subenum(parent: &ParentDecl, children: &Vec<String>, derives: &Vec<derive::Derive>) -> (r:
    Result<Expansion, ExpandError>)
    ensures
        match r {
            Ok(exp) => {
                &&& tags_known(parent@.variants, extractor::str_set(children@))
                &&& arities_ok(parent@.variants)
                &&& forall|i: int|
                    0 <= i < generics::normalized_preds(parent@.generics).len() ==> !(
                    #[trigger] generics::normalized_preds(parent@.generics)[i] is Equality)
                &&& exp.enums@.len() == children@.len()
                &&& forall|k: int|
                    0 <= k < children@.len() ==> (#[trigger] exp.enums@[k])@.ident
                        == children@[k]@
                &&& forall|k: int|
                    0 <= k < children@.len() ==> (#[trigger] exp.enums@[k])@.derives == derives@
                &&& forall|k: int|
                    0 <= k < children@.len() ==> (#[trigger] exp.enums@[k])@.variants
                        == selected_variants(parent@.variants, children@[k]@)
                &&& forall|k: int|
                    0 <= k < children@.len() ==> (#[trigger] exp.enums@[k])@.generics
                        == enums::child_generics(
                        parent@.generics,
                        selected_variants(parent@.variants, children@[k]@),
                    )
                &&& forall|m: int|
                    0 <= m < exp.siblings@.len() ==> sibling_entry_ok(
                        #[trigger] exp.siblings@[m],
                        exp.enums@,
                        parent@.generics,
                    )
                &&& forall|k1: int, k2: int|
                    0 <= k1 < k2 < exp.enums@.len() && sibling::shared_idents(
                        (#[trigger] exp.enums@[k1])@.variants,
                        convert::variant_names((#[trigger] exp.enums@[k2])@.variants),
                    ).len() > 0 ==> pair_covered(
                        exp.siblings@,
                        exp.enums@[k1],
                        exp.enums@[k2],
                        parent@.generics,
                    )
            },
            Err(e) => {
                ||| (e == ExpandError::UnsupportedPredicate && exists|i: int|
                    0 <= i < generics::normalized_preds(parent@.generics).len() && (
                    #[trigger] generics::normalized_preds(parent@.generics)[i] is Equality))
                ||| (e matches ExpandError::UnknownChild(n) && !extractor::str_set(
                    children@,
                ).contains(n@) && exists|i: int, j: int|
                    0 <= i < parent@.variants.len() && 0 <= j < parent@.variants[i].children.len()
                        && (#[trigger] parent@.variants[i].children[j]).child == n@)
                ||| (e matches ExpandError::ReplacementArity(n) && exists|i: int, j: int|
                    0 <= i < parent@.variants.len() && 0 <= j < parent@.variants[i].children.len()
                        && parent@.variants[i].variant.ident == n@ && !tag_arity_ok(
                        parent@.variants[i].variant,
                        #[trigger] parent@.variants[i].children[j],
                    ))
            },
        },
{
    let ghost vsv = parent@.variants;
    let ghost gnorm = generics::normalized_preds(parent@.generics);

    // Reject a declaration this analysis has no semantics for, up front.
    match predicate::analyze_generics(&parent.generics) {
        Ok(_) => {},
        Err(e) => {
            return Err(e);
        },
    }

    // Every tag must name a declared child.
    let mut vi: usize = 0;
    while vi < parent.variants.len()
        invariant
            0 <= vi <= parent.variants@.len(),
            forall|i: int, j: int|
                0 <= i < vi && 0 <= j < vsv[i].children.len() ==> extractor::str_set(
                    children@,
                ).contains((#[trigger] vsv[i].children[j]).child),
        decreases parent.variants@.len() - vi,
    {
        let tags = &parent.variants[vi].children;
        proof {
            assert(vsv[vi as int] == parent_variant_view(parent.variants@[vi as int]));
        }
        let mut ti: usize = 0;
        while ti < tags.len()
            invariant
                0 <= ti <= tags@.len(),
                0 <= vi < vsv.len(),
                vsv[vi as int].children.len() == tags@.len(),
                forall|j: int|
                    0 <= j < ti ==> extractor::str_set(children@).contains(
                        (#[trigger] vsv[vi as int].children[j]).child,
                    ),
            decreases tags@.len() - ti,
        {
            proof {
                assert(vsv[vi as int].children[ti as int] == childref_view(tags@[ti as int]));
            }
            if !contains_str(children, &tags[ti].child) {
                return Err(ExpandError::UnknownChild(tags[ti].child.clone()));
            }
            ti += 1;
        }
        vi += 1;
    }

    // Build each child: its selected variants, then its reduced generics.
    let mut built: Vec<enums::Enum> = Vec::new();
    let mut k: usize = 0;
    while k < children.len()
        invariant
            0 <= k <= children@.len(),
            built@.len() == k,
            forall|i: int, j: int|
                0 <= i < vsv.len() && 0 <= j < vsv[i].children.len() && extractor::str_set(
                    children@.take(k as int),
                ).contains((#[trigger] vsv[i].children[j]).child) ==> tag_arity_ok(
                    vsv[i].variant,
                    vsv[i].children[j],
                ),
            forall|k2: int|
                0 <= k2 < k ==> (#[trigger] built@[k2])@.ident == children@[k2]@,
            forall|k2: int| 0 <= k2 < k ==> (#[trigger] built@[k2])@.derives == derives@,
            forall|k2: int|
                0 <= k2 < k ==> (#[trigger] built@[k2])@.variants == selected_variants(
                    vsv,
                    children@[k2]@,
                ),
            forall|k2: int|
                0 <= k2 < k ==> (#[trigger] built@[k2])@.generics == enums::child_generics(
                    parent@.generics,
                    selected_variants(vsv, children@[k2]@),
                ),
        decreases children@.len() - k,
    {
        let cname = &children[k];
        let ghost cn = cname@;
        let sel = match select_child_variants(parent, cname) {
            Ok(sel) => sel,
            Err(e) => {
                return Err(e);
            },
        };
        let mut child = enums::Enum::new(cname.clone(), copy_derives(derives));
        child.variants = sel;
        match child.compute_generics(&parent.generics) {
            Ok(()) => {},
            Err(e) => {
                proof {
                    let w = choose|w: int|
                        0 <= w < gnorm.len() && (#[trigger] gnorm[w] is Equality);
                    assert(!(gnorm[w] is Equality));
                }
                return Err(e);
            },
        }
        built.push(child);
        proof {
            assert(children@.take(k as int + 1) =~= children@.take(k as int).push(
                children@[k as int],
            ));
            assert forall|i2: int, j: int|
                0 <= i2 < vsv.len() && 0 <= j < vsv[i2].children.len() && extractor::str_set(
                    children@.take(k as int + 1),
                ).contains((#[trigger] vsv[i2].children[j]).child) implies tag_arity_ok(
                vsv[i2].variant,
                vsv[i2].children[j],
            ) by {
                let c = vsv[i2].children[j].child;
                let w = choose|w: int|
                    0 <= w < children@.take(k as int + 1).len() && #[trigger] children@.take(
                        k as int + 1,
                    )[w]@ == c;
                if w < k {
                    assert(children@.take(k as int)[w]@ == c);
                    assert(extractor::str_set(children@.take(k as int)).contains(c));
                } else {
                    assert(c == cn);
                }
            }
        }
        k += 1;
    }
    proof {
        assert(children@.take(children@.len() as int) =~= children@);
    }

    // Pairwise sibling conversions for children that share variants.
    let mut siblings: Vec<sibling::SiblingConversion> = Vec::new();
    let n = built.len();
    let mut k1: usize = 0;
    while k1 < n
        invariant
            0 <= k1 <= n,
            forall|m: int|
                0 <= m < siblings@.len() ==> sibling_entry_ok(
                    #[trigger] siblings@[m],
                    built@,
                    parent@.generics,
                ),
            forall|a: int, b: int|
                0 <= a < b < built@.len() && a < k1 && sibling::shared_idents(
                    (#[trigger] built@[a])@.variants,
                    convert::variant_names((#[trigger] built@[b])@.variants),
                ).len() > 0 ==> pair_covered(
                    siblings@,
                    built@[a],
                    built@[b],
                    parent@.generics,
                ),
        decreases n - k1,
    {
        let mut k2: usize = k1 + 1;
        while k2 < n
            invariant
                0 <= k1 < k2 <= n,
                forall|m: int|
                    0 <= m < siblings@.len() ==> sibling_entry_ok(
                        #[trigger] siblings@[m],
                        built@,
                        parent@.generics,
                    ),
                forall|a: int, b: int|
                    0 <= a < b < built@.len() && (a < k1 || (a == k1 && b < k2))
                        && sibling::shared_idents(
                        (#[trigger] built@[a])@.variants,
                        convert::variant_names((#[trigger] built@[b])@.variants),
                    ).len() > 0 ==> pair_covered(
                        siblings@,
                        built@[a],
                        built@[b],
                        parent@.generics,
                    ),
            decreases n - k2,
        {
            match sibling::sibling_conversion(&built[k1], &built[k2], &parent.generics) {
                Ok(Option::Some(s)) => {
                    let ghost old_sibs = siblings@;
                    let ghost sv = s;
                    proof {
                        assert(sibling::sibling_ok(
                            sv@,
                            built@[k1 as int]@,
                            built@[k2 as int]@,
                            parent@.generics,
                        ));
                    }
                    siblings.push(s);
                    proof {
                        assert(siblings@[old_sibs.len() as int] == sv);
                        assert(sibling_entry_ok(sv, built@, parent@.generics));
                        assert forall|a: int, b: int|
                            0 <= a < b < built@.len() && pair_covered(
                                old_sibs,
                                built@[a],
                                built@[b],
                                parent@.generics,
                            ) implies pair_covered(
                            siblings@,
                            built@[a],
                            built@[b],
                            parent@.generics,
                        ) by {
                            lemma_pair_covered_push(
                                old_sibs,
                                sv,
                                built@[a],
                                built@[b],
                                parent@.generics,
                            );
                        }
                        assert(pair_covered(
                            siblings@,
                            built@[k1 as int],
                            built@[k2 as int],
                            parent@.generics,
                        ));
                    }
                },
                Ok(Option::None) => {},
                Err(_) => {
                    proof {
                        let w = choose|w: int|
                            0 <= w < gnorm.len() && (#[trigger] gnorm[w] is Equality);
                        assert(!(gnorm[w] is Equality));
                        assert(false);
                    }
                },
            }
            k2 += 1;
        }
        k1 += 1;
    }

    Ok(Expansion { enums: built, siblings })
}


} // verus!
