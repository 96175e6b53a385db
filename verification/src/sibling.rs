//! Conversions between sibling children that share variants.
//!
//! When two children's variant sets intersect, pairwise conversion code is
//! emitted between them. Its descriptor carries the intersection's variant
//! names, the union of both children's reduced generic declarations with
//! one combined where clause (duplicate predicates removed), and the
//! fallibility of each direction: converting is fallible exactly in the
//! direction whose destination does not hold every source variant.

use vstd::prelude::*;

use crate::convert::variant_names;
use crate::enums::{child_generics, clone_variants, variant_seq_view, Enum, VEnum, VVariant};
use crate::generics::{normalized_preds, Generics, VGenerics};
use crate::ExpandError;

verus! {

/// The descriptor of one pairwise sibling conversion.
#[derive(Debug)]
pub struct SiblingConversion {
    /// The first child's name.
    pub a: String,
    /// The second child's name.
    pub b: String,
    /// The names of the variants the two children share, in the first
    /// child's variant order.
    pub shared: Vec<String>,
    /// The union of both children's reduced generic declarations, with the
    /// combined where clause, duplicate predicates removed.
    pub generics: Generics,
    /// Whether converting from the first child to the second can fail.
    pub a_to_b_fallible: bool,
    /// Whether converting from the second child to the first can fail.
    pub b_to_a_fallible: bool,
}

/// Spec model of [`SiblingConversion`].
pub ghost struct VSiblingConversion {
    pub a: Seq<char>,
    pub b: Seq<char>,
    pub shared: Seq<Seq<char>>,
    pub generics: VGenerics,
    pub a_to_b_fallible: bool,
    pub b_to_a_fallible: bool,
}

impl View for SiblingConversion {
    type V = VSiblingConversion;

    open spec fn view(&self) -> VSiblingConversion {
        VSiblingConversion {
            a: self.a@,
            b: self.b@,
            shared: crate::generics::str_seq_view(self.shared@),
            generics: self.generics@,
            a_to_b_fallible: self.a_to_b_fallible,
            b_to_a_fallible: self.b_to_a_fallible,
        }
    }
}

/// Whether every variant of a list is named in a name set.
pub open spec fn covered_by(vs: Seq<VVariant>, names: Set<Seq<char>>) -> bool {
    forall|i: int| 0 <= i < vs.len() ==> names.contains((#[trigger] vs[i]).ident)
}

/// The names of the variants of `vs` that appear in the name set, in
/// order.
pub open spec fn shared_idents(vs: Seq<VVariant>, names: Set<Seq<char>>) -> Seq<Seq<char>>
    decreases vs,
{
    if vs.len() == 0 {
        Seq::empty()
    } else {
        shared_idents(vs.drop_last(), names) + (if names.contains(vs.last().ident) {
            seq![vs.last().ident]
        } else {
            Seq::empty()
        })
    }
}

proof fn lemma_shared_idents_take(vs: Seq<VVariant>, names: Set<Seq<char>>, i: int)
    requires
        0 <= i < vs.len(),
    ensures
        shared_idents(vs.take(i + 1), names) == shared_idents(vs.take(i), names) + (
        if names.contains(vs[i].ident) {
            seq![vs[i].ident]
        } else {
            Seq::<Seq<char>>::empty()
        }),
{
    assert(vs.take(i + 1).drop_last() =~= vs.take(i));
    assert(vs.take(i + 1).last() == vs[i]);
}

/// What a correct descriptor for an ordered pair of children states.
pub open spec fn sibling_ok(
    s: VSiblingConversion,
    ea: VEnum,
    eb: VEnum,
    g: VGenerics,
) -> bool {
    &&& s.a == ea.ident
    &&& s.b == eb.ident
    &&& s.shared == shared_idents(ea.variants, variant_names(eb.variants))
    &&& s.generics == child_generics(g, ea.variants + eb.variants)
    &&& s.a_to_b_fallible == !covered_by(ea.variants, variant_names(eb.variants))
    &&& s.b_to_a_fallible == !covered_by(eb.variants, variant_names(ea.variants))
}

/// Whether every variant of `a` also exists on `b`.
fn covered(a: &Enum, b: &Enum) -> (r: bool)
    ensures
        r == covered_by(a@.variants, variant_names(b@.variants)),
{
    let mut i: usize = 0;
    while i < a.variants.len()
        invariant
            0 <= i <= a.variants@.len(),
            forall|j: int|
                0 <= j < i ==> variant_names(b@.variants).contains(
                    (#[trigger] a@.variants[j]).ident,
                ),
            a@.variants.len() == a.variants@.len(),
        decreases a.variants@.len() - i,
    {
        proof {
            assert(a@.variants[i as int] == a.variants@[i as int]@);
        }
        if !crate::convert::has_variant(b, &a.variants[i].ident) {
            return false;
        }
        i += 1;
    }
    true
}

/// Builds the sibling-conversion descriptor for an ordered pair of
/// children, or nothing when their variant sets are disjoint. Fails
/// exactly when the parent declaration holds an equality where-predicate.
pub fn sibling_conversion(a: &Enum, b: &Enum, parent_generics: &Generics) -> (r: Result<
    Option<SiblingConversion>,
    ExpandError,
>)
    ensures
        match r {
            Ok(o) => match o {
                Option::Some(s) => {
                    &&& s@.shared.len() > 0
                    &&& sibling_ok(s@, a@, b@, parent_generics@)
                },
                Option::None => shared_idents(
                    a@.variants,
                    variant_names(b@.variants),
                ).len() == 0,
            },
            Err(e) => {
                &&& e == ExpandError::UnsupportedPredicate
                &&& exists|i: int|
                    0 <= i < normalized_preds(parent_generics@).len()
                        && (#[trigger] normalized_preds(parent_generics@)[i] is Equality)
            },
        },
{
    let ghost bnames = variant_names(b@.variants);
    let mut shared: Vec<String> = Vec::new();
    let mut i: usize = 0;
    proof {
        assert(crate::generics::str_seq_view(shared@) =~= shared_idents(
            a@.variants.take(0),
            bnames,
        ));
    }
    while i < a.variants.len()
        invariant
            0 <= i <= a.variants@.len(),
            a@.variants.len() == a.variants@.len(),
            bnames == variant_names(b@.variants),
            crate::generics::str_seq_view(shared@) == shared_idents(
                a@.variants.take(i as int),
                bnames,
            ),
        decreases a.variants@.len() - i,
    {
        proof {
            assert(a@.variants[i as int] == a.variants@[i as int]@);
            lemma_shared_idents_take(a@.variants, bnames, i as int);
        }
        if crate::convert::has_variant(b, &a.variants[i].ident) {
            shared.push(a.variants[i].ident.clone());
            proof {
                assert(crate::generics::str_seq_view(shared@) =~= shared_idents(
                    a@.variants.take(i as int + 1),
                    bnames,
                ));
            }
        } else {
            proof {
                assert(crate::generics::str_seq_view(shared@) =~= shared_idents(
                    a@.variants.take(i as int + 1),
                    bnames,
                ));
            }
        }
        i += 1;
    }
    proof {
        assert(a@.variants.take(a@.variants.len() as int) =~= a@.variants);
    }
    if shared.len() == 0 {
        return Ok(Option::None);
    }

    let a_to_b_fallible = !covered(a, b);
    let b_to_a_fallible = !covered(b, a);

    // The union declaration is the reduction for the two variant sets put
    // together: the closure of a union of seeds is the union of the
    // closures, so this carries both children's parameters and the
    // deduplicated combined where clause.
    let mut union_child = Enum::new(a.ident.clone(), Vec::new());
    let mut vars = clone_variants(&a.variants);
    let more = clone_variants(&b.variants);
    let ghost vars0 = vars@;
    let mut k: usize = 0;
    while k < more.len()
        invariant
            0 <= k <= more@.len(),
            vars@.len() == vars0.len() + k,
            forall|j: int| 0 <= j < vars0.len() ==> vars@[j] == vars0[j],
            forall|j: int|
                0 <= j < k ==> (#[trigger] vars@[vars0.len() + j])@ == more@[j]@,
        decreases more@.len() - k,
    {
        let v = more[k].clone();
        proof {
            assert(more@[k as int]@ == variant_seq_view(more@)[k as int]);
        }
        vars.push(v);
        k += 1;
    }
    proof {
        let whole = variant_seq_view(a.variants@) + variant_seq_view(b.variants@);
        assert forall|j: int| 0 <= j < vars@.len() implies variant_seq_view(vars@)[j] == whole[
            j
        ] by {
            if j < vars0.len() {
                assert(vars@[j] == vars0[j]);
                assert(variant_seq_view(vars0)[j] == variant_seq_view(a.variants@)[j]);
            } else {
                let jj = j - vars0.len();
                assert(vars@[vars0.len() + jj]@ == more@[jj]@);
                assert(vars@[j]@ == more@[j - vars0.len()]@);
                assert(variant_seq_view(more@)[j - vars0.len()] == variant_seq_view(
                    b.variants@,
                )[j - vars0.len()]);
            }
        }
        assert(variant_seq_view(vars@) =~= whole);
    }
    union_child.variants = vars;
    match union_child.compute_generics(parent_generics) {
        Ok(()) => {},
        Err(e) => {
            return Err(e);
        },
    }
    let Enum { generics, .. } = union_child;
    Ok(
        Option::Some(
            SiblingConversion {
                a: a.ident.clone(),
                b: b.ident.clone(),
                shared,
                generics,
                a_to_b_fallible,
                b_to_a_fallible,
            },
        ),
    )
}

} // verus!
