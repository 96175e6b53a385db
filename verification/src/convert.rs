//! Value-level conversion between a parent enumeration and a child.
//!
//! A runtime value of either enumeration is modeled as the name of its
//! variant together with the ordered list of its field payloads. Widening a
//! child value into the parent always succeeds and changes nothing
//! observable; narrowing a parent value into a child succeeds exactly when
//! the value's variant is one of the child's, and otherwise yields the
//! child's dedicated error marker.

use vstd::prelude::*;

use crate::enums::{Enum, VVariant};

verus! {

/// The dedicated marker error for a failed parent-to-child narrowing.
#[derive(Clone, Copy, Debug, PartialEq, Eq)]
pub struct ConvertError;

/// A runtime value of an enumeration: its variant's name and its field
/// payloads in field order.
#[derive(Clone, Debug, PartialEq)]
pub struct EnumValue<V> {
    pub variant: String,
    pub fields: Vec<V>,
}

/// The names of the variants a child holds.
pub open spec fn variant_names(s: Seq<VVariant>) -> Set<Seq<char>> {
    Set::new(|n: Seq<char>| exists|i: int| 0 <= i < s.len() && (#[trigger] s[i]).ident == n)
}

/// What narrowing a value into a child with the given variant names
/// returns: the value itself when its variant is among them, the marker
/// error otherwise.
pub open spec fn spec_try_from_parent<V>(names: Set<Seq<char>>, value: EnumValue<V>) -> Result<
    EnumValue<V>,
    ConvertError,
> {
    if names.contains(value.variant@) {
        Result::Ok(value)
    } else {
        Result::Err(ConvertError)
    }
}

/// What widening a child value into the parent returns: the value itself,
/// unchanged.
pub open spec fn spec_from_child<V>(value: EnumValue<V>) -> EnumValue<V> {
    value
}

/// Whether a child holds a variant with the given name.
pub fn has_variant(child: &Enum, name: &String) -> (r: bool)
    ensures
        r == variant_names(child@.variants).contains(name@),
{
    let mut i: usize = 0;
    while i < child.variants.len()
        invariant
            0 <= i <= child.variants@.len(),
            forall|j: int| 0 <= j < i ==> (#[trigger] child@.variants[j]).ident != name@,
            child@.variants.len() == child.variants@.len(),
        decreases child.variants@.len() - i,
    {
        proof {
            assert(child@.variants[i as int] == child.variants@[i as int]@);
        }
        if child.variants[i].ident.eq(name) {
            proof {
                assert(child@.variants[i as int].ident == name@);
            }
            return true;
        }
        i += 1;
    }
    proof {
        if variant_names(child@.variants).contains(name@) {
            let j = choose|j: int|
                0 <= j < child@.variants.len() && (#[trigger] child@.variants[j]).ident == name@;
        }
    }
    false
}

/// Narrows a parent value into a child: succeeds with the value unchanged
/// exactly when the value's variant is one of the child's, and yields the
/// child's dedicated error marker otherwise.
pub fn try_from_parent<V>(child: &Enum, value: EnumValue<V>) -> (r: Result<
    EnumValue<V>,
    ConvertError,
>)
    ensures
        r == spec_try_from_parent(variant_names(child@.variants), value),
{
    if has_variant(child, &value.variant) {
        Ok(value)
    } else {
        Err(ConvertError)
    }
}

/// Widens a child value into the parent: every child variant exists on the
/// parent, so the conversion is lossless and total.
pub fn from_child<V>(value: EnumValue<V>) -> (r: EnumValue<V>)
    ensures
        r == spec_from_child(value),
{
    value
}

/// Converts a value between two sibling children: the value passes exactly
/// when the destination holds its variant, so the conversion is fallible
/// in any direction whose destination does not cover the source.
pub fn try_from_sibling<V>(dest: &Enum, value: EnumValue<V>) -> (r: Result<
    EnumValue<V>,
    ConvertError,
>)
    ensures
        r == spec_try_from_parent(variant_names(dest@.variants), value),
{
    try_from_parent(dest, value)
}

/// Round-trip conversion: narrowing a parent value whose variant the child
/// holds and widening the result back yields the original value, and
/// widening a child value and narrowing the result back yields it too.
pub proof fn lemma_round_trip<V>(names: Set<Seq<char>>, value: EnumValue<V>)
    requires
        names.contains(value.variant@),
    ensures
        spec_try_from_parent(names, value) matches Result::Ok(narrowed) && spec_from_child(
            narrowed,
        ) == value,
        spec_try_from_parent(names, spec_from_child(value)) == Result::<
            EnumValue<V>,
            ConvertError,
        >::Ok(value),
{
}

/// Narrowing failure: a parent value whose variant the child does not hold
/// converts to exactly the child's dedicated error marker, never to a
/// value.
pub proof fn lemma_narrowing_failure<V>(names: Set<Seq<char>>, value: EnumValue<V>)
    requires
        !names.contains(value.variant@),
    ensures
        spec_try_from_parent(names, value) == Result::<EnumValue<V>, ConvertError>::Err(
            ConvertError,
        ),
{
}

} // verus!
