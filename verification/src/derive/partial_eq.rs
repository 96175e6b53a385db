//! Equality-comparison propagation: one match arm per shared variant.

use vstd::prelude::*;

use crate::correspond::{binders_supported, expected_binder, field_binders, Binder};
use crate::enums::{FieldsStyle, Variant};
use crate::ExpandError;

verus! {

/// One arm of the generated equality comparison between a child value and
/// a parent value: both sides match the same variant, bind corresponding
/// fields, and the arm's body is the conjunction of the pairwise field
/// comparisons (for a unit variant, it is simply true). The parent-side
/// binders are the child's, each made distinct by a fixed suffix at
/// emission. A child/parent pair of different variants compares unequal.
#[derive(Debug, PartialEq)]
pub struct EqArm {
    /// The child enumeration's name.
    pub child_ident: String,
    /// The parent enumeration's name.
    pub parent_ident: String,
    /// The shared variant both patterns match.
    pub variant: String,
    /// How the variant's fields are written.
    pub style: FieldsStyle,
    /// One binder per field, in field order.
    pub binders: Vec<Binder>,
}

/// Builds the equality arm for one shared variant. Fails exactly when a
/// nameless field in a named-fields variant has no bare type path to take
/// a binder name from.
pub fn partial_eq_arm(variant: &Variant, child_ident: &String, parent_ident: &String) -> (r:
    Result<EqArm, ExpandError>)
    ensures
        match r {
            Ok(arm) => {
                &&& binders_supported(variant@)
                &&& arm.child_ident@ == child_ident@
                &&& arm.parent_ident@ == parent_ident@
                &&& arm.variant@ == variant@.ident
                &&& arm.style == variant@.style
                &&& arm.binders@.len() == variant@.fields.len()
                &&& forall|i: int|
                    0 <= i < variant@.fields.len() ==> (#[trigger] arm.binders@[i])@
                        == expected_binder(variant@.style, variant@.fields[i], i)
            },
            Err(e) => {
                &&& e == ExpandError::UnsupportedField
                &&& !binders_supported(variant@)
            },
        },
{
    let binders = match field_binders(variant) {
        Ok(bs) => bs,
        Err(e) => {
            return Err(e);
        },
    };
    Ok(
        EqArm {
            child_ident: child_ident.clone(),
            parent_ident: parent_ident.clone(),
            variant: variant.ident.clone(),
            style: variant.style,
            binders,
        },
    )
}

} // verus!
