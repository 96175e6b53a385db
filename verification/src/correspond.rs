//! Variant correspondence: the binders that generated patterns and
//! reconstruction expressions share.
//!
//! For each selected variant, conversion code destructures one side with a
//! pattern and rebuilds the other side with an expression; both sides bind
//! the variant's fields to the same list of binders, in field order. A
//! named field binds under its own name; a positional field binds under a
//! synthesized placeholder carrying its index.

use vstd::prelude::*;

use crate::enums::{FieldsStyle, VField, Variant};
use crate::{bare_single_ident, snake_case, snake_of, ExpandError};

verus! {

/// A binder standing for one field inside a generated pattern.
#[derive(Debug, PartialEq)]
pub enum Binder {
    /// A named field's binder.
    Named(String),
    /// The placeholder binder synthesized for the positional field at this
    /// index.
    Positional(usize),
}

/// Spec model of [`Binder`].
pub ghost enum VBinder {
    Named(Seq<char>),
    Positional(int),
}

impl View for Binder {
    type V = VBinder;

    open spec fn view(&self) -> VBinder {
        match self {
            Binder::Named(n) => VBinder::Named(n@),
            Binder::Positional(i) => VBinder::Positional(*i as int),
        }
    }
}

impl Clone for Binder {
    fn clone(&self) -> (r: Self)
        ensures
            r@ == self@,
    {
        match self {
            Binder::Named(n) => Binder::Named(n.clone()),
            Binder::Positional(i) => Binder::Positional(*i),
        }
    }
}

/// The binder a field is expected to contribute, by position and style.
pub open spec fn expected_binder(style: FieldsStyle, f: VField, i: int) -> VBinder {
    match style {
        FieldsStyle::Named => VBinder::Named(
            match f.name {
                Option::Some(n) => n,
                Option::None => snake_of(bare_single_ident(f.ty)->0),
            },
        ),
        FieldsStyle::Positional => VBinder::Positional(i),
        FieldsStyle::Unit => VBinder::Positional(i),
    }
}

/// Whether a field can contribute a binder under the given style.
pub open spec fn binder_supported(style: FieldsStyle, f: VField) -> bool {
    match style {
        FieldsStyle::Named => f.name is Some || bare_single_ident(f.ty) is Some,
        FieldsStyle::Positional => true,
        FieldsStyle::Unit => true,
    }
}

/// Whether every field of a variant can contribute a binder.
pub open spec fn binders_supported(v: crate::enums::VVariant) -> bool {
    forall|i: int| 0 <= i < v.fields.len() ==> binder_supported(v.style, #[trigger] v.fields[i])
}

/// The binder list of a variant: one binder per field, in field order.
/// Fails exactly when a nameless field in a named-fields variant has no
/// bare type path to take a name from.
pub fn field_binders(variant: &Variant) -> (r: Result<Vec<Binder>, ExpandError>)
    ensures
        match r {
            Ok(bs) => {
                &&& binders_supported(variant@)
                &&& bs@.len() == variant@.fields.len()
                &&& forall|i: int|
                    0 <= i < variant@.fields.len() ==> (#[trigger] bs@[i])@ == expected_binder(
                        variant@.style,
                        variant@.fields[i],
                        i,
                    )
            },
            Err(e) => {
                &&& e == ExpandError::UnsupportedField
                &&& !binders_supported(variant@)
            },
        },
{
    let mut binders: Vec<Binder> = Vec::new();
    let is_named = match variant.style {
        FieldsStyle::Named => true,
        _ => false,
    };
    let mut i: usize = 0;
    while i < variant.fields.len()
        invariant
            0 <= i <= variant.fields@.len(),
            is_named == (variant.style is Named),
            binders@.len() == i,
            forall|j: int|
                0 <= j < i ==> binder_supported(variant@.style, #[trigger] variant@.fields[j]),
            forall|j: int|
                0 <= j < i ==> (#[trigger] binders@[j])@ == expected_binder(
                    variant@.style,
                    variant@.fields[j],
                    j,
                ),
        decreases variant.fields@.len() - i,
    {
        proof {
            assert(variant@.fields[i as int] == variant.fields@[i as int]@);
        }
        if is_named {
            match snake_case(&variant.fields[i]) {
                Ok(n) => {
                    binders.push(Binder::Named(n));
                },
                Err(e) => {
                    return Err(e);
                },
            }
        } else {
            binders.push(Binder::Positional(i));
        }
        i += 1;
    }
    Ok(binders)
}

/// The correspondence of one variant: the shared shape of the parent-side
/// pattern and the child-side reconstruction (and the reverse), ready for
/// conversion-code emission. The destructuring pattern binds `binders` in
/// order; the reconstruction expression rebuilds the variant from the same
/// binders, converting each field.
#[derive(Debug, PartialEq)]
pub struct Correspondence {
    /// The variant's name, identical on both sides.
    pub variant: String,
    /// How the variant's fields are written.
    pub style: FieldsStyle,
    /// One binder per field, in field order.
    pub binders: Vec<Binder>,
}

/// Builds the pattern/expression correspondence for one variant.
pub fn variant_correspondence(variant: &Variant) -> (r: Result<Correspondence, ExpandError>)
    ensures
        match r {
            Ok(c) => {
                &&& binders_supported(variant@)
                &&& c.variant@ == variant@.ident
                &&& c.style == variant@.style
                &&& c.binders@.len() == variant@.fields.len()
                &&& forall|i: int|
                    0 <= i < variant@.fields.len() ==> (#[trigger] c.binders@[i])@
                        == expected_binder(variant@.style, variant@.fields[i], i)
            },
            Err(e) => {
                &&& e == ExpandError::UnsupportedField
                &&& !binders_supported(variant@)
            },
        },
{
    let binders = match field_binders(variant) {
        Ok(bs) => bs,
        Err(e) => {
            return Err(e);
        },
    };
    Ok(Correspondence { variant: variant.ident.clone(), style: variant.style, binders })
}

} // verus!
