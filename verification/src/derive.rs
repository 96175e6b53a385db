//! Derived behaviors that a child enumeration inherits from its parent.

use vstd::prelude::*;

use crate::ty::{seg_seq_view, Bound, PathSeg, SegArgs, VBound, VPathSeg, VSegArgs};

pub mod partial_eq;

verus! {

/// A derived behavior propagated across the parent/child pair. Equality
/// comparison is the one such behavior: the child is generated comparable
/// with the parent, variant by variant.
#[derive(Clone, Copy, Debug, PartialEq, Eq)]
pub enum Derive {
    PartialEq,
}

impl Derive {
    /// The trait bound that the derived behavior requires of the type
    /// parameters it touches.
    pub fn as_bound(&self) -> (r: Bound)
        ensures
            r@ == VBound::Trait(
                seq![VPathSeg { name: "PartialEq"@, args: VSegArgs::Absent }],
            ),
    {
        match self {
            Derive::PartialEq => {
                let segs = vec![PathSeg { name: "PartialEq".to_owned(), args: SegArgs::Absent }];
                proof {
                    assert(seg_seq_view(segs@) =~= seq![
                        VPathSeg { name: "PartialEq"@, args: VSegArgs::Absent },
                    ]);
                }
                Bound::Trait(segs)
            },
        }
    }
}

} // verus!
