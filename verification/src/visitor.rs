//! A visitor that records which declared parameters a predicate uses.

use vstd::prelude::*;

use crate::extractor::{collect_predicate, path_head_mentions, seg_seq_mentions};
use crate::generics::{declared_set, pred_mentions, Generics};
use crate::param::{contains_param, insert_param, param_set, GParam, Param};
use crate::ty::{seg_seq_view, PathSeg};

verus! {

/// Walks predicates of one declaration and accumulates, in `found`, the
/// parameters that are actually declared on that declaration. Mentions of
/// names that are not declared parameters (concrete types, traits, paths
/// into other crates) are dropped.
pub struct ParamVisitor {
    /// Every parameter the declaration introduces.
    pub declared: Vec<Param>,
    /// The declared parameters found so far, each recorded once.
    pub found: Vec<Param>,
}

impl ParamVisitor {
    /// A fresh visitor for one declaration: its declared set is the
    /// declaration's parameter list, and nothing is found yet.
    pub fn new(generics: &Generics) -> (r: ParamVisitor)
        ensures
            param_set(r.declared@) == declared_set(generics@),
            r.found@ == Seq::<Param>::empty(),
    {
        let mut declared: Vec<Param> = Vec::new();
        let mut i: usize = 0;
        while i < generics.params.len()
            invariant
                0 <= i <= generics.params@.len(),
                declared@.len() == i,
                forall|j: int|
                    0 <= j < i ==> declared@[j]@ == crate::generics::vparam_name(
                        crate::generics::gparam_view(generics.params@[j]),
                    ),
            decreases generics.params@.len() - i,
        {
            declared.push(crate::generics::param_of_decl(&generics.params[i]));
            i += 1;
        }
        proof {
            assert forall|gp: GParam| param_set(declared@).contains(gp) implies declared_set(
                generics@,
            ).contains(gp) by {
                let j = choose|j: int| 0 <= j < declared@.len() && #[trigger] declared@[j]@ == gp;
                assert(crate::generics::vparam_name(generics@.params[j]) == gp);
            }
            assert forall|gp: GParam| declared_set(generics@).contains(gp) implies param_set(
                declared@,
            ).contains(gp) by {
                let j = choose|j: int|
                    0 <= j < generics@.params.len() && crate::generics::vparam_name(
                        #[trigger] generics@.params[j],
                    ) == gp;
                assert(declared@[j]@ == gp);
            }
            assert(param_set(declared@) =~= declared_set(generics@));
        }
        ParamVisitor { declared, found: Vec::new() }
    }

    /// Records a parameter if it is declared; an undeclared name is ignored.
    pub fn register(&mut self, p: &Param)
        ensures
            final(self).declared == old(self).declared,
            param_set(final(self).found@) == if param_set(old(self).declared@).contains(p@) {
                param_set(old(self).found@).insert(p@)
            } else {
                param_set(old(self).found@)
            },
    {
        if contains_param(&self.declared, p) {
            insert_param(&mut self.found, p.clone());
        }
    }

    /// Registers every parameter in a list.
    pub fn register_all(&mut self, ps: &Vec<Param>)
        ensures
            final(self).declared == old(self).declared,
            param_set(final(self).found@) == param_set(old(self).found@) + (param_set(
                ps@,
            ).intersect(param_set(old(self).declared@))),
    {
        let ghost found0 = self.found@;
        let ghost decl = param_set(self.declared@);
        let mut i: usize = 0;
        proof {
            assert(param_set(self.found@) =~= param_set(found0) + (param_set(
                ps@.take(0),
            ).intersect(decl)));
        }
        while i < ps.len()
            invariant
                0 <= i <= ps@.len(),
                self.declared == old(self).declared,
                decl == param_set(self.declared@),
                param_set(self.found@) == param_set(found0) + (param_set(ps@.take(i as int)).intersect(decl)),
            decreases ps@.len() - i,
        {
            self.register(&ps[i]);
            proof {
                crate::param::lemma_param_set_take(ps@, i as int);
                assert(param_set(self.found@) =~= param_set(found0) + (param_set(
                    ps@.take(i as int + 1),
                ).intersect(decl)));
            }
            i += 1;
        }
        proof {
            assert(ps@.take(ps@.len() as int) =~= ps@);
        }
    }

    /// Visits one lifetime occurrence.
    pub fn visit_lifetime(&mut self, name: &String)
        ensures
            final(self).declared == old(self).declared,
            param_set(final(self).found@) == if param_set(old(self).declared@).contains(
                GParam::Lifetime(name@),
            ) {
                param_set(old(self).found@).insert(GParam::Lifetime(name@))
            } else {
                param_set(old(self).found@)
            },
    {
        self.register(&Param::Lifetime(name.clone()));
    }

    /// Visits a path: the head segment's identifier and everything inside
    /// the segments' argument lists.
    pub fn visit_path(&mut self, segs: &Vec<PathSeg>)
        ensures
            final(self).declared == old(self).declared,
            param_set(final(self).found@) == param_set(old(self).found@) + ((path_head_mentions(
                seg_seq_view(segs@),
            ) + seg_seq_mentions(seg_seq_view(segs@))).intersect(param_set(old(self).declared@))),
    {
        let mut ps: Vec<Param> = Vec::new();
        if segs.len() > 0 {
            ps.push(Param::Ident(segs[0].name.clone()));
            proof {
                crate::param::lemma_param_set_push(Seq::<Param>::empty(), ps@[0]);
            }
        }
        let ghost head = ps@;
        crate::extractor::collect_seg_vec(segs, &mut ps);
        proof {
            assert(param_set(head) =~= path_head_mentions(seg_seq_view(segs@)));
        }
        self.register_all(&ps);
    }

    /// Visits a whole predicate: its bounded subject and its bound list.
    pub fn visit_predicate(&mut self, p: &crate::generics::Predicate)
        ensures
            final(self).declared == old(self).declared,
            param_set(final(self).found@) == param_set(old(self).found@) + (pred_mentions(
                p@,
            ).intersect(param_set(old(self).declared@))),
    {
        let mut ps: Vec<Param> = Vec::new();
        collect_predicate(p, &mut ps);
        proof {
            assert(param_set(ps@) =~= pred_mentions(p@));
        }
        self.register_all(&ps);
    }
}

} // verus!
