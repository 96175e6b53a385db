//! The type-expression walker.
//!
//! Computes the set of named parameters — lifetimes and bare identifiers —
//! that a type expression syntactically mentions, including parameters
//! hidden inside bound lists, angle-bracketed arguments, associated-type
//! bindings, array lengths and the qualifying type of an associated-type
//! path. A path contributes the identifier of its first segment (for a
//! single-segment path such as `T` that is the path itself; for a path such
//! as `P::Assoc` it is the projection's qualifying name); whether such a
//! mention actually names a generic parameter is decided by the caller,
//! which intersects the mentions with the declared parameter set.

use vstd::prelude::*;

use crate::param::{param_set, GParam, Param};
use crate::ty::{
    Bound, ConstArg, GenArg, PathSeg, SegArgs, TypeExpr, VBound, VConstArg, VGenArg, VPathSeg,
    VSegArgs, VTypeExpr,
};

verus! {

/// Parameters mentioned by a const argument: a bare identifier may name a
/// const generic parameter.
pub open spec fn const_mentions(c: VConstArg) -> Set<GParam> {
    match c {
        VConstArg::Named(n) => set![GParam::Ident(n)],
        VConstArg::Literal(_) => Set::empty(),
        VConstArg::Opaque => Set::empty(),
    }
}

/// The mention contributed by an optional reference lifetime.
pub open spec fn opt_lt_mentions(o: Option<Seq<char>>) -> Set<GParam> {
    match o {
        Option::Some(n) => set![GParam::Lifetime(n)],
        Option::None => Set::empty(),
    }
}

/// The identifier mention contributed by a path's first segment.
pub open spec fn path_head_mentions(segs: Seq<VPathSeg>) -> Set<GParam> {
    if segs.len() > 0 {
        set![GParam::Ident(segs[0].name)]
    } else {
        Set::empty()
    }
}

/// Parameters mentioned by a type expression.
pub open spec fn type_mentions(t: VTypeExpr) -> Set<GParam>
    decreases t,
{
    match t {
        VTypeExpr::Array(e, c) => type_mentions(*e) + const_mentions(c),
        VTypeExpr::Slice(e) => type_mentions(*e),
        VTypeExpr::Group(e) => type_mentions(*e),
        VTypeExpr::Paren(e) => type_mentions(*e),
        VTypeExpr::Ptr(e) => type_mentions(*e),
        VTypeExpr::Reference(lt, e) => opt_lt_mentions(lt) + type_mentions(*e),
        VTypeExpr::Tuple(es) => type_seq_mentions(es),
        VTypeExpr::ImplTrait(bs) => bound_seq_mentions(bs),
        VTypeExpr::TraitObject(bs) => bound_seq_mentions(bs),
        VTypeExpr::Path(q, segs) => (match q {
            Option::Some(e) => type_mentions(*e),
            Option::None => Set::empty(),
        }) + path_head_mentions(segs) + seg_seq_mentions(segs),
        VTypeExpr::BareFn => Set::empty(),
        VTypeExpr::Never => Set::empty(),
        VTypeExpr::Infer => Set::empty(),
        VTypeExpr::Macro => Set::empty(),
        VTypeExpr::Verbatim => Set::empty(),
    }
}

/// Parameters mentioned by any element of a sequence of type expressions.
pub open spec fn type_seq_mentions(s: Seq<VTypeExpr>) -> Set<GParam>
    decreases s,
{
    if s.len() == 0 {
        Set::empty()
    } else {
        type_seq_mentions(s.drop_last()) + type_mentions(s.last())
    }
}

/// Parameters mentioned inside one path segment's argument list.
pub open spec fn seg_mentions(seg: VPathSeg) -> Set<GParam>
    decreases seg,
{
    segargs_mentions(seg.args)
}

/// Parameters mentioned by any segment's argument list in a path.
pub open spec fn seg_seq_mentions(s: Seq<VPathSeg>) -> Set<GParam>
    decreases s,
{
    if s.len() == 0 {
        Set::empty()
    } else {
        seg_seq_mentions(s.drop_last()) + seg_mentions(s.last())
    }
}

/// Parameters mentioned inside a segment's arguments.
pub open spec fn segargs_mentions(a: VSegArgs) -> Set<GParam>
    decreases a,
{
    match a {
        VSegArgs::Absent => Set::empty(),
        VSegArgs::Angle(gs) => genarg_seq_mentions(gs),
        VSegArgs::Paren(ts) => type_seq_mentions(ts),
    }
}

/// Parameters mentioned by one generic argument.
pub open spec fn genarg_mentions(a: VGenArg) -> Set<GParam>
    decreases a,
{
    match a {
        VGenArg::Lifetime(n) => set![GParam::Lifetime(n)],
        VGenArg::Type(t) => type_mentions(*t),
        VGenArg::Binding(_, t) => type_mentions(*t),
        VGenArg::Other => Set::empty(),
    }
}

/// Parameters mentioned by any element of a generic-argument list.
pub open spec fn genarg_seq_mentions(s: Seq<VGenArg>) -> Set<GParam>
    decreases s,
{
    if s.len() == 0 {
        Set::empty()
    } else {
        genarg_seq_mentions(s.drop_last()) + genarg_mentions(s.last())
    }
}

/// Parameters mentioned by one bound: a trait bound contributes its path's
/// first segment and everything inside its argument lists; a lifetime bound
/// contributes the lifetime.
pub open spec fn bound_mentions(b: VBound) -> Set<GParam>
    decreases b,
{
    match b {
        VBound::Trait(segs) => path_head_mentions(segs) + seg_seq_mentions(segs),
        VBound::Lifetime(n) => set![GParam::Lifetime(n)],
    }
}

/// Parameters mentioned by any element of a bound list.
pub open spec fn bound_seq_mentions(s: Seq<VBound>) -> Set<GParam>
    decreases s,
{
    if s.len() == 0 {
        Set::empty()
    } else {
        bound_seq_mentions(s.drop_last()) + bound_mentions(s.last())
    }
}

/// The set of character sequences occurring in a sequence of strings.
pub open spec fn str_set(s: Seq<String>) -> Set<Seq<char>> {
    Set::new(|n: Seq<char>| exists|i: int| 0 <= i < s.len() && #[trigger] s[i]@ == n)
}

proof fn lemma_str_set_push(s: Seq<String>, n: String)
    ensures
        str_set(s.push(n)) == str_set(s).insert(n@),
{
    assert forall|g: Seq<char>| str_set(s.push(n)).contains(g) implies str_set(s).insert(
        n@,
    ).contains(g) by {
        let i = choose|i: int| 0 <= i < s.push(n).len() && #[trigger] s.push(n)[i]@ == g;
        if i < s.len() {
            assert(s[i]@ == g);
        }
    }
    assert forall|g: Seq<char>| str_set(s).insert(n@).contains(g) implies str_set(
        s.push(n),
    ).contains(g) by {
        if str_set(s).contains(g) {
            let i = choose|i: int| 0 <= i < s.len() && #[trigger] s[i]@ == g;
            assert(s.push(n)[i]@ == g);
        } else {
            assert(s.push(n)[s.len() as int]@ == g);
        }
    }
    assert(str_set(s.push(n)) =~= str_set(s).insert(n@));
}

/// The lifetime names among a set of parameters.
pub open spec fn lifetime_names(s: Set<GParam>) -> Set<Seq<char>> {
    Set::new(|n: Seq<char>| s.contains(GParam::Lifetime(n)))
}

/// The identifier names among a set of parameters.
pub open spec fn ident_names(s: Set<GParam>) -> Set<Seq<char>> {
    Set::new(|n: Seq<char>| s.contains(GParam::Ident(n)))
}

/// Extraction of the parameters a type expression mentions.
///
/// Implemented by [`TypeExpr`]; the returned vectors are read at the spec
/// level as sets of names, without a guaranteed order and possibly with
/// repeats.
pub trait Extractor {
    /// The lifetime names mentioned anywhere in `self`.
    fn extract_lifetimes(&self) -> Vec<String>;

    /// The bare identifiers mentioned anywhere in `self`.
    fn extract_idents(&self) -> Vec<String>;

    /// Every parameter mention in `self`: lifetimes and identifiers.
    fn extract_params(&self) -> Vec<Param>;
}

impl Extractor for TypeExpr {
    fn extract_lifetimes(&self) -> (r: Vec<String>)
        ensures
            str_set(r@) == lifetime_names(type_mentions(self@)),
    {
        let ps = self.extract_params();
        let mut acc: Vec<String> = Vec::new();
        let mut i: usize = 0;
        while i < ps.len()
            invariant
                0 <= i <= ps@.len(),
                param_set(ps@) == type_mentions(self@),
                forall|n: Seq<char>|
                    str_set(acc@).contains(n) <==> exists|j: int|
                        0 <= j < i && #[trigger] ps@[j]@ == GParam::Lifetime(n),
            decreases ps@.len() - i,
        {
            let ghost old_acc = acc@;
            match &ps[i] {
                Param::Lifetime(n) => {
                    let ghost nv = n@;
                    acc.push(n.clone());
                    proof {
                        lemma_str_set_push(old_acc, ps@[i as int]->Lifetime_0);
                        assert(ps@[i as int]@ == GParam::Lifetime(nv));
                    }
                },
                Param::Ident(_) => {},
            }
            i += 1;
        }
        proof {
            assert forall|n: Seq<char>| #[trigger]
                str_set(acc@).contains(n) implies lifetime_names(
                type_mentions(self@),
            ).contains(n) by {
                let j = choose|j: int| 0 <= j < ps@.len() && #[trigger] ps@[j]@ == GParam::Lifetime(
                    n,
                );
                assert(param_set(ps@).contains(GParam::Lifetime(n)));
            }
            assert forall|n: Seq<char>| #[trigger]
                lifetime_names(type_mentions(self@)).contains(n) implies str_set(acc@).contains(
                n,
            ) by {
                assert(param_set(ps@).contains(GParam::Lifetime(n)));
            }
            assert(str_set(acc@) =~= lifetime_names(type_mentions(self@)));
        }
        acc
    }

    fn extract_idents(&self) -> (r: Vec<String>)
        ensures
            str_set(r@) == ident_names(type_mentions(self@)),
    {
        let ps = self.extract_params();
        let mut acc: Vec<String> = Vec::new();
        let mut i: usize = 0;
        while i < ps.len()
            invariant
                0 <= i <= ps@.len(),
                param_set(ps@) == type_mentions(self@),
                forall|n: Seq<char>|
                    str_set(acc@).contains(n) <==> exists|j: int|
                        0 <= j < i && #[trigger] ps@[j]@ == GParam::Ident(n),
            decreases ps@.len() - i,
        {
            let ghost old_acc = acc@;
            match &ps[i] {
                Param::Ident(n) => {
                    let ghost nv = n@;
                    acc.push(n.clone());
                    proof {
                        lemma_str_set_push(old_acc, ps@[i as int]->Ident_0);
                        assert(ps@[i as int]@ == GParam::Ident(nv));
                    }
                },
                Param::Lifetime(_) => {},
            }
            i += 1;
        }
        proof {
            assert forall|n: Seq<char>| #[trigger]
                str_set(acc@).contains(n) implies ident_names(type_mentions(self@)).contains(
                n,
            ) by {
                let j = choose|j: int| 0 <= j < ps@.len() && #[trigger] ps@[j]@ == GParam::Ident(n);
                assert(param_set(ps@).contains(GParam::Ident(n)));
            }
            assert forall|n: Seq<char>| #[trigger]
                ident_names(type_mentions(self@)).contains(n) implies str_set(acc@).contains(
                n,
            ) by {
                assert(param_set(ps@).contains(GParam::Ident(n)));
            }
            assert(str_set(acc@) =~= ident_names(type_mentions(self@)));
        }
        acc
    }

    fn extract_params(&self) -> (r: Vec<Param>)
        ensures
            param_set(r@) == type_mentions(self@),
    {
        let mut acc: Vec<Param> = Vec::new();
        collect_type(self, &mut acc);
        proof {
            assert(param_set(acc@) =~= type_mentions(self@));
        }
        acc
    }
}

fn push_param(acc: &mut Vec<Param>, p: Param)
    ensures
        param_set(final(acc)@) == param_set(old(acc)@).insert(p@),
{
    let ghost old_seq = acc@;
    acc.push(p);
    proof {
        crate::param::lemma_param_set_push(old_seq, p);
    }
}

fn collect_const(c: &ConstArg, acc: &mut Vec<Param>)
    ensures
        param_set(final(acc)@) == param_set(old(acc)@) + const_mentions(c@),
{
    let ghost entry = acc@;
    match c {
        ConstArg::Named(n) => {
            push_param(acc, Param::Ident(n.clone()));
            proof {
                assert(param_set(acc@) =~= param_set(entry) + const_mentions(c@));
            }
        },
        ConstArg::Literal(_) => {
            proof {
                assert(param_set(acc@) =~= param_set(entry) + const_mentions(c@));
            }
        },
        ConstArg::Opaque => {
            proof {
                assert(param_set(acc@) =~= param_set(entry) + const_mentions(c@));
            }
        },
    }
}

pub fn collect_type(t: &TypeExpr, acc: &mut Vec<Param>)
    ensures
        param_set(final(acc)@) == param_set(old(acc)@) + type_mentions(t@),
    decreases *t,
{
    let ghost entry = acc@;
    match t {
        TypeExpr::Array(e, c) => {
            collect_type(e, acc);
            collect_const(c, acc);
            proof {
                assert(param_set(acc@) =~= param_set(entry) + type_mentions(t@));
            }
        },
        TypeExpr::Slice(e) => {
            collect_type(e, acc);
        },
        TypeExpr::Group(e) => {
            collect_type(e, acc);
        },
        TypeExpr::Paren(e) => {
            collect_type(e, acc);
        },
        TypeExpr::Ptr(e) => {
            collect_type(e, acc);
        },
        TypeExpr::Reference(lt, e) => {
            match lt {
                Option::Some(n) => {
                    push_param(acc, Param::Lifetime(n.clone()));
                },
                Option::None => {},
            }
            collect_type(e, acc);
            proof {
                assert(param_set(acc@) =~= param_set(entry) + type_mentions(t@));
            }
        },
        TypeExpr::Tuple(es) => {
            collect_type_vec(es, acc);
        },
        TypeExpr::ImplTrait(bs) => {
            collect_bound_vec(bs, acc);
        },
        TypeExpr::TraitObject(bs) => {
            collect_bound_vec(bs, acc);
        },
        TypeExpr::Path(q, segs) => {
            match q {
                Option::Some(e) => {
                    collect_type(e, acc);
                },
                Option::None => {},
            }
            if segs.len() > 0 {
                push_param(acc, Param::Ident(segs[0].name.clone()));
            }
            collect_seg_vec(segs, acc);
            proof {
                assert(param_set(acc@) =~= param_set(entry) + type_mentions(t@));
            }
        },
        TypeExpr::BareFn => {
            proof {
                assert(param_set(acc@) =~= param_set(entry) + type_mentions(t@));
            }
        },
        TypeExpr::Never => {
            proof {
                assert(param_set(acc@) =~= param_set(entry) + type_mentions(t@));
            }
        },
        TypeExpr::Infer => {
            proof {
                assert(param_set(acc@) =~= param_set(entry) + type_mentions(t@));
            }
        },
        TypeExpr::Macro => {
            proof {
                assert(param_set(acc@) =~= param_set(entry) + type_mentions(t@));
            }
        },
        TypeExpr::Verbatim => {
            proof {
                assert(param_set(acc@) =~= param_set(entry) + type_mentions(t@));
            }
        },
    }
}

fn collect_type_vec(v: &Vec<TypeExpr>, acc: &mut Vec<Param>)
    ensures
        param_set(final(acc)@) == param_set(old(acc)@) + type_seq_mentions(
            crate::ty::type_seq_view(v@),
        ),
    decreases v@,
{
    let ghost entry = acc@;
    let ghost vs = crate::ty::type_seq_view(v@);
    let mut i: usize = 0;
    proof {
        assert(vs.take(0) =~= Seq::<VTypeExpr>::empty());
    }
    while i < v.len()
        invariant
            0 <= i <= v@.len(),
            vs == crate::ty::type_seq_view(v@),
            vs.len() == v@.len(),
            param_set(acc@) == param_set(entry) + type_seq_mentions(vs.take(i as int)),
        decreases v@.len() - i,
    {
        proof {
            assert(decreases_to!(v@ => v@[i as int]));
        }
        collect_type(&v[i], acc);
        proof {
            lemma_type_seq_mentions_take(vs, i as int);
            assert(vs[i as int] == v@[i as int]@);
            assert(param_set(acc@) =~= param_set(entry) + type_seq_mentions(
                vs.take(i as int + 1),
            ));
        }
        i += 1;
    }
    proof {
        assert(vs.take(v@.len() as int) =~= vs);
    }
}

pub fn collect_seg_vec(v: &Vec<PathSeg>, acc: &mut Vec<Param>)
    ensures
        param_set(final(acc)@) == param_set(old(acc)@) + seg_seq_mentions(
            crate::ty::seg_seq_view(v@),
        ),
    decreases v@,
{
    let ghost entry = acc@;
    let ghost vs = crate::ty::seg_seq_view(v@);
    let mut i: usize = 0;
    proof {
        assert(vs.take(0) =~= Seq::<VPathSeg>::empty());
    }
    while i < v.len()
        invariant
            0 <= i <= v@.len(),
            vs == crate::ty::seg_seq_view(v@),
            vs.len() == v@.len(),
            param_set(acc@) == param_set(entry) + seg_seq_mentions(vs.take(i as int)),
        decreases v@.len() - i,
    {
        proof {
            assert(decreases_to!(v@ => v@[i as int]));
        }
        collect_segargs(&v[i].args, acc);
        proof {
            lemma_seg_seq_mentions_take(vs, i as int);
            assert(vs[i as int] == v@[i as int]@);
            assert(seg_mentions(vs[i as int]) == segargs_mentions(v@[i as int].args@));
            assert(param_set(acc@) =~= param_set(entry) + seg_seq_mentions(
                vs.take(i as int + 1),
            ));
        }
        i += 1;
    }
    proof {
        assert(vs.take(v@.len() as int) =~= vs);
    }
}

fn collect_segargs(a: &SegArgs, acc: &mut Vec<Param>)
    ensures
        param_set(final(acc)@) == param_set(old(acc)@) + segargs_mentions(a@),
    decreases *a,
{
    let ghost entry = acc@;
    match a {
        SegArgs::Absent => {
            proof {
                assert(param_set(acc@) =~= param_set(entry) + segargs_mentions(a@));
            }
        },
        SegArgs::Angle(gs) => {
            collect_genarg_vec(gs, acc);
        },
        SegArgs::Paren(ts) => {
            collect_type_vec(ts, acc);
        },
    }
}

fn collect_genarg_vec(v: &Vec<GenArg>, acc: &mut Vec<Param>)
    ensures
        param_set(final(acc)@) == param_set(old(acc)@) + genarg_seq_mentions(
            crate::ty::genarg_seq_view(v@),
        ),
    decreases v@,
{
    let ghost entry = acc@;
    let ghost vs = crate::ty::genarg_seq_view(v@);
    let mut i: usize = 0;
    proof {
        assert(vs.take(0) =~= Seq::<VGenArg>::empty());
    }
    while i < v.len()
        invariant
            0 <= i <= v@.len(),
            vs == crate::ty::genarg_seq_view(v@),
            vs.len() == v@.len(),
            param_set(acc@) == param_set(entry) + genarg_seq_mentions(vs.take(i as int)),
        decreases v@.len() - i,
    {
        proof {
            assert(decreases_to!(v@ => v@[i as int]));
        }
        collect_genarg(&v[i], acc);
        proof {
            lemma_genarg_seq_mentions_take(vs, i as int);
            assert(vs[i as int] == v@[i as int]@);
            assert(param_set(acc@) =~= param_set(entry) + genarg_seq_mentions(
                vs.take(i as int + 1),
            ));
        }
        i += 1;
    }
    proof {
        assert(vs.take(v@.len() as int) =~= vs);
    }
}

fn collect_genarg(a: &GenArg, acc: &mut Vec<Param>)
    ensures
        param_set(final(acc)@) == param_set(old(acc)@) + genarg_mentions(a@),
    decreases *a,
{
    let ghost entry = acc@;
    match a {
        GenArg::Lifetime(n) => {
            push_param(acc, Param::Lifetime(n.clone()));
            proof {
                assert(param_set(acc@) =~= param_set(entry) + genarg_mentions(a@));
            }
        },
        GenArg::Type(t) => {
            collect_type(t, acc);
        },
        GenArg::Binding(_, t) => {
            collect_type(t, acc);
        },
        GenArg::Other => {
            proof {
                assert(param_set(acc@) =~= param_set(entry) + genarg_mentions(a@));
            }
        },
    }
}

fn collect_bound(b: &Bound, acc: &mut Vec<Param>)
    ensures
        param_set(final(acc)@) == param_set(old(acc)@) + bound_mentions(b@),
    decreases *b,
{
    let ghost entry = acc@;
    match b {
        Bound::Trait(segs) => {
            if segs.len() > 0 {
                push_param(acc, Param::Ident(segs[0].name.clone()));
            }
            collect_seg_vec(segs, acc);
            proof {
                assert(param_set(acc@) =~= param_set(entry) + bound_mentions(b@));
            }
        },
        Bound::Lifetime(n) => {
            push_param(acc, Param::Lifetime(n.clone()));
            proof {
                assert(param_set(acc@) =~= param_set(entry) + bound_mentions(b@));
            }
        },
    }
}

fn collect_bound_vec(v: &Vec<Bound>, acc: &mut Vec<Param>)
    ensures
        param_set(final(acc)@) == param_set(old(acc)@) + bound_seq_mentions(
            crate::ty::bound_seq_view(v@),
        ),
    decreases v@,
{
    let ghost entry = acc@;
    let ghost vs = crate::ty::bound_seq_view(v@);
    let mut i: usize = 0;
    proof {
        assert(vs.take(0) =~= Seq::<VBound>::empty());
    }
    while i < v.len()
        invariant
            0 <= i <= v@.len(),
            vs == crate::ty::bound_seq_view(v@),
            vs.len() == v@.len(),
            param_set(acc@) == param_set(entry) + bound_seq_mentions(vs.take(i as int)),
        decreases v@.len() - i,
    {
        proof {
            assert(decreases_to!(v@ => v@[i as int]));
        }
        collect_bound(&v[i], acc);
        proof {
            lemma_bound_seq_mentions_take(vs, i as int);
            assert(vs[i as int] == v@[i as int]@);
            assert(param_set(acc@) =~= param_set(entry) + bound_seq_mentions(
                vs.take(i as int + 1),
            ));
        }
        i += 1;
    }
    proof {
        assert(vs.take(v@.len() as int) =~= vs);
    }
}

/// Collects every parameter a predicate mentions: the bounded subject and
/// the whole bound list.
pub fn collect_predicate(p: &crate::generics::Predicate, acc: &mut Vec<Param>)
    ensures
        param_set(final(acc)@) == param_set(old(acc)@) + crate::generics::pred_mentions(p@),
{
    let ghost entry = acc@;
    match p {
        crate::generics::Predicate::Type { subject, bounds } => {
            collect_type(subject, acc);
            collect_bound_vec(bounds, acc);
            proof {
                assert(param_set(acc@) =~= param_set(entry) + crate::generics::pred_mentions(p@));
            }
        },
        crate::generics::Predicate::Lifetime { lifetime, bounds } => {
            push_param(acc, Param::Lifetime(lifetime.clone()));
            let ghost mid = acc@;
            let ghost sv = crate::generics::str_seq_view(bounds@);
            let mut i: usize = 0;
            proof {
                assert(crate::generics::lt_bound_mentions(sv.take(0)) =~= Set::<GParam>::empty());
            }
            while i < bounds.len()
                invariant
                    0 <= i <= bounds@.len(),
                    sv == crate::generics::str_seq_view(bounds@),
                    sv.len() == bounds@.len(),
                    param_set(acc@) == param_set(mid) + crate::generics::lt_bound_mentions(
                        sv.take(i as int),
                    ),
                decreases bounds@.len() - i,
            {
                push_param(acc, Param::Lifetime(bounds[i].clone()));
                proof {
                    crate::generics::lemma_lt_bound_mentions_take(sv, i as int);
                    assert(param_set(acc@) =~= param_set(mid)
                        + crate::generics::lt_bound_mentions(sv.take(i as int + 1)));
                }
                i += 1;
            }
            proof {
                assert(sv.take(bounds@.len() as int) =~= sv);
                assert(param_set(acc@) =~= param_set(entry) + crate::generics::pred_mentions(p@));
            }
        },
        crate::generics::Predicate::Equality { lhs, rhs } => {
            collect_type(lhs, acc);
            collect_type(rhs, acc);
            proof {
                assert(param_set(acc@) =~= param_set(entry) + crate::generics::pred_mentions(p@));
            }
        },
    }
}

proof fn lemma_type_seq_mentions_take(s: Seq<VTypeExpr>, i: int)
    requires
        0 <= i < s.len(),
    ensures
        type_seq_mentions(s.take(i + 1)) == type_seq_mentions(s.take(i)) + type_mentions(s[i]),
{
    assert(s.take(i + 1).drop_last() =~= s.take(i));
    assert(s.take(i + 1).last() == s[i]);
}

proof fn lemma_seg_seq_mentions_take(s: Seq<VPathSeg>, i: int)
    requires
        0 <= i < s.len(),
    ensures
        seg_seq_mentions(s.take(i + 1)) == seg_seq_mentions(s.take(i)) + seg_mentions(s[i]),
{
    assert(s.take(i + 1).drop_last() =~= s.take(i));
    assert(s.take(i + 1).last() == s[i]);
}

proof fn lemma_genarg_seq_mentions_take(s: Seq<VGenArg>, i: int)
    requires
        0 <= i < s.len(),
    ensures
        genarg_seq_mentions(s.take(i + 1)) == genarg_seq_mentions(s.take(i)) + genarg_mentions(
            s[i],
        ),
{
    assert(s.take(i + 1).drop_last() =~= s.take(i));
    assert(s.take(i + 1).last() == s[i]);
}

proof fn lemma_bound_seq_mentions_take(s: Seq<VBound>, i: int)
    requires
        0 <= i < s.len(),
    ensures
        bound_seq_mentions(s.take(i + 1)) == bound_seq_mentions(s.take(i)) + bound_mentions(s[i]),
{
    assert(s.take(i + 1).drop_last() =~= s.take(i));
    assert(s.take(i + 1).last() == s[i]);
}

} // verus!
