//! Named generic parameters.

use vstd::prelude::*;

verus! {

/// A generic parameter referenced by name: either a lifetime or a bare
/// identifier. Identifiers cover both type and const parameters, since both
/// are referenced by a bare name inside type expressions.
#[derive(Debug)]
pub enum Param {
    Lifetime(String),
    Ident(String),
}

impl Clone for Param {
    fn clone(&self) -> (r: Self)
        ensures
            r@ == self@,
    {
        match self {
            Param::Lifetime(n) => Param::Lifetime(n.clone()),
            Param::Ident(n) => Param::Ident(n.clone()),
        }
    }
}

/// Spec-level identity of a [`Param`]: the discriminant together with the
/// characters of the name. Two parameters are the same exactly when their
/// identities coincide.
pub ghost enum GParam {
    Lifetime(Seq<char>),
    Ident(Seq<char>),
}

impl View for Param {
    type V = GParam;

    open spec fn view(&self) -> GParam {
        match self {
            Param::Lifetime(n) => GParam::Lifetime(n@),
            Param::Ident(n) => GParam::Ident(n@),
        }
    }
}

impl PartialEq for Param {
    fn eq(&self, other: &Param) -> (r: bool) {
        match (self, other) {
            (Param::Lifetime(a), Param::Lifetime(b)) => a.eq(b),
            (Param::Ident(a), Param::Ident(b)) => a.eq(b),
            _ => false,
        }
    }
}

impl vstd::std_specs::cmp::PartialEqSpecImpl for Param {
    open spec fn obeys_eq_spec() -> bool {
        true
    }

    open spec fn eq_spec(&self, other: &Param) -> bool {
        self@ == other@
    }
}

/// Whether a where-clause predicate is about the given parameter: a
/// lifetime predicate names the lifetime itself, and a type predicate's
/// bounded subject mentions the identifier. Equality predicates are about
/// no parameter.
pub open spec fn pred_mentions_param(p: crate::generics::VPredicate, gp: GParam) -> bool {
    match p {
        crate::generics::VPredicate::Lifetime { lifetime, .. } => gp == GParam::Lifetime(lifetime),
        crate::generics::VPredicate::Type { subject, .. } => gp is Ident
            && crate::extractor::type_mentions(subject).contains(gp),
        crate::generics::VPredicate::Equality { .. } => false,
    }
}

impl Param {
    /// Given a declaration, finds the first declared parameter with this
    /// name and the first where-clause predicate where this parameter
    /// appears.
    pub fn find<'b>(&self, generics: &'b crate::generics::Generics) -> (r: (
        Option<&'b crate::generics::GenericParam>,
        Option<&'b crate::generics::Predicate>,
    ))
        ensures
            match r.0 {
                Option::Some(gp) => exists|i: int|
                    0 <= i < generics@.params.len() && crate::generics::vparam_name(
                        #[trigger] generics@.params[i],
                    ) == self@ && gp@ == generics@.params[i] && (forall|j: int|
                        0 <= j < i ==> crate::generics::vparam_name(
                            #[trigger] generics@.params[j],
                        ) != self@),
                Option::None => forall|i: int|
                    0 <= i < generics@.params.len() ==> crate::generics::vparam_name(
                        #[trigger] generics@.params[i],
                    ) != self@,
            },
            match r.1 {
                Option::Some(p) => exists|i: int|
                    0 <= i < generics@.where_clause.len() && pred_mentions_param(
                        #[trigger] generics@.where_clause[i],
                        self@,
                    ) && p@ == generics@.where_clause[i] && (forall|j: int|
                        0 <= j < i ==> !pred_mentions_param(
                            #[trigger] generics@.where_clause[j],
                            self@,
                        )),
                Option::None => forall|i: int|
                    0 <= i < generics@.where_clause.len() ==> !pred_mentions_param(
                        #[trigger] generics@.where_clause[i],
                        self@,
                    ),
            },
    {
        match self {
            Param::Lifetime(n) => find_lt(n, generics),
            Param::Ident(n) => find_ident(n, generics),
        }
    }
}

/// Whether a declared parameter introduces the given identity.
fn decl_matches(p: &crate::generics::GenericParam, target: &Param) -> (r: bool)
    ensures
        r == (crate::generics::vparam_name(p@) == target@),
{
    let name = crate::generics::param_of_decl(p);
    name.eq(target)
}

/// Whether a predicate is about the given parameter.
fn pred_matches(p: &crate::generics::Predicate, target: &Param) -> (r: bool)
    ensures
        r == pred_mentions_param(p@, target@),
{
    match (p, target) {
        (crate::generics::Predicate::Lifetime { lifetime, .. }, Param::Lifetime(n)) => {
            lifetime.eq(n)
        },
        (crate::generics::Predicate::Type { subject, .. }, Param::Ident(_)) => {
            let mut mentions: Vec<Param> = Vec::new();
            crate::extractor::collect_type(subject, &mut mentions);
            proof {
                assert(param_set(mentions@) =~= crate::extractor::type_mentions(
                    crate::ty::type_view(*subject),
                ));
            }
            contains_param(&mentions, target)
        },
        _ => false,
    }
}

/// The scan behind [`Param::find`], shared by both parameter kinds.
#[verifier::loop_isolation(false)]
fn find_scan<'b>(target: &Param, generics: &'b crate::generics::Generics) -> (r: (
    Option<&'b crate::generics::GenericParam>,
    Option<&'b crate::generics::Predicate>,
))
    ensures
        match r.0 {
            Option::Some(gp) => exists|i: int|
                0 <= i < generics@.params.len() && crate::generics::vparam_name(
                    #[trigger] generics@.params[i],
                ) == target@ && gp@ == generics@.params[i] && (forall|j: int|
                    0 <= j < i ==> crate::generics::vparam_name(#[trigger] generics@.params[j])
                        != target@),
            Option::None => forall|i: int|
                0 <= i < generics@.params.len() ==> crate::generics::vparam_name(
                    #[trigger] generics@.params[i],
                ) != target@,
        },
        match r.1 {
            Option::Some(p) => exists|i: int|
                0 <= i < generics@.where_clause.len() && pred_mentions_param(
                    #[trigger] generics@.where_clause[i],
                    target@,
                ) && p@ == generics@.where_clause[i] && (forall|j: int|
                    0 <= j < i ==> !pred_mentions_param(
                        #[trigger] generics@.where_clause[j],
                        target@,
                    )),
            Option::None => forall|i: int|
                0 <= i < generics@.where_clause.len() ==> !pred_mentions_param(
                    #[trigger] generics@.where_clause[i],
                    target@,
                ),
        },
{
    let mut gp_idx: Option<usize> = Option::None;
    let mut i: usize = 0;
    while i < generics.params.len()
        invariant
            0 <= i <= generics.params@.len(),
            match gp_idx {
                Option::Some(x) => 0 <= x < i && crate::generics::vparam_name(
                    generics@.params[x as int],
                ) == target@ && (forall|j: int|
                    0 <= j < x ==> crate::generics::vparam_name(#[trigger] generics@.params[j])
                        != target@),
                Option::None => forall|j: int|
                    0 <= j < i ==> crate::generics::vparam_name(#[trigger] generics@.params[j])
                        != target@,
            },
        decreases generics.params@.len() - i,
    {
        proof {
            assert(generics@.params[i as int] == generics.params@[i as int]@);
        }
        let found = match gp_idx {
            Option::Some(_) => true,
            Option::None => false,
        };
        if !found && decl_matches(&generics.params[i], target) {
            gp_idx = Option::Some(i);
        }
        i += 1;
    }
    let mut pr_idx: Option<usize> = Option::None;
    let mut j: usize = 0;
    while j < generics.where_clause.len()
        invariant
            0 <= j <= generics.where_clause@.len(),
            match pr_idx {
                Option::Some(x) => 0 <= x < j && pred_mentions_param(
                    generics@.where_clause[x as int],
                    target@,
                ) && (forall|j2: int|
                    0 <= j2 < x ==> !pred_mentions_param(
                        #[trigger] generics@.where_clause[j2],
                        target@,
                    )),
                Option::None => forall|j2: int|
                    0 <= j2 < j ==> !pred_mentions_param(
                        #[trigger] generics@.where_clause[j2],
                        target@,
                    ),
            },
        decreases generics.where_clause@.len() - j,
    {
        proof {
            assert(generics@.where_clause[j as int] == generics.where_clause@[j as int]@);
        }
        let found = match pr_idx {
            Option::Some(_) => true,
            Option::None => false,
        };
        if !found && pred_matches(&generics.where_clause[j], target) {
            pr_idx = Option::Some(j);
        }
        j += 1;
    }
    let gp = match gp_idx {
        Option::Some(x) => Option::Some(&generics.params[x]),
        Option::None => Option::None,
    };
    let pr = match pr_idx {
        Option::Some(x) => Option::Some(&generics.where_clause[x]),
        Option::None => Option::None,
    };
    (gp, pr)
}

/// Finds where a lifetime parameter is declared and first constrained.
fn find_lt<'b>(lt: &String, generics: &'b crate::generics::Generics) -> (r: (
    Option<&'b crate::generics::GenericParam>,
    Option<&'b crate::generics::Predicate>,
))
    ensures
        ({
            let target = GParam::Lifetime(lt@);
            &&& match r.0 {
                Option::Some(gp) => exists|i: int|
                    0 <= i < generics@.params.len() && crate::generics::vparam_name(
                        #[trigger] generics@.params[i],
                    ) == target && gp@ == generics@.params[i] && (forall|j: int|
                        0 <= j < i ==> crate::generics::vparam_name(
                            #[trigger] generics@.params[j],
                        ) != target),
                Option::None => forall|i: int|
                    0 <= i < generics@.params.len() ==> crate::generics::vparam_name(
                        #[trigger] generics@.params[i],
                    ) != target,
            }
            &&& match r.1 {
                Option::Some(p) => exists|i: int|
                    0 <= i < generics@.where_clause.len() && pred_mentions_param(
                        #[trigger] generics@.where_clause[i],
                        target,
                    ) && p@ == generics@.where_clause[i] && (forall|j: int|
                        0 <= j < i ==> !pred_mentions_param(
                            #[trigger] generics@.where_clause[j],
                            target,
                        )),
                Option::None => forall|i: int|
                    0 <= i < generics@.where_clause.len() ==> !pred_mentions_param(
                        #[trigger] generics@.where_clause[i],
                        target,
                    ),
            }
        }),
{
    find_scan(&Param::Lifetime(lt.clone()), generics)
}

/// Finds where an identifier parameter is declared and first constrained.
fn find_ident<'b>(ident: &String, generics: &'b crate::generics::Generics) -> (r: (
    Option<&'b crate::generics::GenericParam>,
    Option<&'b crate::generics::Predicate>,
))
    ensures
        ({
            let target = GParam::Ident(ident@);
            &&& match r.0 {
                Option::Some(gp) => exists|i: int|
                    0 <= i < generics@.params.len() && crate::generics::vparam_name(
                        #[trigger] generics@.params[i],
                    ) == target && gp@ == generics@.params[i] && (forall|j: int|
                        0 <= j < i ==> crate::generics::vparam_name(
                            #[trigger] generics@.params[j],
                        ) != target),
                Option::None => forall|i: int|
                    0 <= i < generics@.params.len() ==> crate::generics::vparam_name(
                        #[trigger] generics@.params[i],
                    ) != target,
            }
            &&& match r.1 {
                Option::Some(p) => exists|i: int|
                    0 <= i < generics@.where_clause.len() && pred_mentions_param(
                        #[trigger] generics@.where_clause[i],
                        target,
                    ) && p@ == generics@.where_clause[i] && (forall|j: int|
                        0 <= j < i ==> !pred_mentions_param(
                            #[trigger] generics@.where_clause[j],
                            target,
                        )),
                Option::None => forall|i: int|
                    0 <= i < generics@.where_clause.len() ==> !pred_mentions_param(
                        #[trigger] generics@.where_clause[i],
                        target,
                    ),
            }
        }),
{
    find_scan(&Param::Ident(ident.clone()), generics)
}

/// The set of parameter identities occurring in a sequence of parameters.
pub open spec fn param_set(s: Seq<Param>) -> Set<GParam> {
    Set::new(|g: GParam| exists|i: int| 0 <= i < s.len() && #[trigger] s[i]@ == g)
}

/// Pushing a parameter onto a sequence adds exactly its identity to the set.
pub proof fn lemma_param_set_push(s: Seq<Param>, p: Param)
    ensures
        param_set(s.push(p)) == param_set(s).insert(p@),
{
    assert forall|g: GParam| param_set(s.push(p)).contains(g) implies param_set(s).insert(
        p@,
    ).contains(g) by {
        let i = choose|i: int| 0 <= i < s.push(p).len() && #[trigger] s.push(p)[i]@ == g;
        if i < s.len() {
            assert(s[i]@ == g);
        }
    }
    assert forall|g: GParam| param_set(s).insert(p@).contains(g) implies param_set(
        s.push(p),
    ).contains(g) by {
        if param_set(s).contains(g) {
            let i = choose|i: int| 0 <= i < s.len() && #[trigger] s[i]@ == g;
            assert(s.push(p)[i]@ == g);
        } else {
            assert(s.push(p)[s.len() as int]@ == g);
        }
    }
    assert(param_set(s.push(p)) =~= param_set(s).insert(p@));
}

/// Taking one more element extends the set by exactly that element's
/// identity.
pub proof fn lemma_param_set_take(s: Seq<Param>, i: int)
    requires
        0 <= i < s.len(),
    ensures
        param_set(s.take(i + 1)) == param_set(s.take(i)).insert(s[i]@),
{
    assert(s.take(i + 1) =~= s.take(i).push(s[i]));
    lemma_param_set_push(s.take(i), s[i]);
}

/// Whether a vector of parameters contains one with the given identity.
pub fn contains_param(v: &Vec<Param>, p: &Param) -> (r: bool)
    ensures
        r == param_set(v@).contains(p@),
{
    let mut i: usize = 0;
    while i < v.len()
        invariant
            0 <= i <= v@.len(),
            forall|j: int| 0 <= j < i ==> v@[j]@ != p@,
        decreases v@.len() - i,
    {
        if &v[i] == p {
            assert(v@[i as int]@ == p@);
            return true;
        }
        i += 1;
    }
    false
}

/// Pushes a parameter unless one with the same identity is already present,
/// so the vector keeps set semantics at the spec level.
pub fn insert_param(v: &mut Vec<Param>, p: Param)
    ensures
        param_set(final(v)@) == param_set(old(v)@).insert(p@),
{
    let ghost old_seq = v@;
    if !contains_param(v, &p) {
        v.push(p);
        proof {
            lemma_param_set_push(old_seq, p);
        }
    } else {
        proof {
            assert(param_set(old_seq) =~= param_set(old_seq).insert(p@));
        }
    }
}

} // verus!
