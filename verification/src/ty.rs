//! The type-expression grammar.
//!
//! A closed, tagged grammar of the type expressions that may appear in a
//! variant field or in a bound: references, arrays, slices, tuples, trait
//! objects, generic paths, qualified (associated-type) paths and impl-trait
//! types. The grammar is the library's own model of a parsed type; shapes
//! that cannot mention a generic parameter (bare function types, the never
//! type, inferred types, macro invocations, verbatim tokens) are carried as
//! opaque tags so that a walk over the grammar is forced to treat every
//! shape explicitly.

use vstd::prelude::*;

verus! {

/// A const argument position: an array length, for instance. A bare
/// identifier there may reference a const generic parameter; any other
/// expression shape is opaque to this library.
#[derive(Debug, PartialEq)]
pub enum ConstArg {
    Named(String),
    Literal(u64),
    Opaque,
}

/// One argument inside an angle-bracketed generic-argument list.
#[derive(Debug, PartialEq)]
pub enum GenArg {
    /// A lifetime argument, as in `Foo<'a>`.
    Lifetime(String),
    /// A type argument, as in `Foo<T>`.
    Type(Box<TypeExpr>),
    /// An associated-type binding, as in `Iterator<Item = U>`.
    Binding(String, Box<TypeExpr>),
    /// Any other argument shape (a const expression, a constraint).
    Other,
}

/// The arguments attached to one path segment.
#[derive(Debug, PartialEq)]
pub enum SegArgs {
    /// No argument list.
    Absent,
    /// Angle-bracketed arguments, as in `Vec<T>`.
    Angle(Vec<GenArg>),
    /// Parenthesized function arguments, as in `Fn(T, U)`.
    Paren(Vec<TypeExpr>),
}

/// One segment of a path, such as `Vec` in `std::vec::Vec<T>`.
#[derive(Debug, PartialEq)]
pub struct PathSeg {
    pub name: String,
    pub args: SegArgs,
}

/// A bound inside a bound list: a trait bound (a path) or a lifetime bound.
#[derive(Debug, PartialEq)]
pub enum Bound {
    Trait(Vec<PathSeg>),
    Lifetime(String),
}

/// A type expression.
#[derive(Debug, PartialEq)]
pub enum TypeExpr {
    /// An array type `[T; N]`: element type and length expression.
    Array(Box<TypeExpr>, ConstArg),
    /// A slice type `[T]`.
    Slice(Box<TypeExpr>),
    /// A grouped type (an invisible delimiter around a type).
    Group(Box<TypeExpr>),
    /// A parenthesized type `(T)`.
    Paren(Box<TypeExpr>),
    /// A raw pointer type `*const T` or `*mut T`.
    Ptr(Box<TypeExpr>),
    /// A reference `&'a T`, with its optional lifetime.
    Reference(Option<String>, Box<TypeExpr>),
    /// A tuple type `(T, U, ..)`.
    Tuple(Vec<TypeExpr>),
    /// An `impl Trait` type, with its bound list.
    ImplTrait(Vec<Bound>),
    /// A trait object `dyn Trait + 'a`, with its bound list.
    TraitObject(Vec<Bound>),
    /// A path, optionally qualified: `T`, `std::vec::Vec<T>`,
    /// `<C as Trait>::Assoc`. The first component is the qualifying type.
    Path(Option<Box<TypeExpr>>, Vec<PathSeg>),
    /// A bare function type `fn(..) -> ..`; cannot reference a parameter in
    /// a way this library tracks.
    BareFn,
    /// The never type `!`.
    Never,
    /// An inferred type `_`.
    Infer,
    /// A macro invocation in type position; opaque.
    Macro,
    /// Verbatim tokens outside the supported grammar; opaque.
    Verbatim,
}

/// Spec model of [`ConstArg`].
pub ghost enum VConstArg {
    Named(Seq<char>),
    Literal(u64),
    Opaque,
}

/// Spec model of [`GenArg`].
pub ghost enum VGenArg {
    Lifetime(Seq<char>),
    Type(Box<VTypeExpr>),
    Binding(Seq<char>, Box<VTypeExpr>),
    Other,
}

/// Spec model of [`SegArgs`].
pub ghost enum VSegArgs {
    Absent,
    Angle(Seq<VGenArg>),
    Paren(Seq<VTypeExpr>),
}

/// Spec model of [`PathSeg`].
pub ghost struct VPathSeg {
    pub name: Seq<char>,
    pub args: VSegArgs,
}

/// Spec model of [`Bound`].
pub ghost enum VBound {
    Trait(Seq<VPathSeg>),
    Lifetime(Seq<char>),
}

/// Spec model of [`TypeExpr`].
pub ghost enum VTypeExpr {
    Array(Box<VTypeExpr>, VConstArg),
    Slice(Box<VTypeExpr>),
    Group(Box<VTypeExpr>),
    Paren(Box<VTypeExpr>),
    Ptr(Box<VTypeExpr>),
    Reference(Option<Seq<char>>, Box<VTypeExpr>),
    Tuple(Seq<VTypeExpr>),
    ImplTrait(Seq<VBound>),
    TraitObject(Seq<VBound>),
    Path(Option<Box<VTypeExpr>>, Seq<VPathSeg>),
    BareFn,
    Never,
    Infer,
    Macro,
    Verbatim,
}

pub open spec fn const_view(c: ConstArg) -> VConstArg {
    match c {
        ConstArg::Named(n) => VConstArg::Named(n@),
        ConstArg::Literal(v) => VConstArg::Literal(v),
        ConstArg::Opaque => VConstArg::Opaque,
    }
}

pub open spec fn opt_str_view(o: Option<String>) -> Option<Seq<char>> {
    match o {
        Option::Some(s) => Option::Some(s@),
        Option::None => Option::None,
    }
}

pub open spec fn genarg_view(a: GenArg) -> VGenArg
    decreases a,
{
    match a {
        GenArg::Lifetime(n) => VGenArg::Lifetime(n@),
        GenArg::Type(t) => VGenArg::Type(Box::new(type_view(*t))),
        GenArg::Binding(n, t) => VGenArg::Binding(n@, Box::new(type_view(*t))),
        GenArg::Other => VGenArg::Other,
    }
}

pub open spec fn genarg_seq_view(s: Seq<GenArg>) -> Seq<VGenArg>
    decreases s,
{
    Seq::new(
        s.len(),
        |i: int|
            if 0 <= i < s.len() {
                genarg_view(s[i])
            } else {
                arbitrary()
            },
    )
}

pub open spec fn type_seq_view(s: Seq<TypeExpr>) -> Seq<VTypeExpr>
    decreases s,
{
    Seq::new(
        s.len(),
        |i: int|
            if 0 <= i < s.len() {
                type_view(s[i])
            } else {
                arbitrary()
            },
    )
}

pub open spec fn segargs_view(a: SegArgs) -> VSegArgs
    decreases a,
{
    match a {
        SegArgs::Absent => VSegArgs::Absent,
        SegArgs::Angle(gs) => VSegArgs::Angle(genarg_seq_view(gs@)),
        SegArgs::Paren(ts) => VSegArgs::Paren(type_seq_view(ts@)),
    }
}

pub open spec fn seg_view(s: PathSeg) -> VPathSeg
    decreases s,
{
    VPathSeg { name: s.name@, args: segargs_view(s.args) }
}

pub open spec fn seg_seq_view(s: Seq<PathSeg>) -> Seq<VPathSeg>
    decreases s,
{
    Seq::new(
        s.len(),
        |i: int|
            if 0 <= i < s.len() {
                seg_view(s[i])
            } else {
                arbitrary()
            },
    )
}

pub open spec fn bound_view(b: Bound) -> VBound
    decreases b,
{
    match b {
        Bound::Trait(segs) => VBound::Trait(seg_seq_view(segs@)),
        Bound::Lifetime(n) => VBound::Lifetime(n@),
    }
}

pub open spec fn bound_seq_view(s: Seq<Bound>) -> Seq<VBound>
    decreases s,
{
    Seq::new(
        s.len(),
        |i: int|
            if 0 <= i < s.len() {
                bound_view(s[i])
            } else {
                arbitrary()
            },
    )
}

pub open spec fn type_view(t: TypeExpr) -> VTypeExpr
    decreases t,
{
    match t {
        TypeExpr::Array(e, c) => VTypeExpr::Array(Box::new(type_view(*e)), const_view(c)),
        TypeExpr::Slice(e) => VTypeExpr::Slice(Box::new(type_view(*e))),
        TypeExpr::Group(e) => VTypeExpr::Group(Box::new(type_view(*e))),
        TypeExpr::Paren(e) => VTypeExpr::Paren(Box::new(type_view(*e))),
        TypeExpr::Ptr(e) => VTypeExpr::Ptr(Box::new(type_view(*e))),
        TypeExpr::Reference(lt, e) => VTypeExpr::Reference(
            opt_str_view(lt),
            Box::new(type_view(*e)),
        ),
        TypeExpr::Tuple(es) => VTypeExpr::Tuple(type_seq_view(es@)),
        TypeExpr::ImplTrait(bs) => VTypeExpr::ImplTrait(bound_seq_view(bs@)),
        TypeExpr::TraitObject(bs) => VTypeExpr::TraitObject(bound_seq_view(bs@)),
        TypeExpr::Path(q, segs) => VTypeExpr::Path(
            match q {
                Option::Some(t) => Option::Some(Box::new(type_view(*t))),
                Option::None => Option::None,
            },
            seg_seq_view(segs@),
        ),
        TypeExpr::BareFn => VTypeExpr::BareFn,
        TypeExpr::Never => VTypeExpr::Never,
        TypeExpr::Infer => VTypeExpr::Infer,
        TypeExpr::Macro => VTypeExpr::Macro,
        TypeExpr::Verbatim => VTypeExpr::Verbatim,
    }
}

fn clone_const(c: &ConstArg) -> (r: ConstArg)
    ensures
        const_view(r) == const_view(*c),
{
    match c {
        ConstArg::Named(n) => ConstArg::Named(n.clone()),
        ConstArg::Literal(v) => ConstArg::Literal(*v),
        ConstArg::Opaque => ConstArg::Opaque,
    }
}

fn clone_genarg(a: &GenArg) -> (r: GenArg)
    ensures
        genarg_view(r) == genarg_view(*a),
    decreases *a,
{
    match a {
        GenArg::Lifetime(n) => GenArg::Lifetime(n.clone()),
        GenArg::Type(t) => GenArg::Type(Box::new(clone_type(t))),
        GenArg::Binding(n, t) => GenArg::Binding(n.clone(), Box::new(clone_type(t))),
        GenArg::Other => GenArg::Other,
    }
}

fn clone_genarg_vec(v: &Vec<GenArg>) -> (r: Vec<GenArg>)
    ensures
        genarg_seq_view(r@) == genarg_seq_view(v@),
    decreases v@,
{
    let mut acc: Vec<GenArg> = Vec::new();
    let mut i: usize = 0;
    while i < v.len()
        invariant
            0 <= i <= v@.len(),
            acc@.len() == i,
            forall|j: int| 0 <= j < i ==> genarg_view(acc@[j]) == genarg_view(v@[j]),
        decreases v@.len() - i,
    {
        proof {
            assert(decreases_to!(v@ => v@[i as int]));
        }
        acc.push(clone_genarg(&v[i]));
        i += 1;
    }
    proof {
        assert(genarg_seq_view(acc@) =~= genarg_seq_view(v@));
    }
    acc
}

fn clone_type_vec(v: &Vec<TypeExpr>) -> (r: Vec<TypeExpr>)
    ensures
        type_seq_view(r@) == type_seq_view(v@),
    decreases v@,
{
    let mut acc: Vec<TypeExpr> = Vec::new();
    let mut i: usize = 0;
    while i < v.len()
        invariant
            0 <= i <= v@.len(),
            acc@.len() == i,
            forall|j: int| 0 <= j < i ==> type_view(acc@[j]) == type_view(v@[j]),
        decreases v@.len() - i,
    {
        proof {
            assert(decreases_to!(v@ => v@[i as int]));
        }
        acc.push(clone_type(&v[i]));
        i += 1;
    }
    proof {
        assert(type_seq_view(acc@) =~= type_seq_view(v@));
    }
    acc
}

fn clone_segargs(a: &SegArgs) -> (r: SegArgs)
    ensures
        segargs_view(r) == segargs_view(*a),
    decreases *a,
{
    match a {
        SegArgs::Absent => SegArgs::Absent,
        SegArgs::Angle(gs) => SegArgs::Angle(clone_genarg_vec(gs)),
        SegArgs::Paren(ts) => SegArgs::Paren(clone_type_vec(ts)),
    }
}

fn clone_seg(s: &PathSeg) -> (r: PathSeg)
    ensures
        seg_view(r) == seg_view(*s),
    decreases *s,
{
    PathSeg { name: s.name.clone(), args: clone_segargs(&s.args) }
}

fn clone_seg_vec(v: &Vec<PathSeg>) -> (r: Vec<PathSeg>)
    ensures
        seg_seq_view(r@) == seg_seq_view(v@),
    decreases v@,
{
    let mut acc: Vec<PathSeg> = Vec::new();
    let mut i: usize = 0;
    while i < v.len()
        invariant
            0 <= i <= v@.len(),
            acc@.len() == i,
            forall|j: int| 0 <= j < i ==> seg_view(acc@[j]) == seg_view(v@[j]),
        decreases v@.len() - i,
    {
        proof {
            assert(decreases_to!(v@ => v@[i as int]));
        }
        acc.push(clone_seg(&v[i]));
        i += 1;
    }
    proof {
        assert(seg_seq_view(acc@) =~= seg_seq_view(v@));
    }
    acc
}

fn clone_bound(b: &Bound) -> (r: Bound)
    ensures
        bound_view(r) == bound_view(*b),
    decreases *b,
{
    match b {
        Bound::Trait(segs) => Bound::Trait(clone_seg_vec(segs)),
        Bound::Lifetime(n) => Bound::Lifetime(n.clone()),
    }
}

fn clone_bound_vec(v: &Vec<Bound>) -> (r: Vec<Bound>)
    ensures
        bound_seq_view(r@) == bound_seq_view(v@),
    decreases v@,
{
    let mut acc: Vec<Bound> = Vec::new();
    let mut i: usize = 0;
    while i < v.len()
        invariant
            0 <= i <= v@.len(),
            acc@.len() == i,
            forall|j: int| 0 <= j < i ==> bound_view(acc@[j]) == bound_view(v@[j]),
        decreases v@.len() - i,
    {
        proof {
            assert(decreases_to!(v@ => v@[i as int]));
        }
        acc.push(clone_bound(&v[i]));
        i += 1;
    }
    proof {
        assert(bound_seq_view(acc@) =~= bound_seq_view(v@));
    }
    acc
}

fn clone_type(t: &TypeExpr) -> (r: TypeExpr)
    ensures
        type_view(r) == type_view(*t),
    decreases *t,
{
    match t {
        TypeExpr::Array(e, c) => TypeExpr::Array(Box::new(clone_type(e)), clone_const(c)),
        TypeExpr::Slice(e) => TypeExpr::Slice(Box::new(clone_type(e))),
        TypeExpr::Group(e) => TypeExpr::Group(Box::new(clone_type(e))),
        TypeExpr::Paren(e) => TypeExpr::Paren(Box::new(clone_type(e))),
        TypeExpr::Ptr(e) => TypeExpr::Ptr(Box::new(clone_type(e))),
        TypeExpr::Reference(lt, e) => TypeExpr::Reference(
            match lt {
                Option::Some(n) => Option::Some(n.clone()),
                Option::None => Option::None,
            },
            Box::new(clone_type(e)),
        ),
        TypeExpr::Tuple(es) => TypeExpr::Tuple(clone_type_vec(es)),
        TypeExpr::ImplTrait(bs) => TypeExpr::ImplTrait(clone_bound_vec(bs)),
        TypeExpr::TraitObject(bs) => TypeExpr::TraitObject(clone_bound_vec(bs)),
        TypeExpr::Path(q, segs) => TypeExpr::Path(
            match q {
                Option::Some(e) => Option::Some(Box::new(clone_type(e))),
                Option::None => Option::None,
            },
            clone_seg_vec(segs),
        ),
        TypeExpr::BareFn => TypeExpr::BareFn,
        TypeExpr::Never => TypeExpr::Never,
        TypeExpr::Infer => TypeExpr::Infer,
        TypeExpr::Macro => TypeExpr::Macro,
        TypeExpr::Verbatim => TypeExpr::Verbatim,
    }
}

impl Clone for TypeExpr {
    fn clone(&self) -> (r: Self)
        ensures
            r@ == self@,
    {
        clone_type(self)
    }
}

impl Clone for Bound {
    fn clone(&self) -> (r: Self)
        ensures
            r@ == self@,
    {
        clone_bound(self)
    }
}

impl Clone for PathSeg {
    fn clone(&self) -> (r: Self)
        ensures
            r@ == self@,
    {
        clone_seg(self)
    }
}

impl Clone for SegArgs {
    fn clone(&self) -> (r: Self)
        ensures
            r@ == self@,
    {
        clone_segargs(self)
    }
}

impl Clone for GenArg {
    fn clone(&self) -> (r: Self)
        ensures
            r@ == self@,
    {
        clone_genarg(self)
    }
}

impl Clone for ConstArg {
    fn clone(&self) -> (r: Self)
        ensures
            r@ == self@,
    {
        clone_const(self)
    }
}

impl View for ConstArg {
    type V = VConstArg;

    open spec fn view(&self) -> VConstArg {
        const_view(*self)
    }
}

impl View for GenArg {
    type V = VGenArg;

    open spec fn view(&self) -> VGenArg {
        genarg_view(*self)
    }
}

impl View for SegArgs {
    type V = VSegArgs;

    open spec fn view(&self) -> VSegArgs {
        segargs_view(*self)
    }
}

impl View for PathSeg {
    type V = VPathSeg;

    open spec fn view(&self) -> VPathSeg {
        seg_view(*self)
    }
}

impl View for Bound {
    type V = VBound;

    open spec fn view(&self) -> VBound {
        bound_view(*self)
    }
}

impl View for TypeExpr {
    type V = VTypeExpr;

    open spec fn view(&self) -> VTypeExpr {
        type_view(*self)
    }
}

} // verus!
