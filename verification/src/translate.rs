//! Name resolution: translating parsed syntax into the symbolic
//! representation against a generic-parameter table.
//!
//! Resolution itself is pure: every name must already stand in the table.
//! `for<...>` bound-lifetime introducer lists are the one place names come
//! into being mid-declaration: the entry points register each list's names
//! as freshly minted lifetime symbols just before the bound or predicate
//! carrying it resolves, and the names stay in the table from then on. A
//! shape that is recognized but not supported — a `const` parameter or
//! argument, an equality predicate, an unrecognized type shape — is
//! refused with [`Error::Unsupported`].

use vstd::prelude::*;

use crate::error::Error;
use crate::generics::GenericArgument;
use crate::generics::GenericArgumentV;
use crate::generics::GenericArguments;
use crate::generics::GenericConstraint;
use crate::generics::GenericConstraintV;
use crate::generics::GenericParam;
use crate::generics::Lifetime;
use crate::generics::LifetimeDef;
use crate::generics::LifetimeDefV;
use crate::generics::PredicateType;
use crate::generics::PredicateTypeV;
use crate::generics::SynParamMap;
use crate::generics::TraitBound;
use crate::generics::TraitBoundV;
use crate::generics::TypeParamBound;
use crate::generics::TypeParamBoundV;
use crate::generics::Binding;
use crate::generics::Constraint;
use crate::ident::Ident;
use crate::path::Path;
use crate::path::PathSegment;
use crate::path::PathSegmentV;
use crate::path::PathV;
use crate::syntax::RawArg;
use crate::syntax::RawArgV;
use crate::syntax::RawBound;
use crate::syntax::RawBoundV;
use crate::syntax::RawPath;
use crate::syntax::RawPathV;
use crate::syntax::RawPredicate;
use crate::syntax::RawPredicateV;
use crate::syntax::RawParamV;
use crate::syntax::RawParam;
use crate::syntax::RawSeg;
use crate::syntax::RawSegV;
use crate::syntax::RawType;
use crate::syntax::RawTypeV;
use crate::ty::Type;
use crate::ty::TypeNode;
use crate::ty::TypeNodeV;

verus! {

/// Resolves a lifetime name: it must be bound to a lifetime symbol.
pub open spec fn tr_life(m: Map<Seq<char>, GenericParam>, name: Seq<char>) -> Result<
    Lifetime,
    Error,
> {
    if m.contains_key(name) && m[name] is Lifetime {
        Ok(m[name]->Lifetime_0)
    } else {
        Err(Error::NotALifetime)
    }
}

pub open spec fn tr_lives(m: Map<Seq<char>, GenericParam>, names: Seq<Seq<char>>) -> Result<
    Seq<Lifetime>,
    Error,
>
    decreases names.len(),
{
    if names.len() == 0 {
        Ok(Seq::empty())
    } else {
        match tr_life(m, names[0]) {
            Ok(l) => match tr_lives(m, names.drop_first()) {
                Ok(rest) => Ok(seq![l] + rest),
                Err(e) => Err(e),
            },
            Err(e) => Err(e),
        }
    }
}

/// Translates a type. A bare unqualified single identifier that the table
/// binds resolves to a type-parameter reference (and must be bound to a
/// type-parameter symbol); any other path stays a path.
pub open spec fn tr_type(m: Map<Seq<char>, GenericParam>, t: RawTypeV) -> Result<TypeNodeV, Error>
    decreases t, 1int,
{
    match t {
        RawTypeV::Named(p) => {
            if !p.global && p.segs.len() == 1 && p.segs[0].args.len() == 0 && m.contains_key(
                p.segs[0].name,
            ) {
                if m[p.segs[0].name] is Type {
                    Ok(TypeNodeV::TypeParam(m[p.segs[0].name]->Type_0))
                } else {
                    Err(Error::NotATypeParam)
                }
            } else {
                match tr_path(m, p) {
                    Ok(path) => Ok(TypeNodeV::Path(path)),
                    Err(e) => Err(e),
                }
            }
        },
        RawTypeV::Ref { is_mut, life, inner } => {
            let lifetime = match life {
                Some(name) => match tr_life(m, name) {
                    Ok(l) => Ok(Some(l)),
                    Err(e) => Err(e),
                },
                None => Ok(None),
            };
            match lifetime {
                Ok(lifetime) => {
                    if inner.len() == 1 {
                        match tr_type(m, inner[0]) {
                            Ok(innerv) => Ok(
                                TypeNodeV::Reference { is_mut, lifetime, inner: seq![innerv] },
                            ),
                            Err(e) => Err(e),
                        }
                    } else {
                        Err(Error::Unsupported)
                    }
                },
                Err(e) => Err(e),
            }
        },
        RawTypeV::Tup(ts) => match tr_seq_type(m, ts) {
            Ok(elems) => Ok(TypeNodeV::Tuple(elems)),
            Err(e) => Err(e),
        },
        RawTypeV::Dyn(bounds) => match tr_bounds(m, bounds) {
            Ok(bs) => Ok(TypeNodeV::TraitObject(bs)),
            Err(e) => Err(e),
        },
        RawTypeV::Other => Err(Error::Unsupported),
    }
}

pub open spec fn tr_seq_type(m: Map<Seq<char>, GenericParam>, s: Seq<RawTypeV>) -> Result<
    Seq<TypeNodeV>,
    Error,
>
    decreases s, 2int,
{
    if s.len() == 0 {
        Ok(Seq::empty())
    } else {
        match tr_type(m, s[0]) {
            Ok(t) => match tr_seq_type(m, s.drop_first()) {
                Ok(rest) => Ok(seq![t] + rest),
                Err(e) => Err(e),
            },
            Err(e) => Err(e),
        }
    }
}

pub open spec fn tr_arg(m: Map<Seq<char>, GenericParam>, a: RawArgV) -> Result<
    GenericArgumentV,
    Error,
>
    decreases a, 3int,
{
    match a {
        RawArgV::Life(name) => match tr_life(m, name) {
            Ok(l) => Ok(GenericArgumentV::Lifetime(l)),
            Err(e) => Err(e),
        },
        RawArgV::Ty(t) => match tr_type(m, t) {
            Ok(tv) => Ok(GenericArgumentV::Type(tv)),
            Err(e) => Err(e),
        },
        RawArgV::Binding { name, ty } => match tr_type(m, ty) {
            Ok(tv) => Ok(GenericArgumentV::Binding { ident: name, ty: tv }),
            Err(e) => Err(e),
        },
        RawArgV::Constraint { name, bounds } => match tr_bounds(m, bounds) {
            Ok(bs) => Ok(GenericArgumentV::Constraint { ident: name, bounds: bs }),
            Err(e) => Err(e),
        },
        RawArgV::ConstArg => Err(Error::Unsupported),
    }
}

pub open spec fn tr_seq_arg(m: Map<Seq<char>, GenericParam>, s: Seq<RawArgV>) -> Result<
    Seq<GenericArgumentV>,
    Error,
>
    decreases s, 4int,
{
    if s.len() == 0 {
        Ok(Seq::empty())
    } else {
        match tr_arg(m, s[0]) {
            Ok(a) => match tr_seq_arg(m, s.drop_first()) {
                Ok(rest) => Ok(seq![a] + rest),
                Err(e) => Err(e),
            },
            Err(e) => Err(e),
        }
    }
}

pub open spec fn tr_seq_seg(m: Map<Seq<char>, GenericParam>, s: Seq<RawSegV>) -> Result<
    Seq<PathSegmentV>,
    Error,
>
    decreases s, 5int,
{
    if s.len() == 0 {
        Ok(Seq::empty())
    } else {
        match tr_seq_arg(m, s[0].args) {
            Ok(args) => match tr_seq_seg(m, s.drop_first()) {
                Ok(rest) => Ok(seq![PathSegmentV { ident: s[0].name, args }] + rest),
                Err(e) => Err(e),
            },
            Err(e) => Err(e),
        }
    }
}

pub open spec fn tr_path(m: Map<Seq<char>, GenericParam>, p: RawPathV) -> Result<PathV, Error>
    decreases p, 6int,
{
    match tr_seq_seg(m, p.segs) {
        Ok(segs) => Ok(PathV { global: p.global, segs }),
        Err(e) => Err(e),
    }
}

/// Translates one bound. Its bound-lifetime introducer names must already
/// stand in the table: the entry points register them (freshly minted)
/// before resolving.
pub open spec fn tr_bound(m: Map<Seq<char>, GenericParam>, b: RawBoundV) -> Result<
    TypeParamBoundV,
    Error,
>
    decreases b, 7int,
{
    match b {
        RawBoundV::Life(name) => match tr_life(m, name) {
            Ok(l) => Ok(TypeParamBoundV::Lifetime(l)),
            Err(e) => Err(e),
        },
        RawBoundV::Trait { for_lifetimes, path } => {
            match tr_lives(m, for_lifetimes) {
                Ok(ls) => match tr_path(m, path) {
                    Ok(pv) => Ok(
                        TypeParamBoundV::Trait(TraitBoundV { lifetimes: ls, path: pv }),
                    ),
                    Err(e) => Err(e),
                },
                Err(e) => Err(e),
            }
        },
    }
}

pub open spec fn tr_bounds(m: Map<Seq<char>, GenericParam>, s: Seq<RawBoundV>) -> Result<
    Seq<TypeParamBoundV>,
    Error,
>
    decreases s, 8int,
{
    if s.len() == 0 {
        Ok(Seq::empty())
    } else {
        match tr_bound(m, s[0]) {
            Ok(b) => match tr_bounds(m, s.drop_first()) {
                Ok(rest) => Ok(seq![b] + rest),
                Err(e) => Err(e),
            },
            Err(e) => Err(e),
        }
    }
}

/// Translates one where-clause predicate into a constraint.
pub open spec fn tr_predicate(m: Map<Seq<char>, GenericParam>, p: RawPredicateV) -> Result<
    GenericConstraintV,
    Error,
> {
    match p {
        RawPredicateV::Ty { for_lifetimes, ty, bounds } => {
            match tr_lives(m, for_lifetimes) {
                Ok(ls) => match tr_type(m, ty) {
                    Ok(tv) => match tr_bounds(m, bounds) {
                        Ok(bs) => Ok(
                            GenericConstraintV::Type(
                                PredicateTypeV { lifetimes: ls, bounded_ty: tv, bounds: bs },
                            ),
                        ),
                        Err(e) => Err(e),
                    },
                    Err(e) => Err(e),
                },
                Err(e) => Err(e),
            }
        },
        RawPredicateV::Life { name, bounds } => match tr_life(m, name) {
            Ok(l) => match tr_lives(m, bounds) {
                Ok(bs) => Ok(
                    GenericConstraintV::Lifetime(LifetimeDefV { lifetime: l, bounds: bs }),
                ),
                Err(e) => Err(e),
            },
            Err(e) => Err(e),
        },
        RawPredicateV::Eq => Err(Error::Unsupported),
    }
}

// ----------------------------------------------------------------------
// Executable translation.
// ----------------------------------------------------------------------

fn x_lives(map: &SynParamMap, names: &Vec<String>) -> (r: Result<Vec<Lifetime>, Error>)
    ensures
        match r {
            Ok(ls) => tr_lives(map@, crate::syntax::names_view(names@)) == Ok::<_, Error>(ls@),
            Err(e) => tr_lives(map@, crate::syntax::names_view(names@)) == Err::<Seq<Lifetime>, _>(
                e,
            ),
        },
    decreases names@.len(),
{
    let mut out: Vec<Lifetime> = Vec::new();
    let mut i: usize = 0;
    while i < names.len()
        invariant
            i <= names@.len(),
            out@.len() == i,
            forall|j: int|
                0 <= j < i ==> #[trigger] tr_life(map@, crate::syntax::names_view(names@)[j])
                    == Ok::<_, Error>(out@[j]),
            forall|j: int| 0 <= j < names@.len() ==> crate::syntax::names_view(names@)[j]
                == (#[trigger] names@[j])@,
        decreases names@.len() - i,
    {
        match map.get_lifetime(names[i].as_str()) {
            Ok(l) => {
                out.push(l);
            },
            Err(e) => {
                proof {
                    lemma_tr_lives_err(map@, crate::syntax::names_view(names@), i as int, e);
                }
                return Err(e);
            },
        }
        i = i + 1;
    }
    proof {
        lemma_tr_lives_ok(map@, crate::syntax::names_view(names@), out@);
    }
    Ok(out)
}

proof fn lemma_tr_lives_ok(m: Map<Seq<char>, GenericParam>, names: Seq<Seq<char>>, out: Seq<
    Lifetime,
>)
    requires
        out.len() == names.len(),
        forall|j: int|
            0 <= j < names.len() ==> tr_life(m, names[j]) == Ok::<_, Error>(#[trigger] out[j]),
    ensures
        tr_lives(m, names) == Ok::<_, Error>(out),
    decreases names.len(),
{
    if names.len() == 0 {
        assert(out =~= Seq::<Lifetime>::empty());
    } else {
        assert(forall|j: int|
            1 <= j < names.len() ==> #[trigger] names[j] == names.drop_first()[j - 1]);
        lemma_tr_lives_ok(m, names.drop_first(), out.drop_first());
        assert(out =~= seq![out[0]] + out.drop_first());
    }
}

proof fn lemma_tr_lives_err(
    m: Map<Seq<char>, GenericParam>,
    names: Seq<Seq<char>>,
    i: int,
    e: Error,
)
    requires
        0 <= i < names.len(),
        forall|j: int| 0 <= j < i ==> tr_life(m, #[trigger] names[j]) is Ok,
        tr_life(m, names[i]) == Err::<Lifetime, _>(e),
    ensures
        tr_lives(m, names) == Err::<Seq<Lifetime>, _>(e),
    decreases i,
{
    if i == 0 {
    } else {
        assert(forall|j: int|
            1 <= j < names.len() ==> #[trigger] names[j] == names.drop_first()[j - 1]);
        lemma_tr_lives_err(m, names.drop_first(), i - 1, e);
    }
}

#[verifier::rlimit(80)]
fn x_type(map: &SynParamMap, t: &RawType) -> (r: Result<Type, Error>)
    ensures
        match r {
            Ok(ty) => tr_type(map@, t@) == Ok::<_, Error>(crate::ty::view_type(ty)),
            Err(e) => tr_type(map@, t@) == Err::<TypeNodeV, _>(e),
        },
    decreases *t, 1int,
{
    match t {
        RawType::Named(p) => {
            proof {
                crate::syntax::lemma_view_seq_raw_seg(p.segs@);
                if p.segs@.len() > 0 {
                    crate::syntax::lemma_view_seq_raw_arg(p.segs@[0].args@);
                    assert(crate::syntax::view_raw_path(*p).segs[0] == crate::syntax::view_raw_seg(
                        p.segs@[0],
                    ));
                }
            }
            let single: Option<&String> = if !p.global && p.segs.len() == 1 && p.segs[0].args.len()
                == 0 {
                Some(&p.segs[0].name)
            } else {
                None
            };
            match single {
                Some(name) => {
                    match map.get(name.as_str()) {
                        Some(GenericParam::Type(tp)) => {
                            return Ok(Type(TypeNode::TypeParam(tp)));
                        },
                        Some(_) => {
                            return Err(Error::NotATypeParam);
                        },
                        None => {
                            match x_path(map, p) {
                                Ok(path) => Ok(Type(TypeNode::Path(path))),
                                Err(e) => Err(e),
                            }
                        },
                    }
                },
                None => match x_path(map, p) {
                    Ok(path) => Ok(Type(TypeNode::Path(path))),
                    Err(e) => Err(e),
                },
            }
        },
        RawType::Ref { is_mut, life, inner } => {
            let lifetime: Option<Lifetime> = match life {
                Some(name) => match map.get_lifetime(name.as_str()) {
                    Ok(l) => Some(l),
                    Err(e) => {
                        return Err(e);
                    },
                },
                None => None,
            };
            match x_type(map, &**inner) {
                Ok(innert) => Ok(
                    Type(
                        TypeNode::Reference {
                            is_mut: *is_mut,
                            lifetime,
                            inner: Box::new(innert.0),
                        },
                    ),
                ),
                Err(e) => Err(e),
            }
        },
        RawType::Tup(ts) => {
            proof {
                crate::syntax::lemma_view_seq_raw_type(ts@);
            }
            let mut elems: Vec<TypeNode> = Vec::new();
            let mut i: usize = 0;
            while i < ts.len()
                invariant
                    *t == RawType::Tup(*ts),
                    i <= ts@.len(),
                    elems@.len() == i,
                    crate::syntax::view_seq_raw_type(ts@).len() == ts@.len(),
                    forall|j: int|
                        0 <= j < ts@.len() ==> crate::syntax::view_seq_raw_type(ts@)[j]
                            == crate::syntax::view_raw_type(#[trigger] ts@[j]),
                    forall|j: int|
                        0 <= j < i ==> #[trigger] tr_type(
                            map@,
                            crate::syntax::view_seq_raw_type(ts@)[j],
                        ) == Ok::<_, Error>(crate::ty::view_type_node(elems@[j])),
                decreases ts@.len() - i,
            {
                proof {
                    assert(decreases_to!(*t => (*t)->Tup_0));
                    assert((*t)->Tup_0 == *ts);
                    assert(decreases_to!(*ts => ts@[i as int]));
                }
                match x_type(map, &ts[i]) {
                    Ok(ty) => {
                        elems.push(ty.0);
                    },
                    Err(e) => {
                        proof {
                            lemma_tr_seq_type_err(
                                map@,
                                crate::syntax::view_seq_raw_type(ts@),
                                i as int,
                                e,
                            );
                        }
                        return Err(e);
                    },
                }
                i = i + 1;
            }
            proof {
                crate::ty::lemma_view_seq_type_node(elems@);
                lemma_tr_seq_type_ok(
                    map@,
                    crate::syntax::view_seq_raw_type(ts@),
                    crate::ty::view_seq_type_node(elems@),
                );
            }
            Ok(Type(TypeNode::Tuple(elems)))
        },
        RawType::Dyn(bs) => match x_bounds(map, bs) {
            Ok(bounds) => Ok(Type(TypeNode::TraitObject(bounds))),
            Err(e) => Err(e),
        },
        RawType::Other => Err(Error::Unsupported),
    }
}

proof fn lemma_tr_seq_type_ok(
    m: Map<Seq<char>, GenericParam>,
    s: Seq<RawTypeV>,
    out: Seq<TypeNodeV>,
)
    requires
        out.len() == s.len(),
        forall|j: int| 0 <= j < s.len() ==> tr_type(m, s[j]) == Ok::<_, Error>(#[trigger] out[j]),
    ensures
        tr_seq_type(m, s) == Ok::<_, Error>(out),
    decreases s.len(),
{
    if s.len() == 0 {
        assert(out =~= Seq::<TypeNodeV>::empty());
    } else {
        assert(forall|j: int| 1 <= j < s.len() ==> #[trigger] s[j] == s.drop_first()[j - 1]);
        lemma_tr_seq_type_ok(m, s.drop_first(), out.drop_first());
        assert(out =~= seq![out[0]] + out.drop_first());
    }
}

proof fn lemma_tr_seq_type_err(m: Map<Seq<char>, GenericParam>, s: Seq<RawTypeV>, i: int, e: Error)
    requires
        0 <= i < s.len(),
        forall|j: int| 0 <= j < i ==> tr_type(m, #[trigger] s[j]) is Ok,
        tr_type(m, s[i]) == Err::<TypeNodeV, _>(e),
    ensures
        tr_seq_type(m, s) == Err::<Seq<TypeNodeV>, _>(e),
    decreases i,
{
    if i > 0 {
        assert(forall|j: int| 1 <= j < s.len() ==> #[trigger] s[j] == s.drop_first()[j - 1]);
        lemma_tr_seq_type_err(m, s.drop_first(), i - 1, e);
    }
}

fn x_arg(map: &SynParamMap, a: &RawArg) -> (r: Result<GenericArgument, Error>)
    ensures
        match r {
            Ok(arg) => tr_arg(map@, crate::syntax::view_raw_arg(*a)) == Ok::<_, Error>(
                crate::generics::view_arg(arg),
            ),
            Err(e) => tr_arg(map@, crate::syntax::view_raw_arg(*a)) == Err::<GenericArgumentV, _>(
                e,
            ),
        },
    decreases *a, 3int,
{
    match a {
        RawArg::Life(name) => match map.get_lifetime(name.as_str()) {
            Ok(l) => Ok(GenericArgument::Lifetime(l)),
            Err(e) => Err(e),
        },
        RawArg::Ty(t) => match x_type(map, t) {
            Ok(ty) => Ok(GenericArgument::Type(ty)),
            Err(e) => Err(e),
        },
        RawArg::Binding { name, ty } => match x_type(map, ty) {
            Ok(tv) => Ok(
                GenericArgument::Binding(Binding { ident: Ident::new(name.as_str()), ty: tv }),
            ),
            Err(e) => Err(e),
        },
        RawArg::Constraint { name, bounds } => {
            proof {
                crate::syntax::lemma_view_seq_raw_bound(bounds@);
            }
            match x_bounds(map, bounds) {
                Ok(bs) => Ok(
                    GenericArgument::Constraint(
                        Constraint { ident: Ident::new(name.as_str()), bounds: bs },
                    ),
                ),
                Err(e) => Err(e),
            }
        },
        RawArg::ConstArg => Err(Error::Unsupported),
    }
}

#[verifier::rlimit(80)]
fn x_args(map: &SynParamMap, s: &Vec<RawArg>) -> (r: Result<Vec<GenericArgument>, Error>)
    ensures
        match r {
            Ok(args) => tr_seq_arg(map@, crate::syntax::view_seq_raw_arg(s@)) == Ok::<_, Error>(
                crate::generics::view_seq_arg(args@),
            ),
            Err(e) => tr_seq_arg(map@, crate::syntax::view_seq_raw_arg(s@)) == Err::<
                Seq<GenericArgumentV>,
                _,
            >(e),
        },
    decreases s@, 4int,
{
    proof {
        crate::syntax::lemma_view_seq_raw_arg(s@);
    }
    let mut out: Vec<GenericArgument> = Vec::new();
    let mut i: usize = 0;
    while i < s.len()
        invariant
            i <= s@.len(),
            out@.len() == i,
            crate::syntax::view_seq_raw_arg(s@).len() == s@.len(),
            forall|j: int|
                0 <= j < s@.len() ==> crate::syntax::view_seq_raw_arg(s@)[j]
                    == crate::syntax::view_raw_arg(#[trigger] s@[j]),
            forall|j: int|
                0 <= j < i ==> #[trigger] tr_arg(map@, crate::syntax::view_seq_raw_arg(s@)[j])
                    == Ok::<_, Error>(crate::generics::view_arg(out@[j])),
        decreases s@.len() - i,
    {
        match x_arg(map, &s[i]) {
            Ok(arg) => {
                out.push(arg);
            },
            Err(e) => {
                proof {
                    lemma_tr_seq_arg_err(map@, crate::syntax::view_seq_raw_arg(s@), i as int, e);
                }
                return Err(e);
            },
        }
        i = i + 1;
    }
    proof {
        crate::generics::lemma_view_seq_arg(out@);
        lemma_tr_seq_arg_ok(
            map@,
            crate::syntax::view_seq_raw_arg(s@),
            crate::generics::view_seq_arg(out@),
        );
    }
    Ok(out)
}

proof fn lemma_tr_seq_arg_ok(
    m: Map<Seq<char>, GenericParam>,
    s: Seq<RawArgV>,
    out: Seq<GenericArgumentV>,
)
    requires
        out.len() == s.len(),
        forall|j: int| 0 <= j < s.len() ==> tr_arg(m, s[j]) == Ok::<_, Error>(#[trigger] out[j]),
    ensures
        tr_seq_arg(m, s) == Ok::<_, Error>(out),
    decreases s.len(),
{
    if s.len() == 0 {
        assert(out =~= Seq::<GenericArgumentV>::empty());
    } else {
        assert(forall|j: int| 1 <= j < s.len() ==> #[trigger] s[j] == s.drop_first()[j - 1]);
        lemma_tr_seq_arg_ok(m, s.drop_first(), out.drop_first());
        assert(out =~= seq![out[0]] + out.drop_first());
    }
}

proof fn lemma_tr_seq_arg_err(m: Map<Seq<char>, GenericParam>, s: Seq<RawArgV>, i: int, e: Error)
    requires
        0 <= i < s.len(),
        forall|j: int| 0 <= j < i ==> tr_arg(m, #[trigger] s[j]) is Ok,
        tr_arg(m, s[i]) == Err::<GenericArgumentV, _>(e),
    ensures
        tr_seq_arg(m, s) == Err::<Seq<GenericArgumentV>, _>(e),
    decreases i,
{
    if i > 0 {
        assert(forall|j: int| 1 <= j < s.len() ==> #[trigger] s[j] == s.drop_first()[j - 1]);
        lemma_tr_seq_arg_err(m, s.drop_first(), i - 1, e);
    }
}

fn x_path(map: &SynParamMap, p: &RawPath) -> (r: Result<Path, Error>)
    ensures
        match r {
            Ok(path) => tr_path(map@, p@) == Ok::<_, Error>(crate::path::view_path(path)),
            Err(e) => tr_path(map@, p@) == Err::<PathV, _>(e),
        },
    decreases *p, 6int,
{
    proof {
        crate::syntax::lemma_view_seq_raw_seg(p.segs@);
    }
    let mut segs: Vec<PathSegment> = Vec::new();
    let mut i: usize = 0;
    while i < p.segs.len()
        invariant
            i <= p.segs@.len(),
            segs@.len() == i,
            crate::syntax::view_seq_raw_seg(p.segs@).len() == p.segs@.len(),
            forall|j: int|
                0 <= j < p.segs@.len() ==> crate::syntax::view_seq_raw_seg(p.segs@)[j]
                    == crate::syntax::view_raw_seg(#[trigger] p.segs@[j]),
            forall|j: int|
                0 <= j < i ==> #[trigger] tr_seq_arg(
                    map@,
                    crate::syntax::view_seq_raw_seg(p.segs@)[j].args,
                ) == Ok::<_, Error>(crate::generics::view_seq_arg(segs@[j].args.args@))
                    && segs@[j].ident.name@ == crate::syntax::view_seq_raw_seg(p.segs@)[j].name,
        decreases p.segs@.len() - i,
    {
        proof {
            assert(decreases_to!(*p => p.segs));
            assert(decreases_to!(p.segs => p.segs@[i as int]));
        }
        let seg = &p.segs[i];
        match x_args(map, &seg.args) {
            Ok(args) => {
                segs.push(
                    PathSegment {
                        ident: Ident::new(seg.name.as_str()),
                        args: GenericArguments { args },
                    },
                );
            },
            Err(e) => {
                proof {
                    lemma_tr_seq_seg_err(map@, crate::syntax::view_seq_raw_seg(p.segs@), i as int, e);
                }
                return Err(e);
            },
        }
        i = i + 1;
    }
    let path = Path { global: p.global, path: segs };
    proof {
        crate::path::lemma_view_seq_seg(path.path@);
        lemma_tr_seq_seg_ok(
            map@,
            crate::syntax::view_seq_raw_seg(p.segs@),
            crate::path::view_seq_seg(path.path@),
        );
    }
    Ok(path)
}

proof fn lemma_tr_seq_seg_ok(
    m: Map<Seq<char>, GenericParam>,
    s: Seq<RawSegV>,
    out: Seq<PathSegmentV>,
)
    requires
        out.len() == s.len(),
        forall|j: int|
            0 <= j < s.len() ==> tr_seq_arg(m, s[j].args) == Ok::<_, Error>(
                (#[trigger] out[j]).args,
            ) && out[j].ident == s[j].name,
    ensures
        tr_seq_seg(m, s) == Ok::<_, Error>(out),
    decreases s.len(),
{
    if s.len() == 0 {
        assert(out =~= Seq::<PathSegmentV>::empty());
    } else {
        assert(forall|j: int| 1 <= j < s.len() ==> #[trigger] s[j] == s.drop_first()[j - 1]);
        assert(forall|j: int|
            1 <= j < out.len() ==> #[trigger] out[j] == out.drop_first()[j - 1]);
        lemma_tr_seq_seg_ok(m, s.drop_first(), out.drop_first());
        assert(out[0] =~= PathSegmentV { ident: s[0].name, args: out[0].args });
        assert(out =~= seq![out[0]] + out.drop_first());
    }
}

proof fn lemma_tr_seq_seg_err(m: Map<Seq<char>, GenericParam>, s: Seq<RawSegV>, i: int, e: Error)
    requires
        0 <= i < s.len(),
        forall|j: int| 0 <= j < i ==> tr_seq_arg(m, (#[trigger] s[j]).args) is Ok,
        tr_seq_arg(m, s[i].args) == Err::<Seq<GenericArgumentV>, _>(e),
    ensures
        tr_seq_seg(m, s) == Err::<Seq<PathSegmentV>, _>(e),
    decreases i,
{
    if i > 0 {
        assert(forall|j: int| 1 <= j < s.len() ==> #[trigger] s[j] == s.drop_first()[j - 1]);
        lemma_tr_seq_seg_err(m, s.drop_first(), i - 1, e);
    }
}

fn x_bound(map: &SynParamMap, b: &RawBound) -> (r: Result<TypeParamBound, Error>)
    ensures
        match r {
            Ok(bd) => tr_bound(map@, b@) == Ok::<_, Error>(crate::generics::view_bound(bd)),
            Err(e) => tr_bound(map@, b@) == Err::<TypeParamBoundV, _>(e),
        },
    decreases *b, 7int,
{
    match b {
        RawBound::Life(name) => match map.get_lifetime(name.as_str()) {
            Ok(l) => Ok(TypeParamBound::Lifetime(l)),
            Err(e) => Err(e),
        },
        RawBound::Trait { for_lifetimes, path } => {
            match x_lives(map, for_lifetimes) {
                Ok(ls) => match x_path(map, path) {
                    Ok(pv) => Ok(
                        TypeParamBound::Trait(TraitBound { lifetimes: ls, path: pv }),
                    ),
                    Err(e) => Err(e),
                },
                Err(e) => Err(e),
            }
        },
    }
}

fn x_bounds(map: &SynParamMap, s: &Vec<RawBound>) -> (r: Result<Vec<TypeParamBound>, Error>)
    ensures
        match r {
            Ok(bs) => tr_bounds(map@, crate::syntax::view_seq_raw_bound(s@)) == Ok::<_, Error>(
                crate::generics::view_seq_bound(bs@),
            ),
            Err(e) => tr_bounds(map@, crate::syntax::view_seq_raw_bound(s@)) == Err::<
                Seq<TypeParamBoundV>,
                _,
            >(e),
        },
    decreases s@, 8int,
{
    proof {
        crate::syntax::lemma_view_seq_raw_bound(s@);
    }
    let mut out: Vec<TypeParamBound> = Vec::new();
    let mut i: usize = 0;
    while i < s.len()
        invariant
            i <= s@.len(),
            out@.len() == i,
            crate::syntax::view_seq_raw_bound(s@).len() == s@.len(),
            forall|j: int|
                0 <= j < s@.len() ==> crate::syntax::view_seq_raw_bound(s@)[j]
                    == crate::syntax::view_raw_bound(#[trigger] s@[j]),
            forall|j: int|
                0 <= j < i ==> #[trigger] tr_bound(map@, crate::syntax::view_seq_raw_bound(s@)[j])
                    == Ok::<_, Error>(crate::generics::view_bound(out@[j])),
        decreases s@.len() - i,
    {
        match x_bound(map, &s[i]) {
            Ok(bd) => {
                out.push(bd);
            },
            Err(e) => {
                proof {
                    lemma_tr_bounds_err(map@, crate::syntax::view_seq_raw_bound(s@), i as int, e);
                }
                return Err(e);
            },
        }
        i = i + 1;
    }
    proof {
        crate::generics::lemma_view_seq_bound(out@);
        lemma_tr_bounds_ok(
            map@,
            crate::syntax::view_seq_raw_bound(s@),
            crate::generics::view_seq_bound(out@),
        );
    }
    Ok(out)
}

proof fn lemma_tr_bounds_ok(
    m: Map<Seq<char>, GenericParam>,
    s: Seq<RawBoundV>,
    out: Seq<TypeParamBoundV>,
)
    requires
        out.len() == s.len(),
        forall|j: int| 0 <= j < s.len() ==> tr_bound(m, s[j]) == Ok::<_, Error>(#[trigger] out[j]),
    ensures
        tr_bounds(m, s) == Ok::<_, Error>(out),
    decreases s.len(),
{
    if s.len() == 0 {
        assert(out =~= Seq::<TypeParamBoundV>::empty());
    } else {
        assert(forall|j: int| 1 <= j < s.len() ==> #[trigger] s[j] == s.drop_first()[j - 1]);
        lemma_tr_bounds_ok(m, s.drop_first(), out.drop_first());
        assert(out =~= seq![out[0]] + out.drop_first());
    }
}

proof fn lemma_tr_bounds_err(m: Map<Seq<char>, GenericParam>, s: Seq<RawBoundV>, i: int, e: Error)
    requires
        0 <= i < s.len(),
        forall|j: int| 0 <= j < i ==> tr_bound(m, #[trigger] s[j]) is Ok,
        tr_bound(m, s[i]) == Err::<TypeParamBoundV, _>(e),
    ensures
        tr_bounds(m, s) == Err::<Seq<TypeParamBoundV>, _>(e),
    decreases i,
{
    if i > 0 {
        assert(forall|j: int| 1 <= j < s.len() ==> #[trigger] s[j] == s.drop_first()[j - 1]);
        lemma_tr_bounds_err(m, s.drop_first(), i - 1, e);
    }
}

/// Translates one predicate against the table as it stands, without
/// registering introducer names.
fn x_predicate(map: &SynParamMap, p: &RawPredicate) -> (r: Result<GenericConstraint, Error>)
    ensures
        match r {
            Ok(c) => tr_predicate(map@, p@) == Ok::<_, Error>(
                crate::generics::view_constraint(c),
            ),
            Err(e) => tr_predicate(map@, p@) == Err::<GenericConstraintV, _>(e),
        },
{
    match p {
        RawPredicate::Ty { for_lifetimes, ty, bounds } => {
            match x_lives(map, for_lifetimes) {
                Ok(ls) => match x_type(map, ty) {
                    Ok(tv) => match x_bounds(map, bounds) {
                        Ok(bs) => {
                            let c = GenericConstraint::Type(
                                PredicateType { lifetimes: ls, bounded_ty: tv, bounds: bs },
                            );
                            Ok(c)
                        },
                        Err(e) => Err(e),
                    },
                    Err(e) => Err(e),
                },
                Err(e) => Err(e),
            }
        },
        RawPredicate::Life { name, bounds } => match map.get_lifetime(name.as_str()) {
            Ok(l) => match x_lives(map, bounds) {
                Ok(bs) => Ok(
                    GenericConstraint::Lifetime(LifetimeDef { lifetime: l, bounds: bs }),
                ),
                Err(e) => Err(e),
            },
            Err(e) => Err(e),
        },
        RawPredicate::Eq => Err(Error::Unsupported),
    }
}

fn collect_args(v: &Vec<RawArg>, out: &mut Vec<String>)
    ensures
        crate::syntax::names_view(final(out)@) == crate::syntax::names_view(old(out)@)
            + fl_seq_arg(crate::syntax::view_seq_raw_arg(v@)),
    decreases v@, 6int,
{
    proof {
        crate::syntax::lemma_view_seq_raw_arg(v@);
    }
    let ghost base = crate::syntax::names_view(out@);
    let mut i: usize = 0;
    while i < v.len()
        invariant
            i <= v@.len(),
            crate::syntax::view_seq_raw_arg(v@).len() == v@.len(),
            forall|j: int|
                0 <= j < v@.len() ==> crate::syntax::view_seq_raw_arg(v@)[j]
                    == crate::syntax::view_raw_arg(#[trigger] v@[j]),
            crate::syntax::names_view(out@) == base + fl_seq_arg(
                crate::syntax::view_seq_raw_arg(v@).take(i as int),
            ),
        decreases v@.len() - i,
    {
        collect_arg(&v[i], out);
        i = i + 1;
        proof {
            let vs = crate::syntax::view_seq_raw_arg(v@);
            lemma_fl_seq_arg_push(vs.take(i - 1), vs[i - 1]);
            assert(vs.take(i as int) =~= vs.take(i - 1).push(vs[i - 1]));
            assert(crate::syntax::names_view(out@) =~= base + fl_seq_arg(vs.take(i as int)));
        }
    }
    proof {
        let vs = crate::syntax::view_seq_raw_arg(v@);
        assert(vs.take(v@.len() as int) =~= vs);
    }
}

/// Registers one predicate's `for<...>` introducer names as freshly minted
/// lifetime symbols, then translates it against the extended table. On
/// failure the table is unchanged (the counters may have advanced).
pub fn x_predicate_pub(
    map: &mut SynParamMap,
    ctx: &mut crate::arena::Arena,
    p: &RawPredicate,
) -> (r: Result<GenericConstraint, Error>)
    requires
        old(ctx).counters_wf(),
    ensures
        final(ctx).counters_wf(),
        old(ctx).lifetimes <= final(ctx).lifetimes,
        final(ctx).type_params == old(ctx).type_params,
        final(ctx).values == old(ctx).values,
        final(ctx).invokes == old(ctx).invokes,
        final(ctx).macros == old(ctx).macros,
        match r {
            Ok(c) => predicate_intros_spec(p@, old(map)@, old(ctx).lifetimes as nat) == Ok::<
                _,
                Error,
            >((crate::generics::view_constraint(c), final(map)@, final(ctx).lifetimes as nat)),
            Err(e) => predicate_intros_spec(p@, old(map)@, old(ctx).lifetimes as nat) == Err::<
                (GenericConstraintV, Map<Seq<char>, GenericParam>, nat),
                _,
            >(e) && final(map)@ == old(map)@,
        },
{
    let mut names: Vec<String> = Vec::new();
    collect_predicate(p, &mut names);
    proof {
        assert(crate::syntax::names_view(names@) =~= fl_predicate(p@));
    }
    let mut scratch = map.clone();
    match register_names(&mut scratch, ctx, &names) {
        Ok(_) => {},
        Err(e) => {
            return Err(e);
        },
    }
    match x_predicate(&scratch, p) {
        Ok(c) => {
            *map = scratch;
            Ok(c)
        },
        Err(e) => Err(e),
    }
}

/// Registers one bound's `for<...>` introducer names as freshly minted
/// lifetime symbols, then translates it against the extended table. On
/// failure the table is unchanged (the counters may have advanced).
pub fn x_bound_pub(map: &mut SynParamMap, ctx: &mut crate::arena::Arena, b: &RawBound) -> (r:
    Result<TypeParamBound, Error>)
    requires
        old(ctx).counters_wf(),
    ensures
        final(ctx).counters_wf(),
        old(ctx).lifetimes <= final(ctx).lifetimes,
        final(ctx).type_params == old(ctx).type_params,
        final(ctx).values == old(ctx).values,
        final(ctx).invokes == old(ctx).invokes,
        final(ctx).macros == old(ctx).macros,
        match r {
            Ok(bd) => bound_intros_spec(b@, old(map)@, old(ctx).lifetimes as nat) == Ok::<
                _,
                Error,
            >((crate::generics::view_bound(bd), final(map)@, final(ctx).lifetimes as nat)),
            Err(e) => bound_intros_spec(b@, old(map)@, old(ctx).lifetimes as nat) == Err::<
                (TypeParamBoundV, Map<Seq<char>, GenericParam>, nat),
                _,
            >(e) && final(map)@ == old(map)@,
        },
{
    let mut names: Vec<String> = Vec::new();
    collect_bound(b, &mut names);
    proof {
        assert(crate::syntax::names_view(names@) =~= fl_bound(b@));
    }
    let mut scratch = map.clone();
    match register_names(&mut scratch, ctx, &names) {
        Ok(_) => {},
        Err(e) => {
            return Err(e);
        },
    }
    match x_bound(&scratch, b) {
        Ok(bd) => {
            *map = scratch;
            Ok(bd)
        },
        Err(e) => Err(e),
    }
}

/// Registers a type's nested `for<...>` introducer names as freshly minted
/// lifetime symbols, then translates it against the extended table. On
/// failure the table is unchanged (the counters may have advanced).
pub fn x_type_pub(map: &mut SynParamMap, ctx: &mut crate::arena::Arena, t: &RawType) -> (r:
    Result<Type, Error>)
    requires
        old(ctx).counters_wf(),
    ensures
        final(ctx).counters_wf(),
        old(ctx).lifetimes <= final(ctx).lifetimes,
        final(ctx).type_params == old(ctx).type_params,
        final(ctx).values == old(ctx).values,
        final(ctx).invokes == old(ctx).invokes,
        final(ctx).macros == old(ctx).macros,
        match r {
            Ok(ty) => type_intros_spec(t@, old(map)@, old(ctx).lifetimes as nat) == Ok::<
                _,
                Error,
            >((crate::ty::view_type(ty), final(map)@, final(ctx).lifetimes as nat)),
            Err(e) => type_intros_spec(t@, old(map)@, old(ctx).lifetimes as nat) == Err::<
                (TypeNodeV, Map<Seq<char>, GenericParam>, nat),
                _,
            >(e) && final(map)@ == old(map)@,
        },
{
    let mut names: Vec<String> = Vec::new();
    collect_type(t, &mut names);
    proof {
        assert(crate::syntax::names_view(names@) =~= fl_type(t@));
    }
    let mut scratch = map.clone();
    match register_names(&mut scratch, ctx, &names) {
        Ok(_) => {},
        Err(e) => {
            return Err(e);
        },
    }
    match x_type(&scratch, t) {
        Ok(ty) => {
            *map = scratch;
            Ok(ty)
        },
        Err(e) => Err(e),
    }
}

/// Translates one path segment's arguments against the table as it stands.
fn x_segment(map: &SynParamMap, seg: &RawSeg) -> (r: Result<PathSegment, Error>)
    ensures
        match r {
            Ok(s) => tr_seq_arg(map@, crate::syntax::view_raw_seg(*seg).args) == Ok::<_, Error>(
                crate::generics::view_seq_arg(s.args.args@),
            ) && s.ident.name@ == seg.name@,
            Err(e) => tr_seq_arg(map@, crate::syntax::view_raw_seg(*seg).args) == Err::<
                Seq<GenericArgumentV>,
                _,
            >(e),
        },
{
    match x_args(map, &seg.args) {
        Ok(args) => Ok(
            PathSegment { ident: Ident::new(seg.name.as_str()), args: GenericArguments { args } },
        ),
        Err(e) => Err(e),
    }
}

/// Registers a path segment's nested `for<...>` introducer names as freshly
/// minted lifetime symbols, then translates its arguments against the
/// extended table. On failure the table is unchanged (the counters may have
/// advanced).
pub fn x_segment_pub(
    map: &mut SynParamMap,
    ctx: &mut crate::arena::Arena,
    seg: &RawSeg,
) -> (r: Result<PathSegment, Error>)
    requires
        old(ctx).counters_wf(),
    ensures
        final(ctx).counters_wf(),
        old(ctx).lifetimes <= final(ctx).lifetimes,
        final(ctx).type_params == old(ctx).type_params,
        final(ctx).values == old(ctx).values,
        final(ctx).invokes == old(ctx).invokes,
        final(ctx).macros == old(ctx).macros,
        match r {
            Ok(s) => args_intros_spec(
                crate::syntax::view_raw_seg(*seg).args,
                old(map)@,
                old(ctx).lifetimes as nat,
            ) == Ok::<_, Error>(
                (
                    crate::generics::view_seq_arg(s.args.args@),
                    final(map)@,
                    final(ctx).lifetimes as nat,
                ),
            ) && s.ident.name@ == seg.name@,
            Err(e) => args_intros_spec(
                crate::syntax::view_raw_seg(*seg).args,
                old(map)@,
                old(ctx).lifetimes as nat,
            ) == Err::<(Seq<GenericArgumentV>, Map<Seq<char>, GenericParam>, nat), _>(e)
                && final(map)@ == old(map)@,
        },
{
    let mut names: Vec<String> = Vec::new();
    collect_args(&seg.args, &mut names);
    proof {
        assert(crate::syntax::names_view(names@) =~= fl_seq_arg(
            crate::syntax::view_raw_seg(*seg).args,
        ));
    }
    let mut scratch = map.clone();
    match register_names(&mut scratch, ctx, &names) {
        Ok(_) => {},
        Err(e) => {
            return Err(e);
        },
    }
    match x_segment(&scratch, seg) {
        Ok(s) => {
            *map = scratch;
            Ok(s)
        },
        Err(e) => Err(e),
    }
}


// ----------------------------------------------------------------------
// Declaring parameters and constraints from text.
// ----------------------------------------------------------------------

pub open spec fn strs_view(s: Seq<&str>) -> Seq<Seq<char>> {
    s.map_values(|x: &str| x@)
}

/// The parses of a list of parameter declaration texts; the first
/// unparsable text refuses the whole list.
pub open spec fn parse_params_spec(texts: Seq<Seq<char>>) -> Result<Seq<RawParamV>, Error>
    decreases texts.len(),
{
    if texts.len() == 0 {
        Ok(Seq::empty())
    } else {
        match crate::parse::sp_param_full(texts[0]) {
            Some(p) => match parse_params_spec(texts.drop_first()) {
                Ok(rest) => Ok(seq![p] + rest),
                Err(e) => Err(e),
            },
            None => Err(Error::Parse),
        }
    }
}

/// Registration: each declared parameter gets a fresh symbol of its kind,
/// minted from the counters in order, and its name is bound in the table.
/// A `const` parameter refuses the whole list.
pub open spec fn reg_params_spec(
    ps: Seq<RawParamV>,
    m: Map<Seq<char>, GenericParam>,
    lt: nat,
    tp: nat,
) -> Result<(Seq<GenericParam>, Map<Seq<char>, GenericParam>, nat, nat), Error>
    decreases ps.len(),
{
    if ps.len() == 0 {
        Ok((Seq::empty(), m, lt, tp))
    } else {
        match ps[0] {
            RawParamV::Life { name, .. } => {
                let sym = GenericParam::Lifetime(Lifetime(lt as usize));
                match reg_params_spec(ps.drop_first(), m.insert(name, sym), lt + 1, tp) {
                    Ok((syms, m2, lt2, tp2)) => Ok((seq![sym] + syms, m2, lt2, tp2)),
                    Err(e) => Err(e),
                }
            },
            RawParamV::Ty { name, .. } => {
                let sym = GenericParam::Type(crate::generics::TypeParam(tp as usize));
                match reg_params_spec(ps.drop_first(), m.insert(name, sym), lt, tp + 1) {
                    Ok((syms, m2, lt2, tp2)) => Ok((seq![sym] + syms, m2, lt2, tp2)),
                    Err(e) => Err(e),
                }
            },
            RawParamV::ConstParam => Err(Error::Unsupported),
        }
    }
}

/// Bound hoisting: each declared parameter's bounds become one constraint
/// against the table, so bounds may forward-reference any declared
/// parameter; a bound's `for<...>` introducer names are registered (freshly
/// minted) just before that bound resolves, and stay registered.
pub open spec fn hoist_spec(
    ps: Seq<RawParamV>,
    syms: Seq<GenericParam>,
    m: Map<Seq<char>, GenericParam>,
    lt: nat,
) -> Result<(Seq<GenericConstraintV>, Map<Seq<char>, GenericParam>, nat), Error>
    decreases ps.len(),
{
    if ps.len() == 0 {
        Ok((Seq::empty(), m, lt))
    } else {
        let head: Result<(Seq<GenericConstraintV>, Map<Seq<char>, GenericParam>, nat), Error> =
            match ps[0] {
            RawParamV::Ty { bounds, .. } => {
                if bounds.len() == 0 {
                    Ok((Seq::empty(), m, lt))
                } else {
                    match reg_names_spec(fl_seq_bound(bounds), m, lt) {
                        Ok((m1, l1)) => match tr_bounds(m1, bounds) {
                            Ok(bs) => Ok(
                                (
                                    seq![
                                        GenericConstraintV::Type(
                                            PredicateTypeV {
                                                lifetimes: Seq::empty(),
                                                bounded_ty: TypeNodeV::TypeParam(
                                                    syms[0]->Type_0,
                                                ),
                                                bounds: bs,
                                            },
                                        ),
                                    ],
                                    m1,
                                    l1,
                                ),
                            ),
                            Err(e) => Err(e),
                        },
                        Err(e) => Err(e),
                    }
                }
            },
            RawParamV::Life { bounds, .. } => {
                if bounds.len() == 0 {
                    Ok((Seq::empty(), m, lt))
                } else {
                    match tr_lives(m, bounds) {
                        Ok(bs) => Ok(
                            (
                                seq![
                                    GenericConstraintV::Lifetime(
                                        LifetimeDefV {
                                            lifetime: syms[0]->Lifetime_0,
                                            bounds: bs,
                                        },
                                    ),
                                ],
                                m,
                                lt,
                            ),
                        ),
                        Err(e) => Err(e),
                    }
                }
            },
            RawParamV::ConstParam => Err(Error::Unsupported),
        };
        match head {
            Ok((cs, m2, l2)) => match hoist_spec(ps.drop_first(), syms.drop_first(), m2, l2) {
                Ok((rest, m3, l3)) => Ok((cs + rest, m3, l3)),
                Err(e) => Err(e),
            },
            Err(e) => Err(e),
        }
    }
}

/// Everything `set_generic_params` does to a declaration, as one function
/// of the texts, the table and the counters.
pub open spec fn set_params_spec(
    texts: Seq<Seq<char>>,
    m0: Map<Seq<char>, GenericParam>,
    lt0: nat,
    tp0: nat,
) -> Result<(Seq<GenericParam>, Seq<GenericConstraintV>, Map<Seq<char>, GenericParam>, nat, nat), Error> {
    match parse_params_spec(texts) {
        Ok(ps) => match reg_params_spec(ps, m0, lt0, tp0) {
            Ok((syms, m1, lt1, tp1)) => match hoist_spec(ps, syms, m1, lt1) {
                Ok((cs, m2, lt2)) => Ok((syms, cs, m2, lt2, tp1)),
                Err(e) => Err(e),
            },
            Err(e) => Err(e),
        },
        Err(e) => Err(e),
    }
}

/// Registering one bound's introducer names and then resolving it.
pub open spec fn bound_intros_spec(
    b: RawBoundV,
    m: Map<Seq<char>, GenericParam>,
    lt: nat,
) -> Result<(TypeParamBoundV, Map<Seq<char>, GenericParam>, nat), Error> {
    match reg_names_spec(fl_bound(b), m, lt) {
        Ok((m1, l1)) => match tr_bound(m1, b) {
            Ok(bv) => Ok((bv, m1, l1)),
            Err(e) => Err(e),
        },
        Err(e) => Err(e),
    }
}

/// Registering one predicate's introducer names and then resolving it.
pub open spec fn predicate_intros_spec(
    p: RawPredicateV,
    m: Map<Seq<char>, GenericParam>,
    lt: nat,
) -> Result<(GenericConstraintV, Map<Seq<char>, GenericParam>, nat), Error> {
    match reg_names_spec(fl_predicate(p), m, lt) {
        Ok((m1, l1)) => match tr_predicate(m1, p) {
            Ok(c) => Ok((c, m1, l1)),
            Err(e) => Err(e),
        },
        Err(e) => Err(e),
    }
}

/// Registering one type's nested introducer names and then resolving it.
pub open spec fn type_intros_spec(
    t: RawTypeV,
    m: Map<Seq<char>, GenericParam>,
    lt: nat,
) -> Result<(TypeNodeV, Map<Seq<char>, GenericParam>, nat), Error> {
    match reg_names_spec(fl_type(t), m, lt) {
        Ok((m1, l1)) => match tr_type(m1, t) {
            Ok(tv) => Ok((tv, m1, l1)),
            Err(e) => Err(e),
        },
        Err(e) => Err(e),
    }
}

/// Registering an argument list's nested introducer names and then
/// resolving it.
pub open spec fn args_intros_spec(
    args: Seq<RawArgV>,
    m: Map<Seq<char>, GenericParam>,
    lt: nat,
) -> Result<(Seq<GenericArgumentV>, Map<Seq<char>, GenericParam>, nat), Error> {
    match reg_names_spec(fl_seq_arg(args), m, lt) {
        Ok((m1, l1)) => match tr_seq_arg(m1, args) {
            Ok(avs) => Ok((avs, m1, l1)),
            Err(e) => Err(e),
        },
        Err(e) => Err(e),
    }
}

/// The constraints `set_generic_constraints` adds for a list of predicate
/// texts: each is parsed, its introducer names registered, and resolved
/// against the table as registered so far.
pub open spec fn set_constraints_spec(
    texts: Seq<Seq<char>>,
    m: Map<Seq<char>, GenericParam>,
    lt: nat,
) -> Result<(Seq<GenericConstraintV>, Map<Seq<char>, GenericParam>, nat), Error>
    decreases texts.len(),
{
    if texts.len() == 0 {
        Ok((Seq::empty(), m, lt))
    } else {
        match crate::parse::sp_predicate_full(texts[0]) {
            Some(p) => match predicate_intros_spec(p, m, lt) {
                Ok((c, m1, l1)) => match set_constraints_spec(texts.drop_first(), m1, l1) {
                    Ok((rest, m2, l2)) => Ok((seq![c] + rest, m2, l2)),
                    Err(e) => Err(e),
                },
                Err(e) => Err(e),
            },
            None => Err(Error::Parse),
        }
    }
}

/// The bounds a trait object built from bound texts carries: each text is
/// parsed, its introducer names registered, and resolved against the table
/// as registered so far.
pub open spec fn trait_object_spec(
    texts: Seq<Seq<char>>,
    m: Map<Seq<char>, GenericParam>,
    lt: nat,
) -> Result<(Seq<TypeParamBoundV>, Map<Seq<char>, GenericParam>, nat), Error>
    decreases texts.len(),
{
    if texts.len() == 0 {
        Ok((Seq::empty(), m, lt))
    } else {
        match crate::parse::sp_bound_full(texts[0]) {
            Some(b) => match bound_intros_spec(b, m, lt) {
                Ok((bv, m1, l1)) => match trait_object_spec(texts.drop_first(), m1, l1) {
                    Ok((rest, m2, l2)) => Ok((seq![bv] + rest, m2, l2)),
                    Err(e) => Err(e),
                },
                Err(e) => Err(e),
            },
            None => Err(Error::Parse),
        }
    }
}

proof fn lemma_parse_params_ok(texts: Seq<Seq<char>>, out: Seq<RawParamV>)
    requires
        out.len() == texts.len(),
        forall|j: int|
            0 <= j < texts.len() ==> #[trigger] crate::parse::sp_param_full(texts[j]) == Some(
                out[j],
            ),
    ensures
        parse_params_spec(texts) == Ok::<_, Error>(out),
    decreases texts.len(),
{
    if texts.len() == 0 {
        assert(out =~= Seq::<RawParamV>::empty());
    } else {
        assert(forall|j: int|
            1 <= j < texts.len() ==> #[trigger] texts[j] == texts.drop_first()[j - 1]);
        lemma_parse_params_ok(texts.drop_first(), out.drop_first());
        assert(out =~= seq![out[0]] + out.drop_first());
    }
}

proof fn lemma_parse_params_err(texts: Seq<Seq<char>>, i: int)
    requires
        0 <= i < texts.len(),
        forall|j: int| 0 <= j < i ==> #[trigger] crate::parse::sp_param_full(texts[j]) is Some,
        crate::parse::sp_param_full(texts[i]) is None,
    ensures
        parse_params_spec(texts) == Err::<Seq<RawParamV>, _>(Error::Parse),
    decreases i,
{
    if i > 0 {
        assert(forall|j: int|
            1 <= j < texts.len() ==> #[trigger] texts[j] == texts.drop_first()[j - 1]);
        lemma_parse_params_err(texts.drop_first(), i - 1);
    }
}

impl crate::generics::Generics {
    /// Declares generic parameters from their written forms (`"T"`, `"'a"`,
    /// `"T: Clone + Default"`): each is parsed, given a fresh symbol of its
    /// kind, and recorded in the lookup table, and its declared bounds are
    /// hoisted into constraints against the finished table (so bounds may
    /// forward-reference any declared parameter). A bound's `for<...>`
    /// introducer names are given freshly minted lifetime symbols just
    /// before that bound resolves, and stay in the table. On any failure —
    /// a text that does not parse, a `const` parameter, a bound that does
    /// not resolve, an exhausted counter — nothing is changed but the
    /// arena's counters.
    #[verifier::rlimit(100)]
    pub fn set_generic_params(&mut self, ctx: &mut crate::arena::Arena, params: &[&str]) -> (r:
        Result<(), Error>)
        requires
            old(ctx).counters_wf(),
            old(ctx).lifetimes + params@.len() < usize::MAX,
            old(ctx).type_params + params@.len() < usize::MAX,
        ensures
            final(ctx).counters_wf(),
            old(ctx).lifetimes <= final(ctx).lifetimes,
            old(ctx).type_params <= final(ctx).type_params,
            final(ctx).type_params <= old(ctx).type_params + params@.len(),
            final(ctx).values == old(ctx).values,
            final(ctx).invokes == old(ctx).invokes,
            final(ctx).macros == old(ctx).macros,
            old(ctx).wf() ==> final(ctx).wf(),
            match r {
                Ok(_) => {
                    let sr = set_params_spec(
                        strs_view(params@),
                        old(self).param_map@,
                        old(ctx).lifetimes as nat,
                        old(ctx).type_params as nat,
                    );
                    &&& sr is Ok
                    &&& final(self).params@ == old(self).params@ + sr->Ok_0.0
                    &&& crate::generics::view_seq_constraint(final(self).constraints@)
                        == crate::generics::view_seq_constraint(old(self).constraints@)
                        + sr->Ok_0.1
                    &&& final(self).param_map@ == sr->Ok_0.2
                    &&& final(ctx).lifetimes as nat == sr->Ok_0.3
                    &&& final(ctx).type_params as nat == sr->Ok_0.4
                },
                Err(e) => {
                    &&& set_params_spec(
                        strs_view(params@),
                        old(self).param_map@,
                        old(ctx).lifetimes as nat,
                        old(ctx).type_params as nat,
                    ) == Err::<
                        (
                            Seq<GenericParam>,
                            Seq<GenericConstraintV>,
                            Map<Seq<char>, GenericParam>,
                            nat,
                            nat,
                        ),
                        _,
                    >(e)
                    &&& *final(self) == *old(self)
                },
            },
    {
        let ghost texts = strs_view(params@);
        let ghost m0 = self.param_map@;
        let ghost lt0 = old(ctx).lifetimes as nat;
        let ghost tp0 = old(ctx).type_params as nat;
        // parse every declaration first; nothing is changed on failure
        let mut parsed: Vec<RawParam> = Vec::new();
        let mut i: usize = 0;
        while i < params.len()
            invariant
                *self == *old(self),
                *ctx == *old(ctx),
                old(ctx).counters_wf(),
                m0 == old(self).param_map@,
                lt0 == old(ctx).lifetimes as nat,
                tp0 == old(ctx).type_params as nat,
                i <= params@.len(),
                parsed@.len() == i,
                texts == strs_view(params@),
                texts.len() == params@.len(),
                forall|j: int| 0 <= j < params@.len() ==> texts[j] == (#[trigger] params@[j])@,
                forall|j: int|
                    0 <= j < i ==> #[trigger] crate::parse::sp_param_full(texts[j]) == Some(
                        crate::syntax::view_raw_param(parsed@[j]),
                    ),
            decreases params@.len() - i,
        {
            match crate::parse::parse_generic_param(params[i]) {
                Ok(p) => {
                    parsed.push(p);
                },
                Err(e) => {
                    proof {
                        lemma_parse_params_err(texts, i as int);
                    }
                    return Err(e);
                },
            }
            i = i + 1;
        }
        let ghost ps = crate::syntax::view_seq_raw_param(parsed@);
        proof {
            crate::syntax::lemma_view_seq_raw_param(parsed@);
            lemma_parse_params_ok(texts, ps);
        }
        // registration: mint a fresh symbol per parameter and bind its name
        // in a scratch table
        let mut scratch = self.param_map.clone();
        let mut syms: Vec<GenericParam> = Vec::new();
        proof {
            assert(ps.skip(0) =~= ps);
            if reg_params_spec(ps, m0, lt0, tp0) is Ok {
                assert(Seq::<GenericParam>::empty() + reg_params_spec(ps, m0, lt0, tp0)->Ok_0.0
                    =~= reg_params_spec(ps, m0, lt0, tp0)->Ok_0.0);
            }
        }
        let mut i2: usize = 0;
        while i2 < parsed.len()
            invariant
                *self == *old(self),
                m0 == old(self).param_map@,
                lt0 == old(ctx).lifetimes as nat,
                tp0 == old(ctx).type_params as nat,
                texts == strs_view(params@),
                parse_params_spec(texts) == Ok::<_, Error>(ps),
                i2 <= parsed@.len(),
                syms@.len() == i2,
                ps == crate::syntax::view_seq_raw_param(parsed@),
                ps.len() == parsed@.len(),
                forall|j: int|
                    0 <= j < parsed@.len() ==> ps[j] == crate::syntax::view_raw_param(
                        #[trigger] parsed@[j],
                    ),
                ctx.counters_wf(),
                old(ctx).lifetimes <= ctx.lifetimes,
                old(ctx).type_params <= ctx.type_params,
                ctx.lifetimes <= old(ctx).lifetimes + i2,
                ctx.type_params <= old(ctx).type_params + i2,
                old(ctx).lifetimes + params@.len() < usize::MAX,
                old(ctx).type_params + params@.len() < usize::MAX,
                parsed@.len() == params@.len(),
                ctx.values == old(ctx).values,
                ctx.invokes == old(ctx).invokes,
                ctx.macros == old(ctx).macros,
                forall|j: int|
                    0 <= j < i2 ==> ((#[trigger] ps[j]) is Ty <==> syms@[j] is Type) && (ps[j]
                        is Life <==> syms@[j] is Lifetime) && !(ps[j] is ConstParam),
                reg_params_spec(ps, m0, lt0, tp0) == (match reg_params_spec(
                    ps.skip(i2 as int),
                    scratch@,
                    ctx.lifetimes as nat,
                    ctx.type_params as nat,
                ) {
                    Ok((s2, m2, l2, t2)) => Ok::<_, Error>((syms@ + s2, m2, l2, t2)),
                    Err(e) => Err(e),
                }),
            decreases parsed@.len() - i2,
        {
            let ghost pre_syms = syms@;
            let ghost pre_m = scratch@;
            let ghost pre_lt = ctx.lifetimes as nat;
            let ghost pre_tp = ctx.type_params as nat;
            proof {
                assert(ps.skip(i2 as int)[0] == ps[i2 as int]);
                assert(ps.skip(i2 as int).drop_first() =~= ps.skip(i2 + 1));
            }
            let sym: GenericParam = match &parsed[i2] {
                RawParam::Life { name, .. } => {
                    let n = ctx.mint_lifetime();
                    let sym = GenericParam::Lifetime(Lifetime(n));
                    scratch.insert(name.as_str(), sym);
                    sym
                },
                RawParam::Ty { name, .. } => {
                    let n = ctx.mint_type_param();
                    let sym = GenericParam::Type(crate::generics::TypeParam(n));
                    scratch.insert(name.as_str(), sym);
                    sym
                },
                RawParam::ConstParam => {
                    proof {
                        assert(reg_params_spec(
                            ps.skip(i2 as int),
                            scratch@,
                            ctx.lifetimes as nat,
                            ctx.type_params as nat,
                        ) == Err::<
                            (Seq<GenericParam>, Map<Seq<char>, GenericParam>, nat, nat),
                            _,
                        >(Error::Unsupported));
                    }
                    return Err(Error::Unsupported);
                },
            };
            syms.push(sym);
            i2 = i2 + 1;
            proof {
                assert(syms@ =~= pre_syms.push(sym));
                let tail = reg_params_spec(
                    ps.skip(i2 as int),
                    scratch@,
                    ctx.lifetimes as nat,
                    ctx.type_params as nat,
                );
                assert(reg_params_spec(ps.skip(i2 - 1), pre_m, pre_lt, pre_tp) == (match tail {
                    Ok((s2, m2, l2, t2)) => Ok::<_, Error>((seq![sym] + s2, m2, l2, t2)),
                    Err(e) => Err(e),
                }));
                if tail is Ok {
                    assert(pre_syms + (seq![sym] + tail->Ok_0.0) =~= syms@ + tail->Ok_0.0);
                }
                assert(reg_params_spec(ps, m0, lt0, tp0) == (match tail {
                    Ok((s2, m2, l2, t2)) => Ok::<_, Error>((syms@ + s2, m2, l2, t2)),
                    Err(e) => Err(e),
                }));
            }
        }
        proof {
            assert(ps.skip(parsed@.len() as int) =~= Seq::<RawParamV>::empty());
            assert(syms@ + Seq::<GenericParam>::empty() =~= syms@);
            assert(reg_params_spec(ps, m0, lt0, tp0) == Ok::<_, Error>(
                (syms@, scratch@, ctx.lifetimes as nat, ctx.type_params as nat),
            ));
        }
        // hoist the declared bounds into constraints: each bound's
        // introducer names are registered just before it resolves
        let mut hoisted: Vec<GenericConstraint> = Vec::new();
        let ghost m1 = scratch@;
        let ghost lt1 = ctx.lifetimes as nat;
        let ghost tp1 = ctx.type_params as nat;
        proof {
            assert(ps.skip(0) =~= ps);
            assert(syms@.skip(0) =~= syms@);
            assert(crate::generics::view_seq_constraint(Seq::<
                crate::generics::GenericConstraint,
            >::empty()) =~= Seq::<GenericConstraintV>::empty());
            if hoist_spec(ps, syms@, m1, lt1) is Ok {
                assert(Seq::<GenericConstraintV>::empty() + hoist_spec(
                    ps,
                    syms@,
                    m1,
                    lt1,
                )->Ok_0.0 =~= hoist_spec(ps, syms@, m1, lt1)->Ok_0.0);
            }
        }
        let mut i3: usize = 0;
        while i3 < parsed.len()
            invariant
                *self == *old(self),
                m0 == old(self).param_map@,
                lt0 == old(ctx).lifetimes as nat,
                tp0 == old(ctx).type_params as nat,
                texts == strs_view(params@),
                parse_params_spec(texts) == Ok::<_, Error>(ps),
                reg_params_spec(ps, m0, lt0, tp0) == Ok::<_, Error>((syms@, m1, lt1, tp1)),
                ctx.type_params as nat == tp1,
                tp1 <= tp0 + params@.len(),
                ctx.counters_wf(),
                old(ctx).lifetimes <= ctx.lifetimes,
                old(ctx).type_params <= ctx.type_params,
                ctx.values == old(ctx).values,
                ctx.invokes == old(ctx).invokes,
                ctx.macros == old(ctx).macros,
                i3 <= parsed@.len(),
                ps == crate::syntax::view_seq_raw_param(parsed@),
                ps.len() == parsed@.len(),
                syms@.len() == parsed@.len(),
                forall|j: int|
                    0 <= j < parsed@.len() ==> ps[j] == crate::syntax::view_raw_param(
                        #[trigger] parsed@[j],
                    ),
                forall|j: int|
                    0 <= j < parsed@.len() ==> ((#[trigger] ps[j]) is Ty <==> syms@[j] is Type)
                        && (ps[j] is Life <==> syms@[j] is Lifetime) && !(ps[j] is ConstParam),
                hoist_spec(ps, syms@, m1, lt1) == (match hoist_spec(
                    ps.skip(i3 as int),
                    syms@.skip(i3 as int),
                    scratch@,
                    ctx.lifetimes as nat,
                ) {
                    Ok((rest, mf, lf)) => Ok::<_, Error>(
                        (crate::generics::view_seq_constraint(hoisted@) + rest, mf, lf),
                    ),
                    Err(e) => Err(e),
                }),
            decreases parsed@.len() - i3,
        {
            proof {
                assert(ps.skip(i3 as int)[0] == ps[i3 as int]);
                assert(ps.skip(i3 as int).drop_first() =~= ps.skip(i3 + 1));
                assert(syms@.skip(i3 as int)[0] == syms@[i3 as int]);
                assert(syms@.skip(i3 as int).drop_first() =~= syms@.skip(i3 + 1));
                crate::generics::lemma_view_seq_constraint(hoisted@);
            }
            let ghost pre_cs = crate::generics::view_seq_constraint(hoisted@);
            let ghost pre_m = scratch@;
            let ghost pre_lt = ctx.lifetimes as nat;
            let ghost mut head_seq: Seq<GenericConstraintV> = Seq::empty();
            match &parsed[i3] {
                RawParam::Ty { bounds, .. } => {
                    proof {
                        crate::syntax::lemma_view_seq_raw_bound(bounds@);
                    }
                    if bounds.len() > 0 {
                        let mut names: Vec<String> = Vec::new();
                        collect_bounds(bounds, &mut names);
                        proof {
                            assert(crate::syntax::names_view(names@) =~= fl_seq_bound(
                                crate::syntax::view_seq_raw_bound(bounds@),
                            ));
                        }
                        match register_names(&mut scratch, ctx, &names) {
                            Ok(_) => {},
                            Err(e) => {
                                return Err(e);
                            },
                        }
                        match x_bounds(&scratch, bounds) {
                            Ok(bs) => {
                                let tp = match syms[i3] {
                                    GenericParam::Type(tp) => tp,
                                    _ => vstd::pervasive::unreached(),
                                };
                                let ghost pre = hoisted@;
                                hoisted.push(
                                    GenericConstraint::Type(
                                        PredicateType {
                                            lifetimes: Vec::new(),
                                            bounded_ty: Type(TypeNode::TypeParam(tp)),
                                            bounds: bs,
                                        },
                                    ),
                                );
                                proof {
                                    crate::generics::lemma_view_seq_constraint(hoisted@);
                                    head_seq = seq![
                                        crate::generics::view_constraint(
                                            hoisted@[pre.len() as int],
                                        ),
                                    ];
                                    assert(crate::generics::view_seq_constraint(hoisted@)
                                        =~= pre_cs + head_seq);
                                    assert(head_seq =~~= seq![
                                        GenericConstraintV::Type(
                                            PredicateTypeV {
                                                lifetimes: Seq::empty(),
                                                bounded_ty: TypeNodeV::TypeParam(
                                                    syms@[i3 as int]->Type_0,
                                                ),
                                                bounds: crate::generics::view_seq_bound(bs@),
                                            },
                                        ),
                                    ]);
                                }
                            },
                            Err(e) => {
                                return Err(e);
                            },
                        }
                    } else {
                        proof {
                            assert(crate::generics::view_seq_constraint(hoisted@) =~= pre_cs
                                + head_seq);
                        }
                    }
                },
                RawParam::Life { bounds, .. } => {
                    if bounds.len() > 0 {
                        match x_lives(&scratch, bounds) {
                            Ok(bs) => {
                                let lt = match syms[i3] {
                                    GenericParam::Lifetime(lt) => lt,
                                    _ => vstd::pervasive::unreached(),
                                };
                                let ghost pre = hoisted@;
                                hoisted.push(
                                    GenericConstraint::Lifetime(
                                        LifetimeDef { lifetime: lt, bounds: bs },
                                    ),
                                );
                                proof {
                                    crate::generics::lemma_view_seq_constraint(hoisted@);
                                    head_seq = seq![
                                        crate::generics::view_constraint(
                                            hoisted@[pre.len() as int],
                                        ),
                                    ];
                                    assert(crate::generics::view_seq_constraint(hoisted@)
                                        =~= pre_cs + head_seq);
                                    assert(head_seq =~~= seq![
                                        GenericConstraintV::Lifetime(
                                            LifetimeDefV {
                                                lifetime: syms@[i3 as int]->Lifetime_0,
                                                bounds: bs@,
                                            },
                                        ),
                                    ]);
                                }
                            },
                            Err(e) => {
                                return Err(e);
                            },
                        }
                    } else {
                        proof {
                            assert(crate::generics::view_seq_constraint(hoisted@) =~= pre_cs
                                + head_seq);
                        }
                    }
                },
                RawParam::ConstParam => {
                    vstd::pervasive::unreached::<()>();
                },
            }
            i3 = i3 + 1;
            proof {
                let tail = hoist_spec(
                    ps.skip(i3 as int),
                    syms@.skip(i3 as int),
                    scratch@,
                    ctx.lifetimes as nat,
                );
                assert(hoist_spec(ps.skip(i3 - 1), syms@.skip(i3 - 1), pre_m, pre_lt) == (
                match tail {
                    Ok((rest, mf, lf)) => Ok::<_, Error>((head_seq + rest, mf, lf)),
                    Err(e) => Err(e),
                }));
                if tail is Ok {
                    assert(pre_cs + (head_seq + tail->Ok_0.0) =~= (pre_cs + head_seq)
                        + tail->Ok_0.0);
                }
                assert(hoist_spec(ps, syms@, m1, lt1) == (match tail {
                    Ok((rest, mf, lf)) => Ok::<_, Error>(
                        (crate::generics::view_seq_constraint(hoisted@) + rest, mf, lf),
                    ),
                    Err(e) => Err(e),
                }));
            }
        }
        proof {
            assert(ps.skip(parsed@.len() as int) =~= Seq::<RawParamV>::empty());
            assert(syms@.skip(parsed@.len() as int) =~= Seq::<GenericParam>::empty());
            assert(crate::generics::view_seq_constraint(hoisted@) + Seq::<
                GenericConstraintV,
            >::empty() =~= crate::generics::view_seq_constraint(hoisted@));
            assert(hoist_spec(ps, syms@, m1, lt1) == Ok::<_, Error>(
                (
                    crate::generics::view_seq_constraint(hoisted@),
                    scratch@,
                    ctx.lifetimes as nat,
                ),
            ));
        }
        // commit
        let ghost pre_params = self.params@;
        let ghost pre_constraints = self.constraints@;
        let ghost syms_v = syms@;
        let ghost hoisted_v = hoisted@;
        let mut syms_in = syms;
        let mut hoisted_in = hoisted;
        self.params.append(&mut syms_in);
        self.constraints.append(&mut hoisted_in);
        self.param_map = scratch;
        proof {
            assert(self.params@ =~= pre_params + syms_v);
            assert(self.constraints@ =~= pre_constraints + hoisted_v);
            crate::generics::lemma_view_seq_constraint(self.constraints@);
            crate::generics::lemma_view_seq_constraint(pre_constraints);
            crate::generics::lemma_view_seq_constraint(hoisted_v);
            assert(crate::generics::view_seq_constraint(self.constraints@)
                =~= crate::generics::view_seq_constraint(pre_constraints)
                + crate::generics::view_seq_constraint(hoisted_v));
        }
        Ok(())
    }

    /// Adds constraints from their written forms (`"T: Clone"`,
    /// `"'a: 'b"`, `"for<'x> T: Fancy<'x>"`): each is parsed, its
    /// `for<...>` introducer names are given freshly minted lifetime
    /// symbols and registered in the lookup table, and it is resolved
    /// against the table as registered so far. On any failure — a text that
    /// does not parse, a name the table does not bind, an exhausted counter
    /// — nothing is changed but the arena's counters.
    #[verifier::rlimit(60)]
    pub fn set_generic_constraints(
        &mut self,
        ctx: &mut crate::arena::Arena,
        constraints: &[&str],
    ) -> (r: Result<(), Error>)
        requires
            old(ctx).counters_wf(),
        ensures
            final(self).params@ == old(self).params@,
            final(ctx).counters_wf(),
            old(ctx).lifetimes <= final(ctx).lifetimes,
            final(ctx).type_params == old(ctx).type_params,
            final(ctx).values == old(ctx).values,
            final(ctx).invokes == old(ctx).invokes,
            final(ctx).macros == old(ctx).macros,
            old(ctx).wf() ==> final(ctx).wf(),
            match r {
                Ok(_) => {
                    let sr = set_constraints_spec(
                        strs_view(constraints@),
                        old(self).param_map@,
                        old(ctx).lifetimes as nat,
                    );
                    &&& sr is Ok
                    &&& crate::generics::view_seq_constraint(final(self).constraints@)
                        == crate::generics::view_seq_constraint(old(self).constraints@)
                        + sr->Ok_0.0
                    &&& final(self).param_map@ == sr->Ok_0.1
                    &&& final(ctx).lifetimes as nat == sr->Ok_0.2
                },
                Err(e) => {
                    &&& set_constraints_spec(
                        strs_view(constraints@),
                        old(self).param_map@,
                        old(ctx).lifetimes as nat,
                    ) == Err::<
                        (Seq<GenericConstraintV>, Map<Seq<char>, GenericParam>, nat),
                        _,
                    >(e)
                    &&& *final(self) == *old(self)
                },
            },
    {
        let ghost texts = strs_view(constraints@);
        let ghost m0 = self.param_map@;
        let ghost lt0 = old(ctx).lifetimes as nat;
        let mut scratch = self.param_map.clone();
        let mut out: Vec<GenericConstraint> = Vec::new();
        proof {
            assert(texts.skip(0) =~= texts);
            assert(crate::generics::view_seq_constraint(Seq::<
                crate::generics::GenericConstraint,
            >::empty()) =~= Seq::<GenericConstraintV>::empty());
            if set_constraints_spec(texts, m0, lt0) is Ok {
                assert(Seq::<GenericConstraintV>::empty() + set_constraints_spec(
                    texts,
                    m0,
                    lt0,
                )->Ok_0.0 =~= set_constraints_spec(texts, m0, lt0)->Ok_0.0);
            }
        }
        let mut i: usize = 0;
        while i < constraints.len()
            invariant
                *self == *old(self),
                m0 == old(self).param_map@,
                lt0 == old(ctx).lifetimes as nat,
                i <= constraints@.len(),
                texts == strs_view(constraints@),
                texts.len() == constraints@.len(),
                forall|j: int|
                    0 <= j < constraints@.len() ==> texts[j] == (#[trigger] constraints@[j])@,
                ctx.counters_wf(),
                old(ctx).lifetimes <= ctx.lifetimes,
                ctx.type_params == old(ctx).type_params,
                ctx.values == old(ctx).values,
                ctx.invokes == old(ctx).invokes,
                ctx.macros == old(ctx).macros,
                set_constraints_spec(texts, m0, lt0) == (match set_constraints_spec(
                    texts.skip(i as int),
                    scratch@,
                    ctx.lifetimes as nat,
                ) {
                    Ok((rest, mf, lf)) => Ok::<_, Error>(
                        (crate::generics::view_seq_constraint(out@) + rest, mf, lf),
                    ),
                    Err(e) => Err(e),
                }),
            decreases constraints@.len() - i,
        {
            proof {
                assert(texts.skip(i as int)[0] == texts[i as int]);
                assert(texts.skip(i as int).drop_first() =~= texts.skip(i + 1));
                crate::generics::lemma_view_seq_constraint(out@);
            }
            let ghost pre_cs = crate::generics::view_seq_constraint(out@);
            let p = match crate::parse::parse_where_predicate(constraints[i]) {
                Ok(p) => p,
                Err(e) => {
                    return Err(e);
                },
            };
            match x_predicate_pub(&mut scratch, ctx, &p) {
                Ok(c) => {
                    let ghost pre = out@;
                    out.push(c);
                    proof {
                        crate::generics::lemma_view_seq_constraint(out@);
                        assert(crate::generics::view_seq_constraint(out@) =~= pre_cs + seq![
                            crate::generics::view_constraint(out@[pre.len() as int]),
                        ]);
                    }
                },
                Err(e) => {
                    return Err(e);
                },
            }
            i = i + 1;
            proof {
                let tail = set_constraints_spec(texts.skip(i as int), scratch@, ctx.lifetimes as nat);
                if tail is Ok {
                    assert(pre_cs + (seq![crate::generics::view_seq_constraint(out@)[
                        out@.len() - 1
                    ]] + tail->Ok_0.0) =~= crate::generics::view_seq_constraint(out@)
                        + tail->Ok_0.0);
                }
                assert(set_constraints_spec(texts, m0, lt0) == (match tail {
                    Ok((rest, mf, lf)) => Ok::<_, Error>(
                        (crate::generics::view_seq_constraint(out@) + rest, mf, lf),
                    ),
                    Err(e) => Err(e),
                }));
            }
        }
        proof {
            assert(texts.skip(constraints@.len() as int) =~= Seq::<Seq<char>>::empty());
            assert(crate::generics::view_seq_constraint(out@) + Seq::<GenericConstraintV>::empty()
                =~= crate::generics::view_seq_constraint(out@));
        }
        let ghost pre_constraints = self.constraints@;
        let ghost out_v = out@;
        let mut out_in = out;
        self.constraints.append(&mut out_in);
        self.param_map = scratch;
        proof {
            assert(self.constraints@ =~= pre_constraints + out_v);
            crate::generics::lemma_view_seq_constraint(self.constraints@);
            crate::generics::lemma_view_seq_constraint(pre_constraints);
            crate::generics::lemma_view_seq_constraint(out_v);
            assert(crate::generics::view_seq_constraint(self.constraints@)
                =~= crate::generics::view_seq_constraint(pre_constraints)
                + crate::generics::view_seq_constraint(out_v));
        }
        Ok(())
    }
}

impl Type {
    /// A trait object from the written forms of its bounds: each is parsed,
    /// its `for<...>` introducer names are given freshly minted lifetime
    /// symbols and registered in the table, and it is resolved against the
    /// table as registered so far.
    #[verifier::rlimit(60)]
    pub fn new_trait_object(
        type_param_bounds: &[&str],
        param_map: &mut SynParamMap,
        ctx: &mut crate::arena::Arena,
    ) -> (r: Result<Type, Error>)
        requires
            old(ctx).counters_wf(),
        ensures
            final(ctx).counters_wf(),
            old(ctx).lifetimes <= final(ctx).lifetimes,
            final(ctx).type_params == old(ctx).type_params,
            final(ctx).values == old(ctx).values,
            final(ctx).invokes == old(ctx).invokes,
            final(ctx).macros == old(ctx).macros,
            old(ctx).wf() ==> final(ctx).wf(),
            match r {
                Ok(t) => {
                    let sr = trait_object_spec(
                        strs_view(type_param_bounds@),
                        old(param_map)@,
                        old(ctx).lifetimes as nat,
                    );
                    &&& sr is Ok
                    &&& crate::ty::view_type(t) == TypeNodeV::TraitObject(sr->Ok_0.0)
                    &&& final(param_map)@ == sr->Ok_0.1
                    &&& final(ctx).lifetimes as nat == sr->Ok_0.2
                },
                Err(e) => trait_object_spec(
                    strs_view(type_param_bounds@),
                    old(param_map)@,
                    old(ctx).lifetimes as nat,
                ) == Err::<(Seq<TypeParamBoundV>, Map<Seq<char>, GenericParam>, nat), _>(e)
                    && final(param_map)@ == old(param_map)@,
            },
    {
        let ghost texts = strs_view(type_param_bounds@);
        let ghost m0 = param_map@;
        let ghost lt0 = old(ctx).lifetimes as nat;
        let mut scratch = param_map.clone();
        let mut out: Vec<TypeParamBound> = Vec::new();
        proof {
            assert(texts.skip(0) =~= texts);
            assert(crate::generics::view_seq_bound(Seq::<TypeParamBound>::empty()) =~= Seq::<
                TypeParamBoundV,
            >::empty());
            if trait_object_spec(texts, m0, lt0) is Ok {
                assert(Seq::<TypeParamBoundV>::empty() + trait_object_spec(
                    texts,
                    m0,
                    lt0,
                )->Ok_0.0 =~= trait_object_spec(texts, m0, lt0)->Ok_0.0);
            }
        }
        let mut i: usize = 0;
        while i < type_param_bounds.len()
            invariant
                *param_map == *old(param_map),
                m0 == old(param_map)@,
                lt0 == old(ctx).lifetimes as nat,
                i <= type_param_bounds@.len(),
                texts == strs_view(type_param_bounds@),
                texts.len() == type_param_bounds@.len(),
                forall|j: int|
                    0 <= j < type_param_bounds@.len() ==> texts[j] == (
                    #[trigger] type_param_bounds@[j])@,
                ctx.counters_wf(),
                old(ctx).lifetimes <= ctx.lifetimes,
                ctx.type_params == old(ctx).type_params,
                ctx.values == old(ctx).values,
                ctx.invokes == old(ctx).invokes,
                ctx.macros == old(ctx).macros,
                trait_object_spec(texts, m0, lt0) == (match trait_object_spec(
                    texts.skip(i as int),
                    scratch@,
                    ctx.lifetimes as nat,
                ) {
                    Ok((rest, mf, lf)) => Ok::<_, Error>(
                        (crate::generics::view_seq_bound(out@) + rest, mf, lf),
                    ),
                    Err(e) => Err(e),
                }),
            decreases type_param_bounds@.len() - i,
        {
            proof {
                assert(texts.skip(i as int)[0] == texts[i as int]);
                assert(texts.skip(i as int).drop_first() =~= texts.skip(i + 1));
                crate::generics::lemma_view_seq_bound(out@);
            }
            let ghost pre_bs = crate::generics::view_seq_bound(out@);
            let b = match crate::parse::parse_type_param_bound(type_param_bounds[i]) {
                Ok(b) => b,
                Err(e) => {
                    return Err(e);
                },
            };
            match x_bound_pub(&mut scratch, ctx, &b) {
                Ok(bd) => {
                    let ghost pre = out@;
                    out.push(bd);
                    proof {
                        crate::generics::lemma_view_seq_bound(out@);
                        assert(crate::generics::view_seq_bound(out@) =~= pre_bs + seq![
                            crate::generics::view_bound(out@[pre.len() as int]),
                        ]);
                    }
                },
                Err(e) => {
                    return Err(e);
                },
            }
            i = i + 1;
            proof {
                let tail = trait_object_spec(texts.skip(i as int), scratch@, ctx.lifetimes as nat);
                if tail is Ok {
                    assert(pre_bs + (seq![crate::generics::view_seq_bound(out@)[out@.len() - 1]]
                        + tail->Ok_0.0) =~= crate::generics::view_seq_bound(out@)
                        + tail->Ok_0.0);
                }
                assert(trait_object_spec(texts, m0, lt0) == (match tail {
                    Ok((rest, mf, lf)) => Ok::<_, Error>(
                        (crate::generics::view_seq_bound(out@) + rest, mf, lf),
                    ),
                    Err(e) => Err(e),
                }));
            }
        }
        proof {
            assert(texts.skip(type_param_bounds@.len() as int) =~= Seq::<Seq<char>>::empty());
            assert(crate::generics::view_seq_bound(out@) + Seq::<TypeParamBoundV>::empty()
                =~= crate::generics::view_seq_bound(out@));
        }
        *param_map = scratch;
        Ok(Type(TypeNode::TraitObject(out)))
    }
}

impl TypeParamBound {
    /// Parses one bound from its written form, registers its `for<...>`
    /// introducer names as freshly minted lifetime symbols, and resolves it
    /// against the extended table.
    pub fn get_type_param_bound(
        type_param_bound: &str,
        param_map: &mut SynParamMap,
        ctx: &mut crate::arena::Arena,
    ) -> (r: Result<TypeParamBound, Error>)
        requires
            old(ctx).counters_wf(),
        ensures
            final(ctx).counters_wf(),
            old(ctx).lifetimes <= final(ctx).lifetimes,
            final(ctx).type_params == old(ctx).type_params,
            final(ctx).values == old(ctx).values,
            final(ctx).invokes == old(ctx).invokes,
            final(ctx).macros == old(ctx).macros,
            match r {
                Ok(b) => {
                    match crate::parse::sp_bound_full(type_param_bound@) {
                        Some(raw) => bound_intros_spec(
                            raw,
                            old(param_map)@,
                            old(ctx).lifetimes as nat,
                        ) == Ok::<_, Error>(
                            (
                                crate::generics::view_bound(b),
                                final(param_map)@,
                                final(ctx).lifetimes as nat,
                            ),
                        ),
                        None => false,
                    }
                },
                Err(e) => {
                    match crate::parse::sp_bound_full(type_param_bound@) {
                        Some(raw) => bound_intros_spec(
                            raw,
                            old(param_map)@,
                            old(ctx).lifetimes as nat,
                        ) == Err::<
                            (TypeParamBoundV, Map<Seq<char>, GenericParam>, nat),
                            _,
                        >(e) && final(param_map)@ == old(param_map)@,
                        None => e == Error::Parse && final(param_map)@ == old(param_map)@,
                    }
                },
            },
    {
        let raw = match crate::parse::parse_type_param_bound(type_param_bound) {
            Ok(b) => b,
            Err(e) => {
                return Err(e);
            },
        };
        x_bound_pub(param_map, ctx, &raw)
    }
}

impl crate::module::Module {
    /// A path under this module from a written segment with optional
    /// generic arguments (`"Option<T>"`): nested `for<...>` introducer
    /// names are registered as freshly minted lifetime symbols, and the
    /// arguments are resolved against the extended table.
    pub fn get_path(
        &self,
        segment: &str,
        param_map: &mut SynParamMap,
        ctx: &mut crate::arena::Arena,
    ) -> (r: Result<Path, Error>)
        requires
            old(ctx).counters_wf(),
        ensures
            final(ctx).counters_wf(),
            old(ctx).lifetimes <= final(ctx).lifetimes,
            final(ctx).type_params == old(ctx).type_params,
            final(ctx).values == old(ctx).values,
            final(ctx).invokes == old(ctx).invokes,
            final(ctx).macros == old(ctx).macros,
            match r {
                Ok(p) => {
                    match crate::parse::sp_seg_full(segment@) {
                        Some(raw) => {
                            let sr = args_intros_spec(
                                raw.args,
                                old(param_map)@,
                                old(ctx).lifetimes as nat,
                            );
                            &&& sr is Ok
                            &&& final(param_map)@ == sr->Ok_0.1
                            &&& final(ctx).lifetimes as nat == sr->Ok_0.2
                            &&& p@.global == self.path@.global
                            &&& p@.segs == self.path@.segs.push(
                                PathSegmentV { ident: raw.name, args: sr->Ok_0.0 },
                            )
                        },
                        None => false,
                    }
                },
                Err(e) => {
                    match crate::parse::sp_seg_full(segment@) {
                        Some(raw) => args_intros_spec(
                            raw.args,
                            old(param_map)@,
                            old(ctx).lifetimes as nat,
                        ) == Err::<
                            (Seq<GenericArgumentV>, Map<Seq<char>, GenericParam>, nat),
                            _,
                        >(e) && final(param_map)@ == old(param_map)@,
                        None => e == Error::Parse && final(param_map)@ == old(param_map)@,
                    }
                },
            },
    {
        let raw = match crate::parse::parse_path_segment(segment) {
            Ok(seg) => seg,
            Err(e) => {
                return Err(e);
            },
        };
        let seg = match x_segment_pub(param_map, ctx, &raw) {
            Ok(seg) => seg,
            Err(e) => {
                return Err(e);
            },
        };
        let mut p = self.path.clone();
        let ghost pre = p.path@;
        p.path.push(seg);
        proof {
            crate::path::lemma_view_seq_seg(pre);
            crate::path::lemma_view_seq_seg(p.path@);
            assert(forall|j: int| 0 <= j < pre.len() ==> #[trigger] p.path@[j] == pre[j]);
            assert(crate::path::view_seq_seg(p.path@) =~= crate::path::view_seq_seg(pre).push(
                crate::path::view_seg(p.path@[pre.len() as int]),
            ));
        }
        Ok(p)
    }

    /// A path type under this module from a written segment.
    pub fn get_path_type(
        &self,
        segment: &str,
        param_map: &mut SynParamMap,
        ctx: &mut crate::arena::Arena,
    ) -> (r: Result<Type, Error>)
        requires
            old(ctx).counters_wf(),
        ensures
            final(ctx).counters_wf(),
            old(ctx).lifetimes <= final(ctx).lifetimes,
            final(ctx).type_params == old(ctx).type_params,
            final(ctx).values == old(ctx).values,
            final(ctx).invokes == old(ctx).invokes,
            final(ctx).macros == old(ctx).macros,
            match r {
                Ok(t) => {
                    match crate::parse::sp_seg_full(segment@) {
                        Some(raw) => {
                            let sr = args_intros_spec(
                                raw.args,
                                old(param_map)@,
                                old(ctx).lifetimes as nat,
                            );
                            &&& sr is Ok
                            &&& final(param_map)@ == sr->Ok_0.1
                            &&& final(ctx).lifetimes as nat == sr->Ok_0.2
                            &&& crate::ty::view_type(t) == TypeNodeV::Path(
                                PathV {
                                    global: self.path@.global,
                                    segs: self.path@.segs.push(
                                        PathSegmentV { ident: raw.name, args: sr->Ok_0.0 },
                                    ),
                                },
                            )
                        },
                        None => false,
                    }
                },
                Err(e) => {
                    match crate::parse::sp_seg_full(segment@) {
                        Some(raw) => args_intros_spec(
                            raw.args,
                            old(param_map)@,
                            old(ctx).lifetimes as nat,
                        ) == Err::<
                            (Seq<GenericArgumentV>, Map<Seq<char>, GenericParam>, nat),
                            _,
                        >(e) && final(param_map)@ == old(param_map)@,
                        None => e == Error::Parse && final(param_map)@ == old(param_map)@,
                    }
                },
            },
    {
        match self.get_path(segment, param_map, ctx) {
            Ok(p) => Ok(Type(TypeNode::Path(p))),
            Err(e) => Err(e),
        }
    }
}

/// The constraints a list of already-parsed predicates adds: each
/// predicate's introducer names are registered just before it resolves.
pub open spec fn preds_intros_spec(
    preds: Seq<RawPredicateV>,
    m: Map<Seq<char>, GenericParam>,
    lt: nat,
) -> Result<(Seq<GenericConstraintV>, Map<Seq<char>, GenericParam>, nat), Error>
    decreases preds.len(),
{
    if preds.len() == 0 {
        Ok((Seq::empty(), m, lt))
    } else {
        match predicate_intros_spec(preds[0], m, lt) {
            Ok((c, m1, l1)) => match preds_intros_spec(preds.drop_first(), m1, l1) {
                Ok((rest, m2, l2)) => Ok((seq![c] + rest, m2, l2)),
                Err(e) => Err(e),
            },
            Err(e) => Err(e),
        }
    }
}

/// Everything translating a whole externally parsed declaration does, as
/// one function of the declaration and the counters: the parameters are
/// pre-registered in a fresh table, their declared bounds are hoisted into
/// constraints, the where-clause predicates are translated the same way
/// and appended, and every `for<...>` introducer registers freshly minted
/// lifetime symbols just before its bound or predicate resolves.
pub open spec fn from_raw_generics_spec(
    ps: Seq<RawParamV>,
    preds: Seq<RawPredicateV>,
    lt0: nat,
    tp0: nat,
) -> Result<(Seq<GenericParam>, Seq<GenericConstraintV>, Map<Seq<char>, GenericParam>, nat, nat), Error> {
    match reg_params_spec(ps, crate::generics::initial_param_map(), lt0, tp0) {
        Ok((syms, m1, lt1, tp1)) => match hoist_spec(ps, syms, m1, lt1) {
            Ok((cs1, m2, lt2)) => match preds_intros_spec(preds, m2, lt2) {
                Ok((cs2, m3, lt3)) => Ok((syms, cs1 + cs2, m3, lt3, tp1)),
                Err(e) => Err(e),
            },
            Err(e) => Err(e),
        },
        Err(e) => Err(e),
    }
}

impl crate::generics::Generics {
    /// Translates a whole externally parsed declaration in one pass: every
    /// declared parameter is pre-registered (so constraints and mutually
    /// referencing bounds may forward-reference any other declared
    /// parameter), bounds attached to a declaration are hoisted into the
    /// constraint list, and the where-clause predicates are translated the
    /// same way; each bound's or predicate's `for<...>` introducer names
    /// are given freshly minted lifetime symbols just before it resolves.
    #[verifier::rlimit(100)]
    pub fn from_raw_generics(
        ctx: &mut crate::arena::Arena,
        raw: &crate::syntax::RawGenerics,
    ) -> (r: Result<Self, Error>)
        requires
            old(ctx).counters_wf(),
            old(ctx).lifetimes + raw.params@.len() < usize::MAX,
            old(ctx).type_params + raw.params@.len() < usize::MAX,
        ensures
            final(ctx).counters_wf(),
            old(ctx).lifetimes <= final(ctx).lifetimes,
            old(ctx).type_params <= final(ctx).type_params,
            final(ctx).type_params <= old(ctx).type_params + raw.params@.len(),
            final(ctx).values == old(ctx).values,
            final(ctx).invokes == old(ctx).invokes,
            final(ctx).macros == old(ctx).macros,
            old(ctx).wf() ==> final(ctx).wf(),
            match r {
                Ok(g) => {
                    let sr = from_raw_generics_spec(
                        crate::syntax::view_seq_raw_param(raw.params@),
                        views_of_predicates(raw.predicates@),
                        old(ctx).lifetimes as nat,
                        old(ctx).type_params as nat,
                    );
                    &&& sr is Ok
                    &&& g.params@ == sr->Ok_0.0
                    &&& crate::generics::view_seq_constraint(g.constraints@) == sr->Ok_0.1
                    &&& g.param_map@ == sr->Ok_0.2
                    &&& final(ctx).lifetimes as nat == sr->Ok_0.3
                    &&& final(ctx).type_params as nat == sr->Ok_0.4
                },
                Err(e) => from_raw_generics_spec(
                    crate::syntax::view_seq_raw_param(raw.params@),
                    views_of_predicates(raw.predicates@),
                    old(ctx).lifetimes as nat,
                    old(ctx).type_params as nat,
                ) == Err::<
                    (
                        Seq<GenericParam>,
                        Seq<GenericConstraintV>,
                        Map<Seq<char>, GenericParam>,
                        nat,
                        nat,
                    ),
                    _,
                >(e),
            },
    {
        let ghost ps = crate::syntax::view_seq_raw_param(raw.params@);
        let ghost preds_v = views_of_predicates(raw.predicates@);
        let ghost lt0 = old(ctx).lifetimes as nat;
        let ghost tp0 = old(ctx).type_params as nat;
        let ghost m0 = crate::generics::initial_param_map();
        proof {
            crate::syntax::lemma_view_seq_raw_param(raw.params@);
            lemma_views_of_predicates(raw.predicates@);
        }
        let mut g = crate::generics::Generics {
            params: Vec::new(),
            constraints: Vec::new(),
            param_map: SynParamMap::new(),
        };
        // registration pass
        let mut syms: Vec<GenericParam> = Vec::new();
        proof {
            assert(ps.skip(0) =~= ps);
            if reg_params_spec(ps, m0, lt0, tp0) is Ok {
                assert(Seq::<GenericParam>::empty() + reg_params_spec(ps, m0, lt0, tp0)->Ok_0.0
                    =~= reg_params_spec(ps, m0, lt0, tp0)->Ok_0.0);
            }
        }
        let mut i: usize = 0;
        while i < raw.params.len()
            invariant
                m0 == crate::generics::initial_param_map(),
                ps == crate::syntax::view_seq_raw_param(raw.params@),
                ps.len() == raw.params@.len(),
                forall|j: int|
                    0 <= j < raw.params@.len() ==> ps[j] == crate::syntax::view_raw_param(
                        #[trigger] raw.params@[j],
                    ),
                i <= raw.params@.len(),
                syms@.len() == i,
                ctx.counters_wf(),
                lt0 == old(ctx).lifetimes as nat,
                tp0 == old(ctx).type_params as nat,
                old(ctx).lifetimes <= ctx.lifetimes,
                old(ctx).type_params <= ctx.type_params,
                ctx.lifetimes <= old(ctx).lifetimes + i,
                ctx.type_params <= old(ctx).type_params + i,
                old(ctx).lifetimes + raw.params@.len() < usize::MAX,
                old(ctx).type_params + raw.params@.len() < usize::MAX,
                ctx.values == old(ctx).values,
                ctx.invokes == old(ctx).invokes,
                ctx.macros == old(ctx).macros,
                g.params@.len() == 0,
                g.constraints@.len() == 0,
                forall|j: int|
                    0 <= j < i ==> ((#[trigger] ps[j]) is Ty <==> syms@[j] is Type) && (ps[j]
                        is Life <==> syms@[j] is Lifetime) && !(ps[j] is ConstParam),
                reg_params_spec(ps, m0, lt0, tp0) == (match reg_params_spec(
                    ps.skip(i as int),
                    g.param_map@,
                    ctx.lifetimes as nat,
                    ctx.type_params as nat,
                ) {
                    Ok((s2, m2, l2, t2)) => Ok::<_, Error>((syms@ + s2, m2, l2, t2)),
                    Err(e) => Err(e),
                }),
            decreases raw.params@.len() - i,
        {
            let ghost pre_syms = syms@;
            let ghost pre_m = g.param_map@;
            let ghost pre_lt = ctx.lifetimes as nat;
            let ghost pre_tp = ctx.type_params as nat;
            proof {
                assert(ps.skip(i as int)[0] == ps[i as int]);
                assert(ps.skip(i as int).drop_first() =~= ps.skip(i + 1));
            }
            let sym: GenericParam = match &raw.params[i] {
                RawParam::Life { name, .. } => {
                    let n = ctx.mint_lifetime();
                    let sym = GenericParam::Lifetime(Lifetime(n));
                    g.param_map.insert(name.as_str(), sym);
                    sym
                },
                RawParam::Ty { name, .. } => {
                    let n = ctx.mint_type_param();
                    let sym = GenericParam::Type(crate::generics::TypeParam(n));
                    g.param_map.insert(name.as_str(), sym);
                    sym
                },
                RawParam::ConstParam => {
                    proof {
                        assert(reg_params_spec(
                            ps.skip(i as int),
                            g.param_map@,
                            ctx.lifetimes as nat,
                            ctx.type_params as nat,
                        ) == Err::<
                            (Seq<GenericParam>, Map<Seq<char>, GenericParam>, nat, nat),
                            _,
                        >(Error::Unsupported));
                    }
                    return Err(Error::Unsupported);
                },
            };
            syms.push(sym);
            i = i + 1;
            proof {
                assert(syms@ =~= pre_syms.push(sym));
                let tail = reg_params_spec(
                    ps.skip(i as int),
                    g.param_map@,
                    ctx.lifetimes as nat,
                    ctx.type_params as nat,
                );
                assert(reg_params_spec(ps.skip(i - 1), pre_m, pre_lt, pre_tp) == (match tail {
                    Ok((s2, m2, l2, t2)) => Ok::<_, Error>((seq![sym] + s2, m2, l2, t2)),
                    Err(e) => Err(e),
                }));
                if tail is Ok {
                    assert(pre_syms + (seq![sym] + tail->Ok_0.0) =~= syms@ + tail->Ok_0.0);
                }
                assert(reg_params_spec(ps, m0, lt0, tp0) == (match tail {
                    Ok((s2, m2, l2, t2)) => Ok::<_, Error>((syms@ + s2, m2, l2, t2)),
                    Err(e) => Err(e),
                }));
            }
        }
        proof {
            assert(ps.skip(raw.params@.len() as int) =~= Seq::<RawParamV>::empty());
            assert(syms@ + Seq::<GenericParam>::empty() =~= syms@);
            assert(reg_params_spec(ps, m0, lt0, tp0) == Ok::<_, Error>(
                (syms@, g.param_map@, ctx.lifetimes as nat, ctx.type_params as nat),
            ));
        }
        // bound hoisting pass: each bound's introducer names are registered
        // just before it resolves
        let ghost m1 = g.param_map@;
        let ghost lt1 = ctx.lifetimes as nat;
        let ghost tp1 = ctx.type_params as nat;
        let mut hoisted: Vec<GenericConstraint> = Vec::new();
        proof {
            assert(ps.skip(0) =~= ps);
            assert(syms@.skip(0) =~= syms@);
            assert(crate::generics::view_seq_constraint(Seq::<
                crate::generics::GenericConstraint,
            >::empty()) =~= Seq::<GenericConstraintV>::empty());
            if hoist_spec(ps, syms@, m1, lt1) is Ok {
                assert(Seq::<GenericConstraintV>::empty() + hoist_spec(
                    ps,
                    syms@,
                    m1,
                    lt1,
                )->Ok_0.0 =~= hoist_spec(ps, syms@, m1, lt1)->Ok_0.0);
            }
        }
        let mut i3: usize = 0;
        while i3 < raw.params.len()
            invariant
                m0 == crate::generics::initial_param_map(),
                ps == crate::syntax::view_seq_raw_param(raw.params@),
                ps.len() == raw.params@.len(),
                syms@.len() == raw.params@.len(),
                lt0 == old(ctx).lifetimes as nat,
                tp0 == old(ctx).type_params as nat,
                preds_v == views_of_predicates(raw.predicates@),
                ctx.counters_wf(),
                ctx.type_params as nat == tp1,
                tp1 <= tp0 + raw.params@.len(),
                old(ctx).lifetimes <= ctx.lifetimes,
                old(ctx).type_params <= ctx.type_params,
                ctx.values == old(ctx).values,
                ctx.invokes == old(ctx).invokes,
                ctx.macros == old(ctx).macros,
                g.params@.len() == 0,
                g.constraints@.len() == 0,
                reg_params_spec(ps, m0, lt0, tp0) == Ok::<_, Error>((syms@, m1, lt1, tp1)),
                forall|j: int|
                    0 <= j < raw.params@.len() ==> ps[j] == crate::syntax::view_raw_param(
                        #[trigger] raw.params@[j],
                    ),
                forall|j: int|
                    0 <= j < raw.params@.len() ==> ((#[trigger] ps[j]) is Ty <==> syms@[j]
                        is Type) && (ps[j] is Life <==> syms@[j] is Lifetime) && !(ps[j]
                        is ConstParam),
                i3 <= raw.params@.len(),
                hoist_spec(ps, syms@, m1, lt1) == (match hoist_spec(
                    ps.skip(i3 as int),
                    syms@.skip(i3 as int),
                    g.param_map@,
                    ctx.lifetimes as nat,
                ) {
                    Ok((rest, mf, lf)) => Ok::<_, Error>(
                        (crate::generics::view_seq_constraint(hoisted@) + rest, mf, lf),
                    ),
                    Err(e) => Err(e),
                }),
            decreases raw.params@.len() - i3,
        {
            proof {
                assert(ps.skip(i3 as int)[0] == ps[i3 as int]);
                assert(ps.skip(i3 as int).drop_first() =~= ps.skip(i3 + 1));
                assert(syms@.skip(i3 as int)[0] == syms@[i3 as int]);
                assert(syms@.skip(i3 as int).drop_first() =~= syms@.skip(i3 + 1));
                crate::generics::lemma_view_seq_constraint(hoisted@);
            }
            let ghost pre_cs = crate::generics::view_seq_constraint(hoisted@);
            let ghost pre_m = g.param_map@;
            let ghost pre_lt = ctx.lifetimes as nat;
            let ghost mut head_seq: Seq<GenericConstraintV> = Seq::empty();
            match &raw.params[i3] {
                RawParam::Ty { bounds, .. } => {
                    proof {
                        crate::syntax::lemma_view_seq_raw_bound(bounds@);
                    }
                    if bounds.len() > 0 {
                        let mut names: Vec<String> = Vec::new();
                        collect_bounds(bounds, &mut names);
                        proof {
                            assert(crate::syntax::names_view(names@) =~= fl_seq_bound(
                                crate::syntax::view_seq_raw_bound(bounds@),
                            ));
                        }
                        match register_names(&mut g.param_map, ctx, &names) {
                            Ok(_) => {},
                            Err(e) => {
                                return Err(e);
                            },
                        }
                        match x_bounds(&g.param_map, bounds) {
                            Ok(bs) => {
                                let tp = match syms[i3] {
                                    GenericParam::Type(tp) => tp,
                                    _ => vstd::pervasive::unreached(),
                                };
                                let ghost pre = hoisted@;
                                hoisted.push(
                                    GenericConstraint::Type(
                                        PredicateType {
                                            lifetimes: Vec::new(),
                                            bounded_ty: Type(TypeNode::TypeParam(tp)),
                                            bounds: bs,
                                        },
                                    ),
                                );
                                proof {
                                    crate::generics::lemma_view_seq_constraint(hoisted@);
                                    head_seq = seq![
                                        crate::generics::view_constraint(
                                            hoisted@[pre.len() as int],
                                        ),
                                    ];
                                    assert(crate::generics::view_seq_constraint(hoisted@)
                                        =~= pre_cs + head_seq);
                                    assert(head_seq =~~= seq![
                                        GenericConstraintV::Type(
                                            PredicateTypeV {
                                                lifetimes: Seq::empty(),
                                                bounded_ty: TypeNodeV::TypeParam(
                                                    syms@[i3 as int]->Type_0,
                                                ),
                                                bounds: crate::generics::view_seq_bound(bs@),
                                            },
                                        ),
                                    ]);
                                }
                            },
                            Err(e) => {
                                return Err(e);
                            },
                        }
                    } else {
                        proof {
                            assert(crate::generics::view_seq_constraint(hoisted@) =~= pre_cs
                                + head_seq);
                        }
                    }
                },
                RawParam::Life { bounds, .. } => {
                    if bounds.len() > 0 {
                        match x_lives(&g.param_map, bounds) {
                            Ok(bs) => {
                                let lt = match syms[i3] {
                                    GenericParam::Lifetime(lt) => lt,
                                    _ => vstd::pervasive::unreached(),
                                };
                                let ghost pre = hoisted@;
                                hoisted.push(
                                    GenericConstraint::Lifetime(
                                        LifetimeDef { lifetime: lt, bounds: bs },
                                    ),
                                );
                                proof {
                                    crate::generics::lemma_view_seq_constraint(hoisted@);
                                    head_seq = seq![
                                        crate::generics::view_constraint(
                                            hoisted@[pre.len() as int],
                                        ),
                                    ];
                                    assert(crate::generics::view_seq_constraint(hoisted@)
                                        =~= pre_cs + head_seq);
                                    assert(head_seq =~~= seq![
                                        GenericConstraintV::Lifetime(
                                            LifetimeDefV {
                                                lifetime: syms@[i3 as int]->Lifetime_0,
                                                bounds: bs@,
                                            },
                                        ),
                                    ]);
                                }
                            },
                            Err(e) => {
                                return Err(e);
                            },
                        }
                    } else {
                        proof {
                            assert(crate::generics::view_seq_constraint(hoisted@) =~= pre_cs
                                + head_seq);
                        }
                    }
                },
                RawParam::ConstParam => {
                    vstd::pervasive::unreached::<()>();
                },
            }
            i3 = i3 + 1;
            proof {
                let tail = hoist_spec(
                    ps.skip(i3 as int),
                    syms@.skip(i3 as int),
                    g.param_map@,
                    ctx.lifetimes as nat,
                );
                assert(hoist_spec(ps.skip(i3 - 1), syms@.skip(i3 - 1), pre_m, pre_lt) == (
                match tail {
                    Ok((rest, mf, lf)) => Ok::<_, Error>((head_seq + rest, mf, lf)),
                    Err(e) => Err(e),
                }));
                if tail is Ok {
                    assert(pre_cs + (head_seq + tail->Ok_0.0) =~= (pre_cs + head_seq)
                        + tail->Ok_0.0);
                }
                assert(hoist_spec(ps, syms@, m1, lt1) == (match tail {
                    Ok((rest, mf, lf)) => Ok::<_, Error>(
                        (crate::generics::view_seq_constraint(hoisted@) + rest, mf, lf),
                    ),
                    Err(e) => Err(e),
                }));
            }
        }
        proof {
            assert(ps.skip(raw.params@.len() as int) =~= Seq::<RawParamV>::empty());
            assert(syms@.skip(raw.params@.len() as int) =~= Seq::<GenericParam>::empty());
            assert(crate::generics::view_seq_constraint(hoisted@) + Seq::<
                GenericConstraintV,
            >::empty() =~= crate::generics::view_seq_constraint(hoisted@));
            assert(hoist_spec(ps, syms@, m1, lt1) == Ok::<_, Error>(
                (
                    crate::generics::view_seq_constraint(hoisted@),
                    g.param_map@,
                    ctx.lifetimes as nat,
                ),
            ));
        }
        // where-clause pass: each predicate's introducer names are
        // registered just before it resolves
        let ghost m2 = g.param_map@;
        let ghost lt2 = ctx.lifetimes as nat;
        let mut extra: Vec<GenericConstraint> = Vec::new();
        proof {
            assert(preds_v.skip(0) =~= preds_v);
            if preds_intros_spec(preds_v, m2, lt2) is Ok {
                assert(Seq::<GenericConstraintV>::empty() + preds_intros_spec(
                    preds_v,
                    m2,
                    lt2,
                )->Ok_0.0 =~= preds_intros_spec(preds_v, m2, lt2)->Ok_0.0);
            }
        }
        let mut i4: usize = 0;
        while i4 < raw.predicates.len()
            invariant
                m0 == crate::generics::initial_param_map(),
                preds_v == views_of_predicates(raw.predicates@),
                preds_v.len() == raw.predicates@.len(),
                ps == crate::syntax::view_seq_raw_param(raw.params@),
                syms@.len() == raw.params@.len(),
                g.params@.len() == 0,
                g.constraints@.len() == 0,
                ctx.counters_wf(),
                lt0 == old(ctx).lifetimes as nat,
                tp0 == old(ctx).type_params as nat,
                ctx.type_params as nat == tp1,
                tp1 <= tp0 + raw.params@.len(),
                old(ctx).lifetimes <= ctx.lifetimes,
                old(ctx).type_params <= ctx.type_params,
                ctx.values == old(ctx).values,
                ctx.invokes == old(ctx).invokes,
                ctx.macros == old(ctx).macros,
                reg_params_spec(ps, m0, lt0, tp0) == Ok::<_, Error>((syms@, m1, lt1, tp1)),
                hoist_spec(ps, syms@, m1, lt1) == Ok::<_, Error>(
                    (crate::generics::view_seq_constraint(hoisted@), m2, lt2),
                ),
                forall|j: int|
                    0 <= j < raw.predicates@.len() ==> preds_v[j]
                        == crate::syntax::view_raw_predicate(#[trigger] raw.predicates@[j]),
                i4 <= raw.predicates@.len(),
                preds_intros_spec(preds_v, m2, lt2) == (match preds_intros_spec(
                    preds_v.skip(i4 as int),
                    g.param_map@,
                    ctx.lifetimes as nat,
                ) {
                    Ok((rest, mf, lf)) => Ok::<_, Error>(
                        (crate::generics::view_seq_constraint(extra@) + rest, mf, lf),
                    ),
                    Err(e) => Err(e),
                }),
            decreases raw.predicates@.len() - i4,
        {
            proof {
                assert(preds_v.skip(i4 as int)[0] == preds_v[i4 as int]);
                assert(preds_v.skip(i4 as int).drop_first() =~= preds_v.skip(i4 + 1));
                crate::generics::lemma_view_seq_constraint(extra@);
            }
            let ghost pre_cs = crate::generics::view_seq_constraint(extra@);
            match x_predicate_pub(&mut g.param_map, ctx, &raw.predicates[i4]) {
                Ok(c) => {
                    let ghost pre = extra@;
                    extra.push(c);
                    proof {
                        crate::generics::lemma_view_seq_constraint(extra@);
                        assert(crate::generics::view_seq_constraint(extra@) =~= pre_cs + seq![
                            crate::generics::view_constraint(extra@[pre.len() as int]),
                        ]);
                    }
                },
                Err(e) => {
                    return Err(e);
                },
            }
            i4 = i4 + 1;
            proof {
                let tail = preds_intros_spec(
                    preds_v.skip(i4 as int),
                    g.param_map@,
                    ctx.lifetimes as nat,
                );
                if tail is Ok {
                    assert(pre_cs + (seq![crate::generics::view_seq_constraint(extra@)[
                        extra@.len() - 1
                    ]] + tail->Ok_0.0) =~= crate::generics::view_seq_constraint(extra@)
                        + tail->Ok_0.0);
                }
                assert(preds_intros_spec(preds_v, m2, lt2) == (match tail {
                    Ok((rest, mf, lf)) => Ok::<_, Error>(
                        (crate::generics::view_seq_constraint(extra@) + rest, mf, lf),
                    ),
                    Err(e) => Err(e),
                }));
            }
        }
        proof {
            assert(preds_v.skip(raw.predicates@.len() as int) =~= Seq::<RawPredicateV>::empty());
            assert(crate::generics::view_seq_constraint(extra@) + Seq::<
                GenericConstraintV,
            >::empty() =~= crate::generics::view_seq_constraint(extra@));
            assert(preds_intros_spec(preds_v, m2, lt2) == Ok::<_, Error>(
                (crate::generics::view_seq_constraint(extra@), g.param_map@, ctx.lifetimes as nat),
            ));
        }
        // assemble
        let ghost hoisted_v = hoisted@;
        let ghost extra_v = extra@;
        let mut hoisted_in = hoisted;
        let mut extra_in = extra;
        g.params = syms;
        g.constraints.append(&mut hoisted_in);
        g.constraints.append(&mut extra_in);
        proof {
            assert(g.constraints@ =~= hoisted_v + extra_v);
            crate::generics::lemma_view_seq_constraint(g.constraints@);
            crate::generics::lemma_view_seq_constraint(hoisted_v);
            crate::generics::lemma_view_seq_constraint(extra_v);
            assert(crate::generics::view_seq_constraint(g.constraints@)
                =~= crate::generics::view_seq_constraint(hoisted_v)
                + crate::generics::view_seq_constraint(extra_v));
        }
        Ok(g)
    }
}

/// The mathematical values of a list of predicates.
pub open spec fn views_of_predicates(s: Seq<RawPredicate>) -> Seq<RawPredicateV>
    decreases s,
{
    if s.len() == 0 {
        Seq::empty()
    } else {
        seq![crate::syntax::view_raw_predicate(s[0])] + views_of_predicates(s.drop_first())
    }
}

pub proof fn lemma_views_of_predicates(s: Seq<RawPredicate>)
    ensures
        views_of_predicates(s).len() == s.len(),
        forall|i: int|
            0 <= i < s.len() ==> views_of_predicates(s)[i] == crate::syntax::view_raw_predicate(
                s[i],
            ),
    decreases s,
{
    if s.len() > 0 {
        lemma_views_of_predicates(s.drop_first());
    }
}


// ----------------------------------------------------------------------
// Bound-lifetime introducer lists (`for<'a, 'b>`): the names a declaration
// introduces, in order of appearance, and their registration as freshly
// minted lifetime symbols. The entry points register a declaration's
// introducer names before resolving it, in the same pre-registration style
// the parameter pass uses, so the pure resolution above can stay a function
// of one finished table.
// ----------------------------------------------------------------------

pub open spec fn fl_type(t: RawTypeV) -> Seq<Seq<char>>
    decreases t, 3int,
{
    match t {
        RawTypeV::Named(p) => fl_seq_seg(p.segs),
        RawTypeV::Ref { inner, .. } => fl_seq_type(inner),
        RawTypeV::Tup(ts) => fl_seq_type(ts),
        RawTypeV::Dyn(bounds) => fl_seq_bound(bounds),
        RawTypeV::Other => Seq::empty(),
    }
}

pub open spec fn fl_seq_type(s: Seq<RawTypeV>) -> Seq<Seq<char>>
    decreases s, 4int,
{
    if s.len() == 0 {
        Seq::empty()
    } else {
        fl_type(s[0]) + fl_seq_type(s.drop_first())
    }
}

pub open spec fn fl_bound(b: RawBoundV) -> Seq<Seq<char>>
    decreases b, 7int,
{
    match b {
        RawBoundV::Life(_) => Seq::empty(),
        RawBoundV::Trait { for_lifetimes, path } => for_lifetimes + fl_seq_seg(path.segs),
    }
}

pub open spec fn fl_seq_bound(s: Seq<RawBoundV>) -> Seq<Seq<char>>
    decreases s, 8int,
{
    if s.len() == 0 {
        Seq::empty()
    } else {
        fl_bound(s[0]) + fl_seq_bound(s.drop_first())
    }
}

pub open spec fn fl_arg(a: RawArgV) -> Seq<Seq<char>>
    decreases a, 5int,
{
    match a {
        RawArgV::Life(_) => Seq::empty(),
        RawArgV::Ty(t) => fl_type(t),
        RawArgV::Binding { ty, .. } => fl_type(ty),
        RawArgV::Constraint { bounds, .. } => fl_seq_bound(bounds),
        RawArgV::ConstArg => Seq::empty(),
    }
}

pub open spec fn fl_seq_arg(s: Seq<RawArgV>) -> Seq<Seq<char>>
    decreases s, 6int,
{
    if s.len() == 0 {
        Seq::empty()
    } else {
        fl_arg(s[0]) + fl_seq_arg(s.drop_first())
    }
}

pub open spec fn fl_seq_seg(s: Seq<RawSegV>) -> Seq<Seq<char>>
    decreases s, 2int,
{
    if s.len() == 0 {
        Seq::empty()
    } else {
        fl_seq_arg(s[0].args) + fl_seq_seg(s.drop_first())
    }
}

/// The introducer names of one predicate: its own list first, then those
/// nested in the bounded type and the bounds, left to right.
pub open spec fn fl_predicate(p: RawPredicateV) -> Seq<Seq<char>> {
    match p {
        RawPredicateV::Ty { for_lifetimes, ty, bounds } => {
            for_lifetimes + fl_type(ty) + fl_seq_bound(bounds)
        },
        RawPredicateV::Life { .. } => Seq::empty(),
        RawPredicateV::Eq => Seq::empty(),
    }
}

/// Registers introducer names in order: each gets a freshly minted lifetime
/// symbol, later occurrences of a name shadowing earlier ones. Minting is
/// refused once the counter is exhausted.
pub open spec fn reg_names_spec(
    names: Seq<Seq<char>>,
    m: Map<Seq<char>, GenericParam>,
    lt: nat,
) -> Result<(Map<Seq<char>, GenericParam>, nat), Error>
    decreases names.len(),
{
    if names.len() == 0 {
        Ok((m, lt))
    } else if lt >= usize::MAX {
        Err(Error::Unsupported)
    } else {
        reg_names_spec(
            names.drop_first(),
            m.insert(names[0], GenericParam::Lifetime(Lifetime(lt as usize))),
            lt + 1,
        )
    }
}

fn collect_type(t: &RawType, out: &mut Vec<String>)
    ensures
        crate::syntax::names_view(final(out)@) == crate::syntax::names_view(old(out)@) + fl_type(
            t@,
        ),
    decreases *t, 3int,
{
    match t {
        RawType::Named(p) => {
            collect_segs(&p.segs, out);
            proof {
                assert(t@ == RawTypeV::Named(crate::syntax::view_raw_path(*p)));
                assert(fl_type(t@) == fl_seq_seg(crate::syntax::view_seq_raw_seg(p.segs@)));
                assert(crate::syntax::names_view(final(out)@) =~= crate::syntax::names_view(
                    old(out)@,
                ) + fl_type(t@));
            }
        },
        RawType::Ref { inner, .. } => {
            collect_type(&**inner, out);
            proof {
                let iv = crate::syntax::view_raw_type(**inner);
                assert(seq![iv].drop_first() =~= Seq::<RawTypeV>::empty());
                assert(fl_seq_type(Seq::<RawTypeV>::empty()) == Seq::<Seq<char>>::empty());
                assert(fl_seq_type(seq![iv]) =~= fl_type(iv));
                assert(fl_type(t@) == fl_seq_type(seq![iv]));
                assert(crate::syntax::names_view(final(out)@) =~= crate::syntax::names_view(
                    old(out)@,
                ) + fl_type(t@));
            }
        },
        RawType::Tup(ts) => {
            proof {
                crate::syntax::lemma_view_seq_raw_type(ts@);
            }
            let ghost base = crate::syntax::names_view(out@);
            let mut i: usize = 0;
            while i < ts.len()
                invariant
                    *t == RawType::Tup(*ts),
                    i <= ts@.len(),
                    crate::syntax::view_seq_raw_type(ts@).len() == ts@.len(),
                    forall|j: int|
                        0 <= j < ts@.len() ==> crate::syntax::view_seq_raw_type(ts@)[j]
                            == crate::syntax::view_raw_type(#[trigger] ts@[j]),
                    crate::syntax::names_view(out@) == base + fl_seq_type(
                        crate::syntax::view_seq_raw_type(ts@).take(i as int),
                    ),
                decreases ts@.len() - i,
            {
                proof {
                    assert(decreases_to!(*t => (*t)->Tup_0));
                    assert((*t)->Tup_0 == *ts);
                    assert(decreases_to!(*ts => ts@[i as int]));
                }
                collect_type(&ts[i], out);
                i = i + 1;
                proof {
                    let vs = crate::syntax::view_seq_raw_type(ts@);
                    lemma_fl_seq_type_push(vs.take(i - 1), vs[i - 1]);
                    assert(vs.take(i as int) =~= vs.take(i - 1).push(vs[i - 1]));
                    assert(crate::syntax::names_view(out@) =~= base + fl_seq_type(
                        vs.take(i as int),
                    ));
                }
            }
            proof {
                let vs = crate::syntax::view_seq_raw_type(ts@);
                assert(vs.take(ts@.len() as int) =~= vs);
                assert(crate::syntax::names_view(out@) =~= crate::syntax::names_view(old(out)@)
                    + fl_type(t@));
            }
        },
        RawType::Dyn(bounds) => {
            collect_bounds(bounds, out);
            proof {
                assert(fl_type(t@) == fl_seq_bound(crate::syntax::view_seq_raw_bound(bounds@)));
                assert(crate::syntax::names_view(final(out)@) =~= crate::syntax::names_view(
                    old(out)@,
                ) + fl_type(t@));
            }
        },
        RawType::Other => {
            proof {
                assert(crate::syntax::names_view(out@) =~= crate::syntax::names_view(old(out)@)
                    + fl_type(t@));
            }
        },
    }
}

proof fn lemma_fl_seq_type_push(s: Seq<RawTypeV>, x: RawTypeV)
    ensures
        fl_seq_type(s.push(x)) == fl_seq_type(s) + fl_type(x),
    decreases s,
{
    if s.len() == 0 {
        assert(s.push(x) =~= seq![x]);
        assert(s.push(x).drop_first() =~= Seq::<RawTypeV>::empty());
        assert(fl_seq_type(Seq::<RawTypeV>::empty()) == Seq::<Seq<char>>::empty());
        assert(fl_seq_type(s) == Seq::<Seq<char>>::empty());
        assert(fl_seq_type(s.push(x)) =~= fl_seq_type(s) + fl_type(x));
    } else {
        lemma_fl_seq_type_push(s.drop_first(), x);
        assert(s.push(x).drop_first() =~= s.drop_first().push(x));
        assert(s.push(x)[0] == s[0]);
        assert(fl_seq_type(s.push(x)) =~= fl_seq_type(s) + fl_type(x));
    }
}

proof fn lemma_fl_seq_bound_push(s: Seq<RawBoundV>, x: RawBoundV)
    ensures
        fl_seq_bound(s.push(x)) == fl_seq_bound(s) + fl_bound(x),
    decreases s,
{
    if s.len() == 0 {
        assert(s.push(x) =~= seq![x]);
        assert(s.push(x).drop_first() =~= Seq::<RawBoundV>::empty());
        assert(fl_seq_bound(Seq::<RawBoundV>::empty()) == Seq::<Seq<char>>::empty());
        assert(fl_seq_bound(s) == Seq::<Seq<char>>::empty());
        assert(fl_seq_bound(s.push(x)) =~= fl_seq_bound(s) + fl_bound(x));
    } else {
        lemma_fl_seq_bound_push(s.drop_first(), x);
        assert(s.push(x).drop_first() =~= s.drop_first().push(x));
        assert(s.push(x)[0] == s[0]);
        assert(fl_seq_bound(s.push(x)) =~= fl_seq_bound(s) + fl_bound(x));
    }
}

proof fn lemma_fl_seq_arg_push(s: Seq<RawArgV>, x: RawArgV)
    ensures
        fl_seq_arg(s.push(x)) == fl_seq_arg(s) + fl_arg(x),
    decreases s,
{
    if s.len() == 0 {
        assert(s.push(x) =~= seq![x]);
        assert(s.push(x).drop_first() =~= Seq::<RawArgV>::empty());
        assert(fl_seq_arg(Seq::<RawArgV>::empty()) == Seq::<Seq<char>>::empty());
        assert(fl_seq_arg(s) == Seq::<Seq<char>>::empty());
        assert(fl_seq_arg(s.push(x)) =~= fl_seq_arg(s) + fl_arg(x));
    } else {
        lemma_fl_seq_arg_push(s.drop_first(), x);
        assert(s.push(x).drop_first() =~= s.drop_first().push(x));
        assert(s.push(x)[0] == s[0]);
        assert(fl_seq_arg(s.push(x)) =~= fl_seq_arg(s) + fl_arg(x));
    }
}

proof fn lemma_fl_seq_seg_push(s: Seq<RawSegV>, x: RawSegV)
    ensures
        fl_seq_seg(s.push(x)) == fl_seq_seg(s) + fl_seq_arg(x.args),
    decreases s,
{
    if s.len() == 0 {
        assert(s.push(x) =~= seq![x]);
        assert(s.push(x).drop_first() =~= Seq::<RawSegV>::empty());
        assert(fl_seq_seg(Seq::<RawSegV>::empty()) == Seq::<Seq<char>>::empty());
        assert(fl_seq_seg(s) == Seq::<Seq<char>>::empty());
        assert(fl_seq_seg(s.push(x)) =~= fl_seq_seg(s) + fl_seq_arg(x.args));
    } else {
        lemma_fl_seq_seg_push(s.drop_first(), x);
        assert(s.push(x).drop_first() =~= s.drop_first().push(x));
        assert(s.push(x)[0] == s[0]);
        assert(fl_seq_seg(s.push(x)) =~= fl_seq_seg(s) + fl_seq_arg(x.args));
    }
}

fn collect_bound(b: &RawBound, out: &mut Vec<String>)
    ensures
        crate::syntax::names_view(final(out)@) == crate::syntax::names_view(old(out)@) + fl_bound(
            crate::syntax::view_raw_bound(*b),
        ),
    decreases *b, 7int,
{
    match b {
        RawBound::Life(_) => {
            proof {
                assert(crate::syntax::names_view(out@) =~= crate::syntax::names_view(old(out)@)
                    + fl_bound(crate::syntax::view_raw_bound(*b)));
            }
        },
        RawBound::Trait { for_lifetimes, path } => {
            let ghost base = crate::syntax::names_view(out@);
            let mut i: usize = 0;
            while i < for_lifetimes.len()
                invariant
                    i <= for_lifetimes@.len(),
                    crate::syntax::names_view(out@) == base + crate::syntax::names_view(
                        for_lifetimes@,
                    ).take(i as int),
                decreases for_lifetimes@.len() - i,
            {
                let n = for_lifetimes[i].clone();
                let ghost pre_out = out@;
                out.push(n);
                i = i + 1;
                proof {
                    let fv = crate::syntax::names_view(for_lifetimes@);
                    assert(fv.take(i as int) =~= fv.take(i - 1).push(fv[i - 1]));
                    assert(crate::syntax::names_view(out@) =~= crate::syntax::names_view(
                        pre_out,
                    ).push(fv[i - 1]));
                    assert(crate::syntax::names_view(out@) =~= base + fv.take(i as int));
                }
            }
            proof {
                assert(crate::syntax::names_view(for_lifetimes@).take(for_lifetimes@.len() as int)
                    =~= crate::syntax::names_view(for_lifetimes@));
            }
            collect_segs(&path.segs, out);
            proof {
                assert(crate::syntax::names_view(final(out)@) =~= crate::syntax::names_view(
                    old(out)@,
                ) + fl_bound(crate::syntax::view_raw_bound(*b)));
            }
        },
    }
}

fn collect_bounds(v: &Vec<RawBound>, out: &mut Vec<String>)
    ensures
        crate::syntax::names_view(final(out)@) == crate::syntax::names_view(old(out)@)
            + fl_seq_bound(crate::syntax::view_seq_raw_bound(v@)),
    decreases v@, 8int,
{
    proof {
        crate::syntax::lemma_view_seq_raw_bound(v@);
    }
    let ghost base = crate::syntax::names_view(out@);
    let mut i: usize = 0;
    while i < v.len()
        invariant
            i <= v@.len(),
            crate::syntax::view_seq_raw_bound(v@).len() == v@.len(),
            forall|j: int|
                0 <= j < v@.len() ==> crate::syntax::view_seq_raw_bound(v@)[j]
                    == crate::syntax::view_raw_bound(#[trigger] v@[j]),
            crate::syntax::names_view(out@) == base + fl_seq_bound(
                crate::syntax::view_seq_raw_bound(v@).take(i as int),
            ),
        decreases v@.len() - i,
    {
        collect_bound(&v[i], out);
        i = i + 1;
        proof {
            let vs = crate::syntax::view_seq_raw_bound(v@);
            lemma_fl_seq_bound_push(vs.take(i - 1), vs[i - 1]);
            assert(vs.take(i as int) =~= vs.take(i - 1).push(vs[i - 1]));
            assert(crate::syntax::names_view(out@) =~= base + fl_seq_bound(vs.take(i as int)));
        }
    }
    proof {
        let vs = crate::syntax::view_seq_raw_bound(v@);
        assert(vs.take(v@.len() as int) =~= vs);
    }
}

fn collect_arg(a: &RawArg, out: &mut Vec<String>)
    ensures
        crate::syntax::names_view(final(out)@) == crate::syntax::names_view(old(out)@) + fl_arg(
            crate::syntax::view_raw_arg(*a),
        ),
    decreases *a, 5int,
{
    match a {
        RawArg::Ty(t) => {
            collect_type(t, out);
        },
        RawArg::Binding { ty, .. } => {
            collect_type(ty, out);
        },
        RawArg::Constraint { bounds, .. } => {
            collect_bounds(bounds, out);
        },
        _ => {
            proof {
                assert(crate::syntax::names_view(out@) =~= crate::syntax::names_view(old(out)@)
                    + fl_arg(crate::syntax::view_raw_arg(*a)));
            }
        },
    }
}

fn collect_segs(v: &Vec<RawSeg>, out: &mut Vec<String>)
    ensures
        crate::syntax::names_view(final(out)@) == crate::syntax::names_view(old(out)@)
            + fl_seq_seg(crate::syntax::view_seq_raw_seg(v@)),
    decreases v@, 2int,
{
    proof {
        crate::syntax::lemma_view_seq_raw_seg(v@);
    }
    let ghost base = crate::syntax::names_view(out@);
    let mut i: usize = 0;
    while i < v.len()
        invariant
            i <= v@.len(),
            crate::syntax::view_seq_raw_seg(v@).len() == v@.len(),
            forall|j: int|
                0 <= j < v@.len() ==> crate::syntax::view_seq_raw_seg(v@)[j]
                    == crate::syntax::view_raw_seg(#[trigger] v@[j]),
            crate::syntax::names_view(out@) == base + fl_seq_seg(
                crate::syntax::view_seq_raw_seg(v@).take(i as int),
            ),
        decreases v@.len() - i,
    {
        proof {
            assert(decreases_to!(v@ => v@[i as int]));
        }
        let ghost pre = crate::syntax::names_view(out@);
        let seg = &v[i];
        let mut j: usize = 0;
        proof {
            crate::syntax::lemma_view_seq_raw_arg(seg.args@);
        }
        while j < seg.args.len()
            invariant
                i < v@.len(),
                seg == &v@[i as int],
                j <= seg.args@.len(),
                crate::syntax::view_seq_raw_arg(seg.args@).len() == seg.args@.len(),
                forall|k: int|
                    0 <= k < seg.args@.len() ==> crate::syntax::view_seq_raw_arg(seg.args@)[k]
                        == crate::syntax::view_raw_arg(#[trigger] seg.args@[k]),
                crate::syntax::names_view(out@) == pre + fl_seq_arg(
                    crate::syntax::view_seq_raw_arg(seg.args@).take(j as int),
                ),
            decreases seg.args@.len() - j,
        {
            proof {
                assert(decreases_to!(v@[i as int] => v@[i as int].args));
                assert(decreases_to!(v@[i as int].args => seg.args@[j as int]));
            }
            collect_arg(&seg.args[j], out);
            j = j + 1;
            proof {
                let vs = crate::syntax::view_seq_raw_arg(seg.args@);
                lemma_fl_seq_arg_push(vs.take(j - 1), vs[j - 1]);
                assert(vs.take(j as int) =~= vs.take(j - 1).push(vs[j - 1]));
                assert(crate::syntax::names_view(out@) =~= pre + fl_seq_arg(vs.take(j as int)));
            }
        }
        i = i + 1;
        proof {
            let vas = crate::syntax::view_seq_raw_arg(seg.args@);
            assert(vas.take(seg.args@.len() as int) =~= vas);
            let vs = crate::syntax::view_seq_raw_seg(v@);
            lemma_fl_seq_seg_push(vs.take(i - 1), vs[i - 1]);
            assert(vs.take(i as int) =~= vs.take(i - 1).push(vs[i - 1]));
            assert(vs[i - 1].args == vas);
            assert(crate::syntax::names_view(out@) =~= base + fl_seq_seg(vs.take(i as int)));
        }
    }
    proof {
        let vs = crate::syntax::view_seq_raw_seg(v@);
        assert(vs.take(v@.len() as int) =~= vs);
    }
}

/// The introducer names of one predicate, in order of appearance.
fn collect_predicate(p: &RawPredicate, out: &mut Vec<String>)
    ensures
        crate::syntax::names_view(final(out)@) == crate::syntax::names_view(old(out)@)
            + fl_predicate(crate::syntax::view_raw_predicate(*p)),
{
    match p {
        RawPredicate::Ty { for_lifetimes, ty, bounds } => {
            let ghost base = crate::syntax::names_view(out@);
            let mut i: usize = 0;
            while i < for_lifetimes.len()
                invariant
                    i <= for_lifetimes@.len(),
                    crate::syntax::names_view(out@) == base + crate::syntax::names_view(
                        for_lifetimes@,
                    ).take(i as int),
                decreases for_lifetimes@.len() - i,
            {
                let n = for_lifetimes[i].clone();
                let ghost pre_out = out@;
                out.push(n);
                i = i + 1;
                proof {
                    let fv = crate::syntax::names_view(for_lifetimes@);
                    assert(fv.take(i as int) =~= fv.take(i - 1).push(fv[i - 1]));
                    assert(crate::syntax::names_view(out@) =~= crate::syntax::names_view(
                        pre_out,
                    ).push(fv[i - 1]));
                    assert(crate::syntax::names_view(out@) =~= base + fv.take(i as int));
                }
            }
            proof {
                assert(crate::syntax::names_view(for_lifetimes@).take(for_lifetimes@.len() as int)
                    =~= crate::syntax::names_view(for_lifetimes@));
            }
            collect_type(ty, out);
            collect_bounds(bounds, out);
            proof {
                assert(crate::syntax::names_view(final(out)@) =~= crate::syntax::names_view(
                    old(out)@,
                ) + fl_predicate(crate::syntax::view_raw_predicate(*p)));
            }
        },
        _ => {
            proof {
                assert(crate::syntax::names_view(out@) =~= crate::syntax::names_view(old(out)@)
                    + fl_predicate(crate::syntax::view_raw_predicate(*p)));
            }
        },
    }
}

/// Registers collected introducer names: each is bound in `map` to a
/// lifetime symbol freshly minted from the arena's counter. An exhausted
/// counter is refused.
fn register_names(map: &mut SynParamMap, ctx: &mut crate::arena::Arena, names: &Vec<String>) -> (r:
    Result<(), Error>)
    requires
        old(ctx).counters_wf(),
    ensures
        final(ctx).counters_wf(),
        old(ctx).lifetimes <= final(ctx).lifetimes,
        final(ctx).type_params == old(ctx).type_params,
        final(ctx).values == old(ctx).values,
        final(ctx).invokes == old(ctx).invokes,
        final(ctx).macros == old(ctx).macros,
        match r {
            Ok(_) => reg_names_spec(
                crate::syntax::names_view(names@),
                old(map)@,
                old(ctx).lifetimes as nat,
            ) == Ok::<_, Error>((final(map)@, final(ctx).lifetimes as nat)),
            Err(e) => reg_names_spec(
                crate::syntax::names_view(names@),
                old(map)@,
                old(ctx).lifetimes as nat,
            ) == Err::<(Map<Seq<char>, GenericParam>, nat), _>(e),
        },
{
    let ghost nv = crate::syntax::names_view(names@);
    proof {
        assert(nv.skip(0) =~= nv);
    }
    let mut i: usize = 0;
    while i < names.len()
        invariant
            i <= names@.len(),
            nv == crate::syntax::names_view(names@),
            nv.len() == names@.len(),
            forall|j: int| 0 <= j < names@.len() ==> nv[j] == (#[trigger] names@[j])@,
            ctx.counters_wf(),
            old(ctx).lifetimes <= ctx.lifetimes,
            ctx.type_params == old(ctx).type_params,
            ctx.values == old(ctx).values,
            ctx.invokes == old(ctx).invokes,
            ctx.macros == old(ctx).macros,
            reg_names_spec(nv, old(map)@, old(ctx).lifetimes as nat) == reg_names_spec(
                nv.skip(i as int),
                map@,
                ctx.lifetimes as nat,
            ),
        decreases names@.len() - i,
    {
        proof {
            assert(nv.skip(i as int)[0] == nv[i as int]);
            assert(nv.skip(i as int).drop_first() =~= nv.skip(i + 1));
        }
        if ctx.lifetimes >= usize::MAX {
            return Err(Error::Unsupported);
        }
        let n = ctx.mint_lifetime();
        map.insert(names[i].as_str(), GenericParam::Lifetime(Lifetime(n)));
        i = i + 1;
    }
    proof {
        assert(nv.skip(names@.len() as int) =~= Seq::<Seq<char>>::empty());
    }
    Ok(())
}

} // verus!
