//! The mathematical side of fresh-generics renaming: what a substitution map
//! does to every node kind, when it is defined, and which symbols a node
//! mentions.
//!
//! Substitution is stated over the mathematical values (the `..V` twins);
//! the executable clone walks in the other modules are proved against these
//! functions.

use vstd::prelude::*;

use crate::generics::GenericConstraintV;
use crate::generics::GenericArgumentV;
use crate::generics::GenericParam;
use crate::generics::GenericsV;
use crate::generics::Lifetime;
use crate::generics::LifetimeDefV;
use crate::generics::PredicateTypeV;
use crate::generics::TraitBoundV;
use crate::generics::TypeParamBoundV;
use crate::generics::static_lifetime;
use crate::path::PathSegmentV;
use crate::path::PathV;
use crate::ty::TypeNodeV;

verus! {

/// The substitution maps `p`, keeping its kind.
pub open spec fn map_has_kind(m: Map<GenericParam, GenericParam>, p: GenericParam) -> bool {
    &&& m.contains_key(p)
    &&& (p is Lifetime ==> m[p] is Lifetime)
    &&& (p is Type ==> m[p] is Type)
    &&& !(p is Const)
}

pub open spec fn ok_lt(m: Map<GenericParam, GenericParam>, l: Lifetime) -> bool {
    map_has_kind(m, GenericParam::Lifetime(l))
}

pub open spec fn sub_lt(m: Map<GenericParam, GenericParam>, l: Lifetime) -> Lifetime {
    m[GenericParam::Lifetime(l)]->Lifetime_0
}

pub open spec fn ok_seq_lt(m: Map<GenericParam, GenericParam>, s: Seq<Lifetime>) -> bool {
    forall|i: int| 0 <= i < s.len() ==> ok_lt(m, #[trigger] s[i])
}

pub open spec fn sub_seq_lt(m: Map<GenericParam, GenericParam>, s: Seq<Lifetime>) -> Seq<
    Lifetime,
> {
    s.map_values(|l: Lifetime| sub_lt(m, l))
}

/// Whether substituting through a type is defined: every mentioned symbol is
/// mapped with its kind kept, and no data-structure type stands inside (a
/// definition is renamed before its shape is filled in).
pub open spec fn ok_type(m: Map<GenericParam, GenericParam>, t: TypeNodeV) -> bool
    decreases t,
{
    match t {
        TypeNodeV::Infer => true,
        TypeNodeV::Tuple(ts) => ok_seq_type(m, ts),
        TypeNodeV::PrimitiveStr => true,
        TypeNodeV::Reference { lifetime, inner, .. } => {
            &&& match lifetime {
                Some(l) => ok_lt(m, l),
                None => true,
            }
            &&& ok_seq_type(m, inner)
        },
        TypeNodeV::Dereference(inner) => ok_seq_type(m, inner),
        TypeNodeV::TraitObject(bounds) => ok_seq_bound(m, bounds),
        TypeNodeV::DataStructure { .. } => false,
        TypeNodeV::Path(p) => ok_path(m, p),
        TypeNodeV::TypeParam(tp) => map_has_kind(m, GenericParam::Type(tp)),
    }
}

pub open spec fn ok_seq_type(m: Map<GenericParam, GenericParam>, s: Seq<TypeNodeV>) -> bool
    decreases s,
{
    if s.len() == 0 {
        true
    } else {
        ok_type(m, s[0]) && ok_seq_type(m, s.drop_first())
    }
}

pub open spec fn sub_type(m: Map<GenericParam, GenericParam>, t: TypeNodeV) -> TypeNodeV
    decreases t,
{
    match t {
        TypeNodeV::Infer => TypeNodeV::Infer,
        TypeNodeV::Tuple(ts) => TypeNodeV::Tuple(sub_seq_type(m, ts)),
        TypeNodeV::PrimitiveStr => TypeNodeV::PrimitiveStr,
        TypeNodeV::Reference { is_mut, lifetime, inner } => TypeNodeV::Reference {
            is_mut,
            lifetime: match lifetime {
                Some(l) => Some(sub_lt(m, l)),
                None => None,
            },
            inner: sub_seq_type(m, inner),
        },
        TypeNodeV::Dereference(inner) => TypeNodeV::Dereference(sub_seq_type(m, inner)),
        TypeNodeV::TraitObject(bounds) => TypeNodeV::TraitObject(sub_seq_bound(m, bounds)),
        TypeNodeV::DataStructure { .. } => t,
        TypeNodeV::Path(p) => TypeNodeV::Path(sub_path(m, p)),
        TypeNodeV::TypeParam(tp) => TypeNodeV::TypeParam(
            m[GenericParam::Type(tp)]->Type_0,
        ),
    }
}

pub open spec fn sub_seq_type(m: Map<GenericParam, GenericParam>, s: Seq<TypeNodeV>) -> Seq<
    TypeNodeV,
>
    decreases s,
{
    if s.len() == 0 {
        Seq::empty()
    } else {
        seq![sub_type(m, s[0])] + sub_seq_type(m, s.drop_first())
    }
}

pub open spec fn ok_bound(m: Map<GenericParam, GenericParam>, b: TypeParamBoundV) -> bool
    decreases b,
{
    match b {
        TypeParamBoundV::Trait(tb) => ok_seq_lt(m, tb.lifetimes) && ok_path(m, tb.path),
        TypeParamBoundV::Lifetime(l) => ok_lt(m, l),
    }
}

pub open spec fn ok_seq_bound(m: Map<GenericParam, GenericParam>, s: Seq<TypeParamBoundV>) -> bool
    decreases s,
{
    if s.len() == 0 {
        true
    } else {
        ok_bound(m, s[0]) && ok_seq_bound(m, s.drop_first())
    }
}

pub open spec fn sub_bound(m: Map<GenericParam, GenericParam>, b: TypeParamBoundV) -> TypeParamBoundV
    decreases b,
{
    match b {
        TypeParamBoundV::Trait(tb) => TypeParamBoundV::Trait(
            TraitBoundV { lifetimes: sub_seq_lt(m, tb.lifetimes), path: sub_path(m, tb.path) },
        ),
        TypeParamBoundV::Lifetime(l) => TypeParamBoundV::Lifetime(sub_lt(m, l)),
    }
}

pub open spec fn sub_seq_bound(m: Map<GenericParam, GenericParam>, s: Seq<TypeParamBoundV>) -> Seq<
    TypeParamBoundV,
>
    decreases s,
{
    if s.len() == 0 {
        Seq::empty()
    } else {
        seq![sub_bound(m, s[0])] + sub_seq_bound(m, s.drop_first())
    }
}

pub open spec fn ok_arg(m: Map<GenericParam, GenericParam>, a: GenericArgumentV) -> bool
    decreases a,
{
    match a {
        GenericArgumentV::Type(t) => ok_type(m, t),
        GenericArgumentV::Lifetime(l) => ok_lt(m, l),
        GenericArgumentV::Binding { ty, .. } => ok_type(m, ty),
        GenericArgumentV::Constraint { bounds, .. } => ok_seq_bound(m, bounds),
        GenericArgumentV::Const => false,
    }
}

pub open spec fn ok_seq_arg(m: Map<GenericParam, GenericParam>, s: Seq<GenericArgumentV>) -> bool
    decreases s,
{
    if s.len() == 0 {
        true
    } else {
        ok_arg(m, s[0]) && ok_seq_arg(m, s.drop_first())
    }
}

pub open spec fn sub_arg(m: Map<GenericParam, GenericParam>, a: GenericArgumentV) -> GenericArgumentV
    decreases a,
{
    match a {
        GenericArgumentV::Type(t) => GenericArgumentV::Type(sub_type(m, t)),
        GenericArgumentV::Lifetime(l) => GenericArgumentV::Lifetime(sub_lt(m, l)),
        GenericArgumentV::Binding { ident, ty } => GenericArgumentV::Binding {
            ident,
            ty: sub_type(m, ty),
        },
        GenericArgumentV::Constraint { ident, bounds } => GenericArgumentV::Constraint {
            ident,
            bounds: sub_seq_bound(m, bounds),
        },
        GenericArgumentV::Const => a,
    }
}

pub open spec fn sub_seq_arg(m: Map<GenericParam, GenericParam>, s: Seq<GenericArgumentV>) -> Seq<
    GenericArgumentV,
>
    decreases s,
{
    if s.len() == 0 {
        Seq::empty()
    } else {
        seq![sub_arg(m, s[0])] + sub_seq_arg(m, s.drop_first())
    }
}

pub open spec fn ok_seq_seg(m: Map<GenericParam, GenericParam>, s: Seq<PathSegmentV>) -> bool
    decreases s,
{
    if s.len() == 0 {
        true
    } else {
        ok_seq_arg(m, s[0].args) && ok_seq_seg(m, s.drop_first())
    }
}

pub open spec fn sub_seq_seg(m: Map<GenericParam, GenericParam>, s: Seq<PathSegmentV>) -> Seq<
    PathSegmentV,
>
    decreases s,
{
    if s.len() == 0 {
        Seq::empty()
    } else {
        seq![PathSegmentV { ident: s[0].ident, args: sub_seq_arg(m, s[0].args) }] + sub_seq_seg(
            m,
            s.drop_first(),
        )
    }
}

pub open spec fn ok_path(m: Map<GenericParam, GenericParam>, p: PathV) -> bool
    decreases p,
{
    ok_seq_seg(m, p.segs)
}

pub open spec fn sub_path(m: Map<GenericParam, GenericParam>, p: PathV) -> PathV
    decreases p,
{
    PathV { global: p.global, segs: sub_seq_seg(m, p.segs) }
}

pub open spec fn ok_constraint(m: Map<GenericParam, GenericParam>, c: GenericConstraintV) -> bool
    decreases c,
{
    match c {
        GenericConstraintV::Type(p) => {
            &&& ok_seq_lt(m, p.lifetimes)
            &&& ok_type(m, p.bounded_ty)
            &&& ok_seq_bound(m, p.bounds)
        },
        GenericConstraintV::Lifetime(ld) => ok_lt(m, ld.lifetime) && ok_seq_lt(m, ld.bounds),
    }
}

pub open spec fn ok_seq_constraint(
    m: Map<GenericParam, GenericParam>,
    s: Seq<GenericConstraintV>,
) -> bool
    decreases s,
{
    if s.len() == 0 {
        true
    } else {
        ok_constraint(m, s[0]) && ok_seq_constraint(m, s.drop_first())
    }
}

pub open spec fn sub_constraint(
    m: Map<GenericParam, GenericParam>,
    c: GenericConstraintV,
) -> GenericConstraintV
    decreases c,
{
    match c {
        GenericConstraintV::Type(p) => GenericConstraintV::Type(
            PredicateTypeV {
                lifetimes: sub_seq_lt(m, p.lifetimes),
                bounded_ty: sub_type(m, p.bounded_ty),
                bounds: sub_seq_bound(m, p.bounds),
            },
        ),
        GenericConstraintV::Lifetime(ld) => GenericConstraintV::Lifetime(
            LifetimeDefV { lifetime: sub_lt(m, ld.lifetime), bounds: sub_seq_lt(m, ld.bounds) },
        ),
    }
}

pub open spec fn sub_seq_constraint(
    m: Map<GenericParam, GenericParam>,
    s: Seq<GenericConstraintV>,
) -> Seq<GenericConstraintV>
    decreases s,
{
    if s.len() == 0 {
        Seq::empty()
    } else {
        seq![sub_constraint(m, s[0])] + sub_seq_constraint(m, s.drop_first())
    }
}

/// The renamed lookup table: each name whose symbol the substitution maps
/// keeps its binding, renamed; every other name is dropped; the well-known
/// `'static` lifetime is seeded as always.
pub open spec fn sub_table(
    t: Map<Seq<char>, GenericParam>,
    m: Map<GenericParam, GenericParam>,
) -> Map<Seq<char>, GenericParam> {
    crate::generics::initial_param_map().union_prefer_right(
        Map::new(|k: Seq<char>| t.contains_key(k) && m.contains_key(t[k]), |k: Seq<char>| m[t[k]]),
    )
}

// ----------------------------------------------------------------------
// Which symbols a node mentions.
// ----------------------------------------------------------------------

pub open spec fn seq_lt_mentions(s: Seq<Lifetime>, p: GenericParam) -> bool {
    exists|i: int| 0 <= i < s.len() && p == GenericParam::Lifetime(s[i])
}

/// True where `t` mentions the symbol `p`. A data-structure type is treated
/// conservatively as mentioning every symbol: substitution through one is
/// never defined.
pub open spec fn type_mentions(t: TypeNodeV, p: GenericParam) -> bool
    decreases t,
{
    match t {
        TypeNodeV::Infer => false,
        TypeNodeV::Tuple(ts) => seq_type_mentions(ts, p),
        TypeNodeV::PrimitiveStr => false,
        TypeNodeV::Reference { lifetime, inner, .. } => {
            ||| (match lifetime {
                Some(l) => p == GenericParam::Lifetime(l),
                None => false,
            })
            ||| seq_type_mentions(inner, p)
        },
        TypeNodeV::Dereference(inner) => seq_type_mentions(inner, p),
        TypeNodeV::TraitObject(bounds) => seq_bound_mentions(bounds, p),
        TypeNodeV::DataStructure { .. } => true,
        TypeNodeV::Path(pt) => seq_seg_mentions(pt.segs, p),
        TypeNodeV::TypeParam(tp) => p == GenericParam::Type(tp),
    }
}

pub open spec fn seq_type_mentions(s: Seq<TypeNodeV>, p: GenericParam) -> bool
    decreases s,
{
    if s.len() == 0 {
        false
    } else {
        type_mentions(s[0], p) || seq_type_mentions(s.drop_first(), p)
    }
}

pub open spec fn bound_mentions(b: TypeParamBoundV, p: GenericParam) -> bool
    decreases b,
{
    match b {
        TypeParamBoundV::Trait(tb) => {
            seq_lt_mentions(tb.lifetimes, p) || seq_seg_mentions(tb.path.segs, p)
        },
        TypeParamBoundV::Lifetime(l) => p == GenericParam::Lifetime(l),
    }
}

pub open spec fn seq_bound_mentions(s: Seq<TypeParamBoundV>, p: GenericParam) -> bool
    decreases s,
{
    if s.len() == 0 {
        false
    } else {
        bound_mentions(s[0], p) || seq_bound_mentions(s.drop_first(), p)
    }
}

/// A `Const` argument is treated conservatively as mentioning every symbol:
/// substitution through one is never defined.
pub open spec fn arg_mentions(a: GenericArgumentV, p: GenericParam) -> bool
    decreases a,
{
    match a {
        GenericArgumentV::Type(t) => type_mentions(t, p),
        GenericArgumentV::Lifetime(l) => p == GenericParam::Lifetime(l),
        GenericArgumentV::Binding { ty, .. } => type_mentions(ty, p),
        GenericArgumentV::Constraint { bounds, .. } => seq_bound_mentions(bounds, p),
        GenericArgumentV::Const => true,
    }
}

pub open spec fn seq_arg_mentions(s: Seq<GenericArgumentV>, p: GenericParam) -> bool
    decreases s,
{
    if s.len() == 0 {
        false
    } else {
        arg_mentions(s[0], p) || seq_arg_mentions(s.drop_first(), p)
    }
}

pub open spec fn seq_seg_mentions(s: Seq<PathSegmentV>, p: GenericParam) -> bool
    decreases s,
{
    if s.len() == 0 {
        false
    } else {
        seq_arg_mentions(s[0].args, p) || seq_seg_mentions(s.drop_first(), p)
    }
}

pub open spec fn constraint_mentions(c: GenericConstraintV, p: GenericParam) -> bool
    decreases c,
{
    match c {
        GenericConstraintV::Type(pt) => {
            ||| seq_lt_mentions(pt.lifetimes, p)
            ||| type_mentions(pt.bounded_ty, p)
            ||| seq_bound_mentions(pt.bounds, p)
        },
        GenericConstraintV::Lifetime(ld) => {
            p == GenericParam::Lifetime(ld.lifetime) || seq_lt_mentions(ld.bounds, p)
        },
    }
}

pub open spec fn seq_constraint_mentions(s: Seq<GenericConstraintV>, p: GenericParam) -> bool
    decreases s,
{
    if s.len() == 0 {
        false
    } else {
        constraint_mentions(s[0], p) || seq_constraint_mentions(s.drop_first(), p)
    }
}

/// True where the generic definition mentions `p` anywhere: among its
/// declared parameters, in a constraint, or as a binding of its lookup
/// table.
pub open spec fn generics_mentions(g: GenericsV, p: GenericParam) -> bool {
    ||| g.params.contains(p)
    ||| seq_constraint_mentions(g.constraints, p)
    ||| exists|k: Seq<char>| #[trigger] g.param_map.contains_key(k) && g.param_map[k] == p
}


// ----------------------------------------------------------------------
// Pointwise characterizations of the list forms.
// ----------------------------------------------------------------------

pub proof fn lemma_ok_seq_type(m: Map<GenericParam, GenericParam>, s: Seq<TypeNodeV>)
    ensures
        ok_seq_type(m, s) <==> (forall|i: int| 0 <= i < s.len() ==> ok_type(m, #[trigger] s[i])),
    decreases s,
{
    if s.len() > 0 {
        lemma_ok_seq_type(m, s.drop_first());
        assert(forall|i: int| 1 <= i < s.len() ==> #[trigger] s[i] == s.drop_first()[i - 1]);
    }
}

pub proof fn lemma_ok_seq_bound(m: Map<GenericParam, GenericParam>, s: Seq<TypeParamBoundV>)
    ensures
        ok_seq_bound(m, s) <==> (forall|i: int| 0 <= i < s.len() ==> ok_bound(m, #[trigger] s[i])),
    decreases s,
{
    if s.len() > 0 {
        lemma_ok_seq_bound(m, s.drop_first());
        assert(forall|i: int| 1 <= i < s.len() ==> #[trigger] s[i] == s.drop_first()[i - 1]);
    }
}

pub proof fn lemma_ok_seq_arg(m: Map<GenericParam, GenericParam>, s: Seq<GenericArgumentV>)
    ensures
        ok_seq_arg(m, s) <==> (forall|i: int| 0 <= i < s.len() ==> ok_arg(m, #[trigger] s[i])),
    decreases s,
{
    if s.len() > 0 {
        lemma_ok_seq_arg(m, s.drop_first());
        assert(forall|i: int| 1 <= i < s.len() ==> #[trigger] s[i] == s.drop_first()[i - 1]);
    }
}

pub proof fn lemma_ok_seq_seg(m: Map<GenericParam, GenericParam>, s: Seq<PathSegmentV>)
    ensures
        ok_seq_seg(m, s) <==> (forall|i: int| 0 <= i < s.len() ==> ok_seq_arg(m, (#[trigger] s[i]).args)),
    decreases s,
{
    if s.len() > 0 {
        lemma_ok_seq_seg(m, s.drop_first());
        assert(forall|i: int| 1 <= i < s.len() ==> #[trigger] s[i] == s.drop_first()[i - 1]);
    }
}

pub proof fn lemma_ok_seq_constraint(m: Map<GenericParam, GenericParam>, s: Seq<GenericConstraintV>)
    ensures
        ok_seq_constraint(m, s) <==> (forall|i: int| 0 <= i < s.len() ==> ok_constraint(m, #[trigger] s[i])),
    decreases s,
{
    if s.len() > 0 {
        lemma_ok_seq_constraint(m, s.drop_first());
        assert(forall|i: int| 1 <= i < s.len() ==> #[trigger] s[i] == s.drop_first()[i - 1]);
    }
}

pub proof fn lemma_sub_seq_type(m: Map<GenericParam, GenericParam>, s: Seq<TypeNodeV>)
    ensures
        sub_seq_type(m, s).len() == s.len(),
        forall|i: int| 0 <= i < s.len() ==> sub_seq_type(m, s)[i] == sub_type(m, s[i]),
    decreases s,
{
    if s.len() > 0 {
        lemma_sub_seq_type(m, s.drop_first());
    }
}

pub proof fn lemma_sub_seq_bound(m: Map<GenericParam, GenericParam>, s: Seq<TypeParamBoundV>)
    ensures
        sub_seq_bound(m, s).len() == s.len(),
        forall|i: int| 0 <= i < s.len() ==> sub_seq_bound(m, s)[i] == sub_bound(m, s[i]),
    decreases s,
{
    if s.len() > 0 {
        lemma_sub_seq_bound(m, s.drop_first());
    }
}

pub proof fn lemma_sub_seq_arg(m: Map<GenericParam, GenericParam>, s: Seq<GenericArgumentV>)
    ensures
        sub_seq_arg(m, s).len() == s.len(),
        forall|i: int| 0 <= i < s.len() ==> sub_seq_arg(m, s)[i] == sub_arg(m, s[i]),
    decreases s,
{
    if s.len() > 0 {
        lemma_sub_seq_arg(m, s.drop_first());
    }
}

pub proof fn lemma_sub_seq_seg(m: Map<GenericParam, GenericParam>, s: Seq<PathSegmentV>)
    ensures
        sub_seq_seg(m, s).len() == s.len(),
        forall|i: int| 0 <= i < s.len() ==> sub_seq_seg(m, s)[i] == (PathSegmentV {
            ident: s[i].ident,
            args: sub_seq_arg(m, s[i].args),
        }),
    decreases s,
{
    if s.len() > 0 {
        lemma_sub_seq_seg(m, s.drop_first());
    }
}

pub proof fn lemma_sub_seq_constraint(m: Map<GenericParam, GenericParam>, s: Seq<GenericConstraintV>)
    ensures
        sub_seq_constraint(m, s).len() == s.len(),
        forall|i: int| 0 <= i < s.len() ==> sub_seq_constraint(m, s)[i] == sub_constraint(m, s[i]),
    decreases s,
{
    if s.len() > 0 {
        lemma_sub_seq_constraint(m, s.drop_first());
    }
}







// ----------------------------------------------------------------------
// Substitution is defined wherever every mentioned symbol is mapped with
// its kind kept; and then every symbol of the result is a value of the map.
// ----------------------------------------------------------------------

/// The hypotheses of the freshness argument: every symbol mentioned by the
/// node is mapped kind-for-kind, and every value of the map satisfies `good`.
pub open spec fn map_good(
    m: Map<GenericParam, GenericParam>,
    good: spec_fn(GenericParam) -> bool,
) -> bool {
    forall|q: GenericParam| #[trigger] m.contains_key(q) ==> good(m[q])
}

pub proof fn lemma_good_type(
    m: Map<GenericParam, GenericParam>,
    t: TypeNodeV,
    good: spec_fn(GenericParam) -> bool,
)
    requires
        forall|q: GenericParam| type_mentions(t, q) ==> #[trigger] map_has_kind(m, q),
        map_good(m, good),
    ensures
        ok_type(m, t),
        forall|p: GenericParam| type_mentions(sub_type(m, t), p) ==> #[trigger] good(p),
    decreases t,
{
    match t {
        TypeNodeV::Tuple(ts) => {
            lemma_good_seq_type(m, ts, good);
        },
        TypeNodeV::Reference { lifetime, inner, .. } => {
            if let Some(l) = lifetime {
                assert(type_mentions(t, GenericParam::Lifetime(l)));
                assert(map_has_kind(m, GenericParam::Lifetime(l)));
                assert(good(m[GenericParam::Lifetime(l)]));
                assert(GenericParam::Lifetime(sub_lt(m, l)) == m[GenericParam::Lifetime(l)]);
            }
            lemma_good_seq_type(m, inner, good);
        },
        TypeNodeV::Dereference(inner) => {
            lemma_good_seq_type(m, inner, good);
        },
        TypeNodeV::TraitObject(bounds) => {
            lemma_good_seq_bound(m, bounds, good);
        },
        TypeNodeV::DataStructure { .. } => {
            assert(type_mentions(t, GenericParam::Const(crate::generics::ConstParam {})));
            assert(map_has_kind(m, GenericParam::Const(crate::generics::ConstParam {})));
            assert(false);
        },
        TypeNodeV::Path(p) => {
            lemma_good_seq_seg(m, p.segs, good);
        },
        TypeNodeV::TypeParam(tp) => {
            assert(type_mentions(t, GenericParam::Type(tp)));
            assert(map_has_kind(m, GenericParam::Type(tp)));
            assert(good(m[GenericParam::Type(tp)]));
            assert(GenericParam::Type(m[GenericParam::Type(tp)]->Type_0) == m[GenericParam::Type(
                tp,
            )]);
        },
        _ => {},
    }
}

pub proof fn lemma_good_seq_type(
    m: Map<GenericParam, GenericParam>,
    s: Seq<TypeNodeV>,
    good: spec_fn(GenericParam) -> bool,
)
    requires
        forall|q: GenericParam| seq_type_mentions(s, q) ==> #[trigger] map_has_kind(m, q),
        map_good(m, good),
    ensures
        ok_seq_type(m, s),
        forall|p: GenericParam| seq_type_mentions(sub_seq_type(m, s), p) ==> #[trigger] good(p),
    decreases s,
{
    if s.len() > 0 {
        assert(forall|q: GenericParam|
            type_mentions(s[0], q) ==> seq_type_mentions(s, q));
        lemma_good_type(m, s[0], good);
        assert(forall|q: GenericParam|
            seq_type_mentions(s.drop_first(), q) ==> seq_type_mentions(s, q));
        lemma_good_seq_type(m, s.drop_first(), good);
        assert(sub_seq_type(m, s) == seq![sub_type(m, s[0])] + sub_seq_type(m, s.drop_first()));
        assert forall|p: GenericParam| seq_type_mentions(sub_seq_type(m, s), p) implies #[trigger] good(
            p,
        ) by {
            let ss = sub_seq_type(m, s);
            assert(ss[0] == sub_type(m, s[0]));
            assert(ss.drop_first() =~= sub_seq_type(m, s.drop_first()));
        }
    }
}

pub proof fn lemma_good_bound(
    m: Map<GenericParam, GenericParam>,
    b: TypeParamBoundV,
    good: spec_fn(GenericParam) -> bool,
)
    requires
        forall|q: GenericParam| bound_mentions(b, q) ==> #[trigger] map_has_kind(m, q),
        map_good(m, good),
    ensures
        ok_bound(m, b),
        forall|p: GenericParam| bound_mentions(sub_bound(m, b), p) ==> #[trigger] good(p),
    decreases b,
{
    match b {
        TypeParamBoundV::Trait(tb) => {
            assert forall|i: int| 0 <= i < tb.lifetimes.len() implies ok_lt(
                m,
                #[trigger] tb.lifetimes[i],
            ) && good(m[GenericParam::Lifetime(tb.lifetimes[i])]) by {
                assert(seq_lt_mentions(tb.lifetimes, GenericParam::Lifetime(tb.lifetimes[i])));
                assert(bound_mentions(b, GenericParam::Lifetime(tb.lifetimes[i])));
                assert(map_has_kind(m, GenericParam::Lifetime(tb.lifetimes[i])));
            }
            lemma_good_seq_seg(m, tb.path.segs, good);
            assert forall|p: GenericParam| bound_mentions(sub_bound(m, b), p) implies #[trigger] good(
                p,
            ) by {
                let sb = sub_bound(m, b);
                if seq_lt_mentions(sb->Trait_0.lifetimes, p) {
                    let i = choose|i: int|
                        0 <= i < sb->Trait_0.lifetimes.len() && p == GenericParam::Lifetime(
                            sb->Trait_0.lifetimes[i],
                        );
                    assert(sb->Trait_0.lifetimes[i] == sub_lt(m, tb.lifetimes[i]));
                    assert(map_has_kind(m, GenericParam::Lifetime(tb.lifetimes[i])));
                    assert(p == m[GenericParam::Lifetime(tb.lifetimes[i])]);
                }
            }
        },
        TypeParamBoundV::Lifetime(l) => {
            assert(bound_mentions(b, GenericParam::Lifetime(l)));
            assert(map_has_kind(m, GenericParam::Lifetime(l)));
            assert(good(m[GenericParam::Lifetime(l)]));
            assert(GenericParam::Lifetime(sub_lt(m, l)) == m[GenericParam::Lifetime(l)]);
        },
    }
}

pub proof fn lemma_good_seq_bound(
    m: Map<GenericParam, GenericParam>,
    s: Seq<TypeParamBoundV>,
    good: spec_fn(GenericParam) -> bool,
)
    requires
        forall|q: GenericParam| seq_bound_mentions(s, q) ==> #[trigger] map_has_kind(m, q),
        map_good(m, good),
    ensures
        ok_seq_bound(m, s),
        forall|p: GenericParam| seq_bound_mentions(sub_seq_bound(m, s), p) ==> #[trigger] good(p),
    decreases s,
{
    if s.len() > 0 {
        assert(forall|q: GenericParam| bound_mentions(s[0], q) ==> seq_bound_mentions(s, q));
        lemma_good_bound(m, s[0], good);
        assert(forall|q: GenericParam|
            seq_bound_mentions(s.drop_first(), q) ==> seq_bound_mentions(s, q));
        lemma_good_seq_bound(m, s.drop_first(), good);
        assert forall|p: GenericParam| seq_bound_mentions(sub_seq_bound(m, s), p) implies #[trigger] good(
            p,
        ) by {
            let ss = sub_seq_bound(m, s);
            assert(ss[0] == sub_bound(m, s[0]));
            assert(ss.drop_first() =~= sub_seq_bound(m, s.drop_first()));
        }
    }
}

pub proof fn lemma_good_arg(
    m: Map<GenericParam, GenericParam>,
    a: GenericArgumentV,
    good: spec_fn(GenericParam) -> bool,
)
    requires
        forall|q: GenericParam| arg_mentions(a, q) ==> #[trigger] map_has_kind(m, q),
        map_good(m, good),
    ensures
        ok_arg(m, a),
        forall|p: GenericParam| arg_mentions(sub_arg(m, a), p) ==> #[trigger] good(p),
    decreases a,
{
    match a {
        GenericArgumentV::Type(t) => {
            lemma_good_type(m, t, good);
        },
        GenericArgumentV::Binding { ty, .. } => {
            lemma_good_type(m, ty, good);
        },
        GenericArgumentV::Constraint { bounds, .. } => {
            lemma_good_seq_bound(m, bounds, good);
        },
        GenericArgumentV::Lifetime(l) => {
            assert(arg_mentions(a, GenericParam::Lifetime(l)));
            assert(map_has_kind(m, GenericParam::Lifetime(l)));
            assert(good(m[GenericParam::Lifetime(l)]));
            assert(GenericParam::Lifetime(sub_lt(m, l)) == m[GenericParam::Lifetime(l)]);
        },
        GenericArgumentV::Const => {
            assert(arg_mentions(a, GenericParam::Const(crate::generics::ConstParam {})));
            assert(map_has_kind(m, GenericParam::Const(crate::generics::ConstParam {})));
            assert(false);
        },
    }
}

pub proof fn lemma_good_seq_arg(
    m: Map<GenericParam, GenericParam>,
    s: Seq<GenericArgumentV>,
    good: spec_fn(GenericParam) -> bool,
)
    requires
        forall|q: GenericParam| seq_arg_mentions(s, q) ==> #[trigger] map_has_kind(m, q),
        map_good(m, good),
    ensures
        ok_seq_arg(m, s),
        forall|p: GenericParam| seq_arg_mentions(sub_seq_arg(m, s), p) ==> #[trigger] good(p),
    decreases s,
{
    if s.len() > 0 {
        assert(forall|q: GenericParam| arg_mentions(s[0], q) ==> seq_arg_mentions(s, q));
        lemma_good_arg(m, s[0], good);
        assert(forall|q: GenericParam|
            seq_arg_mentions(s.drop_first(), q) ==> seq_arg_mentions(s, q));
        lemma_good_seq_arg(m, s.drop_first(), good);
        assert forall|p: GenericParam| seq_arg_mentions(sub_seq_arg(m, s), p) implies #[trigger] good(
            p,
        ) by {
            let ss = sub_seq_arg(m, s);
            assert(ss[0] == sub_arg(m, s[0]));
            assert(ss.drop_first() =~= sub_seq_arg(m, s.drop_first()));
        }
    }
}

pub proof fn lemma_good_seq_seg(
    m: Map<GenericParam, GenericParam>,
    s: Seq<PathSegmentV>,
    good: spec_fn(GenericParam) -> bool,
)
    requires
        forall|q: GenericParam| seq_seg_mentions(s, q) ==> #[trigger] map_has_kind(m, q),
        map_good(m, good),
    ensures
        ok_seq_seg(m, s),
        forall|p: GenericParam| seq_seg_mentions(sub_seq_seg(m, s), p) ==> #[trigger] good(p),
    decreases s,
{
    if s.len() > 0 {
        assert(forall|q: GenericParam| seq_arg_mentions(s[0].args, q) ==> seq_seg_mentions(s, q));
        lemma_good_seq_arg(m, s[0].args, good);
        assert(forall|q: GenericParam|
            seq_seg_mentions(s.drop_first(), q) ==> seq_seg_mentions(s, q));
        lemma_good_seq_seg(m, s.drop_first(), good);
        assert forall|p: GenericParam| seq_seg_mentions(sub_seq_seg(m, s), p) implies #[trigger] good(
            p,
        ) by {
            let ss = sub_seq_seg(m, s);
            assert(ss[0].args == sub_seq_arg(m, s[0].args));
            assert(ss.drop_first() =~= sub_seq_seg(m, s.drop_first()));
        }
    }
}

pub proof fn lemma_good_constraint(
    m: Map<GenericParam, GenericParam>,
    c: GenericConstraintV,
    good: spec_fn(GenericParam) -> bool,
)
    requires
        forall|q: GenericParam| constraint_mentions(c, q) ==> #[trigger] map_has_kind(m, q),
        map_good(m, good),
    ensures
        ok_constraint(m, c),
        forall|p: GenericParam| constraint_mentions(sub_constraint(m, c), p) ==> #[trigger] good(p),
    decreases c,
{
    match c {
        GenericConstraintV::Type(pt) => {
            assert forall|i: int| 0 <= i < pt.lifetimes.len() implies ok_lt(
                m,
                #[trigger] pt.lifetimes[i],
            ) && good(m[GenericParam::Lifetime(pt.lifetimes[i])]) by {
                assert(seq_lt_mentions(pt.lifetimes, GenericParam::Lifetime(pt.lifetimes[i])));
                assert(constraint_mentions(c, GenericParam::Lifetime(pt.lifetimes[i])));
                assert(map_has_kind(m, GenericParam::Lifetime(pt.lifetimes[i])));
            }
            lemma_good_type(m, pt.bounded_ty, good);
            lemma_good_seq_bound(m, pt.bounds, good);
            assert forall|p: GenericParam| constraint_mentions(sub_constraint(m, c), p) implies #[trigger] good(
                p,
            ) by {
                let sc = sub_constraint(m, c);
                if seq_lt_mentions(sc->Type_0.lifetimes, p) {
                    let i = choose|i: int|
                        0 <= i < sc->Type_0.lifetimes.len() && p == GenericParam::Lifetime(
                            sc->Type_0.lifetimes[i],
                        );
                    assert(sc->Type_0.lifetimes[i] == sub_lt(m, pt.lifetimes[i]));
                    assert(seq_lt_mentions(pt.lifetimes, GenericParam::Lifetime(pt.lifetimes[i])));
                    assert(constraint_mentions(c, GenericParam::Lifetime(pt.lifetimes[i])));
                    assert(map_has_kind(m, GenericParam::Lifetime(pt.lifetimes[i])));
                    assert(p == m[GenericParam::Lifetime(pt.lifetimes[i])]);
                }
            }
        },
        GenericConstraintV::Lifetime(ld) => {
            assert(constraint_mentions(c, GenericParam::Lifetime(ld.lifetime)));
            assert(map_has_kind(m, GenericParam::Lifetime(ld.lifetime)));
            assert forall|i: int| 0 <= i < ld.bounds.len() implies ok_lt(
                m,
                #[trigger] ld.bounds[i],
            ) && good(m[GenericParam::Lifetime(ld.bounds[i])]) by {
                assert(seq_lt_mentions(ld.bounds, GenericParam::Lifetime(ld.bounds[i])));
                assert(constraint_mentions(c, GenericParam::Lifetime(ld.bounds[i])));
                assert(map_has_kind(m, GenericParam::Lifetime(ld.bounds[i])));
            }
            assert forall|p: GenericParam| constraint_mentions(sub_constraint(m, c), p) implies #[trigger] good(
                p,
            ) by {
                let sc = sub_constraint(m, c);
                if p == GenericParam::Lifetime(sc->Lifetime_0.lifetime) {
                    assert(good(m[GenericParam::Lifetime(ld.lifetime)]));
                    assert(p == m[GenericParam::Lifetime(ld.lifetime)]);
                } else {
                    let i = choose|i: int|
                        0 <= i < sc->Lifetime_0.bounds.len() && p == GenericParam::Lifetime(
                            sc->Lifetime_0.bounds[i],
                        );
                    assert(sc->Lifetime_0.bounds[i] == sub_lt(m, ld.bounds[i]));
                    assert(map_has_kind(m, GenericParam::Lifetime(ld.bounds[i])));
                    assert(p == m[GenericParam::Lifetime(ld.bounds[i])]);
                }
            }
        },
    }
}

pub proof fn lemma_good_seq_constraint(
    m: Map<GenericParam, GenericParam>,
    s: Seq<GenericConstraintV>,
    good: spec_fn(GenericParam) -> bool,
)
    requires
        forall|q: GenericParam| seq_constraint_mentions(s, q) ==> #[trigger] map_has_kind(m, q),
        map_good(m, good),
    ensures
        ok_seq_constraint(m, s),
        forall|p: GenericParam|
            seq_constraint_mentions(sub_seq_constraint(m, s), p) ==> #[trigger] good(p),
    decreases s,
{
    if s.len() > 0 {
        assert(forall|q: GenericParam|
            constraint_mentions(s[0], q) ==> seq_constraint_mentions(s, q));
        lemma_good_constraint(m, s[0], good);
        assert(forall|q: GenericParam|
            seq_constraint_mentions(s.drop_first(), q) ==> seq_constraint_mentions(s, q));
        lemma_good_seq_constraint(m, s.drop_first(), good);
        assert forall|p: GenericParam|
            seq_constraint_mentions(sub_seq_constraint(m, s), p) implies #[trigger] good(p) by {
            let ss = sub_seq_constraint(m, s);
            assert(ss[0] == sub_constraint(m, s[0]));
            assert(ss.drop_first() =~= sub_seq_constraint(m, s.drop_first()));
        }
    }
}


/// Every value the renamed lookup table binds is the well-known `'static`
/// lifetime or a value of the substitution map.
pub proof fn lemma_sub_table_values(
    t: Map<Seq<char>, GenericParam>,
    m: Map<GenericParam, GenericParam>,
)
    ensures
        forall|k: Seq<char>|
            #[trigger] sub_table(t, m).contains_key(k) ==> (sub_table(t, m)[k]
                == GenericParam::Lifetime(static_lifetime()) || (exists|q: GenericParam|
                #[trigger] m.contains_key(q) && m[q] == sub_table(t, m)[k])),
{
    let inner = Map::new(
        |k: Seq<char>| t.contains_key(k) && m.contains_key(t[k]),
        |k: Seq<char>| m[t[k]],
    );
    assert forall|k: Seq<char>| #[trigger] sub_table(t, m).contains_key(k) implies (sub_table(t, m)[k]
        == GenericParam::Lifetime(static_lifetime()) || (exists|q: GenericParam|
        #[trigger] m.contains_key(q) && m[q] == sub_table(t, m)[k])) by {
        if inner.contains_key(k) {
            assert(m.contains_key(t[k]) && m[t[k]] == sub_table(t, m)[k]);
        } else {
            assert(crate::generics::initial_param_map().contains_key(k));
            assert(sub_table(t, m)[k] == crate::generics::initial_param_map()[k]);
        }
    }
}

} // verus!
