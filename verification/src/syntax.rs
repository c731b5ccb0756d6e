//! The parsed-syntax boundary: plain data standing for an externally parsed
//! declaration, before names are resolved against a generic-parameter table.
//!
//! Values of these types come from two places: the crate's own parser for
//! the small declaration grammar (`src/parse.rs`), and callers translating a
//! syntax tree they parsed elsewhere. Everything here is name-based; the
//! translation passes in `generics.rs` and `ty.rs` resolve the names to
//! symbols.

use vstd::prelude::*;

verus! {

/// An unresolved path: segments by name, with unresolved arguments.
pub struct RawPath {
    pub global: bool,
    pub segs: Vec<RawSeg>,
}

/// One unresolved path segment.
pub struct RawSeg {
    pub name: String,
    pub args: Vec<RawArg>,
}

/// One unresolved generic argument.
pub enum RawArg {
    /// A lifetime, by name, with its leading quote.
    Life(String),
    /// A type argument.
    Ty(RawType),
    /// An associated-type binding (`Item = T`).
    Binding { name: String, ty: RawType },
    /// An associated-type constraint (`Item: Bound`).
    Constraint { name: String, bounds: Vec<RawBound> },
    /// A const argument: recognized, never supported.
    ConstArg,
}

/// An unresolved type.
pub enum RawType {
    /// A bare identifier or a longer path: resolved to a type parameter or
    /// to a path by the translation.
    Named(RawPath),
    /// A reference, with an optional lifetime name.
    Ref { is_mut: bool, life: Option<String>, inner: Box<RawType> },
    /// A tuple of types.
    Tup(Vec<RawType>),
    /// A trait object: its bounds.
    Dyn(Vec<RawBound>),
    /// Any other shape: recognized, never supported.
    Other,
}

/// One unresolved bound.
pub enum RawBound {
    /// An outliving lifetime, by name.
    Life(String),
    /// A trait bound, with its own bound-lifetime introducer names.
    Trait { for_lifetimes: Vec<String>, path: RawPath },
}

/// One unresolved declared generic parameter.
pub enum RawParam {
    /// A type parameter with its declared bounds.
    Ty { name: String, bounds: Vec<RawBound> },
    /// A lifetime parameter with its declared lifetime bounds.
    Life { name: String, bounds: Vec<String> },
    /// A const parameter: recognized, never supported.
    ConstParam,
}

/// One unresolved where-clause predicate.
pub enum RawPredicate {
    /// A bounded type, with its bound-lifetime introducer names.
    Ty { for_lifetimes: Vec<String>, ty: RawType, bounds: Vec<RawBound> },
    /// A bounded lifetime.
    Life { name: String, bounds: Vec<String> },
    /// An equality predicate: recognized, never supported.
    Eq,
}

/// An unresolved generic declaration: the parameter list and the
/// where-clause predicates.
pub struct RawGenerics {
    pub params: Vec<RawParam>,
    pub predicates: Vec<RawPredicate>,
}

// ----------------------------------------------------------------------
// Mathematical values.
// ----------------------------------------------------------------------

#[verifier::ext_equal]
pub struct RawPathV {
    pub global: bool,
    pub segs: Seq<RawSegV>,
}

#[verifier::ext_equal]
pub struct RawSegV {
    pub name: Seq<char>,
    pub args: Seq<RawArgV>,
}

#[verifier::ext_equal]
pub enum RawArgV {
    Life(Seq<char>),
    Ty(RawTypeV),
    Binding { name: Seq<char>, ty: RawTypeV },
    Constraint { name: Seq<char>, bounds: Seq<RawBoundV> },
    ConstArg,
}

#[verifier::ext_equal]
pub enum RawTypeV {
    Named(RawPathV),
    Ref { is_mut: bool, life: Option<Seq<char>>, inner: Seq<RawTypeV> },
    Tup(Seq<RawTypeV>),
    Dyn(Seq<RawBoundV>),
    Other,
}

#[verifier::ext_equal]
pub enum RawBoundV {
    Life(Seq<char>),
    Trait { for_lifetimes: Seq<Seq<char>>, path: RawPathV },
}

#[verifier::ext_equal]
pub enum RawParamV {
    Ty { name: Seq<char>, bounds: Seq<RawBoundV> },
    Life { name: Seq<char>, bounds: Seq<Seq<char>> },
    ConstParam,
}

#[verifier::ext_equal]
pub enum RawPredicateV {
    Ty { for_lifetimes: Seq<Seq<char>>, ty: RawTypeV, bounds: Seq<RawBoundV> },
    Life { name: Seq<char>, bounds: Seq<Seq<char>> },
    Eq,
}

pub open spec fn names_view(s: Seq<String>) -> Seq<Seq<char>> {
    s.map_values(|x: String| x@)
}

pub open spec fn view_raw_type(t: RawType) -> RawTypeV
    decreases t,
{
    match t {
        RawType::Named(p) => RawTypeV::Named(view_raw_path(p)),
        RawType::Ref { is_mut, life, inner } => RawTypeV::Ref {
            is_mut,
            life: match life {
                Some(l) => Some(l@),
                None => None,
            },
            inner: seq![view_raw_type(*inner)],
        },
        RawType::Tup(ts) => RawTypeV::Tup(view_seq_raw_type(ts@)),
        RawType::Dyn(bs) => RawTypeV::Dyn(view_seq_raw_bound(bs@)),
        RawType::Other => RawTypeV::Other,
    }
}

pub open spec fn view_seq_raw_type(s: Seq<RawType>) -> Seq<RawTypeV>
    decreases s,
{
    if s.len() == 0 {
        Seq::empty()
    } else {
        seq![view_raw_type(s[0])] + view_seq_raw_type(s.drop_first())
    }
}

pub proof fn lemma_view_seq_raw_type(s: Seq<RawType>)
    ensures
        view_seq_raw_type(s).len() == s.len(),
        forall|i: int| 0 <= i < s.len() ==> view_seq_raw_type(s)[i] == view_raw_type(s[i]),
    decreases s,
{
    if s.len() > 0 {
        lemma_view_seq_raw_type(s.drop_first());
    }
}

pub open spec fn view_raw_bound(b: RawBound) -> RawBoundV
    decreases b,
{
    match b {
        RawBound::Life(l) => RawBoundV::Life(l@),
        RawBound::Trait { for_lifetimes, path } => RawBoundV::Trait {
            for_lifetimes: names_view(for_lifetimes@),
            path: view_raw_path(path),
        },
    }
}

pub open spec fn view_seq_raw_bound(s: Seq<RawBound>) -> Seq<RawBoundV>
    decreases s,
{
    if s.len() == 0 {
        Seq::empty()
    } else {
        seq![view_raw_bound(s[0])] + view_seq_raw_bound(s.drop_first())
    }
}

pub proof fn lemma_view_seq_raw_bound(s: Seq<RawBound>)
    ensures
        view_seq_raw_bound(s).len() == s.len(),
        forall|i: int| 0 <= i < s.len() ==> view_seq_raw_bound(s)[i] == view_raw_bound(s[i]),
    decreases s,
{
    if s.len() > 0 {
        lemma_view_seq_raw_bound(s.drop_first());
    }
}

pub open spec fn view_raw_arg(a: RawArg) -> RawArgV
    decreases a,
{
    match a {
        RawArg::Life(l) => RawArgV::Life(l@),
        RawArg::Ty(t) => RawArgV::Ty(view_raw_type(t)),
        RawArg::Binding { name, ty } => RawArgV::Binding { name: name@, ty: view_raw_type(ty) },
        RawArg::Constraint { name, bounds } => RawArgV::Constraint {
            name: name@,
            bounds: view_seq_raw_bound(bounds@),
        },
        RawArg::ConstArg => RawArgV::ConstArg,
    }
}

pub open spec fn view_seq_raw_arg(s: Seq<RawArg>) -> Seq<RawArgV>
    decreases s,
{
    if s.len() == 0 {
        Seq::empty()
    } else {
        seq![view_raw_arg(s[0])] + view_seq_raw_arg(s.drop_first())
    }
}

pub proof fn lemma_view_seq_raw_arg(s: Seq<RawArg>)
    ensures
        view_seq_raw_arg(s).len() == s.len(),
        forall|i: int| 0 <= i < s.len() ==> view_seq_raw_arg(s)[i] == view_raw_arg(s[i]),
    decreases s,
{
    if s.len() > 0 {
        lemma_view_seq_raw_arg(s.drop_first());
    }
}

pub open spec fn view_raw_seg(s: RawSeg) -> RawSegV
    decreases s,
{
    RawSegV { name: s.name@, args: view_seq_raw_arg(s.args@) }
}

pub open spec fn view_seq_raw_seg(s: Seq<RawSeg>) -> Seq<RawSegV>
    decreases s,
{
    if s.len() == 0 {
        Seq::empty()
    } else {
        seq![view_raw_seg(s[0])] + view_seq_raw_seg(s.drop_first())
    }
}

pub proof fn lemma_view_seq_raw_seg(s: Seq<RawSeg>)
    ensures
        view_seq_raw_seg(s).len() == s.len(),
        forall|i: int| 0 <= i < s.len() ==> view_seq_raw_seg(s)[i] == view_raw_seg(s[i]),
    decreases s,
{
    if s.len() > 0 {
        lemma_view_seq_raw_seg(s.drop_first());
    }
}

pub open spec fn view_raw_path(p: RawPath) -> RawPathV
    decreases p,
{
    RawPathV { global: p.global, segs: view_seq_raw_seg(p.segs@) }
}

pub open spec fn view_raw_param(p: RawParam) -> RawParamV
    decreases p,
{
    match p {
        RawParam::Ty { name, bounds } => RawParamV::Ty {
            name: name@,
            bounds: view_seq_raw_bound(bounds@),
        },
        RawParam::Life { name, bounds } => RawParamV::Life {
            name: name@,
            bounds: names_view(bounds@),
        },
        RawParam::ConstParam => RawParamV::ConstParam,
    }
}

pub open spec fn view_raw_predicate(p: RawPredicate) -> RawPredicateV
    decreases p,
{
    match p {
        RawPredicate::Ty { for_lifetimes, ty, bounds } => RawPredicateV::Ty {
            for_lifetimes: names_view(for_lifetimes@),
            ty: view_raw_type(ty),
            bounds: view_seq_raw_bound(bounds@),
        },
        RawPredicate::Life { name, bounds } => RawPredicateV::Life {
            name: name@,
            bounds: names_view(bounds@),
        },
        RawPredicate::Eq => RawPredicateV::Eq,
    }
}

impl View for RawType {
    type V = RawTypeV;

    open spec fn view(&self) -> RawTypeV {
        view_raw_type(*self)
    }
}

impl View for RawPath {
    type V = RawPathV;

    open spec fn view(&self) -> RawPathV {
        view_raw_path(*self)
    }
}

impl View for RawBound {
    type V = RawBoundV;

    open spec fn view(&self) -> RawBoundV {
        view_raw_bound(*self)
    }
}

impl View for RawParam {
    type V = RawParamV;

    open spec fn view(&self) -> RawParamV {
        view_raw_param(*self)
    }
}

impl View for RawPredicate {
    type V = RawPredicateV;

    open spec fn view(&self) -> RawPredicateV {
        view_raw_predicate(*self)
    }
}


pub open spec fn view_seq_raw_param(s: Seq<RawParam>) -> Seq<RawParamV>
    decreases s,
{
    if s.len() == 0 {
        Seq::empty()
    } else {
        seq![view_raw_param(s[0])] + view_seq_raw_param(s.drop_first())
    }
}

pub proof fn lemma_view_seq_raw_param(s: Seq<RawParam>)
    ensures
        view_seq_raw_param(s).len() == s.len(),
        forall|i: int| 0 <= i < s.len() ==> view_seq_raw_param(s)[i] == view_raw_param(s[i]),
    decreases s,
{
    if s.len() > 0 {
        lemma_view_seq_raw_param(s.drop_first());
    }
}

} // verus!
