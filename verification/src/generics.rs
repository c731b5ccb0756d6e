//! The generic-parameter model: symbolic lifetime and type parameters,
//! constraints, the name lookup table, and substitution maps.
//!
//! A parameter is a tagged symbol carrying a sequence number minted from the
//! counters of the [`crate::arena::Arena`] context; symbol number `0` of the
//! lifetime kind is the well-known `'static` lifetime, which every lookup
//! table starts with.

use vstd::prelude::*;

use crate::error::Error;
use crate::ident::Ident;
use crate::path::Path;
use crate::path::PathV;
use crate::ty::Type;
use crate::ty::TypeNodeV;
use crate::arena::Arena;

verus! {

/// A symbolic lifetime parameter, identified by its minted number.
#[derive(Clone, Copy, PartialEq, Eq, Structural, Debug, Hash)]
pub struct Lifetime(pub usize);

/// A symbolic type parameter, identified by its minted number.
#[derive(Clone, Copy, PartialEq, Eq, Structural, Debug, Hash)]
pub struct TypeParam(pub usize);

/// A `const` generic parameter: recognized, never supported. Declaring,
/// substituting or freshly cloning one is rejected.
#[derive(Clone, Copy, PartialEq, Eq, Structural, Debug, Hash)]
pub struct ConstParam {}

/// One declared generic parameter, with its bounds stripped out (bounds are
/// hoisted into constraints).
#[derive(Clone, Copy, PartialEq, Eq, Structural, Debug, Hash)]
pub enum GenericParam {
    Lifetime(Lifetime),
    Type(TypeParam),
    Const(ConstParam),
}

/// The well-known `'static` lifetime: symbol number `0`, reserved by every
/// arena and present in every parameter table.
#[verifier::allow_in_spec]
pub fn static_lifetime() -> Lifetime
    returns
        Lifetime(0),
{
    Lifetime(0)
}

impl GenericParam {
    pub fn lifetime(self) -> (r: Option<Lifetime>)
        ensures
            r == self.spec_lifetime(),
    {
        match self {
            GenericParam::Lifetime(lifetime) => Some(lifetime),
            _ => None,
        }
    }

    pub open spec fn spec_lifetime(self) -> Option<Lifetime> {
        match self {
            GenericParam::Lifetime(lifetime) => Some(lifetime),
            _ => None,
        }
    }

    pub fn type_param(self) -> (r: Option<TypeParam>)
        ensures
            r == self.spec_type_param(),
    {
        match self {
            GenericParam::Type(type_param) => Some(type_param),
            _ => None,
        }
    }

    pub open spec fn spec_type_param(self) -> Option<TypeParam> {
        match self {
            GenericParam::Type(type_param) => Some(type_param),
            _ => None,
        }
    }
}

/// One entry of the name lookup table.
#[derive(PartialEq, Eq, Debug)]
pub struct ParamEntry {
    pub name: String,
    pub param: GenericParam,
}

impl Clone for ParamEntry {
    fn clone(&self) -> (r: Self)
        ensures
            r == *self,
    {
        ParamEntry { name: self.name.clone(), param: self.param }
    }
}

/// The lookup table a parameter table denotes: entry order resolved, later
/// entries shadowing earlier ones.
pub open spec fn entries_map(s: Seq<ParamEntry>) -> Map<Seq<char>, GenericParam>
    decreases s.len(),
{
    if s.len() == 0 {
        Map::empty()
    } else {
        entries_map(s.drop_last()).insert(s.last().name@, s.last().param)
    }
}

/// The table every `SynParamMap` starts with: the well-known `'static`
/// lifetime under its own name.
pub open spec fn initial_param_map() -> Map<Seq<char>, GenericParam> {
    Map::empty().insert("'static"@, GenericParam::Lifetime(static_lifetime()))
}

/// The name lookup table of a `Generics`: maps the written name of a
/// parameter (`"T"`, `"'a"`) to its symbol. It is the single source of truth
/// for name resolution, and is seeded with the well-known `'static` lifetime.
#[derive(PartialEq, Eq, Debug)]
pub struct SynParamMap {
    pub entries: Vec<ParamEntry>,
}

impl View for SynParamMap {
    type V = Map<Seq<char>, GenericParam>;

    open spec fn view(&self) -> Map<Seq<char>, GenericParam> {
        entries_map(self.entries@)
    }
}

impl Clone for SynParamMap {
    fn clone(&self) -> (r: Self)
        ensures
            r.entries@ == self.entries@,
            r@ == self@,
    {
        let entries = self.entries.clone();
        proof {
            assert(entries@ =~= self.entries@);
        }
        SynParamMap { entries }
    }
}

fn entries_get(entries: &Vec<ParamEntry>, n: usize, name: &String) -> (r: Option<GenericParam>)
    requires
        n <= entries@.len(),
    ensures
        r == (if entries_map(entries@.take(n as int)).contains_key(name@) {
            Some(entries_map(entries@.take(n as int))[name@])
        } else {
            None::<GenericParam>
        }),
    decreases n,
{
    if n == 0 {
        proof {
            assert(entries@.take(0) =~= Seq::<ParamEntry>::empty());
        }
        None
    } else {
        proof {
            assert(entries@.take(n as int).drop_last() =~= entries@.take(n - 1));
            assert(entries@.take(n as int).last() == entries@[n - 1]);
        }
        let e = &entries[n - 1];
        if e.name == *name {
            Some(e.param)
        } else {
            entries_get(entries, n - 1, name)
        }
    }
}

impl SynParamMap {
    /// A fresh table holding only the well-known `'static` lifetime.
    pub fn new() -> (r: Self)
        ensures
            r@ == initial_param_map(),
    {
        let mut entries: Vec<ParamEntry> = Vec::new();
        entries.push(
            ParamEntry {
                name: String::from_str("'static"),
                param: GenericParam::Lifetime(static_lifetime()),
            },
        );
        proof {
            assert(entries@.drop_last() =~= Seq::<ParamEntry>::empty());
            assert(entries_map(Seq::<ParamEntry>::empty()) =~= Map::<Seq<char>, GenericParam>::empty());
            assert(entries_map(entries@) == entries_map(entries@.drop_last()).insert(
                entries@.last().name@,
                entries@.last().param,
            ));
            assert(entries_map(entries@) =~= initial_param_map());
        }
        SynParamMap { entries }
    }

    /// Binds `name` to `param`, shadowing any earlier binding; returns the
    /// binding that was shadowed, if any.
    pub fn insert(&mut self, name: &str, param: GenericParam) -> (r: Option<GenericParam>)
        ensures
            final(self)@ == old(self)@.insert(name@, param),
            r == (if old(self)@.contains_key(name@) {
                Some(old(self)@[name@])
            } else {
                None::<GenericParam>
            }),
    {
        let key = name.to_owned();
        let prior = entries_get(&self.entries, self.entries.len(), &key);
        proof {
            assert(self.entries@.take(self.entries@.len() as int) =~= self.entries@);
        }
        self.entries.push(ParamEntry { name: key, param });
        proof {
            assert(self.entries@.drop_last() =~= old(self).entries@);
        }
        prior
    }

    /// Looks `name` up in the table.
    pub fn get(&self, name: &str) -> (r: Option<GenericParam>)
        ensures
            r == (if self@.contains_key(name@) {
                Some(self@[name@])
            } else {
                None::<GenericParam>
            }),
    {
        let key = name.to_owned();
        let r = entries_get(&self.entries, self.entries.len(), &key);
        proof {
            assert(self.entries@.take(self.entries@.len() as int) =~= self.entries@);
        }
        r
    }

    /// Resolves `ident` to a lifetime symbol: the name must be bound, and
    /// bound to a parameter of the lifetime kind.
    pub fn get_lifetime(&self, ident: &str) -> (r: Result<Lifetime, Error>)
        ensures
            r == (if self@.contains_key(ident@) && self@[ident@] is Lifetime {
                Ok::<Lifetime, Error>(self@[ident@]->Lifetime_0)
            } else {
                Err::<Lifetime, Error>(Error::NotALifetime)
            }),
    {
        match self.get(ident) {
            Some(GenericParam::Lifetime(lifetime)) => Ok(lifetime),
            _ => Err(Error::NotALifetime),
        }
    }

    /// Moves every binding of `other` into `self`, in order, leaving `other`
    /// empty; a binding of `other` wins over one of `self` for the same name.
    pub fn append(&mut self, other: &mut Self)
        ensures
            final(self)@ == old(self)@.union_prefer_right(old(other)@),
            final(other)@ == Map::<Seq<char>, GenericParam>::empty(),
    {
        let mut i: usize = 0;
        while i < other.entries.len()
            invariant
                i <= other.entries@.len(),
                other.entries@ == old(other).entries@,
                entries_map(self.entries@) == old(self)@.union_prefer_right(
                    entries_map(other.entries@.take(i as int)),
                ),
            decreases other.entries@.len() - i,
        {
            let ghost prev = self.entries@;
            let e = other.entries[i].clone();
            self.entries.push(e);
            i = i + 1;
            proof {
                assert(self.entries@.drop_last() =~= prev);
                assert(other.entries@.take(i as int).drop_last() =~= other.entries@.take(i - 1));
                assert(other.entries@.take(i as int).last() == other.entries@[i - 1]);
                lemma_union_insert(
                    old(self)@,
                    entries_map(other.entries@.take(i - 1)),
                    other.entries@[i - 1].name@,
                    other.entries@[i - 1].param,
                );
            }
        }
        proof {
            assert(other.entries@.take(other.entries@.len() as int) =~= other.entries@);
        }
        other.entries.truncate(0);
        proof {
            assert(entries_map(other.entries@) =~= Map::<Seq<char>, GenericParam>::empty());
        }
    }
}

proof fn lemma_union_insert(
    a: Map<Seq<char>, GenericParam>,
    b: Map<Seq<char>, GenericParam>,
    k: Seq<char>,
    v: GenericParam,
)
    ensures
        a.union_prefer_right(b).insert(k, v) == a.union_prefer_right(b.insert(k, v)),
{
    assert(a.union_prefer_right(b).insert(k, v) =~= a.union_prefer_right(b.insert(k, v)));
}

/// A substitution map from old symbols to their fresh replacements, built
/// once per fresh-generics clone and threaded through every dependent clone.
pub struct ParamMap {
    pub entries: Vec<(GenericParam, GenericParam)>,
}

/// The substitution a `ParamMap` denotes, later entries shadowing earlier
/// ones.
pub open spec fn pairs_map(s: Seq<(GenericParam, GenericParam)>) -> Map<GenericParam, GenericParam>
    decreases s.len(),
{
    if s.len() == 0 {
        Map::empty()
    } else {
        pairs_map(s.drop_last()).insert(s.last().0, s.last().1)
    }
}

impl View for ParamMap {
    type V = Map<GenericParam, GenericParam>;

    open spec fn view(&self) -> Map<GenericParam, GenericParam> {
        pairs_map(self.entries@)
    }
}

fn pairs_get(
    entries: &Vec<(GenericParam, GenericParam)>,
    n: usize,
    key: GenericParam,
) -> (r: Option<GenericParam>)
    requires
        n <= entries@.len(),
    ensures
        r == (if pairs_map(entries@.take(n as int)).contains_key(key) {
            Some(pairs_map(entries@.take(n as int))[key])
        } else {
            None::<GenericParam>
        }),
    decreases n,
{
    if n == 0 {
        proof {
            assert(entries@.take(0) =~= Seq::<(GenericParam, GenericParam)>::empty());
        }
        None
    } else {
        proof {
            assert(entries@.take(n as int).drop_last() =~= entries@.take(n - 1));
            assert(entries@.take(n as int).last() == entries@[n - 1]);
        }
        let e = entries[n - 1];
        if e.0 == key {
            Some(e.1)
        } else {
            pairs_get(entries, n - 1, key)
        }
    }
}

impl ParamMap {
    /// A fresh substitution, mapping the well-known `'static` lifetime to
    /// itself.
    pub fn new() -> (r: Self)
        ensures
            r@ == Map::<GenericParam, GenericParam>::empty().insert(
                GenericParam::Lifetime(static_lifetime()),
                GenericParam::Lifetime(static_lifetime()),
            ),
    {
        let mut entries: Vec<(GenericParam, GenericParam)> = Vec::new();
        entries.push(
            (
                GenericParam::Lifetime(static_lifetime()),
                GenericParam::Lifetime(static_lifetime()),
            ),
        );
        proof {
            assert(entries@.drop_last() =~= Seq::<(GenericParam, GenericParam)>::empty());
            assert(pairs_map(Seq::<(GenericParam, GenericParam)>::empty()) =~= Map::<GenericParam, GenericParam>::empty());
            assert(pairs_map(entries@) == pairs_map(entries@.drop_last()).insert(
                entries@.last().0,
                entries@.last().1,
            ));
            assert(pairs_map(entries@) =~= Map::<GenericParam, GenericParam>::empty().insert(
                GenericParam::Lifetime(static_lifetime()),
                GenericParam::Lifetime(static_lifetime()),
            ));
        }
        ParamMap { entries }
    }

    /// Records that `key` is replaced by `value`.
    pub fn insert(&mut self, key: GenericParam, value: GenericParam) -> (r: Option<GenericParam>)
        ensures
            final(self)@ == old(self)@.insert(key, value),
            r == (if old(self)@.contains_key(key) {
                Some(old(self)@[key])
            } else {
                None::<GenericParam>
            }),
    {
        let prior = pairs_get(&self.entries, self.entries.len(), key);
        proof {
            assert(self.entries@.take(self.entries@.len() as int) =~= self.entries@);
        }
        self.entries.push((key, value));
        proof {
            assert(self.entries@.drop_last() =~= old(self).entries@);
        }
        prior
    }

    /// Looks a symbol up in the substitution.
    pub fn get(&self, key: GenericParam) -> (r: Option<GenericParam>)
        ensures
            r == (if self@.contains_key(key) {
                Some(self@[key])
            } else {
                None::<GenericParam>
            }),
    {
        let r = pairs_get(&self.entries, self.entries.len(), key);
        proof {
            assert(self.entries@.take(self.entries@.len() as int) =~= self.entries@);
        }
        r
    }
}

/// One bound of a type constraint: a trait bound, or an outliving lifetime.
#[derive(PartialEq, Eq, Debug)]
pub enum TypeParamBound {
    Trait(TraitBound),
    Lifetime(Lifetime),
}

/// A trait bound, with its own bound-lifetime introducer list
/// (`for<'a, 'b>`).
#[derive(PartialEq, Eq, Debug)]
pub struct TraitBound {
    pub lifetimes: Vec<Lifetime>,
    pub path: Path,
}

/// A lifetime bounded by other lifetimes (`'a: 'b + 'c`).
#[derive(PartialEq, Eq, Debug)]
pub struct LifetimeDef {
    pub lifetime: Lifetime,
    pub bounds: Vec<Lifetime>,
}

/// A type bounded by a set of bounds, with an optional bound-lifetime
/// introducer list.
#[derive(PartialEq, Eq, Debug)]
pub struct PredicateType {
    pub lifetimes: Vec<Lifetime>,
    pub bounded_ty: Type,
    pub bounds: Vec<TypeParamBound>,
}

/// One constraint of a `Generics`: one entry of the where clause.
#[derive(PartialEq, Eq, Debug)]
pub enum GenericConstraint {
    Type(PredicateType),
    Lifetime(LifetimeDef),
}

/// The generic arguments applied to a path segment.
#[derive(PartialEq, Eq, Debug)]
pub struct GenericArguments {
    pub args: Vec<GenericArgument>,
}

/// One generic argument: a type, a lifetime, an associated-type binding, an
/// associated-type constraint, or a (never supported) const expression.
#[derive(PartialEq, Eq, Debug)]
pub enum GenericArgument {
    Type(Type),
    Lifetime(Lifetime),
    Binding(Binding),
    Constraint(Constraint),
    Const(Expr),
}

/// An associated-type binding (`Item = T`).
#[derive(PartialEq, Eq, Debug)]
pub struct Binding {
    pub ident: Ident,
    pub ty: Type,
}

/// An associated-type constraint (`Item: Bound`).
#[derive(PartialEq, Eq, Debug)]
pub struct Constraint {
    pub ident: Ident,
    pub bounds: Vec<TypeParamBound>,
}

/// A const expression: recognized, never supported.
#[derive(PartialEq, Eq, Debug)]
pub struct Expr {}

/// The bundle a generic definition carries: the declared parameters with
/// bounds stripped out, the constraints (the where clause), and the name
/// lookup table.
#[derive(PartialEq, Eq, Debug)]
pub struct Generics {
    pub params: Vec<GenericParam>,
    pub constraints: Vec<GenericConstraint>,
    pub param_map: SynParamMap,
}

/// The mathematical value of a [`TypeParamBound`].
#[verifier::ext_equal]
pub enum TypeParamBoundV {
    Trait(TraitBoundV),
    Lifetime(Lifetime),
}

/// The mathematical value of a [`TraitBound`].
#[verifier::ext_equal]
pub struct TraitBoundV {
    pub lifetimes: Seq<Lifetime>,
    pub path: PathV,
}

/// The mathematical value of a [`LifetimeDef`].
#[verifier::ext_equal]
pub struct LifetimeDefV {
    pub lifetime: Lifetime,
    pub bounds: Seq<Lifetime>,
}

/// The mathematical value of a [`PredicateType`].
#[verifier::ext_equal]
pub struct PredicateTypeV {
    pub lifetimes: Seq<Lifetime>,
    pub bounded_ty: TypeNodeV,
    pub bounds: Seq<TypeParamBoundV>,
}

/// The mathematical value of a [`GenericConstraint`].
#[verifier::ext_equal]
pub enum GenericConstraintV {
    Type(PredicateTypeV),
    Lifetime(LifetimeDefV),
}

/// The mathematical value of a [`GenericArgument`].
#[verifier::ext_equal]
pub enum GenericArgumentV {
    Type(TypeNodeV),
    Lifetime(Lifetime),
    Binding { ident: Seq<char>, ty: TypeNodeV },
    Constraint { ident: Seq<char>, bounds: Seq<TypeParamBoundV> },
    Const,
}

/// The mathematical value of a [`Generics`].
#[verifier::ext_equal]
pub struct GenericsV {
    pub params: Seq<GenericParam>,
    pub constraints: Seq<GenericConstraintV>,
    pub param_map: Map<Seq<char>, GenericParam>,
}

pub open spec fn view_bound(b: TypeParamBound) -> TypeParamBoundV
    decreases b,
{
    match b {
        TypeParamBound::Trait(tb) => TypeParamBoundV::Trait(
            TraitBoundV { lifetimes: tb.lifetimes@, path: crate::path::view_path(tb.path) },
        ),
        TypeParamBound::Lifetime(lt) => TypeParamBoundV::Lifetime(lt),
    }
}

pub open spec fn view_seq_bound(s: Seq<TypeParamBound>) -> Seq<TypeParamBoundV>
    decreases s,
{
    if s.len() == 0 {
        Seq::empty()
    } else {
        seq![view_bound(s[0])] + view_seq_bound(s.drop_first())
    }
}

pub proof fn lemma_view_seq_bound(s: Seq<TypeParamBound>)
    ensures
        view_seq_bound(s).len() == s.len(),
        forall|i: int| 0 <= i < s.len() ==> view_seq_bound(s)[i] == view_bound(s[i]),
    decreases s,
{
    if s.len() > 0 {
        lemma_view_seq_bound(s.drop_first());
    }
}

pub open spec fn view_constraint(c: GenericConstraint) -> GenericConstraintV
    decreases c,
{
    match c {
        GenericConstraint::Type(p) => GenericConstraintV::Type(
            PredicateTypeV {
                lifetimes: p.lifetimes@,
                bounded_ty: crate::ty::view_type(p.bounded_ty),
                bounds: view_seq_bound(p.bounds@),
            },
        ),
        GenericConstraint::Lifetime(ld) => GenericConstraintV::Lifetime(
            LifetimeDefV { lifetime: ld.lifetime, bounds: ld.bounds@ },
        ),
    }
}

pub open spec fn view_seq_constraint(s: Seq<GenericConstraint>) -> Seq<GenericConstraintV>
    decreases s,
{
    if s.len() == 0 {
        Seq::empty()
    } else {
        seq![view_constraint(s[0])] + view_seq_constraint(s.drop_first())
    }
}

pub proof fn lemma_view_seq_constraint(s: Seq<GenericConstraint>)
    ensures
        view_seq_constraint(s).len() == s.len(),
        forall|i: int| 0 <= i < s.len() ==> view_seq_constraint(s)[i] == view_constraint(s[i]),
    decreases s,
{
    if s.len() > 0 {
        lemma_view_seq_constraint(s.drop_first());
    }
}

pub open spec fn view_arg(a: GenericArgument) -> GenericArgumentV
    decreases a,
{
    match a {
        GenericArgument::Type(t) => GenericArgumentV::Type(crate::ty::view_type(t)),
        GenericArgument::Lifetime(lt) => GenericArgumentV::Lifetime(lt),
        GenericArgument::Binding(b) => GenericArgumentV::Binding {
            ident: b.ident.name@,
            ty: crate::ty::view_type(b.ty),
        },
        GenericArgument::Constraint(c) => GenericArgumentV::Constraint {
            ident: c.ident.name@,
            bounds: view_seq_bound(c.bounds@),
        },
        GenericArgument::Const(_) => GenericArgumentV::Const,
    }
}

pub open spec fn view_seq_arg(s: Seq<GenericArgument>) -> Seq<GenericArgumentV>
    decreases s,
{
    if s.len() == 0 {
        Seq::empty()
    } else {
        seq![view_arg(s[0])] + view_seq_arg(s.drop_first())
    }
}

pub proof fn lemma_view_seq_arg(s: Seq<GenericArgument>)
    ensures
        view_seq_arg(s).len() == s.len(),
        forall|i: int| 0 <= i < s.len() ==> view_seq_arg(s)[i] == view_arg(s[i]),
    decreases s,
{
    if s.len() > 0 {
        lemma_view_seq_arg(s.drop_first());
    }
}

pub open spec fn view_generics(g: Generics) -> GenericsV
    decreases g,
{
    GenericsV {
        params: g.params@,
        constraints: view_seq_constraint(g.constraints@),
        param_map: entries_map(g.param_map.entries@),
    }
}

impl View for TypeParamBound {
    type V = TypeParamBoundV;

    open spec fn view(&self) -> TypeParamBoundV {
        view_bound(*self)
    }
}

impl View for GenericConstraint {
    type V = GenericConstraintV;

    open spec fn view(&self) -> GenericConstraintV {
        view_constraint(*self)
    }
}

impl View for GenericArgument {
    type V = GenericArgumentV;

    open spec fn view(&self) -> GenericArgumentV {
        view_arg(*self)
    }
}

impl View for Generics {
    type V = GenericsV;

    open spec fn view(&self) -> GenericsV {
        view_generics(*self)
    }
}


/// Clones a list of `TypeParamBound` values, element for element.
pub fn clone_bounds(v: &Vec<TypeParamBound>) -> (r: Vec<TypeParamBound>)
    ensures
        view_seq_bound(r@) == view_seq_bound(v@),
    decreases v@,
{
    let mut r: Vec<TypeParamBound> = Vec::new();
    let mut i: usize = 0;
    while i < v.len()
        invariant
            i <= v@.len(),
            r@.len() == i,
            forall|j: int| 0 <= j < i ==> view_bound(#[trigger] r@[j]) == view_bound(v@[j]),
        decreases v@.len() - i,
    {
        let e = v[i].clone();
        r.push(e);
        i = i + 1;
    }
    proof {
        lemma_view_seq_bound(v@);
        lemma_view_seq_bound(r@);
        assert(view_seq_bound(r@) =~= view_seq_bound(v@));
    }
    r
}

/// Clones a list of `GenericConstraint` values, element for element.
pub fn clone_constraints(v: &Vec<GenericConstraint>) -> (r: Vec<GenericConstraint>)
    ensures
        view_seq_constraint(r@) == view_seq_constraint(v@),
    decreases v@,
{
    let mut r: Vec<GenericConstraint> = Vec::new();
    let mut i: usize = 0;
    while i < v.len()
        invariant
            i <= v@.len(),
            r@.len() == i,
            forall|j: int| 0 <= j < i ==> view_constraint(#[trigger] r@[j]) == view_constraint(v@[j]),
        decreases v@.len() - i,
    {
        let e = v[i].clone();
        r.push(e);
        i = i + 1;
    }
    proof {
        lemma_view_seq_constraint(v@);
        lemma_view_seq_constraint(r@);
        assert(view_seq_constraint(r@) =~= view_seq_constraint(v@));
    }
    r
}

/// Clones a list of `GenericArgument` values, element for element.
pub fn clone_args(v: &Vec<GenericArgument>) -> (r: Vec<GenericArgument>)
    ensures
        view_seq_arg(r@) == view_seq_arg(v@),
    decreases v@,
{
    let mut r: Vec<GenericArgument> = Vec::new();
    let mut i: usize = 0;
    while i < v.len()
        invariant
            i <= v@.len(),
            r@.len() == i,
            forall|j: int| 0 <= j < i ==> view_arg(#[trigger] r@[j]) == view_arg(v@[j]),
        decreases v@.len() - i,
    {
        let e = v[i].clone();
        r.push(e);
        i = i + 1;
    }
    proof {
        lemma_view_seq_arg(v@);
        lemma_view_seq_arg(r@);
        assert(view_seq_arg(r@) =~= view_seq_arg(v@));
    }
    r
}

impl Clone for TypeParamBound {
    fn clone(&self) -> (r: Self)
        ensures
            r@ == self@,
        decreases *self,
    {
        match self {
            TypeParamBound::Trait(tb) => {
                let lifetimes = tb.lifetimes.clone();
                proof {
                    assert(lifetimes@ =~= tb.lifetimes@);
                }
                TypeParamBound::Trait(TraitBound { lifetimes, path: tb.path.clone() })
            },
            TypeParamBound::Lifetime(lt) => TypeParamBound::Lifetime(*lt),
        }
    }
}

impl Clone for GenericConstraint {
    fn clone(&self) -> (r: Self)
        ensures
            r@ == self@,
        decreases *self,
    {
        match self {
            GenericConstraint::Type(p) => {
                let lifetimes = p.lifetimes.clone();
                let bounds = clone_bounds(&p.bounds);
                proof {
                    assert(lifetimes@ =~= p.lifetimes@);
                }
                GenericConstraint::Type(
                    PredicateType { lifetimes, bounded_ty: p.bounded_ty.clone(), bounds },
                )
            },
            GenericConstraint::Lifetime(ld) => {
                let bounds = ld.bounds.clone();
                proof {
                    assert(bounds@ =~= ld.bounds@);
                }
                GenericConstraint::Lifetime(LifetimeDef { lifetime: ld.lifetime, bounds })
            },
        }
    }
}

impl Clone for GenericArgument {
    fn clone(&self) -> (r: Self)
        ensures
            r@ == self@,
        decreases *self,
    {
        match self {
            GenericArgument::Type(t) => GenericArgument::Type(t.clone()),
            GenericArgument::Lifetime(lt) => GenericArgument::Lifetime(*lt),
            GenericArgument::Binding(b) => GenericArgument::Binding(
                Binding { ident: b.ident.clone(), ty: b.ty.clone() },
            ),
            GenericArgument::Constraint(c) => {
                let bounds = clone_bounds(&c.bounds);
                GenericArgument::Constraint(Constraint { ident: c.ident.clone(), bounds })
            },
            GenericArgument::Const(_) => GenericArgument::Const(Expr {}),
        }
    }
}

impl Clone for Generics {
    fn clone(&self) -> (r: Self)
        ensures
            r@ == self@,
        decreases *self,
    {
        let params = self.params.clone();
        let constraints = clone_constraints(&self.constraints);
        proof {
            assert(params@ =~= self.params@);
        }
        Generics { params, constraints, param_map: self.param_map.clone() }
    }
}


impl Lifetime {
    /// Rewrites this lifetime symbol through the substitution map of a
    /// fresh-generics clone.
    pub fn clone_with_fresh_generics(self, param_map: &ParamMap) -> (r: Self)
        requires
            crate::fresh::ok_lt(param_map@, self),
        ensures
            r == crate::fresh::sub_lt(param_map@, self),
    {
        match param_map.get(GenericParam::Lifetime(self)) {
            Some(GenericParam::Lifetime(fresh)) => fresh,
            _ => vstd::pervasive::unreached(),
        }
    }
}

/// Rewrites a list of lifetime symbols through the substitution map of a
/// fresh-generics clone.
pub fn fresh_lifetimes(v: &Vec<Lifetime>, param_map: &ParamMap) -> (r: Vec<Lifetime>)
    requires
        crate::fresh::ok_seq_lt(param_map@, v@),
    ensures
        r@ == crate::fresh::sub_seq_lt(param_map@, v@),
{
    let mut r: Vec<Lifetime> = Vec::new();
    let mut i: usize = 0;
    while i < v.len()
        invariant
            i <= v@.len(),
            r@.len() == i,
            crate::fresh::ok_seq_lt(param_map@, v@),
            forall|j: int|
                0 <= j < i ==> #[trigger] r@[j] == crate::fresh::sub_lt(param_map@, v@[j]),
        decreases v@.len() - i,
    {
        let l = v[i].clone_with_fresh_generics(param_map);
        r.push(l);
        i = i + 1;
    }
    proof {
        assert(r@ =~= crate::fresh::sub_seq_lt(param_map@, v@));
    }
    r
}

impl TypeParamBound {
    /// Rewrites every symbol in this bound through the substitution map of a
    /// fresh-generics clone.
    pub fn clone_with_fresh_generics(&self, param_map: &ParamMap) -> (r: Self)
        requires
            crate::fresh::ok_bound(param_map@, self@),
        ensures
            r@ == crate::fresh::sub_bound(param_map@, self@),
        decreases *self,
    {
        match self {
            TypeParamBound::Lifetime(l) => TypeParamBound::Lifetime(
                l.clone_with_fresh_generics(param_map),
            ),
            TypeParamBound::Trait(tb) => TypeParamBound::Trait(
                TraitBound {
                    lifetimes: fresh_lifetimes(&tb.lifetimes, param_map),
                    path: tb.path.clone_with_fresh_generics(param_map),
                },
            ),
        }
    }
}

/// Rewrites a list of bounds through the substitution map of a
/// fresh-generics clone.
pub fn fresh_bounds(v: &Vec<TypeParamBound>, param_map: &ParamMap) -> (r: Vec<TypeParamBound>)
    requires
        crate::fresh::ok_seq_bound(param_map@, view_seq_bound(v@)),
    ensures
        view_seq_bound(r@) == crate::fresh::sub_seq_bound(param_map@, view_seq_bound(v@)),
    decreases v@,
{
    proof {
        lemma_view_seq_bound(v@);
        crate::fresh::lemma_ok_seq_bound(param_map@, view_seq_bound(v@));
    }
    let mut r: Vec<TypeParamBound> = Vec::new();
    let mut i: usize = 0;
    while i < v.len()
        invariant
            i <= v@.len(),
            r@.len() == i,
            crate::fresh::ok_seq_bound(param_map@, view_seq_bound(v@)),
            view_seq_bound(v@).len() == v@.len(),
            forall|j: int|
                0 <= j < v@.len() ==> view_seq_bound(v@)[j] == view_bound(#[trigger] v@[j]),
            forall|j: int|
                0 <= j < i ==> view_bound(#[trigger] r@[j]) == crate::fresh::sub_bound(
                    param_map@,
                    view_bound(v@[j]),
                ),
        decreases v@.len() - i,
    {
        proof {
            crate::fresh::lemma_ok_seq_bound(param_map@, view_seq_bound(v@));
        }
        let b = v[i].clone_with_fresh_generics(param_map);
        r.push(b);
        i = i + 1;
    }
    proof {
        lemma_view_seq_bound(r@);
        crate::fresh::lemma_sub_seq_bound(param_map@, view_seq_bound(v@));
        assert(view_seq_bound(r@) =~= crate::fresh::sub_seq_bound(param_map@, view_seq_bound(v@)));
    }
    r
}

impl GenericArgument {
    /// Rewrites every symbol in this argument through the substitution map
    /// of a fresh-generics clone.
    pub fn clone_with_fresh_generics(&self, param_map: &ParamMap) -> (r: Self)
        requires
            crate::fresh::ok_arg(param_map@, self@),
        ensures
            r@ == crate::fresh::sub_arg(param_map@, self@),
        decreases *self,
    {
        match self {
            GenericArgument::Type(t) => GenericArgument::Type(
                t.clone_with_fresh_generics(param_map),
            ),
            GenericArgument::Lifetime(l) => GenericArgument::Lifetime(
                l.clone_with_fresh_generics(param_map),
            ),
            GenericArgument::Binding(b) => GenericArgument::Binding(
                Binding {
                    ident: b.ident.clone(),
                    ty: b.ty.clone_with_fresh_generics(param_map),
                },
            ),
            GenericArgument::Constraint(c) => GenericArgument::Constraint(
                Constraint {
                    ident: c.ident.clone(),
                    bounds: fresh_bounds(&c.bounds, param_map),
                },
            ),
            GenericArgument::Const(_) => vstd::pervasive::unreached(),
        }
    }
}

/// Rewrites a list of generic arguments through the substitution map of a
/// fresh-generics clone.
pub fn fresh_args(v: &Vec<GenericArgument>, param_map: &ParamMap) -> (r: Vec<GenericArgument>)
    requires
        crate::fresh::ok_seq_arg(param_map@, view_seq_arg(v@)),
    ensures
        view_seq_arg(r@) == crate::fresh::sub_seq_arg(param_map@, view_seq_arg(v@)),
    decreases v@,
{
    proof {
        lemma_view_seq_arg(v@);
        crate::fresh::lemma_ok_seq_arg(param_map@, view_seq_arg(v@));
    }
    let mut r: Vec<GenericArgument> = Vec::new();
    let mut i: usize = 0;
    while i < v.len()
        invariant
            i <= v@.len(),
            r@.len() == i,
            crate::fresh::ok_seq_arg(param_map@, view_seq_arg(v@)),
            view_seq_arg(v@).len() == v@.len(),
            forall|j: int|
                0 <= j < v@.len() ==> view_seq_arg(v@)[j] == view_arg(#[trigger] v@[j]),
            forall|j: int|
                0 <= j < i ==> view_arg(#[trigger] r@[j]) == crate::fresh::sub_arg(
                    param_map@,
                    view_arg(v@[j]),
                ),
        decreases v@.len() - i,
    {
        proof {
            crate::fresh::lemma_ok_seq_arg(param_map@, view_seq_arg(v@));
        }
        let a = v[i].clone_with_fresh_generics(param_map);
        r.push(a);
        i = i + 1;
    }
    proof {
        lemma_view_seq_arg(r@);
        crate::fresh::lemma_sub_seq_arg(param_map@, view_seq_arg(v@));
        assert(view_seq_arg(r@) =~= crate::fresh::sub_seq_arg(param_map@, view_seq_arg(v@)));
    }
    r
}

impl GenericArguments {
    /// Rewrites every symbol in these arguments through the substitution map
    /// of a fresh-generics clone.
    pub fn clone_with_fresh_generics(&self, param_map: &ParamMap) -> (r: Self)
        requires
            crate::fresh::ok_seq_arg(param_map@, view_seq_arg(self.args@)),
        ensures
            view_seq_arg(r.args@) == crate::fresh::sub_seq_arg(param_map@, view_seq_arg(self.args@)),
        decreases *self,
    {
        GenericArguments { args: fresh_args(&self.args, param_map) }
    }
}

impl GenericConstraint {
    /// Rewrites every symbol in this constraint through the substitution map
    /// of a fresh-generics clone.
    pub fn clone_with_fresh_generics(&self, param_map: &ParamMap) -> (r: Self)
        requires
            crate::fresh::ok_constraint(param_map@, self@),
        ensures
            r@ == crate::fresh::sub_constraint(param_map@, self@),
        decreases *self,
    {
        match self {
            GenericConstraint::Type(p) => GenericConstraint::Type(
                PredicateType {
                    lifetimes: fresh_lifetimes(&p.lifetimes, param_map),
                    bounded_ty: p.bounded_ty.clone_with_fresh_generics(param_map),
                    bounds: fresh_bounds(&p.bounds, param_map),
                },
            ),
            GenericConstraint::Lifetime(ld) => GenericConstraint::Lifetime(
                LifetimeDef {
                    lifetime: ld.lifetime.clone_with_fresh_generics(param_map),
                    bounds: fresh_lifetimes(&ld.bounds, param_map),
                },
            ),
        }
    }
}

/// Rewrites a list of constraints through the substitution map of a
/// fresh-generics clone.
pub fn fresh_constraints(v: &Vec<GenericConstraint>, param_map: &ParamMap) -> (r: Vec<
    GenericConstraint,
>)
    requires
        crate::fresh::ok_seq_constraint(param_map@, view_seq_constraint(v@)),
    ensures
        view_seq_constraint(r@) == crate::fresh::sub_seq_constraint(
            param_map@,
            view_seq_constraint(v@),
        ),
    decreases v@,
{
    proof {
        lemma_view_seq_constraint(v@);
        crate::fresh::lemma_ok_seq_constraint(param_map@, view_seq_constraint(v@));
    }
    let mut r: Vec<GenericConstraint> = Vec::new();
    let mut i: usize = 0;
    while i < v.len()
        invariant
            i <= v@.len(),
            r@.len() == i,
            crate::fresh::ok_seq_constraint(param_map@, view_seq_constraint(v@)),
            view_seq_constraint(v@).len() == v@.len(),
            forall|j: int|
                0 <= j < v@.len() ==> view_seq_constraint(v@)[j] == view_constraint(
                    #[trigger] v@[j],
                ),
            forall|j: int|
                0 <= j < i ==> view_constraint(#[trigger] r@[j]) == crate::fresh::sub_constraint(
                    param_map@,
                    view_constraint(v@[j]),
                ),
        decreases v@.len() - i,
    {
        proof {
            crate::fresh::lemma_ok_seq_constraint(param_map@, view_seq_constraint(v@));
        }
        let c = v[i].clone_with_fresh_generics(param_map);
        r.push(c);
        i = i + 1;
    }
    proof {
        lemma_view_seq_constraint(r@);
        crate::fresh::lemma_sub_seq_constraint(param_map@, view_seq_constraint(v@));
        assert(view_seq_constraint(r@) =~= crate::fresh::sub_seq_constraint(
            param_map@,
            view_seq_constraint(v@),
        ));
    }
    r
}

impl GenericParam {
    /// Mints a fresh symbol of the same kind as this parameter from the
    /// arena's counters. A `const` parameter is never supported and is
    /// excluded.
    pub fn get_fresh_param(self, ctx: &mut Arena) -> (r: Self)
        requires
            !(self is Const),
            old(ctx).counters_wf(),
            old(ctx).lifetimes < usize::MAX,
            old(ctx).type_params < usize::MAX,
        ensures
            final(ctx).counters_wf(),
            self is Lifetime ==> r == GenericParam::Lifetime(Lifetime(old(ctx).lifetimes))
                && final(ctx).lifetimes == old(ctx).lifetimes + 1
                && final(ctx).type_params == old(ctx).type_params,
            self is Type ==> r == GenericParam::Type(TypeParam(old(ctx).type_params))
                && final(ctx).type_params == old(ctx).type_params + 1
                && final(ctx).lifetimes == old(ctx).lifetimes,
    {
        match self {
            GenericParam::Type(_) => GenericParam::Type(TypeParam(ctx.mint_type_param())),
            GenericParam::Lifetime(_) => GenericParam::Lifetime(Lifetime(ctx.mint_lifetime())),
            GenericParam::Const(_) => vstd::pervasive::unreached(),
        }
    }
}


proof fn lemma_entries_map_dom(s: Seq<ParamEntry>)
    ensures
        forall|k: Seq<char>|
            entries_map(s).contains_key(k) <==> (exists|j: int|
                0 <= j < s.len() && (#[trigger] s[j]).name@ == k),
    decreases s.len(),
{
    if s.len() > 0 {
        lemma_entries_map_dom(s.drop_last());
        assert(forall|j: int| 0 <= j < s.len() - 1 ==> #[trigger] s[j] == s.drop_last()[j]);
        assert(s[s.len() - 1] == s.last());
        assert(entries_map(s) == entries_map(s.drop_last()).insert(s.last().name@, s.last().param));
        assert forall|k: Seq<char>| entries_map(s).contains_key(k) implies (exists|j: int|
            0 <= j < s.len() && (#[trigger] s[j]).name@ == k) by {
            if k == s.last().name@ {
                assert((s[s.len() - 1]).name@ == k);
            } else {
                assert(entries_map(s.drop_last()).contains_key(k));
                let j = choose|j: int|
                    0 <= j < s.drop_last().len() && (#[trigger] s.drop_last()[j]).name@ == k;
                assert(s[j] == s.drop_last()[j]);
                assert((s[j]).name@ == k);
            }
        }
        assert forall|k: Seq<char>|
            (exists|j: int| 0 <= j < s.len() && (#[trigger] s[j]).name@ == k) implies entries_map(
            s,
        ).contains_key(k) by {
            let j = choose|j: int| 0 <= j < s.len() && (#[trigger] s[j]).name@ == k;
            if j < s.len() - 1 {
                assert(s.drop_last()[j] == s[j]);
                assert((s.drop_last()[j]).name@ == k);
                assert(entries_map(s.drop_last()).contains_key(k));
            } else {
                assert(k == s.last().name@);
            }
        }
    }
}

/// The names bound by the first `n` entries.
spec fn entry_names(s: Seq<ParamEntry>, n: int) -> Set<Seq<char>> {
    Set::new(|k: Seq<char>| exists|j: int| 0 <= j < n && (#[trigger] s[j]).name@ == k)
}

impl SynParamMap {
    /// Rebuilds the lookup table for a fresh-generics clone: each name whose
    /// symbol the substitution maps keeps its binding under the fresh
    /// symbol; every other name is dropped.
    pub fn clone_with_fresh_generics(&self, param_map: &ParamMap) -> (r: Self)
        ensures
            r@ == crate::fresh::sub_table(self@, param_map@),
    {
        let ghost t = self@;
        let ghost m = param_map@;
        let ghost full = Map::new(
            |k: Seq<char>| t.contains_key(k) && m.contains_key(t[k]),
            |k: Seq<char>| m[t[k]],
        );
        let mut r = SynParamMap::new();
        proof {
            lemma_entries_map_dom(self.entries@);
            assert(entry_names(self.entries@, 0) =~= Set::<Seq<char>>::empty());
            assert(full.restrict(entry_names(self.entries@, 0)) =~= Map::<
                Seq<char>,
                GenericParam,
            >::empty());
            assert(r@ =~= initial_param_map().union_prefer_right(
                full.restrict(entry_names(self.entries@, 0)),
            ));
        }
        let mut i: usize = 0;
        while i < self.entries.len()
            invariant
                i <= self.entries@.len(),
                t == self@,
                m == param_map@,
                full == Map::new(
                    |k: Seq<char>| t.contains_key(k) && m.contains_key(t[k]),
                    |k: Seq<char>| m[t[k]],
                ),
                forall|k: Seq<char>|
                    entries_map(self.entries@).contains_key(k) <==> (exists|j: int|
                        0 <= j < self.entries@.len() && (#[trigger] self.entries@[j]).name@ == k),
                r@ == initial_param_map().union_prefer_right(
                    full.restrict(entry_names(self.entries@, i as int)),
                ),
            decreases self.entries@.len() - i,
        {
            let ghost prev_names = entry_names(self.entries@, i as int);
            let name = &self.entries[i].name;
            proof {
                assert(t.contains_key(name@));
            }
            let live = match entries_get(&self.entries, self.entries.len(), name) {
                Some(p) => p,
                None => {
                    proof {
                        assert(self.entries@.take(self.entries@.len() as int) =~= self.entries@);
                    }
                    vstd::pervasive::unreached()
                },
            };
            proof {
                assert(self.entries@.take(self.entries@.len() as int) =~= self.entries@);
                assert(live == t[name@]);
            }
            match param_map.get(live) {
                Some(mapped) => {
                    r.insert(name.as_str(), mapped);
                    proof {
                        assert(full.contains_key(name@) && full[name@] == mapped);
                        assert(entry_names(self.entries@, i + 1) =~= prev_names.insert(name@));
                        assert(r@ =~= initial_param_map().union_prefer_right(
                            full.restrict(entry_names(self.entries@, i + 1)),
                        ));
                    }
                },
                None => {
                    proof {
                        assert(!full.contains_key(name@));
                        assert(entry_names(self.entries@, i + 1) =~= prev_names.insert(name@));
                        assert(full.restrict(entry_names(self.entries@, i + 1))
                            =~= full.restrict(prev_names));
                    }
                },
            }
            i = i + 1;
        }
        proof {
            assert(full.restrict(entry_names(self.entries@, self.entries@.len() as int)) =~= full);
            assert(r@ =~= crate::fresh::sub_table(t, m));
        }
        r
    }
}

/// True of a symbol minted below the given counters: a lifetime strictly
/// between the reserved `'static` number and the lifetime counter, or a type
/// parameter below the type-parameter counter. Never true of a `const`
/// parameter.
pub open spec fn param_minted(p: GenericParam, lifetimes: nat, type_params: nat) -> bool {
    match p {
        GenericParam::Lifetime(l) => 1 <= l.0 < lifetimes,
        GenericParam::Type(t) => t.0 < type_params,
        GenericParam::Const(_) => false,
    }
}

/// True of a symbol minted at or past the given counters: the fresh range.
pub open spec fn param_fresh_from(p: GenericParam, lifetimes: nat, type_params: nat) -> bool {
    match p {
        GenericParam::Lifetime(l) => l.0 >= lifetimes,
        GenericParam::Type(t) => t.0 >= type_params,
        GenericParam::Const(_) => false,
    }
}

impl Generics {
    /// Well-formedness against an arena's counters: the declared parameters
    /// are distinct minted lifetime or type symbols; every symbol a
    /// constraint mentions is declared, or is the well-known `'static`
    /// lifetime; and every symbol the lookup table binds was minted below
    /// the counters, or is the well-known `'static` lifetime.
    pub open spec fn wf(self, lifetimes: nat, type_params: nat) -> bool {
        &&& forall|i: int|
            0 <= i < self.params@.len() ==> param_minted(
                #[trigger] self.params@[i],
                lifetimes,
                type_params,
            )
        &&& forall|i: int, j: int|
            #![trigger self.params@[i], self.params@[j]]
            0 <= i < j < self.params@.len() ==> self.params@[i] != self.params@[j]
        &&& forall|p: GenericParam|
            crate::fresh::seq_constraint_mentions(view_seq_constraint(self.constraints@), p)
                ==> self.params@.contains(p) || p == GenericParam::Lifetime(static_lifetime())
        &&& forall|k: Seq<char>|
            #[trigger] self.param_map@.contains_key(k) ==> (self.param_map@[k]
                == GenericParam::Lifetime(static_lifetime()) || param_minted(
                self.param_map@[k],
                lifetimes,
                type_params,
            ))
    }

    /// Produces a structurally identical definition whose every declared
    /// symbol is newly minted, together with the substitution map used, so
    /// that dependent types and values can be renamed the same way.
    ///
    /// The substitution map is a bijection from the declared parameters
    /// (plus the well-known `'static` lifetime, which always maps to itself)
    /// onto the fresh parameters, and no symbol of the source definition
    /// other than `'static` appears anywhere in the result.
    pub fn clone_with_fresh_generics(&self, ctx: &mut Arena) -> (r: (Generics, ParamMap))
        requires
            old(ctx).counters_wf(),
            self.wf(old(ctx).lifetimes as nat, old(ctx).type_params as nat),
            old(ctx).lifetimes + self.params@.len() < usize::MAX,
            old(ctx).type_params + self.params@.len() < usize::MAX,
        ensures
            final(ctx).counters_wf(),
            old(ctx).lifetimes <= final(ctx).lifetimes,
            old(ctx).type_params <= final(ctx).type_params,
            final(ctx).lifetimes <= old(ctx).lifetimes + self.params@.len(),
            final(ctx).type_params <= old(ctx).type_params + self.params@.len(),
            r.0.params@.len() == self.params@.len(),
            // the substitution map: 'static to itself, each declared
            // parameter to the fresh parameter at the same position
            r.1@[GenericParam::Lifetime(static_lifetime())] == GenericParam::Lifetime(
                static_lifetime(),
            ),
            forall|q: GenericParam|
                #[trigger] r.1@.contains_key(q) <==> (q == GenericParam::Lifetime(
                    static_lifetime(),
                ) || self.params@.contains(q)),
            forall|i: int|
                0 <= i < self.params@.len() ==> r.1@[#[trigger] self.params@[i]]
                    == r.0.params@[i],
            // kinds are kept, and the fresh symbols come from the minted
            // range of this call
            forall|i: int|
                0 <= i < self.params@.len() ==> ((self.params@[i] is Lifetime <==> (
                #[trigger] r.0.params@[i]) is Lifetime) && (self.params@[i] is Type
                    <==> r.0.params@[i] is Type)),
            forall|i: int|
                0 <= i < r.0.params@.len() ==> param_fresh_from(
                    #[trigger] r.0.params@[i],
                    old(ctx).lifetimes as nat,
                    old(ctx).type_params as nat,
                ),
            // the map is injective: distinct symbols get distinct
            // replacements
            forall|p: GenericParam, q: GenericParam|
                #![trigger r.1@[p], r.1@[q]]
                r.1@.contains_key(p) && r.1@.contains_key(q) && p != q ==> r.1@[p] != r.1@[q],
            // the clone is the substitution applied throughout
            view_seq_constraint(r.0.constraints@) == crate::fresh::sub_seq_constraint(
                r.1@,
                view_seq_constraint(self.constraints@),
            ),
            r.0.param_map@ == crate::fresh::sub_table(self.param_map@, r.1@),
            // no symbol of the source other than 'static appears in the
            // clone
            forall|p: GenericParam|
                #[trigger] crate::fresh::generics_mentions(view_generics(*self), p) && p
                    != GenericParam::Lifetime(static_lifetime())
                    ==> !crate::fresh::generics_mentions(view_generics(r.0), p),
            r.0.wf(final(ctx).lifetimes as nat, final(ctx).type_params as nat),
    {
        let ghost lt0 = old(ctx).lifetimes as nat;
        let ghost tp0 = old(ctx).type_params as nat;
        let mut fresh_map = ParamMap::new();
        let mut new_params: Vec<GenericParam> = Vec::new();
        let mut i: usize = 0;
        while i < self.params.len()
            invariant
                i <= self.params@.len(),
                new_params@.len() == i,
                ctx.counters_wf(),
                self.wf(lt0, tp0),
                lt0 <= ctx.lifetimes,
                tp0 <= ctx.type_params,
                ctx.lifetimes <= old(ctx).lifetimes + i,
                ctx.type_params <= old(ctx).type_params + i,
                old(ctx).lifetimes + self.params@.len() < usize::MAX,
                old(ctx).type_params + self.params@.len() < usize::MAX,
                old(ctx).lifetimes == lt0,
                old(ctx).type_params == tp0,
                fresh_map@[GenericParam::Lifetime(static_lifetime())] == GenericParam::Lifetime(
                    static_lifetime(),
                ),
                forall|q: GenericParam|
                    #[trigger] fresh_map@.contains_key(q) <==> (q == GenericParam::Lifetime(
                        static_lifetime(),
                    ) || exists|j: int| 0 <= j < i && self.params@[j] == q),
                forall|j: int|
                    0 <= j < i ==> fresh_map@[#[trigger] self.params@[j]] == new_params@[j],
                forall|j: int|
                    0 <= j < i ==> ((self.params@[j] is Lifetime <==> (
                    #[trigger] new_params@[j]) is Lifetime) && (self.params@[j] is Type
                        <==> new_params@[j] is Type)),
                forall|j: int|
                    0 <= j < i ==> param_fresh_from(#[trigger] new_params@[j], lt0, tp0),
                forall|j: int|
                    0 <= j < i ==> param_minted(
                        #[trigger] new_params@[j],
                        ctx.lifetimes as nat,
                        ctx.type_params as nat,
                    ),
                forall|j: int, k: int|
                    0 <= j < k < i ==> #[trigger] new_params@[j] != #[trigger] new_params@[k],
            decreases self.params@.len() - i,
        {
            let p = self.params[i];
            proof {
                assert(param_minted(p, lt0, tp0));
            }
            let np = p.get_fresh_param(ctx);
            fresh_map.insert(p, np);
            new_params.push(np);
            i = i + 1;
        }
        proof {
            assert(forall|q: GenericParam|
                #[trigger] fresh_map@.contains_key(q) <==> (q == GenericParam::Lifetime(
                    static_lifetime(),
                ) || self.params@.contains(q)));
        }
        let ghost m = fresh_map@;
        let ghost good = |p: GenericParam|
            p == GenericParam::Lifetime(static_lifetime()) || new_params@.contains(p);
        proof {
            assert forall|q: GenericParam| #[trigger] m.contains_key(q) implies good(m[q]) by {
                if q != GenericParam::Lifetime(static_lifetime()) {
                    let j = choose|j: int| 0 <= j < self.params@.len() && self.params@[j] == q;
                    assert(m[q] == new_params@[j]);
                    assert(new_params@.contains(new_params@[j]));
                }
            }
            assert forall|q: GenericParam|
                crate::fresh::seq_constraint_mentions(
                    view_seq_constraint(self.constraints@),
                    q,
                ) implies #[trigger] crate::fresh::map_has_kind(m, q) by {
                if q == GenericParam::Lifetime(static_lifetime()) {
                    assert(m.contains_key(q));
                } else {
                    assert(self.params@.contains(q));
                    let j = choose|j: int| 0 <= j < self.params@.len() && self.params@[j] == q;
                    assert(param_minted(q, lt0, tp0));
                    assert(m[q] == new_params@[j]);
                }
            }
            crate::fresh::lemma_good_seq_constraint(
                m,
                view_seq_constraint(self.constraints@),
                good,
            );
        }
        let constraints = fresh_constraints(&self.constraints, &fresh_map);
        let table = self.param_map.clone_with_fresh_generics(&fresh_map);
        let out = Generics { params: new_params, constraints, param_map: table };
        proof {
            lemma_fresh_clone_properties(
                *self,
                out,
                m,
                good,
                lt0,
                tp0,
                ctx.lifetimes as nat,
                ctx.type_params as nat,
            );
        }
        (out, fresh_map)
    }
}

/// Ties the pieces of a fresh-generics clone together: the source's symbols
/// are all old or `'static`, the clone's symbols are all fresh or
/// `'static`, so none is shared; and the clone is well formed against the
/// grown counters.
proof fn lemma_fresh_clone_properties(
    source: Generics,
    out: Generics,
    m: Map<GenericParam, GenericParam>,
    good: spec_fn(GenericParam) -> bool,
    lt0: nat,
    tp0: nat,
    lt1: nat,
    tp1: nat,
)
    requires
        source.wf(lt0, tp0),
        lt0 <= lt1,
        tp0 <= tp1,
        lt0 >= 1,
        good == (|p: GenericParam|
            p == GenericParam::Lifetime(static_lifetime()) || out.params@.contains(p)),
        out.params@.len() == source.params@.len(),
        forall|i: int|
            0 <= i < out.params@.len() ==> param_fresh_from(#[trigger] out.params@[i], lt0, tp0),
        forall|i: int|
            0 <= i < out.params@.len() ==> param_minted(#[trigger] out.params@[i], lt1, tp1),
        crate::fresh::map_good(m, good),
        forall|i: int, j: int|
            0 <= i < j < out.params@.len() ==> #[trigger] out.params@[i] != #[trigger] out.params@[j],
        forall|p: GenericParam|
            crate::fresh::seq_constraint_mentions(view_seq_constraint(out.constraints@), p)
                ==> #[trigger] good(p),
        out.param_map@ == crate::fresh::sub_table(source.param_map@, m),
    ensures
        forall|p: GenericParam|
            #[trigger] crate::fresh::generics_mentions(view_generics(source), p) && p
                != GenericParam::Lifetime(static_lifetime())
                ==> !crate::fresh::generics_mentions(view_generics(out), p),
        out.wf(lt1, tp1),
{
    crate::fresh::lemma_sub_table_values(source.param_map@, m);
    let stat = GenericParam::Lifetime(static_lifetime());
    assert forall|p: GenericParam|
        crate::fresh::generics_mentions(view_generics(source), p) && p != stat
            implies !crate::fresh::generics_mentions(view_generics(out), p) by {
        // every symbol of the source other than 'static was minted below
        // the old counters
        assert(param_minted(p, lt0, tp0) || source.params@.contains(p)) by {
            if source.params@.contains(p) {
            } else if crate::fresh::seq_constraint_mentions(
                view_seq_constraint(source.constraints@),
                p,
            ) {
                assert(source.params@.contains(p));
            } else {
                let k = choose|k: Seq<char>|
                    #[trigger] source.param_map@.contains_key(k) && source.param_map@[k] == p;
                assert(param_minted(p, lt0, tp0));
            }
        }
        assert(param_minted(p, lt0, tp0)) by {
            if source.params@.contains(p) {
                let j = choose|j: int|
                    0 <= j < source.params@.len() && source.params@[j] == p;
                assert(param_minted(source.params@[j], lt0, tp0));
            }
        }
        // while every symbol of the clone is 'static or freshly minted
        if crate::fresh::generics_mentions(view_generics(out), p) {
            if out.params@.contains(p) {
                let j = choose|j: int| 0 <= j < out.params@.len() && out.params@[j] == p;
                assert(param_fresh_from(out.params@[j], lt0, tp0));
                assert(false);
            } else if crate::fresh::seq_constraint_mentions(
                view_seq_constraint(out.constraints@),
                p,
            ) {
                assert(good(p));
                assert(out.params@.contains(p));
                assert(false);
            } else {
                let k = choose|k: Seq<char>|
                    #[trigger] out.param_map@.contains_key(k) && out.param_map@[k] == p;
                if p != stat {
                    let q = choose|q: GenericParam|
                        #[trigger] m.contains_key(q) && m[q] == out.param_map@[k];
                    assert(good(p));
                    assert(out.params@.contains(p));
                    let j = choose|j: int| 0 <= j < out.params@.len() && out.params@[j] == p;
                    assert(param_fresh_from(out.params@[j], lt0, tp0));
                }
                assert(false);
            }
        }
    }
    assert forall|p: GenericParam|
        crate::fresh::seq_constraint_mentions(view_seq_constraint(out.constraints@), p) implies (
    out.params@.contains(p) || p == stat) by {
        assert(good(p));
    }
    assert forall|k: Seq<char>| #[trigger] out.param_map@.contains_key(k) implies (
    out.param_map@[k] == stat || param_minted(out.param_map@[k], lt1, tp1)) by {
        if out.param_map@[k] != stat {
            let q = choose|q: GenericParam|
                #[trigger] m.contains_key(q) && m[q] == out.param_map@[k];
            assert(good(out.param_map@[k]));
            assert(out.params@.contains(out.param_map@[k]));
            let j = choose|j: int|
                0 <= j < out.params@.len() && out.params@[j] == out.param_map@[k];
            assert(param_minted(out.params@[j], lt1, tp1));
        }
    }
}

impl Default for Generics {
    /// An empty generic definition: no parameters, no constraints, and a
    /// lookup table holding only the well-known `'static` lifetime.
    fn default() -> (r: Self)
        ensures
            r.params@.len() == 0,
            r.constraints@.len() == 0,
            r.param_map@ == initial_param_map(),
    {
        Generics {
            params: Vec::new(),
            constraints: Vec::new(),
            param_map: SynParamMap::new(),
        }
    }
}

} // verus!
