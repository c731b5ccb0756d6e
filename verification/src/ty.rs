//! The type-node algebra: structural type values.
//!
//! A type is a closed set of variants: an unresolved placeholder, a tuple
//! (the empty tuple is unit), the primitive `str` type, a reference, an
//! explicit dereference, a trait object, a data-structure type, a resolved
//! path, or a bare type-parameter reference.

use vstd::prelude::*;

use crate::data::Data;
use crate::data::DataV;
use crate::data::Field;
use crate::data::FieldV;
use crate::data::StructV;
use crate::data::Variant;
use crate::data::VariantV;
use crate::data::attrs_view;
use crate::generics::Generics;
use crate::generics::GenericsV;
use crate::generics::Lifetime;
use crate::generics::TypeParam;
use crate::generics::TypeParamBound;
use crate::generics::TypeParamBoundV;
use crate::generics::view_seq_bound;
use crate::ident::Ident;
use crate::path::Path;
use crate::path::PathV;
use crate::path::PathSegmentV;
use crate::generics::SynParamMap;
use crate::generics::ParamMap;
use crate::generics::GenericParam;
use crate::error::Error;
use vstd::pervasive::unreached;

verus! {

/// A structural type value.
#[derive(PartialEq, Eq, Debug)]
pub struct Type(pub TypeNode);

/// The variants of the type algebra.
#[derive(PartialEq, Eq, Debug)]
pub enum TypeNode {
    /// An unresolved/inferred placeholder.
    Infer,
    /// A tuple of types; the empty tuple is the unit type.
    Tuple(Vec<TypeNode>),
    /// The primitive `str` type.
    PrimitiveStr,
    /// A reference, with its mutability and an optional lifetime symbol.
    Reference { is_mut: bool, lifetime: Option<Lifetime>, inner: Box<TypeNode> },
    /// An explicit dereference of a non-reference type.
    Dereference(Box<TypeNode>),
    /// A trait object: its ordered trait/lifetime bound list.
    TraitObject(Vec<TypeParamBound>),
    /// A data-structure type: name, generics and shape.
    DataStructure(Box<DataStructure>),
    /// A resolved module-qualified path.
    Path(Path),
    /// A bare type-parameter reference.
    TypeParam(TypeParam),
}

/// A named data structure with its generics and its shape.
#[derive(PartialEq, Eq, Debug)]
pub struct DataStructure {
    pub name: Ident,
    pub generics: Generics,
    pub data: Data<Type>,
}

/// The mathematical value of a [`TypeNode`] (and of a [`Type`]). The
/// `inner` position of a reference or dereference holds exactly one element.
#[verifier::ext_equal]
pub enum TypeNodeV {
    Infer,
    Tuple(Seq<TypeNodeV>),
    PrimitiveStr,
    Reference { is_mut: bool, lifetime: Option<Lifetime>, inner: Seq<TypeNodeV> },
    Dereference(Seq<TypeNodeV>),
    TraitObject(Seq<TypeParamBoundV>),
    DataStructure { name: Seq<char>, generics: GenericsV, data: DataV<TypeNodeV> },
    Path(PathV),
    TypeParam(TypeParam),
}

/// Builds the mathematical value of a reference type around `inner`.
pub open spec fn reference_v(is_mut: bool, lifetime: Option<Lifetime>, inner: TypeNodeV) -> TypeNodeV {
    TypeNodeV::Reference { is_mut, lifetime, inner: seq![inner] }
}

/// Builds the mathematical value of a dereference node around `inner`.
pub open spec fn dereference_v(inner: TypeNodeV) -> TypeNodeV {
    TypeNodeV::Dereference(seq![inner])
}

pub open spec fn view_type_node(t: TypeNode) -> TypeNodeV
    decreases t,
{
    match t {
        TypeNode::Infer => TypeNodeV::Infer,
        TypeNode::Tuple(types) => TypeNodeV::Tuple(view_seq_type_node(types@)),
        TypeNode::PrimitiveStr => TypeNodeV::PrimitiveStr,
        TypeNode::Reference { is_mut, lifetime, inner } => TypeNodeV::Reference {
            is_mut,
            lifetime,
            inner: seq![view_type_node(*inner)],
        },
        TypeNode::Dereference(inner) => TypeNodeV::Dereference(seq![view_type_node(*inner)]),
        TypeNode::TraitObject(bounds) => TypeNodeV::TraitObject(view_seq_bound(bounds@)),
        TypeNode::DataStructure(ds) => TypeNodeV::DataStructure {
            name: ds.name.name@,
            generics: crate::generics::view_generics(ds.generics),
            data: view_data_type(ds.data),
        },
        TypeNode::Path(path) => TypeNodeV::Path(crate::path::view_path(path)),
        TypeNode::TypeParam(tp) => TypeNodeV::TypeParam(tp),
    }
}

pub open spec fn view_seq_type_node(s: Seq<TypeNode>) -> Seq<TypeNodeV>
    decreases s,
{
    if s.len() == 0 {
        Seq::empty()
    } else {
        seq![view_type_node(s[0])] + view_seq_type_node(s.drop_first())
    }
}

pub proof fn lemma_view_seq_type_node(s: Seq<TypeNode>)
    ensures
        view_seq_type_node(s).len() == s.len(),
        forall|i: int| 0 <= i < s.len() ==> view_seq_type_node(s)[i] == view_type_node(s[i]),
    decreases s,
{
    if s.len() > 0 {
        lemma_view_seq_type_node(s.drop_first());
    }
}

/// The mathematical value of a [`Type`]: that of its node.
pub open spec fn view_type(t: Type) -> TypeNodeV
    decreases t,
{
    view_type_node(t.0)
}

pub open spec fn view_field_type(f: Field<Type>) -> FieldV<TypeNodeV>
    decreases f,
{
    FieldV { accessor: f.accessor@, element: view_type(f.element) }
}

pub open spec fn view_seq_field_type(s: Seq<Field<Type>>) -> Seq<FieldV<TypeNodeV>>
    decreases s,
{
    if s.len() == 0 {
        Seq::empty()
    } else {
        seq![view_field_type(s[0])] + view_seq_field_type(s.drop_first())
    }
}

pub proof fn lemma_view_seq_field_type(s: Seq<Field<Type>>)
    ensures
        view_seq_field_type(s).len() == s.len(),
        forall|i: int| 0 <= i < s.len() ==> view_seq_field_type(s)[i] == view_field_type(s[i]),
    decreases s,
{
    if s.len() > 0 {
        lemma_view_seq_field_type(s.drop_first());
    }
}

pub open spec fn view_variant_type(v: Variant<Type>) -> VariantV<TypeNodeV>
    decreases v,
{
    match v {
        Variant::Unit(uv) => VariantV::Unit { attrs: attrs_view(uv.attrs@) },
        Variant::Tuple(tv) => VariantV::Tuple {
            fields: view_seq_field_type(tv.fields@),
            attrs: attrs_view(tv.attrs@),
        },
        Variant::Struct(sv) => VariantV::Struct {
            fields: view_seq_field_type(sv.fields@),
            attrs: attrs_view(sv.attrs@),
        },
    }
}

pub open spec fn view_seq_variant_type(s: Seq<Variant<Type>>) -> Seq<VariantV<TypeNodeV>>
    decreases s,
{
    if s.len() == 0 {
        Seq::empty()
    } else {
        seq![view_variant_type(s[0])] + view_seq_variant_type(s.drop_first())
    }
}

pub proof fn lemma_view_seq_variant_type(s: Seq<Variant<Type>>)
    ensures
        view_seq_variant_type(s).len() == s.len(),
        forall|i: int| 0 <= i < s.len() ==> view_seq_variant_type(s)[i] == view_variant_type(s[i]),
    decreases s,
{
    if s.len() > 0 {
        lemma_view_seq_variant_type(s.drop_first());
    }
}

/// The mathematical value of a type-level shape.
pub open spec fn view_data_type(d: Data<Type>) -> DataV<TypeNodeV>
    decreases d,
{
    match d {
        Data::Struct(crate::data::Struct::Unit(us)) => DataV::Struct(
            StructV::Unit { attrs: attrs_view(us.attrs@) },
        ),
        Data::Struct(crate::data::Struct::Tuple(ts)) => DataV::Struct(
            StructV::Tuple { fields: view_seq_field_type(ts.fields@), attrs: attrs_view(ts.attrs@) },
        ),
        Data::Struct(crate::data::Struct::Struct(ss)) => DataV::Struct(
            StructV::Struct {
                fields: view_seq_field_type(ss.fields@),
                attrs: attrs_view(ss.attrs@),
            },
        ),
        Data::Enum(e) => DataV::Enum {
            variants: view_seq_variant_type(e.variants@),
            attrs: attrs_view(e.attrs@),
        },
    }
}

impl View for TypeNode {
    type V = TypeNodeV;

    open spec fn view(&self) -> TypeNodeV {
        view_type_node(*self)
    }
}

impl View for Type {
    type V = TypeNodeV;

    open spec fn view(&self) -> TypeNodeV {
        view_type_node(self.0)
    }
}


/// Clones a list of `TypeNode` values, element for element.
pub fn clone_type_nodes(v: &Vec<TypeNode>) -> (r: Vec<TypeNode>)
    ensures
        view_seq_type_node(r@) == view_seq_type_node(v@),
    decreases v@,
{
    let mut r: Vec<TypeNode> = Vec::new();
    let mut i: usize = 0;
    while i < v.len()
        invariant
            i <= v@.len(),
            r@.len() == i,
            forall|j: int| 0 <= j < i ==> view_type_node(#[trigger] r@[j]) == view_type_node(v@[j]),
        decreases v@.len() - i,
    {
        let e = v[i].clone();
        r.push(e);
        i = i + 1;
    }
    proof {
        lemma_view_seq_type_node(v@);
        lemma_view_seq_type_node(r@);
        assert(view_seq_type_node(r@) =~= view_seq_type_node(v@));
    }
    r
}

/// Clones a list of `Field<Type>` values, element for element.
pub fn clone_fields_type(v: &Vec<Field<Type>>) -> (r: Vec<Field<Type>>)
    ensures
        view_seq_field_type(r@) == view_seq_field_type(v@),
    decreases v@,
{
    let mut r: Vec<Field<Type>> = Vec::new();
    let mut i: usize = 0;
    while i < v.len()
        invariant
            i <= v@.len(),
            r@.len() == i,
            forall|j: int| 0 <= j < i ==> view_field_type(#[trigger] r@[j]) == view_field_type(v@[j]),
        decreases v@.len() - i,
    {
        let e = v[i].clone();
        r.push(e);
        i = i + 1;
    }
    proof {
        lemma_view_seq_field_type(v@);
        lemma_view_seq_field_type(r@);
        assert(view_seq_field_type(r@) =~= view_seq_field_type(v@));
    }
    r
}

/// Clones a list of `Variant<Type>` values, element for element.
pub fn clone_variants_type(v: &Vec<Variant<Type>>) -> (r: Vec<Variant<Type>>)
    ensures
        view_seq_variant_type(r@) == view_seq_variant_type(v@),
    decreases v@,
{
    let mut r: Vec<Variant<Type>> = Vec::new();
    let mut i: usize = 0;
    while i < v.len()
        invariant
            i <= v@.len(),
            r@.len() == i,
            forall|j: int| 0 <= j < i ==> view_variant_type(#[trigger] r@[j]) == view_variant_type(v@[j]),
        decreases v@.len() - i,
    {
        let e = v[i].clone();
        r.push(e);
        i = i + 1;
    }
    proof {
        lemma_view_seq_variant_type(v@);
        lemma_view_seq_variant_type(r@);
        assert(view_seq_variant_type(r@) =~= view_seq_variant_type(v@));
    }
    r
}

impl Clone for Field<Type> {
    fn clone(&self) -> (r: Self)
        ensures
            view_field_type(r) == view_field_type(*self),
        decreases *self,
    {
        Field { accessor: self.accessor.clone(), element: self.element.clone() }
    }
}

impl Clone for Variant<Type> {
    fn clone(&self) -> (r: Self)
        ensures
            view_variant_type(r) == view_variant_type(*self),
        decreases *self,
    {
        match self {
            Variant::Unit(uv) => Variant::Unit(
                crate::data::UnitVariant { attrs: crate::ident::clone_attrs(&uv.attrs) },
            ),
            Variant::Tuple(tv) => {
                let fields = clone_fields_type(&tv.fields);
                Variant::Tuple(
                    crate::data::TupleVariant {
                        fields,
                        attrs: crate::ident::clone_attrs(&tv.attrs),
                    },
                )
            },
            Variant::Struct(sv) => {
                let fields = clone_fields_type(&sv.fields);
                Variant::Struct(
                    crate::data::StructVariant {
                        fields,
                        attrs: crate::ident::clone_attrs(&sv.attrs),
                    },
                )
            },
        }
    }
}

impl Clone for Data<Type> {
    fn clone(&self) -> (r: Self)
        ensures
            view_data_type(r) == view_data_type(*self),
        decreases *self,
    {
        match self {
            Data::Struct(crate::data::Struct::Unit(us)) => Data::Struct(
                crate::data::Struct::Unit(
                    crate::data::UnitStruct { attrs: crate::ident::clone_attrs(&us.attrs) },
                ),
            ),
            Data::Struct(crate::data::Struct::Tuple(ts)) => {
                let fields = clone_fields_type(&ts.fields);
                Data::Struct(
                    crate::data::Struct::Tuple(
                        crate::data::TupleStruct {
                            fields,
                            attrs: crate::ident::clone_attrs(&ts.attrs),
                        },
                    ),
                )
            },
            Data::Struct(crate::data::Struct::Struct(ss)) => {
                let fields = clone_fields_type(&ss.fields);
                Data::Struct(
                    crate::data::Struct::Struct(
                        crate::data::StructStruct {
                            fields,
                            attrs: crate::ident::clone_attrs(&ss.attrs),
                        },
                    ),
                )
            },
            Data::Enum(e) => {
                let variants = clone_variants_type(&e.variants);
                Data::Enum(
                    crate::data::Enum { variants, attrs: crate::ident::clone_attrs(&e.attrs) },
                )
            },
        }
    }
}

impl Clone for DataStructure {
    fn clone(&self) -> (r: Self)
        ensures
            r.name.name@ == self.name.name@,
            crate::generics::view_generics(r.generics) == crate::generics::view_generics(
                self.generics,
            ),
            view_data_type(r.data) == view_data_type(self.data),
        decreases *self,
    {
        DataStructure {
            name: self.name.clone(),
            generics: self.generics.clone(),
            data: self.data.clone(),
        }
    }
}

impl Clone for TypeNode {
    fn clone(&self) -> (r: Self)
        ensures
            r@ == self@,
        decreases *self,
    {
        match self {
            TypeNode::Infer => TypeNode::Infer,
            TypeNode::Tuple(types) => TypeNode::Tuple(clone_type_nodes(types)),
            TypeNode::PrimitiveStr => TypeNode::PrimitiveStr,
            TypeNode::Reference { is_mut, lifetime, inner } => TypeNode::Reference {
                is_mut: *is_mut,
                lifetime: *lifetime,
                inner: Box::new((**inner).clone()),
            },
            TypeNode::Dereference(inner) => TypeNode::Dereference(Box::new((**inner).clone())),
            TypeNode::TraitObject(bounds) => TypeNode::TraitObject(
                crate::generics::clone_bounds(bounds),
            ),
            TypeNode::DataStructure(ds) => TypeNode::DataStructure(Box::new((**ds).clone())),
            TypeNode::Path(path) => TypeNode::Path(path.clone()),
            TypeNode::TypeParam(tp) => TypeNode::TypeParam(*tp),
        }
    }
}

impl Clone for Type {
    fn clone(&self) -> (r: Self)
        ensures
            r@ == self@,
        decreases *self,
    {
        Type(self.0.clone())
    }
}


/// The mathematical values of a list of types.
pub open spec fn view_seq_type(s: Seq<Type>) -> Seq<TypeNodeV>
    decreases s,
{
    if s.len() == 0 {
        Seq::empty()
    } else {
        seq![view_type(s[0])] + view_seq_type(s.drop_first())
    }
}

pub proof fn lemma_view_seq_type(s: Seq<Type>)
    ensures
        view_seq_type(s).len() == s.len(),
        forall|i: int| 0 <= i < s.len() ==> view_seq_type(s)[i] == view_type(s[i]),
    decreases s,
{
    if s.len() > 0 {
        lemma_view_seq_type(s.drop_first());
    }
}

/// What dereferencing a type yields: a reference collapses to its inner
/// type; any other type is wrapped in an explicit dereference node.
pub open spec fn spec_dereference(t: TypeNodeV) -> TypeNodeV {
    match t {
        TypeNodeV::Reference { inner, .. } => inner[0],
        _ => dereference_v(t),
    }
}

/// True where `index` may project the `i`-th element: the type is a tuple or
/// a tuple-struct data structure, and `i` is within its arity.
pub open spec fn spec_indexable(t: TypeNodeV, i: int) -> bool {
    match t {
        TypeNodeV::Tuple(ts) => 0 <= i < ts.len(),
        TypeNodeV::DataStructure { data, .. } => {
            data.is_tuple_struct() && 0 <= i < data.struct_fields().len()
        },
        _ => false,
    }
}

/// The `i`-th element of a tuple type or tuple-struct data structure.
pub open spec fn spec_index_of(t: TypeNodeV, i: int) -> TypeNodeV {
    match t {
        TypeNodeV::Tuple(ts) => ts[i],
        TypeNodeV::DataStructure { data, .. } => data.struct_fields()[i].element,
        _ => t,
    }
}

/// True where `as_data` is defined: a data-structure type, or a reference
/// reaching one through any number of reference layers.
pub open spec fn spec_as_data_allowed(t: TypeNodeV) -> bool
    decreases t,
{
    match t {
        TypeNodeV::DataStructure { .. } => true,
        TypeNodeV::Reference { inner, .. } => inner.len() == 1 && spec_as_data_allowed(inner[0]),
        _ => false,
    }
}

/// Wraps every field element of a shape in a reference with the given
/// mutability and lifetime.
pub open spec fn spec_wrap_data(
    d: DataV<TypeNodeV>,
    is_mut: bool,
    lifetime: Option<Lifetime>,
) -> DataV<TypeNodeV> {
    spec_map_data_elems(d, |e: TypeNodeV| reference_v(is_mut, lifetime, e))
}

/// Maps `f` over every field element of a shape, keeping everything else.
pub open spec fn spec_map_data_elems(
    d: DataV<TypeNodeV>,
    f: spec_fn(TypeNodeV) -> TypeNodeV,
) -> DataV<TypeNodeV> {
    let mf = |fld: FieldV<TypeNodeV>| FieldV { accessor: fld.accessor, element: f(fld.element) };
    match d {
        DataV::Struct(StructV::Unit { attrs }) => DataV::Struct(StructV::Unit { attrs }),
        DataV::Struct(StructV::Tuple { fields, attrs }) => DataV::Struct(
            StructV::Tuple { fields: fields.map_values(mf), attrs },
        ),
        DataV::Struct(StructV::Struct { fields, attrs }) => DataV::Struct(
            StructV::Struct { fields: fields.map_values(mf), attrs },
        ),
        DataV::Enum { variants, attrs } => DataV::Enum {
            variants: variants.map_values(
                |v: VariantV<TypeNodeV>|
                    match v {
                        VariantV::Unit { attrs } => VariantV::Unit { attrs },
                        VariantV::Tuple { fields, attrs } => VariantV::Tuple {
                            fields: fields.map_values(mf),
                            attrs,
                        },
                        VariantV::Struct { fields, attrs } => VariantV::Struct {
                            fields: fields.map_values(mf),
                            attrs,
                        },
                    },
            ),
            attrs,
        },
    }
}

/// The shape `as_data` reinterprets a type as: the shape of the data
/// structure itself, with each reference layer's mutability and lifetime
/// propagated onto every field.
pub open spec fn spec_as_data(t: TypeNodeV) -> DataV<TypeNodeV>
    decreases t,
{
    match t {
        TypeNodeV::DataStructure { data, .. } => data,
        TypeNodeV::Reference { is_mut, lifetime, inner } => {
            if inner.len() == 1 {
                spec_wrap_data(spec_as_data(inner[0]), is_mut, lifetime)
            } else {
                DataV::Struct(StructV::Unit { attrs: Seq::empty() })
            }
        },
        _ => DataV::Struct(StructV::Unit { attrs: Seq::empty() }),
    }
}

fn wrap_fields_ref(
    fields: &Vec<Field<Type>>,
    is_mut: bool,
    lifetime: Option<Lifetime>,
) -> (r: Vec<Field<Type>>)
    ensures
        view_seq_field_type(r@) == view_seq_field_type(fields@).map_values(
            |fld: FieldV<TypeNodeV>| FieldV {
                accessor: fld.accessor,
                element: reference_v(is_mut, lifetime, fld.element),
            },
        ),
{
    let mut r: Vec<Field<Type>> = Vec::new();
    let mut i: usize = 0;
    while i < fields.len()
        invariant
            i <= fields@.len(),
            r@.len() == i,
            forall|j: int|
                0 <= j < i ==> view_field_type(#[trigger] r@[j]) == (FieldV {
                    accessor: view_field_type(fields@[j]).accessor,
                    element: reference_v(is_mut, lifetime, view_field_type(fields@[j]).element),
                }),
        decreases fields@.len() - i,
    {
        let fld = &fields[i];
        let element = Type(
            TypeNode::Reference {
                is_mut,
                lifetime,
                inner: Box::new(fld.element.0.clone()),
            },
        );
        r.push(Field { accessor: fld.accessor.clone(), element });
        i = i + 1;
    }
    proof {
        lemma_view_seq_field_type(fields@);
        lemma_view_seq_field_type(r@);
        assert(view_seq_field_type(r@) =~= view_seq_field_type(fields@).map_values(
            |fld: FieldV<TypeNodeV>| FieldV {
                accessor: fld.accessor,
                element: reference_v(is_mut, lifetime, fld.element),
            },
        ));
    }
    r
}

fn wrap_data_ref(d: &Data<Type>, is_mut: bool, lifetime: Option<Lifetime>) -> (r: Data<Type>)
    ensures
        view_data_type(r) == spec_wrap_data(view_data_type(*d), is_mut, lifetime),
{
    match d {
        Data::Struct(crate::data::Struct::Unit(us)) => {
            let r = Data::Struct(
                crate::data::Struct::Unit(
                    crate::data::UnitStruct { attrs: crate::ident::clone_attrs(&us.attrs) },
                ),
            );
            proof {
                assert(view_data_type(r) =~~= spec_wrap_data(view_data_type(*d), is_mut, lifetime));
            }
            r
        },
        Data::Struct(crate::data::Struct::Tuple(ts)) => {
            let fields = wrap_fields_ref(&ts.fields, is_mut, lifetime);
            let r = Data::Struct(
                crate::data::Struct::Tuple(
                    crate::data::TupleStruct { fields, attrs: crate::ident::clone_attrs(&ts.attrs) },
                ),
            );
            proof {
                assert(view_data_type(r) =~~= spec_wrap_data(view_data_type(*d), is_mut, lifetime));
            }
            r
        },
        Data::Struct(crate::data::Struct::Struct(ss)) => {
            let fields = wrap_fields_ref(&ss.fields, is_mut, lifetime);
            let r = Data::Struct(
                crate::data::Struct::Struct(
                    crate::data::StructStruct {
                        fields,
                        attrs: crate::ident::clone_attrs(&ss.attrs),
                    },
                ),
            );
            proof {
                assert(view_data_type(r) =~~= spec_wrap_data(view_data_type(*d), is_mut, lifetime));
            }
            r
        },
        Data::Enum(e) => {
            let mut variants: Vec<Variant<Type>> = Vec::new();
            let mut i: usize = 0;
            while i < e.variants.len()
                invariant
                    i <= e.variants@.len(),
                    variants@.len() == i,
                    forall|j: int|
                        0 <= j < i ==> view_variant_type(#[trigger] variants@[j])
                            == spec_wrap_variant(view_variant_type(e.variants@[j]), is_mut, lifetime),
                decreases e.variants@.len() - i,
            {
                let v: Variant<Type> = match &e.variants[i] {
                    Variant::Unit(uv) => Variant::Unit(
                        crate::data::UnitVariant { attrs: crate::ident::clone_attrs(&uv.attrs) },
                    ),
                    Variant::Tuple(tv) => Variant::Tuple(
                        crate::data::TupleVariant {
                            fields: wrap_fields_ref(&tv.fields, is_mut, lifetime),
                            attrs: crate::ident::clone_attrs(&tv.attrs),
                        },
                    ),
                    Variant::Struct(sv) => Variant::Struct(
                        crate::data::StructVariant {
                            fields: wrap_fields_ref(&sv.fields, is_mut, lifetime),
                            attrs: crate::ident::clone_attrs(&sv.attrs),
                        },
                    ),
                };
                variants.push(v);
                i = i + 1;
            }
            let r = Data::Enum(
                crate::data::Enum { variants, attrs: crate::ident::clone_attrs(&e.attrs) },
            );
            proof {
                lemma_view_seq_variant_type(e.variants@);
                lemma_view_seq_variant_type(r->Enum_0.variants@);
                assert(view_data_type(r) =~~= spec_wrap_data(view_data_type(*d), is_mut, lifetime));
            }
            r
        },
    }
}

/// The wrap of one variant's fields, used to state the enum loop invariant.
pub open spec fn spec_wrap_variant(
    v: VariantV<TypeNodeV>,
    is_mut: bool,
    lifetime: Option<Lifetime>,
) -> VariantV<TypeNodeV> {
    let mf = |fld: FieldV<TypeNodeV>| FieldV {
        accessor: fld.accessor,
        element: reference_v(is_mut, lifetime, fld.element),
    };
    match v {
        VariantV::Unit { attrs } => VariantV::Unit { attrs },
        VariantV::Tuple { fields, attrs } => VariantV::Tuple {
            fields: fields.map_values(mf),
            attrs,
        },
        VariantV::Struct { fields, attrs } => VariantV::Struct {
            fields: fields.map_values(mf),
            attrs,
        },
    }
}

fn as_data_node(t: &TypeNode) -> (r: Data<Type>)
    requires
        spec_as_data_allowed(view_type_node(*t)),
    ensures
        view_data_type(r) == spec_as_data(view_type_node(*t)),
    decreases *t,
{
    match t {
        TypeNode::DataStructure(ds) => ds.data.clone(),
        TypeNode::Reference { is_mut, lifetime, inner } => {
            let inner_data = as_data_node(&**inner);
            wrap_data_ref(&inner_data, *is_mut, *lifetime)
        },
        _ => unreached(),
    }
}

impl Type {
    /// The unit type: the empty tuple.
    pub fn new_unit() -> (r: Self)
        ensures
            r@ == TypeNodeV::Tuple(Seq::<TypeNodeV>::empty()),
    {
        let r = Self(TypeNode::Tuple(Vec::new()));
        proof {
            assert(view_seq_type_node(Seq::<TypeNode>::empty()) =~= Seq::<TypeNodeV>::empty());
            assert(r@ =~= TypeNodeV::Tuple(Seq::<TypeNodeV>::empty()));
        }
        r
    }

    /// A tuple of the given types, in order.
    pub fn new_tuple(types: &[Type]) -> (r: Self)
        ensures
            r@ == TypeNodeV::Tuple(view_seq_type(types@)),
    {
        let mut nodes: Vec<TypeNode> = Vec::new();
        let mut i: usize = 0;
        while i < types.len()
            invariant
                i <= types@.len(),
                nodes@.len() == i,
                forall|j: int|
                    0 <= j < i ==> view_type_node(#[trigger] nodes@[j]) == view_type(types@[j]),
            decreases types@.len() - i,
        {
            let node = types[i].0.clone();
            nodes.push(node);
            i = i + 1;
        }
        proof {
            lemma_view_seq_type_node(nodes@);
            lemma_view_seq_type(types@);
            assert(view_seq_type_node(nodes@) =~= view_seq_type(types@));
        }
        Self(TypeNode::Tuple(nodes))
    }

    /// The primitive `str` type.
    pub fn new_primitive_str() -> (r: Self)
        ensures
            r@ == TypeNodeV::PrimitiveStr,
    {
        Self(TypeNode::PrimitiveStr)
    }

    /// An immutable reference to this type, without an explicit lifetime.
    pub fn new_reference(&self) -> (r: Self)
        ensures
            r@ == reference_v(false, None, self@),
    {
        Self(
            TypeNode::Reference {
                is_mut: false,
                lifetime: None,
                inner: Box::new(self.0.clone()),
            },
        )
    }

    /// An immutable reference to this type with the named lifetime, which
    /// must resolve to a lifetime symbol in `param_map`.
    pub fn new_reference_with_lifetime(&self, lifetime: &str, param_map: &SynParamMap) -> (r:
        Result<Self, Error>)
        ensures
            match r {
                Ok(t) => param_map@.contains_key(lifetime@) && param_map@[lifetime@] is Lifetime
                    && t@ == reference_v(
                    false,
                    Some(param_map@[lifetime@]->Lifetime_0),
                    self@,
                ),
                Err(e) => e == Error::NotALifetime && !(param_map@.contains_key(lifetime@)
                    && param_map@[lifetime@] is Lifetime),
            },
    {
        let lt = match param_map.get_lifetime(lifetime) {
            Ok(lt) => lt,
            Err(e) => {
                return Err(e);
            },
        };
        Ok(
            Self(
                TypeNode::Reference {
                    is_mut: false,
                    lifetime: Some(lt),
                    inner: Box::new(self.0.clone()),
                },
            ),
        )
    }

    /// A mutable reference to this type, without an explicit lifetime.
    pub fn new_reference_mut(&self) -> (r: Self)
        ensures
            r@ == reference_v(true, None, self@),
    {
        Self(
            TypeNode::Reference {
                is_mut: true,
                lifetime: None,
                inner: Box::new(self.0.clone()),
            },
        )
    }

    /// A mutable reference to this type with the named lifetime, which must
    /// resolve to a lifetime symbol in `param_map`.
    pub fn new_reference_mut_with_lifetime(&self, lifetime: &str, param_map: &SynParamMap) -> (r:
        Result<Self, Error>)
        ensures
            match r {
                Ok(t) => param_map@.contains_key(lifetime@) && param_map@[lifetime@] is Lifetime
                    && t@ == reference_v(
                    true,
                    Some(param_map@[lifetime@]->Lifetime_0),
                    self@,
                ),
                Err(e) => e == Error::NotALifetime && !(param_map@.contains_key(lifetime@)
                    && param_map@[lifetime@] is Lifetime),
            },
    {
        let lt = match param_map.get_lifetime(lifetime) {
            Ok(lt) => lt,
            Err(e) => {
                return Err(e);
            },
        };
        Ok(
            Self(
                TypeNode::Reference {
                    is_mut: true,
                    lifetime: Some(lt),
                    inner: Box::new(self.0.clone()),
                },
            ),
        )
    }

    /// Dereferences this type: a reference collapses to its inner type, and
    /// any other type is wrapped in an explicit dereference node.
    pub fn dereference(&self) -> (r: Self)
        ensures
            r@ == spec_dereference(self@),
    {
        match &self.0 {
            TypeNode::Reference { inner, .. } => Self((**inner).clone()),
            _ => Self(TypeNode::Dereference(Box::new(self.0.clone()))),
        }
    }

    /// Projects the `index`-th element type out of a tuple type or a
    /// tuple-struct data-structure type. Any other receiver, or an index out
    /// of bounds, is a construction-time error of the calling generator and
    /// is excluded.
    pub fn index(&self, index: usize) -> (r: Self)
        requires
            spec_indexable(self@, index as int),
        ensures
            r@ == spec_index_of(self@, index as int),
    {
        match &self.0 {
            TypeNode::Tuple(types) => {
                proof {
                    lemma_view_seq_type_node(types@);
                    assert(self@ == TypeNodeV::Tuple(view_seq_type_node(types@)));
                }
                Self(types[index].clone())
            },
            TypeNode::DataStructure(ds) => {
                proof {
                    assert(self@ == TypeNodeV::DataStructure {
                        name: ds.name.name@,
                        generics: crate::generics::view_generics(ds.generics),
                        data: view_data_type(ds.data),
                    });
                }
                match &ds.data {
                    Data::Struct(crate::data::Struct::Tuple(ts)) => {
                        proof {
                            lemma_view_seq_field_type(ts.fields@);
                            assert(view_data_type(ds.data).struct_fields() == view_seq_field_type(
                                ts.fields@,
                            ));
                        }
                        ts.fields[index].element.clone()
                    },
                    _ => unreached(),
                }
            },
            _ => unreached(),
        }
    }

    /// Reinterprets a data-structure type, or a reference to one, as its
    /// shape: each reference layer propagates its mutability and lifetime
    /// onto every field. Any other receiver is a construction-time error of
    /// the calling generator and is excluded.
    pub fn as_data(&self) -> (r: Data<Type>)
        requires
            spec_as_data_allowed(self@),
        ensures
            view_data_type(r) == spec_as_data(self@),
    {
        as_data_node(&self.0)
    }
}

/// Dereferencing a freshly taken reference, mutable or not, with or without
/// a lifetime, yields the referenced type again.
pub proof fn lemma_reference_round_trip(t: TypeNodeV, is_mut: bool, lifetime: Option<Lifetime>)
    ensures
        spec_dereference(reference_v(is_mut, lifetime, t)) == t,
{
}

/// The empty tuple type is the unit type; a tuple of types can be indexed
/// exactly within its arity (anything else is excluded as a
/// construction-time error); and projecting the `i`-th element out of a
/// tuple of types yields exactly the `i`-th given type.
pub proof fn lemma_tuple_shape(ts: Seq<TypeNodeV>)
    ensures
        TypeNodeV::Tuple(view_seq_type(Seq::<Type>::empty())) == TypeNodeV::Tuple(
            Seq::<TypeNodeV>::empty(),
        ),
        forall|i: int| spec_indexable(TypeNodeV::Tuple(ts), i) <==> 0 <= i < ts.len(),
        forall|i: int|
            0 <= i < ts.len() ==> spec_index_of(TypeNodeV::Tuple(ts), i) == ts[i],
{
}


/// A singleton list substitutes elementwise.
proof fn lemma_singleton_sub(m: Map<GenericParam, GenericParam>, t: TypeNodeV)
    ensures
        crate::fresh::ok_seq_type(m, seq![t]) == crate::fresh::ok_type(m, t),
        crate::fresh::sub_seq_type(m, seq![t]) == seq![crate::fresh::sub_type(m, t)],
{
    let s = seq![t];
    assert(s.drop_first() =~= Seq::<TypeNodeV>::empty());
    assert(crate::fresh::ok_seq_type(m, Seq::<TypeNodeV>::empty()));
    assert(crate::fresh::sub_seq_type(m, Seq::<TypeNodeV>::empty()) =~= Seq::<TypeNodeV>::empty());
    assert(crate::fresh::sub_seq_type(m, s) =~= seq![crate::fresh::sub_type(m, t)]);
}

impl TypeNode {
    /// Rewrites every symbol in this type through the substitution map of a
    /// fresh-generics clone.
    pub fn clone_with_fresh_generics(&self, param_map: &ParamMap) -> (r: Self)
        requires
            crate::fresh::ok_type(param_map@, self@),
        ensures
            r@ == crate::fresh::sub_type(param_map@, self@),
        decreases *self,
    {
        match self {
            TypeNode::Infer => TypeNode::Infer,
            TypeNode::PrimitiveStr => TypeNode::PrimitiveStr,
            TypeNode::Tuple(types) => {
                proof {
                    lemma_view_seq_type_node(types@);
                    crate::fresh::lemma_ok_seq_type(param_map@, view_seq_type_node(types@));
                }
                let mut nodes: Vec<TypeNode> = Vec::new();
                let mut i: usize = 0;
                while i < types.len()
                    invariant
                        *self == TypeNode::Tuple(*types),
                        i <= types@.len(),
                        nodes@.len() == i,
                        crate::fresh::ok_seq_type(param_map@, view_seq_type_node(types@)),
                        view_seq_type_node(types@).len() == types@.len(),
                        forall|j: int|
                            0 <= j < types@.len() ==> view_seq_type_node(types@)[j]
                                == view_type_node(#[trigger] types@[j]),
                        forall|j: int|
                            0 <= j < i ==> view_type_node(#[trigger] nodes@[j])
                                == crate::fresh::sub_type(param_map@, view_type_node(types@[j])),
                    decreases types@.len() - i,
                {
                    proof {
                        crate::fresh::lemma_ok_seq_type(param_map@, view_seq_type_node(types@));
                        assert(decreases_to!(*self => (*self)->Tuple_0));
                        assert((*self)->Tuple_0 == *types);
                        assert(decreases_to!(*types => types@[i as int]));
                    }
                    let node = types[i].clone_with_fresh_generics(param_map);
                    nodes.push(node);
                    i = i + 1;
                }
                proof {
                    lemma_view_seq_type_node(nodes@);
                    crate::fresh::lemma_sub_seq_type(param_map@, view_seq_type_node(types@));
                    assert(view_seq_type_node(nodes@) =~= crate::fresh::sub_seq_type(
                        param_map@,
                        view_seq_type_node(types@),
                    ));
                }
                TypeNode::Tuple(nodes)
            },
            TypeNode::Reference { is_mut, lifetime, inner } => {
                let new_lifetime = match lifetime {
                    Some(l) => Some(l.clone_with_fresh_generics(param_map)),
                    None => None,
                };
                proof {
                    lemma_singleton_sub(param_map@, view_type_node(**inner));
                }
                let new_inner = (**inner).clone_with_fresh_generics(param_map);
                proof {
                    assert(seq![new_inner@] =~= crate::fresh::sub_seq_type(
                        param_map@,
                        seq![view_type_node(**inner)],
                    ));
                }
                TypeNode::Reference { is_mut: *is_mut, lifetime: new_lifetime, inner: Box::new(new_inner) }
            },
            TypeNode::Dereference(inner) => {
                proof {
                    lemma_singleton_sub(param_map@, view_type_node(**inner));
                }
                let new_inner = (**inner).clone_with_fresh_generics(param_map);
                proof {
                    assert(seq![new_inner@] =~= crate::fresh::sub_seq_type(
                        param_map@,
                        seq![view_type_node(**inner)],
                    ));
                }
                TypeNode::Dereference(Box::new(new_inner))
            },
            TypeNode::TraitObject(bounds) => TypeNode::TraitObject(
                crate::generics::fresh_bounds(bounds, param_map),
            ),
            TypeNode::DataStructure(_) => unreached(),
            TypeNode::Path(path) => TypeNode::Path(path.clone_with_fresh_generics(param_map)),
            TypeNode::TypeParam(tp) => match param_map.get(GenericParam::Type(*tp)) {
                Some(GenericParam::Type(fresh_tp)) => TypeNode::TypeParam(fresh_tp),
                _ => unreached(),
            },
        }
    }
}

impl Type {
    /// Rewrites every symbol in this type through the substitution map of a
    /// fresh-generics clone.
    pub fn clone_with_fresh_generics(&self, param_map: &ParamMap) -> (r: Self)
        requires
            crate::fresh::ok_type(param_map@, self@),
        ensures
            r@ == crate::fresh::sub_type(param_map@, self@),
        decreases *self,
    {
        Type(self.0.clone_with_fresh_generics(param_map))
    }
}


/// The printable name of a type. A reference is named after its referent; a
/// tuple lists its element names; a path is spelled with `::` between its
/// segments, its generic arguments elided; a type parameter is spelled `T`
/// followed by its symbol number.
pub open spec fn name_of(t: TypeNodeV) -> Seq<char>
    decreases t,
{
    match t {
        TypeNodeV::Tuple(ts) => seq!['('] + tuple_names(ts) + seq![')'],
        TypeNodeV::PrimitiveStr => "str"@,
        TypeNodeV::DataStructure { name, .. } => name,
        TypeNodeV::Reference { inner, .. } => {
            if inner.len() == 1 {
                name_of(inner[0])
            } else {
                Seq::empty()
            }
        },
        TypeNodeV::Path(p) => {
            (if p.global {
                seq![':', ':']
            } else {
                Seq::empty()
            }) + segs_name(p.segs)
        },
        TypeNodeV::TypeParam(tp) => seq!['T'] + crate::ident::dec_rep(tp.0 as nat),
        _ => Seq::empty(),
    }
}

pub open spec fn tuple_names(s: Seq<TypeNodeV>) -> Seq<char>
    decreases s,
{
    if s.len() == 0 {
        Seq::empty()
    } else if s.len() == 1 {
        name_of(s[0])
    } else {
        name_of(s[0]) + seq![',', ' '] + tuple_names(s.drop_first())
    }
}

pub open spec fn segs_name(s: Seq<PathSegmentV>) -> Seq<char>
    decreases s,
{
    if s.len() == 0 {
        Seq::empty()
    } else if s.len() == 1 {
        s[0].ident
    } else {
        s[0].ident + seq![':', ':'] + segs_name(s.drop_first())
    }
}

proof fn lemma_tuple_names_push(s: Seq<TypeNodeV>, x: TypeNodeV)
    ensures
        tuple_names(s.push(x)) == (if s.len() == 0 {
            name_of(x)
        } else {
            tuple_names(s) + seq![',', ' '] + name_of(x)
        }),
    decreases s,
{
    if s.len() == 0 {
        assert(s.push(x) =~= seq![x]);
        assert(tuple_names(seq![x]) == name_of(x));
    } else {
        lemma_tuple_names_push(s.drop_first(), x);
        assert(s.push(x).drop_first() =~= s.drop_first().push(x));
        assert(s.push(x)[0] == s[0]);
        if s.len() == 1 {
            assert(s.drop_first() =~= Seq::<TypeNodeV>::empty());
            assert(tuple_names(s) == name_of(s[0]));
            assert(tuple_names(s.push(x)) =~= tuple_names(s) + seq![',', ' '] + name_of(x));
        } else {
            assert(tuple_names(s.push(x)) =~= tuple_names(s) + seq![',', ' '] + name_of(x));
        }
    }
}

proof fn lemma_segs_name_push(s: Seq<PathSegmentV>, x: PathSegmentV)
    ensures
        segs_name(s.push(x)) == (if s.len() == 0 {
            x.ident
        } else {
            segs_name(s) + seq![':', ':'] + x.ident
        }),
    decreases s,
{
    if s.len() == 0 {
        assert(s.push(x) =~= seq![x]);
        assert(segs_name(seq![x]) == x.ident);
    } else {
        lemma_segs_name_push(s.drop_first(), x);
        assert(s.push(x).drop_first() =~= s.drop_first().push(x));
        assert(s.push(x)[0] == s[0]);
        if s.len() == 1 {
            assert(s.drop_first() =~= Seq::<PathSegmentV>::empty());
            assert(segs_name(s) == s[0].ident);
            assert(segs_name(s.push(x)) =~= segs_name(s) + seq![':', ':'] + x.ident);
        } else {
            assert(segs_name(s.push(x)) =~= segs_name(s) + seq![':', ':'] + x.ident);
        }
    }
}

/// True where the type has a printable name: a placeholder, an explicit
/// dereference or a trait object has none.
pub open spec fn has_name(t: TypeNodeV) -> bool
    decreases t,
{
    match t {
        TypeNodeV::Tuple(ts) => seq_named(ts),
        TypeNodeV::PrimitiveStr => true,
        TypeNodeV::DataStructure { .. } => true,
        TypeNodeV::Reference { inner, .. } => inner.len() == 1 && has_name(inner[0]),
        TypeNodeV::Path(_) => true,
        TypeNodeV::TypeParam(_) => true,
        _ => false,
    }
}

pub open spec fn seq_named(s: Seq<TypeNodeV>) -> bool
    decreases s,
{
    if s.len() == 0 {
        true
    } else {
        has_name(s[0]) && seq_named(s.drop_first())
    }
}

pub proof fn lemma_seq_named(s: Seq<TypeNodeV>)
    ensures
        seq_named(s) <==> (forall|i: int| 0 <= i < s.len() ==> has_name(#[trigger] s[i])),
    decreases s,
{
    if s.len() > 0 {
        lemma_seq_named(s.drop_first());
        assert(forall|i: int| 1 <= i < s.len() ==> #[trigger] s[i] == s.drop_first()[i - 1]);
    }
}

impl TypeNode {
    /// Appends this type's printable name to `out`.
    fn push_name(&self, out: &mut String)
        requires
            has_name(self@),
        ensures
            final(out)@ == old(out)@ + name_of(self@),
        decreases *self,
    {
        match self {
            TypeNode::Tuple(types) => {
                proof {
                    lemma_view_seq_type_node(types@);
                    lemma_seq_named(view_seq_type_node(types@));
                }
                crate::ident::push_char(out, '(');
                let ghost base = out@;
                let mut i: usize = 0;
                while i < types.len()
                    invariant
                        *self == TypeNode::Tuple(*types),
                        i <= types@.len(),
                        view_seq_type_node(types@).len() == types@.len(),
                        forall|j: int|
                            0 <= j < types@.len() ==> view_seq_type_node(types@)[j]
                                == view_type_node(#[trigger] types@[j]),
                        forall|j: int|
                            0 <= j < types@.len() ==> has_name(
                                view_seq_type_node(types@)[j],
                            ),
                        out@ == base + tuple_names(view_seq_type_node(types@).take(i as int)),
                        base == old(out)@ + seq!['('],
                    decreases types@.len() - i,
                {
                    if i > 0 {
                        crate::ident::push_char(out, ',');
                        crate::ident::push_char(out, ' ');
                    }
                    proof {
                        assert(decreases_to!(*self => (*self)->Tuple_0));
                        assert((*self)->Tuple_0 == *types);
                        assert(decreases_to!(*types => types@[i as int]));
                    }
                    types[i].push_name(out);
                    i = i + 1;
                    proof {
                        let vs = view_seq_type_node(types@);
                        assert(vs.take(i as int) =~= vs.take(i - 1).push(vs[i - 1]));
                        lemma_tuple_names_push(vs.take(i - 1), vs[i - 1]);
                        assert(out@ =~= base + tuple_names(vs.take(i as int)));
                    }
                }
                crate::ident::push_char(out, ')');
                proof {
                    let vs = view_seq_type_node(types@);
                    assert(vs.take(types@.len() as int) =~= vs);
                    assert(out@ =~= old(out)@ + name_of(self@));
                }
            },
            TypeNode::PrimitiveStr => {
                out.append("str");
            },
            TypeNode::DataStructure(ds) => {
                out.append(ds.name.name.as_str());
            },
            TypeNode::Reference { inner, .. } => {
                (**inner).push_name(out);
            },
            TypeNode::Path(path) => {
                proof {
                    crate::path::lemma_view_seq_seg(path.path@);
                }
                if path.global {
                    crate::ident::push_char(out, ':');
                    crate::ident::push_char(out, ':');
                }
                let ghost base = out@;
                let mut i: usize = 0;
                while i < path.path.len()
                    invariant
                        *self == TypeNode::Path(*path),
                        i <= path.path@.len(),
                        crate::path::view_seq_seg(path.path@).len() == path.path@.len(),
                        forall|j: int|
                            0 <= j < path.path@.len() ==> crate::path::view_seq_seg(path.path@)[j]
                                == crate::path::view_seg(#[trigger] path.path@[j]),
                        out@ == base + segs_name(
                            crate::path::view_seq_seg(path.path@).take(i as int),
                        ),
                        base == old(out)@ + (if path.global {
                            seq![':', ':']
                        } else {
                            Seq::<char>::empty()
                        }),
                    decreases path.path@.len() - i,
                {
                    if i > 0 {
                        crate::ident::push_char(out, ':');
                        crate::ident::push_char(out, ':');
                    }
                    out.append(path.path[i].ident.name.as_str());
                    i = i + 1;
                    proof {
                        let vs = crate::path::view_seq_seg(path.path@);
                        assert(vs.take(i as int) =~= vs.take(i - 1).push(vs[i - 1]));
                        lemma_segs_name_push(vs.take(i - 1), vs[i - 1]);
                        assert(out@ =~= base + segs_name(vs.take(i as int)));
                    }
                }
                proof {
                    let vs = crate::path::view_seq_seg(path.path@);
                    assert(vs.take(path.path@.len() as int) =~= vs);
                    assert(out@ == base + segs_name(vs));
                    assert(self@ == TypeNodeV::Path(crate::path::view_path(*path)));
                    assert(crate::path::view_path(*path).segs == vs);
                    assert(name_of(self@) == (if path.global {
                        seq![':', ':']
                    } else {
                        Seq::<char>::empty()
                    }) + segs_name(vs));
                    assert(out@ =~= old(out)@ + name_of(self@));
                }
            },
            TypeNode::TypeParam(tp) => {
                crate::ident::push_char(out, 'T');
                crate::ident::push_dec(out, tp.0);
                proof {
                    assert(out@ =~= old(out)@ + name_of(self@));
                }
            },
            _ => unreached(),
        }
    }

    /// The printable name of this type, synthesized from its structure.
    pub fn get_name(&self) -> (r: String)
        requires
            has_name(self@),
        ensures
            r@ == name_of(self@),
    {
        let mut out = String::new();
        self.push_name(&mut out);
        proof {
            assert(out@ =~= name_of(self@));
        }
        out
    }
}


impl Type {
    /// The bare type-parameter reference that `type_param` names in
    /// `param_map`: the name must be bound, and bound to a type-parameter
    /// symbol.
    pub fn new_type_param_from_str(type_param: &str, param_map: &mut SynParamMap) -> (r: Result<
        Self,
        Error,
    >)
        ensures
            *final(param_map) == *old(param_map),
            r == (if old(param_map)@.contains_key(type_param@) && old(param_map)@[type_param@]
                is Type {
                Ok::<Self, Error>(
                    Type(TypeNode::TypeParam(old(param_map)@[type_param@]->Type_0)),
                )
            } else {
                Err::<Self, Error>(Error::NotATypeParam)
            }),
    {
        match param_map.get(type_param) {
            Some(GenericParam::Type(tp)) => Ok(Type(TypeNode::TypeParam(tp))),
            _ => Err(Error::NotATypeParam),
        }
    }
}

} // verus!
