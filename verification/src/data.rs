//! The structural data model shared by the type and value layers.
//!
//! `Data<T>` describes the shape of a struct or enum, generic over the node
//! kind `T` carried in field position, so the type-level and the value-level
//! representations share one shape description. Shapes are built once and
//! thereafter only read or mapped, never edited in place.

use vstd::prelude::*;

use crate::ident::Attribute;
use crate::ident::Ident;
use crate::ident::clone_attrs;

verus! {

/// How a field is reached from its parent: by position or by name.
#[derive(PartialEq, Eq, Debug)]
pub enum Accessor {
    Index(usize),
    Name(Ident),
}

/// The mathematical value of an [`Accessor`].
#[verifier::ext_equal]
pub enum AccessorV {
    Index(int),
    Name(Seq<char>),
}

impl View for Accessor {
    type V = AccessorV;

    open spec fn view(&self) -> AccessorV {
        match self {
            Accessor::Index(i) => AccessorV::Index(*i as int),
            Accessor::Name(id) => AccessorV::Name(id.name@),
        }
    }
}

/// The mathematical value of a [`Field`], given the mathematical value of
/// its element.
#[verifier::ext_equal]
pub struct FieldV<TV> {
    pub accessor: AccessorV,
    pub element: TV,
}

/// The mathematical value of a [`Struct`] shape.
#[verifier::ext_equal]
pub enum StructV<TV> {
    Unit { attrs: Seq<Seq<char>> },
    Tuple { fields: Seq<FieldV<TV>>, attrs: Seq<Seq<char>> },
    Struct { fields: Seq<FieldV<TV>>, attrs: Seq<Seq<char>> },
}

/// The mathematical value of a [`Variant`].
#[verifier::ext_equal]
pub enum VariantV<TV> {
    Unit { attrs: Seq<Seq<char>> },
    Tuple { fields: Seq<FieldV<TV>>, attrs: Seq<Seq<char>> },
    Struct { fields: Seq<FieldV<TV>>, attrs: Seq<Seq<char>> },
}

/// The mathematical value of a [`Data`] shape.
#[verifier::ext_equal]
pub enum DataV<TV> {
    Struct(StructV<TV>),
    Enum { variants: Seq<VariantV<TV>>, attrs: Seq<Seq<char>> },
}

/// The attribute texts of an attribute list.
pub open spec fn attrs_view(s: Seq<Attribute>) -> Seq<Seq<char>> {
    s.map_values(|a: Attribute| a.text@)
}

impl<TV> DataV<TV> {
    /// The fields of a struct shape; an enum or a unit struct has none at
    /// top level.
    pub open spec fn struct_fields(self) -> Seq<FieldV<TV>> {
        match self {
            DataV::Struct(StructV::Tuple { fields, .. }) => fields,
            DataV::Struct(StructV::Struct { fields, .. }) => fields,
            _ => Seq::empty(),
        }
    }

    /// True of a tuple-struct shape.
    pub open spec fn is_tuple_struct(self) -> bool {
        self is Struct && self->Struct_0 is Tuple
    }
}

impl Clone for Accessor {
    fn clone(&self) -> (r: Self)
        ensures
            r == *self,
    {
        match self {
            Accessor::Index(i) => Accessor::Index(*i),
            Accessor::Name(id) => Accessor::Name(id.clone()),
        }
    }
}

/// One field of a shape: the accessor that reaches it, and the node it
/// carries.
#[derive(PartialEq, Eq, Debug)]
pub struct Field<T> {
    pub accessor: Accessor,
    pub element: T,
}

/// The shape of a data structure: a struct or an enum.
#[derive(PartialEq, Eq, Debug)]
pub enum Data<T> {
    Struct(Struct<T>),
    Enum(Enum<T>),
}

/// A struct shape: unit, tuple (positional fields) or named-field.
#[derive(PartialEq, Eq, Debug)]
pub enum Struct<T> {
    Unit(UnitStruct),
    Tuple(TupleStruct<T>),
    Struct(StructStruct<T>),
}

#[derive(PartialEq, Eq, Debug)]
pub struct UnitStruct {
    pub attrs: Vec<Attribute>,
}

#[derive(PartialEq, Eq, Debug)]
pub struct TupleStruct<T> {
    pub fields: Vec<Field<T>>,
    pub attrs: Vec<Attribute>,
}

#[derive(PartialEq, Eq, Debug)]
pub struct StructStruct<T> {
    pub fields: Vec<Field<T>>,
    pub attrs: Vec<Attribute>,
}

/// An enum shape: an ordered list of variants.
#[derive(PartialEq, Eq, Debug)]
pub struct Enum<T> {
    pub variants: Vec<Variant<T>>,
    pub attrs: Vec<Attribute>,
}

/// One enum variant, itself unit-, tuple- or struct-shaped.
#[derive(PartialEq, Eq, Debug)]
pub enum Variant<T> {
    Unit(UnitVariant),
    Tuple(TupleVariant<T>),
    Struct(StructVariant<T>),
}

#[derive(PartialEq, Eq, Debug)]
pub struct UnitVariant {
    pub attrs: Vec<Attribute>,
}

#[derive(PartialEq, Eq, Debug)]
pub struct TupleVariant<T> {
    pub fields: Vec<Field<T>>,
    pub attrs: Vec<Attribute>,
}

#[derive(PartialEq, Eq, Debug)]
pub struct StructVariant<T> {
    pub fields: Vec<Field<T>>,
    pub attrs: Vec<Attribute>,
}

impl<T> Data<T> {
    /// The attribute list of the outermost shape.
    pub fn attrs(&self) -> (r: &Vec<Attribute>)
        ensures
            r@ == self.spec_attrs(),
    {
        match self {
            Data::Struct(s) => s.attrs(),
            Data::Enum(e) => &e.attrs,
        }
    }

    pub open spec fn spec_attrs(&self) -> Seq<Attribute> {
        match self {
            Data::Struct(s) => s.spec_attrs(),
            Data::Enum(e) => e.attrs@,
        }
    }
}

impl<T> Struct<T> {
    pub fn attrs(&self) -> (r: &Vec<Attribute>)
        ensures
            r@ == self.spec_attrs(),
    {
        match self {
            Struct::Unit(us) => &us.attrs,
            Struct::Tuple(ts) => &ts.attrs,
            Struct::Struct(ss) => &ss.attrs,
        }
    }

    pub open spec fn spec_attrs(&self) -> Seq<Attribute> {
        match self {
            Struct::Unit(us) => us.attrs@,
            Struct::Tuple(ts) => ts.attrs@,
            Struct::Struct(ss) => ss.attrs@,
        }
    }

    /// The fields of the shape, in order; a unit struct has none.
    pub fn fields(&self) -> (r: &[Field<T>])
        ensures
            r@ == self.spec_fields(),
    {
        match self {
            Struct::Unit(_) => &[],
            Struct::Tuple(ts) => ts.fields.as_slice(),
            Struct::Struct(ss) => ss.fields.as_slice(),
        }
    }

    pub open spec fn spec_fields(&self) -> Seq<Field<T>> {
        match self {
            Struct::Unit(_) => Seq::empty(),
            Struct::Tuple(ts) => ts.fields@,
            Struct::Struct(ss) => ss.fields@,
        }
    }
}

/// Relates one input field to one output field of a mapping pass: the
/// accessor is kept, and the elements are an input/output pair of `f`.
pub open spec fn map_field_ok<T, U, F: Fn(&Field<T>) -> U>(f: F, a: Field<T>, b: Field<U>) -> bool {
    &&& b.accessor == a.accessor
    &&& call_ensures(f, (&a,), b.element)
}

pub open spec fn map_fields_ok<T, U, F: Fn(&Field<T>) -> U>(
    f: F,
    a: Seq<Field<T>>,
    b: Seq<Field<U>>,
) -> bool {
    &&& b.len() == a.len()
    &&& forall|i: int| 0 <= i < a.len() ==> map_field_ok(f, a[i], #[trigger] b[i])
}

/// Relates an input variant to an output variant of a mapping pass: the same
/// unit/tuple/struct kind, the same attributes, and fields related pairwise.
pub open spec fn map_variant_ok<T, U, F: Fn(&Field<T>) -> U>(
    f: F,
    a: Variant<T>,
    b: Variant<U>,
) -> bool {
    match (a, b) {
        (Variant::Unit(x), Variant::Unit(y)) => y.attrs@ == x.attrs@,
        (Variant::Tuple(x), Variant::Tuple(y)) => {
            y.attrs@ == x.attrs@ && map_fields_ok(f, x.fields@, y.fields@)
        },
        (Variant::Struct(x), Variant::Struct(y)) => {
            y.attrs@ == x.attrs@ && map_fields_ok(f, x.fields@, y.fields@)
        },
        _ => false,
    }
}

/// Relates the input and the output of a mapping pass over a whole shape:
/// the same struct/enum kind, the same unit/tuple/struct kind, the same
/// attributes and accessors, and every element an input/output pair of `f`.
pub open spec fn map_data_ok<T, U, F: Fn(&Field<T>) -> U>(f: F, a: Data<T>, b: Data<U>) -> bool {
    match (a, b) {
        (Data::Struct(Struct::Unit(x)), Data::Struct(Struct::Unit(y))) => y.attrs@ == x.attrs@,
        (Data::Struct(Struct::Tuple(x)), Data::Struct(Struct::Tuple(y))) => {
            y.attrs@ == x.attrs@ && map_fields_ok(f, x.fields@, y.fields@)
        },
        (Data::Struct(Struct::Struct(x)), Data::Struct(Struct::Struct(y))) => {
            y.attrs@ == x.attrs@ && map_fields_ok(f, x.fields@, y.fields@)
        },
        (Data::Enum(x), Data::Enum(y)) => {
            &&& y.attrs@ == x.attrs@
            &&& y.variants@.len() == x.variants@.len()
            &&& forall|i: int|
                0 <= i < x.variants@.len() ==> map_variant_ok(
                    f,
                    x.variants@[i],
                    #[trigger] y.variants@[i],
                )
        },
        _ => false,
    }
}

fn map_fields<T, U, F: Fn(&Field<T>) -> U>(fields: &Vec<Field<T>>, f: &F) -> (r: Vec<Field<U>>)
    requires
        forall|x: &Field<T>| call_requires(*f, (x,)),
    ensures
        map_fields_ok(*f, fields@, r@),
{
    let mut r: Vec<Field<U>> = Vec::new();
    let mut i: usize = 0;
    while i < fields.len()
        invariant
            i <= fields@.len(),
            r@.len() == i,
            forall|j: int| 0 <= j < i ==> map_field_ok(*f, fields@[j], #[trigger] r@[j]),
            forall|x: &Field<T>| call_requires(*f, (x,)),
        decreases fields@.len() - i,
    {
        let field = &fields[i];
        let element = f(field);
        r.push(Field { accessor: field.accessor.clone(), element });
        i = i + 1;
    }
    r
}

impl<T> Data<T> {
    /// Maps a shape from node kind `T` to node kind `U`, applying `f` to each
    /// field and keeping everything else — the struct/enum kind, the variant
    /// kinds, the attributes and the accessors — exactly as it was. The
    /// output shape therefore always equals the input shape, field for field.
    pub fn map<U, F: Fn(&Field<T>) -> U>(&self, f: F) -> (r: Data<U>)
        requires
            forall|x: &Field<T>| call_requires(f, (x,)),
        ensures
            map_data_ok(f, *self, r),
    {
        match self {
            Data::Struct(Struct::Unit(us)) => {
                Data::Struct(Struct::Unit(UnitStruct { attrs: clone_attrs(&us.attrs) }))
            },
            Data::Struct(Struct::Tuple(ts)) => {
                Data::Struct(
                    Struct::Tuple(
                        TupleStruct {
                            fields: map_fields(&ts.fields, &f),
                            attrs: clone_attrs(&ts.attrs),
                        },
                    ),
                )
            },
            Data::Struct(Struct::Struct(ss)) => {
                Data::Struct(
                    Struct::Struct(
                        StructStruct {
                            fields: map_fields(&ss.fields, &f),
                            attrs: clone_attrs(&ss.attrs),
                        },
                    ),
                )
            },
            Data::Enum(e) => {
                let mut variants: Vec<Variant<U>> = Vec::new();
                let mut i: usize = 0;
                while i < e.variants.len()
                    invariant
                        i <= e.variants@.len(),
                        variants@.len() == i,
                        forall|j: int|
                            0 <= j < i ==> map_variant_ok(
                                f,
                                e.variants@[j],
                                #[trigger] variants@[j],
                            ),
                        forall|x: &Field<T>| call_requires(f, (x,)),
                    decreases e.variants@.len() - i,
                {
                    let v: Variant<U> = match &e.variants[i] {
                        Variant::Unit(uv) => {
                            Variant::Unit(UnitVariant { attrs: clone_attrs(&uv.attrs) })
                        },
                        Variant::Tuple(tv) => {
                            Variant::Tuple(
                                TupleVariant {
                                    fields: map_fields(&tv.fields, &f),
                                    attrs: clone_attrs(&tv.attrs),
                                },
                            )
                        },
                        Variant::Struct(sv) => {
                            Variant::Struct(
                                StructVariant {
                                    fields: map_fields(&sv.fields, &f),
                                    attrs: clone_attrs(&sv.attrs),
                                },
                            )
                        },
                    };
                    variants.push(v);
                    i = i + 1;
                }
                Data::Enum(Enum { variants, attrs: clone_attrs(&e.attrs) })
            },
        }
    }
}

impl<T> TupleStruct<T> {
    pub fn fields(&self) -> (r: &Vec<Field<T>>)
        ensures
            r == &self.fields,
    {
        &self.fields
    }

    pub fn attrs(&self) -> (r: &Vec<Attribute>)
        ensures
            r == &self.attrs,
    {
        &self.attrs
    }
}

impl<T> StructStruct<T> {
    pub fn fields(&self) -> (r: &Vec<Field<T>>)
        ensures
            r == &self.fields,
    {
        &self.fields
    }

    pub fn attrs(&self) -> (r: &Vec<Attribute>)
        ensures
            r == &self.attrs,
    {
        &self.attrs
    }
}

impl<T> Enum<T> {
    pub fn attrs(&self) -> (r: &Vec<Attribute>)
        ensures
            r == &self.attrs,
    {
        &self.attrs
    }
}

impl<T> Variant<T> {
    pub fn attrs(&self) -> (r: &Vec<Attribute>)
        ensures
            r@ == self.spec_attrs(),
    {
        match self {
            Variant::Unit(uv) => &uv.attrs,
            Variant::Tuple(tv) => &tv.attrs,
            Variant::Struct(sv) => &sv.attrs,
        }
    }

    pub open spec fn spec_attrs(&self) -> Seq<Attribute> {
        match self {
            Variant::Unit(uv) => uv.attrs@,
            Variant::Tuple(tv) => tv.attrs@,
            Variant::Struct(sv) => sv.attrs@,
        }
    }
}


/// Pairs two field lists positionally: same length, same accessors, and
/// elements related by `rel` (which also sees the accessor).
pub open spec fn fields_pairwise<X, Y>(
    a: Seq<FieldV<X>>,
    b: Seq<FieldV<Y>>,
    rel: spec_fn(AccessorV, X, Y) -> bool,
) -> bool {
    &&& b.len() == a.len()
    &&& forall|i: int|
        0 <= i < a.len() ==> (#[trigger] b[i]).accessor == a[i].accessor && rel(
            a[i].accessor,
            a[i].element,
            b[i].element,
        )
}

/// Pairs two variants: the same kind, the same attributes, fields paired.
pub open spec fn variant_pairwise<X, Y>(
    a: VariantV<X>,
    b: VariantV<Y>,
    rel: spec_fn(AccessorV, X, Y) -> bool,
) -> bool {
    match (a, b) {
        (VariantV::Unit { attrs: aa }, VariantV::Unit { attrs: ba }) => ba == aa,
        (
            VariantV::Tuple { fields: af, attrs: aa },
            VariantV::Tuple { fields: bf, attrs: ba },
        ) => ba == aa && fields_pairwise(af, bf, rel),
        (
            VariantV::Struct { fields: af, attrs: aa },
            VariantV::Struct { fields: bf, attrs: ba },
        ) => ba == aa && fields_pairwise(af, bf, rel),
        _ => false,
    }
}

/// Pairs two shapes: the same struct/enum and unit/tuple/struct kinds, the
/// same attributes and accessors everywhere, and every pair of elements in
/// the same position related by `rel`. Shape preservation is this predicate
/// with any `rel`.
pub open spec fn data_pairwise<X, Y>(
    a: DataV<X>,
    b: DataV<Y>,
    rel: spec_fn(AccessorV, X, Y) -> bool,
) -> bool {
    match (a, b) {
        (DataV::Struct(StructV::Unit { attrs: aa }), DataV::Struct(StructV::Unit { attrs: ba })) => {
            ba == aa
        },
        (
            DataV::Struct(StructV::Tuple { fields: af, attrs: aa }),
            DataV::Struct(StructV::Tuple { fields: bf, attrs: ba }),
        ) => ba == aa && fields_pairwise(af, bf, rel),
        (
            DataV::Struct(StructV::Struct { fields: af, attrs: aa }),
            DataV::Struct(StructV::Struct { fields: bf, attrs: ba }),
        ) => ba == aa && fields_pairwise(af, bf, rel),
        (
            DataV::Enum { variants: av, attrs: aa },
            DataV::Enum { variants: bv, attrs: ba },
        ) => {
            &&& ba == aa
            &&& bv.len() == av.len()
            &&& forall|i: int|
                0 <= i < av.len() ==> variant_pairwise(av[i], #[trigger] bv[i], rel)
        },
        _ => false,
    }
}

} // verus!
