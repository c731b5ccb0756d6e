//! The value algebra: cheap copyable handles over arena-stored value nodes,
//! with constructors for every node kind, the dereference collapsing rule,
//! and tuple/tuple-struct projection.

use vstd::prelude::*;

use crate::arena::Arena;
use crate::data::Accessor;
use crate::data::AccessorV;
use crate::data::Data;
use crate::data::DataV;
use crate::ident::Ident;
use crate::node::InvokeRef;
use crate::node::ValueNode;
use crate::node::ValueNodeV;
use crate::node::ValueRef;
use crate::node::spec_value_type;
use crate::node::value_typed;
use crate::ty::Type;
use crate::ty::TypeNode;
use crate::ty::TypeNodeV;
use crate::ty::view_type;

verus! {

/// A value: a non-owning, copyable handle on a stored value node.
#[derive(Clone, Copy, PartialEq, Eq, Structural, Debug)]
pub struct Value {
    pub index: ValueRef,
}

/// The stored references behind a list of values.
pub open spec fn refs_of(s: Seq<Value>) -> Seq<ValueRef> {
    s.map_values(|v: Value| v.index)
}

/// True where `index` may project the `idx`-th element of the stored value:
/// within the arity of a tuple value, of a binding of tuple type, or of a
/// tuple-struct data-structure value or binding; any other stored value
/// falls back to an inferred projection and accepts any index.
pub open spec fn value_indexable(
    vals: Seq<ValueNodeV>,
    outs: Seq<TypeNodeV>,
    i: int,
    idx: int,
) -> bool {
    0 <= i < vals.len() && match vals[i] {
        ValueNodeV::Tuple(refs) => 0 <= idx < refs.len(),
        ValueNodeV::Binding { ty: TypeNodeV::Tuple(ts), .. } => 0 <= idx < ts.len(),
        ValueNodeV::DataStructure { data, .. } => {
            data.is_tuple_struct() ==> (0 <= idx < data.struct_fields().len() && value_typed(
                vals,
                outs,
                data.struct_fields()[idx].element.0 as int,
            ))
        },
        ValueNodeV::Binding { ty: TypeNodeV::DataStructure { data, .. }, .. } => {
            data.is_tuple_struct() ==> 0 <= idx < data.struct_fields().len()
        },
        _ => true,
    }
}

/// What projecting the `idx`-th element of the stored value yields: the
/// subvalue itself for a tuple value, and otherwise the destructure node
/// pushed, with the accessor and type the receiver's shape dictates —
/// falling back to a positional accessor and an inferred type where the
/// exact shape is not statically known.
pub open spec fn value_index_spec(
    vals: Seq<ValueNodeV>,
    outs: Seq<TypeNodeV>,
    i: int,
    idx: int,
) -> Result<ValueRef, ValueNodeV> {
    match vals[i] {
        ValueNodeV::Tuple(refs) => Ok(refs[idx]),
        ValueNodeV::Binding { ty: TypeNodeV::Tuple(ts), .. } => Err(
            ValueNodeV::Destructure {
                parent: ValueRef(i as usize),
                accessor: AccessorV::Index(idx),
                ty: ts[idx],
            },
        ),
        ValueNodeV::DataStructure { data, .. } => {
            if data.is_tuple_struct() {
                Err(
                    ValueNodeV::Destructure {
                        parent: ValueRef(i as usize),
                        accessor: data.struct_fields()[idx].accessor,
                        ty: spec_value_type(vals, outs, data.struct_fields()[idx].element.0 as int),
                    },
                )
            } else {
                Err(
                    ValueNodeV::Destructure {
                        parent: ValueRef(i as usize),
                        accessor: AccessorV::Index(idx),
                        ty: TypeNodeV::Infer,
                    },
                )
            }
        },
        ValueNodeV::Binding { ty: TypeNodeV::DataStructure { data, .. }, .. } => {
            if data.is_tuple_struct() {
                Err(
                    ValueNodeV::Destructure {
                        parent: ValueRef(i as usize),
                        accessor: data.struct_fields()[idx].accessor,
                        ty: data.struct_fields()[idx].element,
                    },
                )
            } else {
                Err(
                    ValueNodeV::Destructure {
                        parent: ValueRef(i as usize),
                        accessor: AccessorV::Index(idx),
                        ty: TypeNodeV::Infer,
                    },
                )
            }
        },
        _ => Err(
            ValueNodeV::Destructure {
                parent: ValueRef(i as usize),
                accessor: AccessorV::Index(idx),
                ty: TypeNodeV::Infer,
            },
        ),
    }
}

impl Value {
    /// A tuple of the given values.
    pub fn new_tuple(arena: &mut Arena, values: &[Value]) -> (r: Value)
        requires
            old(arena).wf(),
            forall|i: int|
                0 <= i < values@.len() ==> (#[trigger] values@[i]).index.0 < old(
                    arena,
                ).values@.len(),
        ensures
            final(arena).wf(),
            r.index.0 == old(arena).values@.len(),
            final(arena).values_v() == old(arena).values_v().push(
                ValueNodeV::Tuple(refs_of(values@)),
            ),
            final(arena).invokes@ == old(arena).invokes@,
            final(arena).macros@ == old(arena).macros@,
            final(arena).lifetimes == old(arena).lifetimes,
            final(arena).type_params == old(arena).type_params,
    {
        let mut refs: Vec<ValueRef> = Vec::new();
        let mut i: usize = 0;
        while i < values.len()
            invariant
                i <= values@.len(),
                refs@.len() == i,
                forall|j: int| 0 <= j < i ==> #[trigger] refs@[j] == values@[j].index,
            decreases values@.len() - i,
        {
            refs.push(values[i].index);
            i = i + 1;
        }
        proof {
            assert(refs@ =~= refs_of(values@));
        }
        let index = arena.push_value(ValueNode::Tuple(refs));
        Value { index }
    }

    /// A string-literal value.
    pub fn new_str(arena: &mut Arena, s: &str) -> (r: Value)
        requires
            old(arena).wf(),
        ensures
            final(arena).wf(),
            r.index.0 == old(arena).values@.len(),
            final(arena).values_v() == old(arena).values_v().push(ValueNodeV::Str(s@)),
            final(arena).invokes@ == old(arena).invokes@,
            final(arena).macros@ == old(arena).macros@,
            final(arena).lifetimes == old(arena).lifetimes,
            final(arena).type_params == old(arena).type_params,
    {
        let index = arena.push_value(ValueNode::Str(s.to_owned()));
        Value { index }
    }

    /// A named binding with a known type.
    pub fn new_binding(arena: &mut Arena, name: &str, ty: &Type) -> (r: Value)
        requires
            old(arena).wf(),
        ensures
            final(arena).wf(),
            r.index.0 == old(arena).values@.len(),
            final(arena).values_v() == old(arena).values_v().push(
                ValueNodeV::Binding { name: name@, ty: view_type(*ty) },
            ),
            final(arena).invokes@ == old(arena).invokes@,
            final(arena).macros@ == old(arena).macros@,
            final(arena).lifetimes == old(arena).lifetimes,
            final(arena).type_params == old(arena).type_params,
    {
        let index = arena.push_value(
            ValueNode::Binding { name: Ident::new(name), ty: ty.clone() },
        );
        Value { index }
    }

    /// A data-structure literal over the given shape of values.
    pub fn new_data_structure(arena: &mut Arena, name: &str, data: &Data<Value>) -> (r: Value)
        requires
            old(arena).wf(),
            data_values_below(*data, old(arena).values@.len() as int),
        ensures
            final(arena).wf(),
            r.index.0 == old(arena).values@.len(),
            final(arena).values_v() == old(arena).values_v().push(
                ValueNodeV::DataStructure { name: name@, data: view_data_of_values(*data) },
            ),
            final(arena).invokes@ == old(arena).invokes@,
            final(arena).macros@ == old(arena).macros@,
            final(arena).lifetimes == old(arena).lifetimes,
            final(arena).type_params == old(arena).type_params,
    {
        let refs = data_to_refs(data);
        let index = arena.push_value(
            ValueNode::DataStructure { name: Ident::new(name), data: refs },
        );
        Value { index }
    }

    /// A value referring to a recorded invocation.
    pub fn new_invoke(arena: &mut Arena, invoke: InvokeRef) -> (r: Value)
        requires
            old(arena).wf(),
            invoke.0 < old(arena).invokes@.len(),
        ensures
            final(arena).wf(),
            r.index.0 == old(arena).values@.len(),
            final(arena).values_v() == old(arena).values_v().push(ValueNodeV::Invoke(invoke)),
            final(arena).invokes@ == old(arena).invokes@,
            final(arena).macros@ == old(arena).macros@,
            final(arena).lifetimes == old(arena).lifetimes,
            final(arena).type_params == old(arena).type_params,
    {
        let index = arena.push_value(ValueNode::Invoke(invoke));
        Value { index }
    }

    /// An immutable reference to this value.
    pub fn new_reference(&self, arena: &mut Arena) -> (r: Value)
        requires
            old(arena).wf(),
            self.index.0 < old(arena).values@.len(),
        ensures
            final(arena).wf(),
            r.index.0 == old(arena).values@.len(),
            final(arena).values_v() == old(arena).values_v().push(
                ValueNodeV::Reference { is_mut: false, value: self.index },
            ),
            final(arena).invokes@ == old(arena).invokes@,
            final(arena).macros@ == old(arena).macros@,
            final(arena).lifetimes == old(arena).lifetimes,
            final(arena).type_params == old(arena).type_params,
    {
        let index = arena.push_value(ValueNode::Reference { is_mut: false, value: self.index });
        Value { index }
    }

    /// A mutable reference to this value.
    pub fn new_reference_mut(&self, arena: &mut Arena) -> (r: Value)
        requires
            old(arena).wf(),
            self.index.0 < old(arena).values@.len(),
        ensures
            final(arena).wf(),
            r.index.0 == old(arena).values@.len(),
            final(arena).values_v() == old(arena).values_v().push(
                ValueNodeV::Reference { is_mut: true, value: self.index },
            ),
            final(arena).invokes@ == old(arena).invokes@,
            final(arena).macros@ == old(arena).macros@,
            final(arena).lifetimes == old(arena).lifetimes,
            final(arena).type_params == old(arena).type_params,
    {
        let index = arena.push_value(ValueNode::Reference { is_mut: true, value: self.index });
        Value { index }
    }

    /// Dereferences this value: a reference collapses to its referent
    /// without storing anything new; any other value gets an explicit
    /// dereference node.
    pub fn dereference(&self, arena: &mut Arena) -> (r: Value)
        requires
            old(arena).wf(),
            self.index.0 < old(arena).values@.len(),
        ensures
            final(arena).wf(),
            match old(arena).values_v()[self.index.0 as int] {
                ValueNodeV::Reference { value, .. } => {
                    &&& *final(arena) == *old(arena)
                    &&& r.index == value
                },
                _ => {
                    &&& r.index.0 == old(arena).values@.len()
                    &&& final(arena).values_v() == old(arena).values_v().push(
                        ValueNodeV::Dereference(self.index),
                    )
                    &&& final(arena).invokes@ == old(arena).invokes@
                    &&& final(arena).macros@ == old(arena).macros@
                    &&& final(arena).lifetimes == old(arena).lifetimes
                    &&& final(arena).type_params == old(arena).type_params
                },
            },
    {
        proof {
            crate::arena::lemma_view_seq_value_node(arena.values@);
        }
        let referent: Option<ValueRef> = match &arena.values[self.index.0] {
            ValueNode::Reference { value, .. } => Some(*value),
            _ => None,
        };
        match referent {
            Some(value) => Value { index: value },
            None => {
                let index = arena.push_value(ValueNode::Dereference(self.index));
                Value { index }
            },
        }
    }

    /// The type of this value.
    pub fn get_type(&self, arena: &Arena) -> (t: Type)
        requires
            arena.wf(),
            self.index.0 < arena.values@.len(),
            value_typed(arena.values_v(), arena.invoke_outputs(), self.index.0 as int),
        ensures
            view_type(t) == spec_value_type(
                arena.values_v(),
                arena.invoke_outputs(),
                self.index.0 as int,
            ),
    {
        arena.value_type(self.index)
    }

    /// Projects the `index`-th element out of this value: the subvalue
    /// itself for a tuple value; a destructure node typed by the receiver's
    /// statically known shape for a binding of tuple type or a tuple-struct
    /// value; and a positional destructure with an inferred type where the
    /// exact shape is not statically known.
    pub fn index(&self, arena: &mut Arena, index: usize) -> (r: Value)
        requires
            old(arena).wf(),
            self.index.0 < old(arena).values@.len(),
            value_indexable(
                old(arena).values_v(),
                old(arena).invoke_outputs(),
                self.index.0 as int,
                index as int,
            ),
        ensures
            final(arena).wf(),
            final(arena).invokes@ == old(arena).invokes@,
            final(arena).macros@ == old(arena).macros@,
            final(arena).lifetimes == old(arena).lifetimes,
            final(arena).type_params == old(arena).type_params,
            match value_index_spec(
                old(arena).values_v(),
                old(arena).invoke_outputs(),
                self.index.0 as int,
                index as int,
            ) {
                Ok(subvalue) => *final(arena) == *old(arena) && r.index == subvalue,
                Err(node) => {
                    &&& r.index.0 == old(arena).values@.len()
                    &&& final(arena).values_v() == old(arena).values_v().push(node)
                },
            },
    {
        proof {
            crate::arena::lemma_view_seq_value_node(arena.values@);
        }
        let step: Result<ValueRef, ValueNode> = match &arena.values[self.index.0] {
            ValueNode::Tuple(refs) => Ok(refs[index]),
            ValueNode::Binding { ty: Type(TypeNode::Tuple(types)), .. } => {
                proof {
                    crate::ty::lemma_view_seq_type_node(types@);
                }
                Err(
                    ValueNode::Destructure {
                        parent: self.index,
                        accessor: Accessor::Index(index),
                        ty: Type(types[index].clone()),
                    },
                )
            },
            ValueNode::DataStructure { data, .. } => match data {
                Data::Struct(crate::data::Struct::Tuple(ts)) => {
                    let field = &ts.fields[index];
                    let ty = arena.value_type(field.element);
                    Err(
                        ValueNode::Destructure {
                            parent: self.index,
                            accessor: field.accessor.clone(),
                            ty,
                        },
                    )
                },
                _ => Err(
                    ValueNode::Destructure {
                        parent: self.index,
                        accessor: Accessor::Index(index),
                        ty: Type(TypeNode::Infer),
                    },
                ),
            },
            ValueNode::Binding { ty: Type(TypeNode::DataStructure(ds)), .. } => match &ds.data {
                Data::Struct(crate::data::Struct::Tuple(ts)) => {
                    proof {
                        crate::ty::lemma_view_seq_field_type(ts.fields@);
                    }
                    let field = &ts.fields[index];
                    Err(
                        ValueNode::Destructure {
                            parent: self.index,
                            accessor: field.accessor.clone(),
                            ty: field.element.clone(),
                        },
                    )
                },
                _ => Err(
                    ValueNode::Destructure {
                        parent: self.index,
                        accessor: Accessor::Index(index),
                        ty: Type(TypeNode::Infer),
                    },
                ),
            },
            _ => Err(
                ValueNode::Destructure {
                    parent: self.index,
                    accessor: Accessor::Index(index),
                    ty: Type(TypeNode::Infer),
                },
            ),
        };
        match step {
            Ok(subvalue) => Value { index: subvalue },
            Err(node) => {
                let index = arena.push_value(node);
                Value { index }
            },
        }
    }
}

/// The mathematical value of a shape over values: accessors resolved,
/// elements replaced by their stored references.
pub open spec fn view_data_of_values(d: Data<Value>) -> crate::data::DataV<ValueRef> {
    let vf = |f: crate::data::Field<Value>| crate::data::FieldV {
        accessor: f.accessor@,
        element: f.element.index,
    };
    let vv = |v: crate::data::Variant<Value>| value_variant_view(v);
    match d {
        Data::Struct(crate::data::Struct::Unit(us)) => crate::data::DataV::Struct(
            crate::data::StructV::Unit { attrs: crate::data::attrs_view(us.attrs@) },
        ),
        Data::Struct(crate::data::Struct::Tuple(ts)) => crate::data::DataV::Struct(
            crate::data::StructV::Tuple {
                fields: ts.fields@.map_values(vf),
                attrs: crate::data::attrs_view(ts.attrs@),
            },
        ),
        Data::Struct(crate::data::Struct::Struct(ss)) => crate::data::DataV::Struct(
            crate::data::StructV::Struct {
                fields: ss.fields@.map_values(vf),
                attrs: crate::data::attrs_view(ss.attrs@),
            },
        ),
        Data::Enum(e) => crate::data::DataV::Enum {
            variants: e.variants@.map_values(vv),
            attrs: crate::data::attrs_view(e.attrs@),
        },
    }
}

/// Every value a value-level shape holds refers below `bound`.
pub open spec fn data_values_below(d: Data<Value>, bound: int) -> bool {
    crate::node::data_refs_below(view_data_of_values(d), bound)
}

fn fields_to_refs(v: &Vec<crate::data::Field<Value>>) -> (r: Vec<crate::data::Field<ValueRef>>)
    ensures
        r@.map_values(
            |f: crate::data::Field<ValueRef>| crate::data::FieldV {
                accessor: f.accessor@,
                element: f.element,
            },
        ) == v@.map_values(
            |f: crate::data::Field<Value>| crate::data::FieldV {
                accessor: f.accessor@,
                element: f.element.index,
            },
        ),
{
    let mut r: Vec<crate::data::Field<ValueRef>> = Vec::new();
    let mut i: usize = 0;
    while i < v.len()
        invariant
            i <= v@.len(),
            r@.len() == i,
            forall|j: int|
                0 <= j < i ==> (#[trigger] r@[j]).accessor@ == v@[j].accessor@ && r@[j].element
                    == v@[j].element.index,
        decreases v@.len() - i,
    {
        let f = &v[i];
        r.push(
            crate::data::Field { accessor: f.accessor.clone(), element: f.element.index },
        );
        i = i + 1;
    }
    proof {
        assert(r@.map_values(
            |f: crate::data::Field<ValueRef>| crate::data::FieldV {
                accessor: f.accessor@,
                element: f.element,
            },
        ) =~= v@.map_values(
            |f: crate::data::Field<Value>| crate::data::FieldV {
                accessor: f.accessor@,
                element: f.element.index,
            },
        ));
    }
    r
}

/// Converts a shape over values into its stored form, element by element.
fn data_to_refs(d: &Data<Value>) -> (r: Data<ValueRef>)
    ensures
        crate::node::view_data_value(r) == view_data_of_values(*d),
{
    match d {
        Data::Struct(crate::data::Struct::Unit(us)) => {
            let r = Data::Struct(
                crate::data::Struct::Unit(
                    crate::data::UnitStruct { attrs: crate::ident::clone_attrs(&us.attrs) },
                ),
            );
            proof {
                assert(crate::node::view_data_value(r) =~~= view_data_of_values(*d));
            }
            r
        },
        Data::Struct(crate::data::Struct::Tuple(ts)) => {
            let fields = fields_to_refs(&ts.fields);
            let r = Data::Struct(
                crate::data::Struct::Tuple(
                    crate::data::TupleStruct {
                        fields,
                        attrs: crate::ident::clone_attrs(&ts.attrs),
                    },
                ),
            );
            proof {
                assert(crate::node::view_data_value(r) =~~= view_data_of_values(*d));
            }
            r
        },
        Data::Struct(crate::data::Struct::Struct(ss)) => {
            let fields = fields_to_refs(&ss.fields);
            let r = Data::Struct(
                crate::data::Struct::Struct(
                    crate::data::StructStruct {
                        fields,
                        attrs: crate::ident::clone_attrs(&ss.attrs),
                    },
                ),
            );
            proof {
                assert(crate::node::view_data_value(r) =~~= view_data_of_values(*d));
            }
            r
        },
        Data::Enum(e) => {
            let mut variants: Vec<crate::data::Variant<ValueRef>> = Vec::new();
            let mut i: usize = 0;
            while i < e.variants.len()
                invariant
                    i <= e.variants@.len(),
                    variants@.len() == i,
                    forall|j: int|
                        0 <= j < i ==> crate::node::view_variant_value(#[trigger] variants@[j])
                            == value_variant_view(e.variants@[j]),
                decreases e.variants@.len() - i,
            {
                let v: crate::data::Variant<ValueRef> = match &e.variants[i] {
                    crate::data::Variant::Unit(uv) => crate::data::Variant::Unit(
                        crate::data::UnitVariant {
                            attrs: crate::ident::clone_attrs(&uv.attrs),
                        },
                    ),
                    crate::data::Variant::Tuple(tv) => crate::data::Variant::Tuple(
                        crate::data::TupleVariant {
                            fields: fields_to_refs(&tv.fields),
                            attrs: crate::ident::clone_attrs(&tv.attrs),
                        },
                    ),
                    crate::data::Variant::Struct(sv) => crate::data::Variant::Struct(
                        crate::data::StructVariant {
                            fields: fields_to_refs(&sv.fields),
                            attrs: crate::ident::clone_attrs(&sv.attrs),
                        },
                    ),
                };
                variants.push(v);
                i = i + 1;
            }
            let r = Data::Enum(
                crate::data::Enum { variants, attrs: crate::ident::clone_attrs(&e.attrs) },
            );
            proof {
                assert(crate::node::view_data_value(r) =~~= view_data_of_values(*d));
            }
            r
        },
    }
}

/// The mathematical value of one stored variant, used to state the
/// conversion loop's invariant.
pub open spec fn value_variant_view(v: crate::data::Variant<Value>) -> crate::data::VariantV<
    ValueRef,
> {
    let vf = |f: crate::data::Field<Value>| crate::data::FieldV {
        accessor: f.accessor@,
        element: f.element.index,
    };
    match v {
        crate::data::Variant::Unit(uv) => crate::data::VariantV::Unit {
            attrs: crate::data::attrs_view(uv.attrs@),
        },
        crate::data::Variant::Tuple(tv) => crate::data::VariantV::Tuple {
            fields: tv.fields@.map_values(vf),
            attrs: crate::data::attrs_view(tv.attrs@),
        },
        crate::data::Variant::Struct(sv) => crate::data::VariantV::Struct {
            fields: sv.fields@.map_values(vf),
            attrs: crate::data::attrs_view(sv.attrs@),
        },
    }
}


impl Value {
    /// The printable name of this value's type, stored as a new
    /// string-literal value.
    pub fn get_type_name(&self, arena: &mut Arena) -> (r: Value)
        requires
            old(arena).wf(),
            self.index.0 < old(arena).values@.len(),
            crate::node::value_name_ok(
                old(arena).values_v(),
                old(arena).invoke_outputs(),
                self.index.0 as int,
            ),
        ensures
            final(arena).wf(),
            r.index.0 == old(arena).values@.len(),
            final(arena).values_v() == old(arena).values_v().push(
                ValueNodeV::Str(
                    crate::node::spec_value_type_name(
                        old(arena).values_v(),
                        old(arena).invoke_outputs(),
                        self.index.0 as int,
                    ),
                ),
            ),
            final(arena).invokes@ == old(arena).invokes@,
            final(arena).macros@ == old(arena).macros@,
            final(arena).lifetimes == old(arena).lifetimes,
            final(arena).type_params == old(arena).type_params,
    {
        let name = arena.value_type_name(self.index);
        let index = arena.push_value(ValueNode::Str(name));
        Value { index }
    }
}


// ----------------------------------------------------------------------
// Reinterpreting a value as its shape.
// ----------------------------------------------------------------------

/// True where the stored value at index `i` can be reinterpreted as a
/// shape: a data-structure literal, a reference reaching one, or a binding
/// whose type can.
pub open spec fn value_as_data_ok(vals: Seq<ValueNodeV>, i: int) -> bool
    decreases i,
{
    0 <= i < vals.len() && match vals[i] {
        ValueNodeV::DataStructure { .. } => true,
        ValueNodeV::Reference { value, .. } => value.0 < i && value_as_data_ok(
            vals,
            value.0 as int,
        ),
        ValueNodeV::Binding { ty, .. } => crate::ty::spec_as_data_allowed(ty),
        _ => false,
    }
}

/// The element pairing a stored reference wrap produces.
pub open spec fn ref_wrap_rel(vals: Seq<ValueNodeV>, is_mut: bool) -> spec_fn(
    AccessorV,
    ValueRef,
    ValueRef,
) -> bool {
    |acc: AccessorV, x: ValueRef, y: ValueRef|
        {
            y.0 < vals.len() && vals[y.0 as int] == (ValueNodeV::Reference { is_mut, value: x })
        }
}

/// The element pairing a stored destructure projection produces.
pub open spec fn destructure_rel(vals: Seq<ValueNodeV>, parent: ValueRef) -> spec_fn(
    AccessorV,
    TypeNodeV,
    ValueRef,
) -> bool {
    |acc: AccessorV, x: TypeNodeV, y: ValueRef|
        {
            y.0 < vals.len() && vals[y.0 as int] == (ValueNodeV::Destructure {
                parent,
                accessor: acc,
                ty: x,
            })
        }
}

/// The identity element pairing.
pub open spec fn same_ref_rel() -> spec_fn(AccessorV, ValueRef, ValueRef) -> bool {
    |acc: AccessorV, x: ValueRef, y: ValueRef| y == x
}

/// Relates the stored value at index `i` to a shape over values read from
/// the (final) store: a data-structure literal yields its own shape; a
/// reference yields its referent's shape with every element wrapped in a
/// stored reference node of the same mutability; a binding yields its
/// type's shape with every element a stored destructure node projecting
/// the field out of the binding.
pub open spec fn value_as_data_rel(vals: Seq<ValueNodeV>, i: int, r: DataV<ValueRef>) -> bool
    decreases i,
{
    0 <= i < vals.len() && match vals[i] {
        ValueNodeV::DataStructure { data, .. } => crate::data::data_pairwise(
            data,
            r,
            same_ref_rel(),
        ),
        ValueNodeV::Reference { is_mut, value } => {
            &&& value.0 < i
            &&& exists|inner: DataV<ValueRef>|
                value_as_data_rel(vals, value.0 as int, inner) && #[trigger] crate::data::data_pairwise(
                    inner,
                    r,
                    ref_wrap_rel(vals, is_mut),
                )
        },
        ValueNodeV::Binding { ty, .. } => crate::data::data_pairwise(
            crate::ty::spec_as_data(ty),
            r,
            destructure_rel(vals, ValueRef(i as usize)),
        ),
        _ => false,
    }
}

/// The relation only reads stored nodes, so it survives appending more.
pub proof fn lemma_as_data_rel_monotone(
    vals1: Seq<ValueNodeV>,
    vals2: Seq<ValueNodeV>,
    i: int,
    r: DataV<ValueRef>,
)
    requires
        vals1.len() <= vals2.len(),
        forall|j: int| 0 <= j < vals1.len() ==> vals2[j] == vals1[j],
        value_as_data_rel(vals1, i, r),
    ensures
        value_as_data_rel(vals2, i, r),
    decreases i,
{
    assert(0 <= i < vals1.len());
    assert(vals2[i] == vals1[i]);
    match vals1[i] {
        ValueNodeV::Reference { is_mut, value } => {
            assert(vals1[i] == (ValueNodeV::Reference { is_mut, value }));
            assert(value.0 < i);
            assert(exists|inner: DataV<ValueRef>|
                value_as_data_rel(vals1, value.0 as int, inner)
                    && #[trigger] crate::data::data_pairwise(
                    inner,
                    r,
                    ref_wrap_rel(vals1, is_mut),
                ));
            let inner = choose|inner: DataV<ValueRef>|
                value_as_data_rel(vals1, value.0 as int, inner)
                    && #[trigger] crate::data::data_pairwise(
                    inner,
                    r,
                    ref_wrap_rel(vals1, is_mut),
                );
            lemma_as_data_rel_monotone(vals1, vals2, value.0 as int, inner);
            assert(forall|acc: AccessorV, x: ValueRef, y: ValueRef|
                #[trigger] ref_wrap_rel(vals1, is_mut)(acc, x, y) ==> ref_wrap_rel(
                    vals2,
                    is_mut,
                )(acc, x, y));
            lemma_pairwise_weaken(inner, r, ref_wrap_rel(vals1, is_mut), ref_wrap_rel(vals2, is_mut));
            assert(value_as_data_rel(vals2, value.0 as int, inner)
                && crate::data::data_pairwise(inner, r, ref_wrap_rel(vals2, is_mut)));
            assert(exists|inner2: DataV<ValueRef>|
                value_as_data_rel(vals2, value.0 as int, inner2)
                    && #[trigger] crate::data::data_pairwise(
                    inner2,
                    r,
                    ref_wrap_rel(vals2, is_mut),
                ));
        },
        ValueNodeV::Binding { ty, .. } => {
            assert(forall|acc: AccessorV, x: TypeNodeV, y: ValueRef|
                #[trigger] destructure_rel(vals1, ValueRef(i as usize))(acc, x, y)
                    ==> destructure_rel(vals2, ValueRef(i as usize))(acc, x, y));
            lemma_pairwise_weaken(
                crate::ty::spec_as_data(ty),
                r,
                destructure_rel(vals1, ValueRef(i as usize)),
                destructure_rel(vals2, ValueRef(i as usize)),
            );
        },
        _ => {},
    }
}

/// A positional pairing under a stronger relation holds under a weaker one.
pub proof fn lemma_pairwise_weaken<X, Y>(
    a: DataV<X>,
    b: DataV<Y>,
    rel1: spec_fn(AccessorV, X, Y) -> bool,
    rel2: spec_fn(AccessorV, X, Y) -> bool,
)
    requires
        crate::data::data_pairwise(a, b, rel1),
        forall|acc: AccessorV, x: X, y: Y| #[trigger] rel1(acc, x, y) ==> rel2(acc, x, y),
    ensures
        crate::data::data_pairwise(a, b, rel2),
{
    match (a, b) {
        (DataV::Enum { variants: av, .. }, DataV::Enum { variants: bv, .. }) => {
            assert forall|i: int| 0 <= i < av.len() implies crate::data::variant_pairwise(
                av[i],
                #[trigger] bv[i],
                rel2,
            ) by {
                assert(crate::data::variant_pairwise(av[i], bv[i], rel1));
            }
        },
        _ => {},
    }
}

fn fields_refs_to_values(v: &Vec<crate::data::Field<ValueRef>>) -> (r: Vec<
    crate::data::Field<Value>,
>)
    ensures
        crate::data::fields_pairwise(
            v@.map_values(
                |f: crate::data::Field<ValueRef>| crate::data::FieldV {
                    accessor: f.accessor@,
                    element: f.element,
                },
            ),
            r@.map_values(
                |f: crate::data::Field<Value>| crate::data::FieldV {
                    accessor: f.accessor@,
                    element: f.element.index,
                },
            ),
            same_ref_rel(),
        ),
{
    let mut r: Vec<crate::data::Field<Value>> = Vec::new();
    let mut i: usize = 0;
    while i < v.len()
        invariant
            i <= v@.len(),
            r@.len() == i,
            forall|j: int|
                0 <= j < i ==> (#[trigger] r@[j]).accessor@ == v@[j].accessor@ && r@[j].element.index
                    == v@[j].element,
        decreases v@.len() - i,
    {
        let f = &v[i];
        r.push(
            crate::data::Field { accessor: f.accessor.clone(), element: Value { index: f.element } },
        );
        i = i + 1;
    }
    r
}

fn wrap_fields_values(
    arena: &mut Arena,
    v: &Vec<crate::data::Field<Value>>,
    is_mut: bool,
) -> (r: Vec<crate::data::Field<Value>>)
    requires
        old(arena).wf(),
        forall|j: int|
            0 <= j < v@.len() ==> (#[trigger] v@[j]).element.index.0 < old(arena).values@.len(),
    ensures
        final(arena).wf(),
        old(arena).values_v().len() <= final(arena).values_v().len(),
        forall|j: int|
            0 <= j < old(arena).values_v().len() ==> final(arena).values_v()[j] == old(
                arena,
            ).values_v()[j],
        final(arena).invokes@ == old(arena).invokes@,
        final(arena).macros@ == old(arena).macros@,
        final(arena).lifetimes == old(arena).lifetimes,
        final(arena).type_params == old(arena).type_params,
        crate::data::fields_pairwise(
            v@.map_values(
                |f: crate::data::Field<Value>| crate::data::FieldV {
                    accessor: f.accessor@,
                    element: f.element.index,
                },
            ),
            r@.map_values(
                |f: crate::data::Field<Value>| crate::data::FieldV {
                    accessor: f.accessor@,
                    element: f.element.index,
                },
            ),
            ref_wrap_rel(final(arena).values_v(), is_mut),
        ),
{
    let mut r: Vec<crate::data::Field<Value>> = Vec::new();
    let mut i: usize = 0;
    while i < v.len()
        invariant
            arena.wf(),
            i <= v@.len(),
            r@.len() == i,
            old(arena).values_v().len() <= arena.values_v().len(),
            forall|j: int|
                0 <= j < old(arena).values_v().len() ==> arena.values_v()[j] == old(
                    arena,
                ).values_v()[j],
            arena.invokes@ == old(arena).invokes@,
            arena.macros@ == old(arena).macros@,
            arena.lifetimes == old(arena).lifetimes,
            arena.type_params == old(arena).type_params,
            forall|j: int|
                0 <= j < v@.len() ==> (#[trigger] v@[j]).element.index.0 < old(
                    arena,
                ).values@.len(),
            forall|j: int|
                0 <= j < i ==> (#[trigger] r@[j]).accessor@ == v@[j].accessor@
                    && r@[j].element.index.0 < arena.values_v().len() && arena.values_v()[
                    r@[j].element.index.0 as int
                ] == (ValueNodeV::Reference { is_mut, value: v@[j].element.index }),
        decreases v@.len() - i,
    {
        let f = &v[i];
        let wrapped = if is_mut {
            f.element.new_reference_mut(arena)
        } else {
            f.element.new_reference(arena)
        };
        r.push(crate::data::Field { accessor: f.accessor.clone(), element: wrapped });
        i = i + 1;
    }
    r
}

fn destructure_fields(
    arena: &mut Arena,
    parent: ValueRef,
    v: &Vec<crate::data::Field<Type>>,
) -> (r: Vec<crate::data::Field<Value>>)
    requires
        old(arena).wf(),
        parent.0 < old(arena).values@.len(),
    ensures
        final(arena).wf(),
        old(arena).values_v().len() <= final(arena).values_v().len(),
        forall|j: int|
            0 <= j < old(arena).values_v().len() ==> final(arena).values_v()[j] == old(
                arena,
            ).values_v()[j],
        final(arena).invokes@ == old(arena).invokes@,
        final(arena).macros@ == old(arena).macros@,
        final(arena).lifetimes == old(arena).lifetimes,
        final(arena).type_params == old(arena).type_params,
        crate::data::fields_pairwise(
            crate::ty::view_seq_field_type(v@),
            r@.map_values(
                |f: crate::data::Field<Value>| crate::data::FieldV {
                    accessor: f.accessor@,
                    element: f.element.index,
                },
            ),
            destructure_rel(final(arena).values_v(), parent),
        ),
{
    proof {
        crate::ty::lemma_view_seq_field_type(v@);
    }
    let mut r: Vec<crate::data::Field<Value>> = Vec::new();
    let mut i: usize = 0;
    while i < v.len()
        invariant
            arena.wf(),
            parent.0 < old(arena).values@.len(),
            i <= v@.len(),
            r@.len() == i,
            crate::ty::view_seq_field_type(v@).len() == v@.len(),
            forall|j: int|
                0 <= j < v@.len() ==> crate::ty::view_seq_field_type(v@)[j]
                    == crate::ty::view_field_type(#[trigger] v@[j]),
            old(arena).values_v().len() <= arena.values_v().len(),
            forall|j: int|
                0 <= j < old(arena).values_v().len() ==> arena.values_v()[j] == old(
                    arena,
                ).values_v()[j],
            arena.invokes@ == old(arena).invokes@,
            arena.macros@ == old(arena).macros@,
            arena.lifetimes == old(arena).lifetimes,
            arena.type_params == old(arena).type_params,
            forall|j: int|
                0 <= j < i ==> (#[trigger] r@[j]).accessor@ == v@[j].accessor@
                    && r@[j].element.index.0 < arena.values_v().len() && arena.values_v()[
                    r@[j].element.index.0 as int
                ] == (ValueNodeV::Destructure {
                    parent,
                    accessor: v@[j].accessor@,
                    ty: crate::ty::view_type(v@[j].element),
                }),
        decreases v@.len() - i,
    {
        let f = &v[i];
        let node = ValueNode::Destructure {
            parent,
            accessor: f.accessor.clone(),
            ty: f.element.clone(),
        };
        let index = arena.push_value(node);
        r.push(crate::data::Field { accessor: f.accessor.clone(), element: Value { index } });
        i = i + 1;
    }
    r
}



fn data_refs_to_values(d: &Data<ValueRef>) -> (r: Data<Value>)
    ensures
        crate::data::data_pairwise(
            crate::node::view_data_value(*d),
            view_data_of_values(r),
            same_ref_rel(),
        ),
{
    match d {
        Data::Struct(crate::data::Struct::Unit(us)) => Data::Struct(
            crate::data::Struct::Unit(
                crate::data::UnitStruct { attrs: crate::ident::clone_attrs(&us.attrs) },
            ),
        ),
        Data::Struct(crate::data::Struct::Tuple(ts)) => Data::Struct(
            crate::data::Struct::Tuple(
                crate::data::TupleStruct {
                    fields: fields_refs_to_values(&ts.fields),
                    attrs: crate::ident::clone_attrs(&ts.attrs),
                },
            ),
        ),
        Data::Struct(crate::data::Struct::Struct(ss)) => Data::Struct(
            crate::data::Struct::Struct(
                crate::data::StructStruct {
                    fields: fields_refs_to_values(&ss.fields),
                    attrs: crate::ident::clone_attrs(&ss.attrs),
                },
            ),
        ),
        Data::Enum(e) => {
            let mut variants: Vec<crate::data::Variant<Value>> = Vec::new();
            let mut i: usize = 0;
            while i < e.variants.len()
                invariant
                    i <= e.variants@.len(),
                    variants@.len() == i,
                    forall|j: int|
                        0 <= j < i ==> crate::data::variant_pairwise(
                            crate::node::view_variant_value(e.variants@[j]),
                            value_variant_view(#[trigger] variants@[j]),
                            same_ref_rel(),
                        ),
                decreases e.variants@.len() - i,
            {
                let v: crate::data::Variant<Value> = match &e.variants[i] {
                    crate::data::Variant::Unit(uv) => crate::data::Variant::Unit(
                        crate::data::UnitVariant {
                            attrs: crate::ident::clone_attrs(&uv.attrs),
                        },
                    ),
                    crate::data::Variant::Tuple(tv) => crate::data::Variant::Tuple(
                        crate::data::TupleVariant {
                            fields: fields_refs_to_values(&tv.fields),
                            attrs: crate::ident::clone_attrs(&tv.attrs),
                        },
                    ),
                    crate::data::Variant::Struct(sv) => crate::data::Variant::Struct(
                        crate::data::StructVariant {
                            fields: fields_refs_to_values(&sv.fields),
                            attrs: crate::ident::clone_attrs(&sv.attrs),
                        },
                    ),
                };
                variants.push(v);
                i = i + 1;
            }
            Data::Enum(
                crate::data::Enum { variants, attrs: crate::ident::clone_attrs(&e.attrs) },
            )
        },
    }
}

fn wrap_value_data(arena: &mut Arena, d: &Data<Value>, is_mut: bool) -> (r: Data<Value>)
    requires
        old(arena).wf(),
        data_values_below(*d, old(arena).values@.len() as int),
    ensures
        final(arena).wf(),
        old(arena).values_v().len() <= final(arena).values_v().len(),
        forall|j: int|
            0 <= j < old(arena).values_v().len() ==> final(arena).values_v()[j] == old(
                arena,
            ).values_v()[j],
        final(arena).invokes@ == old(arena).invokes@,
        final(arena).macros@ == old(arena).macros@,
        final(arena).lifetimes == old(arena).lifetimes,
        final(arena).type_params == old(arena).type_params,
        crate::data::data_pairwise(
            view_data_of_values(*d),
            view_data_of_values(r),
            ref_wrap_rel(final(arena).values_v(), is_mut),
        ),
{
    match d {
        Data::Struct(crate::data::Struct::Unit(us)) => {
            let r = Data::Struct(
                crate::data::Struct::Unit(
                    crate::data::UnitStruct { attrs: crate::ident::clone_attrs(&us.attrs) },
                ),
            );
            proof {
                assert(crate::data::data_pairwise(
                    view_data_of_values(*d),
                    view_data_of_values(r),
                    ref_wrap_rel(arena.values_v(), is_mut),
                ));
            }
            r
        },
        Data::Struct(crate::data::Struct::Tuple(ts)) => {
            proof {
                assert(forall|j: int|
                    0 <= j < ts.fields@.len() ==> (#[trigger] ts.fields@[j]).element.index.0
                        < old(arena).values@.len()) by {
                    assert(forall|j: int|
                        0 <= j < ts.fields@.len()
                            ==> view_data_of_values(*d).struct_fields()[j].element == (
                        #[trigger] ts.fields@[j]).element.index);
                }
            }
            Data::Struct(
                crate::data::Struct::Tuple(
                    crate::data::TupleStruct {
                        fields: wrap_fields_values(arena, &ts.fields, is_mut),
                        attrs: crate::ident::clone_attrs(&ts.attrs),
                    },
                ),
            )
        },
        Data::Struct(crate::data::Struct::Struct(ss)) => {
            proof {
                assert(forall|j: int|
                    0 <= j < ss.fields@.len() ==> (#[trigger] ss.fields@[j]).element.index.0
                        < old(arena).values@.len()) by {
                    assert(forall|j: int|
                        0 <= j < ss.fields@.len()
                            ==> view_data_of_values(*d).struct_fields()[j].element == (
                        #[trigger] ss.fields@[j]).element.index);
                }
            }
            Data::Struct(
                crate::data::Struct::Struct(
                    crate::data::StructStruct {
                        fields: wrap_fields_values(arena, &ss.fields, is_mut),
                        attrs: crate::ident::clone_attrs(&ss.attrs),
                    },
                ),
            )
        },
        Data::Enum(e) => {
            let mut variants: Vec<crate::data::Variant<Value>> = Vec::new();
            let mut i: usize = 0;
            while i < e.variants.len()
                invariant
                    arena.wf(),
                    i <= e.variants@.len(),
                    variants@.len() == i,
                    data_values_below(*d, old(arena).values@.len() as int),
                    *d == Data::Enum(*e),
                    old(arena).values_v().len() <= arena.values_v().len(),
                    forall|j: int|
                        0 <= j < old(arena).values_v().len() ==> arena.values_v()[j] == old(
                            arena,
                        ).values_v()[j],
                    arena.invokes@ == old(arena).invokes@,
                    arena.macros@ == old(arena).macros@,
                    arena.lifetimes == old(arena).lifetimes,
                    arena.type_params == old(arena).type_params,
                    forall|j: int|
                        0 <= j < i ==> crate::data::variant_pairwise(
                            value_variant_view(e.variants@[j]),
                            value_variant_view(#[trigger] variants@[j]),
                            ref_wrap_rel(arena.values_v(), is_mut),
                        ),
                decreases e.variants@.len() - i,
            {
                let ghost pre_vals = arena.values_v();
                proof {
                    assert(crate::node::variant_fields(
                        view_data_of_values(*d)->Enum_variants[i as int],
                    ) == crate::node::variant_fields(value_variant_view(e.variants@[i as int])));
                }
                let v: crate::data::Variant<Value> = match &e.variants[i] {
                    crate::data::Variant::Unit(uv) => crate::data::Variant::Unit(
                        crate::data::UnitVariant {
                            attrs: crate::ident::clone_attrs(&uv.attrs),
                        },
                    ),
                    crate::data::Variant::Tuple(tv) => {
                        proof {
                            assert(forall|j: int|
                                0 <= j < tv.fields@.len()
                                    ==> (#[trigger] tv.fields@[j]).element.index.0 < old(
                                    arena,
                                ).values@.len()) by {
                                assert(forall|j: int|
                                    0 <= j < tv.fields@.len() ==> crate::node::variant_fields(
                                        value_variant_view(e.variants@[i as int]),
                                    )[j].element == (#[trigger] tv.fields@[j]).element.index);
                            }
                        }
                        crate::data::Variant::Tuple(
                            crate::data::TupleVariant {
                                fields: wrap_fields_values(arena, &tv.fields, is_mut),
                                attrs: crate::ident::clone_attrs(&tv.attrs),
                            },
                        )
                    },
                    crate::data::Variant::Struct(sv) => {
                        proof {
                            assert(forall|j: int|
                                0 <= j < sv.fields@.len()
                                    ==> (#[trigger] sv.fields@[j]).element.index.0 < old(
                                    arena,
                                ).values@.len()) by {
                                assert(forall|j: int|
                                    0 <= j < sv.fields@.len() ==> crate::node::variant_fields(
                                        value_variant_view(e.variants@[i as int]),
                                    )[j].element == (#[trigger] sv.fields@[j]).element.index);
                            }
                        }
                        crate::data::Variant::Struct(
                            crate::data::StructVariant {
                                fields: wrap_fields_values(arena, &sv.fields, is_mut),
                                attrs: crate::ident::clone_attrs(&sv.attrs),
                            },
                        )
                    },
                };
                variants.push(v);
                i = i + 1;
                proof {
                    assert(forall|acc: AccessorV, x: ValueRef, y: ValueRef|
                        #[trigger] ref_wrap_rel(pre_vals, is_mut)(acc, x, y) ==> ref_wrap_rel(
                            arena.values_v(),
                            is_mut,
                        )(acc, x, y));
                    assert forall|j: int| 0 <= j < i implies crate::data::variant_pairwise(
                        value_variant_view(e.variants@[j]),
                        value_variant_view(#[trigger] variants@[j]),
                        ref_wrap_rel(arena.values_v(), is_mut),
                    ) by {
                        if j < i - 1 {
                            lemma_variant_weaken(
                                value_variant_view(e.variants@[j]),
                                value_variant_view(variants@[j]),
                                ref_wrap_rel(pre_vals, is_mut),
                                ref_wrap_rel(arena.values_v(), is_mut),
                            );
                        }
                    }
                }
            }
            Data::Enum(
                crate::data::Enum { variants, attrs: crate::ident::clone_attrs(&e.attrs) },
            )
        },
    }
}

/// A positional variant pairing under a stronger relation holds under a
/// weaker one.
pub proof fn lemma_variant_weaken<X, Y>(
    a: crate::data::VariantV<X>,
    b: crate::data::VariantV<Y>,
    rel1: spec_fn(AccessorV, X, Y) -> bool,
    rel2: spec_fn(AccessorV, X, Y) -> bool,
)
    requires
        crate::data::variant_pairwise(a, b, rel1),
        forall|acc: AccessorV, x: X, y: Y| #[trigger] rel1(acc, x, y) ==> rel2(acc, x, y),
    ensures
        crate::data::variant_pairwise(a, b, rel2),
{
}

fn destructure_value_data(arena: &mut Arena, parent: ValueRef, d: &Data<Type>) -> (r: Data<
    Value,
>)
    requires
        old(arena).wf(),
        parent.0 < old(arena).values@.len(),
    ensures
        final(arena).wf(),
        old(arena).values_v().len() <= final(arena).values_v().len(),
        forall|j: int|
            0 <= j < old(arena).values_v().len() ==> final(arena).values_v()[j] == old(
                arena,
            ).values_v()[j],
        final(arena).invokes@ == old(arena).invokes@,
        final(arena).macros@ == old(arena).macros@,
        final(arena).lifetimes == old(arena).lifetimes,
        final(arena).type_params == old(arena).type_params,
        crate::data::data_pairwise(
            crate::ty::view_data_type(*d),
            view_data_of_values(r),
            destructure_rel(final(arena).values_v(), parent),
        ),
{
    match d {
        Data::Struct(crate::data::Struct::Unit(us)) => {
            let r = Data::Struct(
                crate::data::Struct::Unit(
                    crate::data::UnitStruct { attrs: crate::ident::clone_attrs(&us.attrs) },
                ),
            );
            proof {
                assert(crate::data::data_pairwise(
                    crate::ty::view_data_type(*d),
                    view_data_of_values(r),
                    destructure_rel(arena.values_v(), parent),
                ));
            }
            r
        },
        Data::Struct(crate::data::Struct::Tuple(ts)) => {
            let fields = destructure_fields(arena, parent, &ts.fields);
            let r = Data::Struct(
                crate::data::Struct::Tuple(
                    crate::data::TupleStruct {
                        fields,
                        attrs: crate::ident::clone_attrs(&ts.attrs),
                    },
                ),
            );
            proof {
                assert(crate::data::data_pairwise(
                    crate::ty::view_data_type(*d),
                    view_data_of_values(r),
                    destructure_rel(arena.values_v(), parent),
                ));
            }
            r
        },
        Data::Struct(crate::data::Struct::Struct(ss)) => {
            let fields = destructure_fields(arena, parent, &ss.fields);
            let r = Data::Struct(
                crate::data::Struct::Struct(
                    crate::data::StructStruct {
                        fields,
                        attrs: crate::ident::clone_attrs(&ss.attrs),
                    },
                ),
            );
            proof {
                assert(crate::data::data_pairwise(
                    crate::ty::view_data_type(*d),
                    view_data_of_values(r),
                    destructure_rel(arena.values_v(), parent),
                ));
            }
            r
        },
        Data::Enum(e) => {
            let mut variants: Vec<crate::data::Variant<Value>> = Vec::new();
            let mut i: usize = 0;
            while i < e.variants.len()
                invariant
                    arena.wf(),
                    parent.0 < old(arena).values@.len(),
                    i <= e.variants@.len(),
                    variants@.len() == i,
                    old(arena).values_v().len() <= arena.values_v().len(),
                    forall|j: int|
                        0 <= j < old(arena).values_v().len() ==> arena.values_v()[j] == old(
                            arena,
                        ).values_v()[j],
                    arena.invokes@ == old(arena).invokes@,
                    arena.macros@ == old(arena).macros@,
                    arena.lifetimes == old(arena).lifetimes,
                    arena.type_params == old(arena).type_params,
                    forall|j: int|
                        0 <= j < i ==> crate::data::variant_pairwise(
                            crate::ty::view_variant_type(e.variants@[j]),
                            value_variant_view(#[trigger] variants@[j]),
                            destructure_rel(arena.values_v(), parent),
                        ),
                decreases e.variants@.len() - i,
            {
                let ghost pre_vals = arena.values_v();
                let v: crate::data::Variant<Value> = match &e.variants[i] {
                    crate::data::Variant::Unit(uv) => crate::data::Variant::Unit(
                        crate::data::UnitVariant {
                            attrs: crate::ident::clone_attrs(&uv.attrs),
                        },
                    ),
                    crate::data::Variant::Tuple(tv) => crate::data::Variant::Tuple(
                        crate::data::TupleVariant {
                            fields: destructure_fields(arena, parent, &tv.fields),
                            attrs: crate::ident::clone_attrs(&tv.attrs),
                        },
                    ),
                    crate::data::Variant::Struct(sv) => crate::data::Variant::Struct(
                        crate::data::StructVariant {
                            fields: destructure_fields(arena, parent, &sv.fields),
                            attrs: crate::ident::clone_attrs(&sv.attrs),
                        },
                    ),
                };
                variants.push(v);
                i = i + 1;
                proof {
                    assert(forall|acc: AccessorV, x: TypeNodeV, y: ValueRef|
                        #[trigger] destructure_rel(pre_vals, parent)(acc, x, y)
                            ==> destructure_rel(arena.values_v(), parent)(acc, x, y));
                    assert forall|j: int| 0 <= j < i implies crate::data::variant_pairwise(
                        crate::ty::view_variant_type(e.variants@[j]),
                        value_variant_view(#[trigger] variants@[j]),
                        destructure_rel(arena.values_v(), parent),
                    ) by {
                        if j < i - 1 {
                            lemma_variant_weaken(
                                crate::ty::view_variant_type(e.variants@[j]),
                                value_variant_view(variants@[j]),
                                destructure_rel(pre_vals, parent),
                                destructure_rel(arena.values_v(), parent),
                            );
                        }
                    }
                }
            }
            let r = Data::Enum(
                crate::data::Enum { variants, attrs: crate::ident::clone_attrs(&e.attrs) },
            );
            proof {
                crate::ty::lemma_view_seq_variant_type(e.variants@);
                assert(crate::data::data_pairwise(
                    crate::ty::view_data_type(*d),
                    view_data_of_values(r),
                    destructure_rel(arena.values_v(), parent),
                ));
            }
            r
        },
    }
}

impl Value {
    /// Reinterprets this value as its shape: a data-structure literal
    /// yields its stored shape directly; a reference to one yields the
    /// referent's shape with every field wrapped in a reference of the same
    /// mutability; a binding whose type is a data structure (or a reference
    /// to one) yields its type's shape with every field projected out of
    /// the binding by a destructure node. Any other receiver is a
    /// construction-time error of the calling generator and is excluded.
    pub fn as_data(&self, arena: &mut Arena) -> (r: Data<Value>)
        requires
            old(arena).wf(),
            self.index.0 < old(arena).values@.len(),
            value_as_data_ok(old(arena).values_v(), self.index.0 as int),
        ensures
            final(arena).wf(),
            old(arena).values_v().len() <= final(arena).values_v().len(),
            forall|j: int|
                0 <= j < old(arena).values_v().len() ==> final(arena).values_v()[j] == old(
                    arena,
                ).values_v()[j],
            final(arena).invokes@ == old(arena).invokes@,
            final(arena).macros@ == old(arena).macros@,
            final(arena).lifetimes == old(arena).lifetimes,
            final(arena).type_params == old(arena).type_params,
            value_as_data_rel(
                final(arena).values_v(),
                self.index.0 as int,
                view_data_of_values(r),
            ),
        decreases self.index.0,
    {
        proof {
            crate::arena::lemma_view_seq_value_node(arena.values@);
        }
        let ghost vals0 = arena.values_v();
        let step: Result<Data<Value>, (bool, ValueRef)> = match &arena.values[self.index.0] {
            ValueNode::DataStructure { data, .. } => {
                let r = data_refs_to_values(data);
                proof {
                    assert(vals0[self.index.0 as int]->DataStructure_data
                        == crate::node::view_data_value(*data));
                    assert(value_as_data_rel(
                        arena.values_v(),
                        self.index.0 as int,
                        view_data_of_values(r),
                    ));
                }
                Ok(r)
            },
            ValueNode::Reference { is_mut, value } => Err((*is_mut, *value)),
            ValueNode::Binding { ty, .. } => {
                let td = ty.as_data();
                let ghost tyv = crate::ty::view_type(*ty);
                let r = destructure_value_data(arena, self.index, &td);
                proof {
                    assert(self.index == ValueRef(self.index.0));
                    assert(arena.values_v()[self.index.0 as int] == vals0[self.index.0 as int]);
                    assert(crate::ty::view_data_type(td) == crate::ty::spec_as_data(tyv));
                    assert(value_as_data_rel(
                        arena.values_v(),
                        self.index.0 as int,
                        view_data_of_values(r),
                    ));
                }
                Ok(r)
            },
            _ => vstd::pervasive::unreached(),
        };
        match step {
            Ok(r) => r,
            Err((is_mut, value)) => {
                let inner = Value { index: value }.as_data(arena);
                let ghost mid_vals = arena.values_v();
                proof {
                    lemma_rel_refs_below(
                        mid_vals,
                        value.0 as int,
                        view_data_of_values(inner),
                        arena.invokes@.len() as int,
                        arena.macros@.len() as int,
                    );
                }
                let r = wrap_value_data(arena, &inner, is_mut);
                proof {
                    lemma_as_data_rel_monotone(
                        mid_vals,
                        arena.values_v(),
                        value.0 as int,
                        view_data_of_values(inner),
                    );
                    assert(value_as_data_rel(
                        arena.values_v(),
                        value.0 as int,
                        view_data_of_values(inner),
                    ) && crate::data::data_pairwise(
                        view_data_of_values(inner),
                        view_data_of_values(r),
                        ref_wrap_rel(arena.values_v(), is_mut),
                    ));
                    assert(exists|inner2: DataV<ValueRef>|
                        value_as_data_rel(arena.values_v(), value.0 as int, inner2)
                            && #[trigger] crate::data::data_pairwise(
                            inner2,
                            view_data_of_values(r),
                            ref_wrap_rel(arena.values_v(), is_mut),
                        ));
                    assert(arena.values_v()[self.index.0 as int] == old(
                        arena,
                    ).values_v()[self.index.0 as int]);
                    assert(old(arena).values_v()[self.index.0 as int] == (ValueNodeV::Reference {
                        is_mut,
                        value,
                    }));
                    assert(crate::node::node_wf(
                        old(arena).values_v()[self.index.0 as int],
                        self.index.0 as int,
                        old(arena).invokes@.len() as int,
                        old(arena).macros@.len() as int,
                    ));
                    assert(value.0 < self.index.0);
                    let fv = arena.values_v();
                    let node = fv[self.index.0 as int];
                    assert(node->Reference_is_mut == is_mut && node->Reference_value == value);
                    assert(exists|inner2: DataV<ValueRef>|
                        value_as_data_rel(fv, node->Reference_value.0 as int, inner2)
                            && #[trigger] crate::data::data_pairwise(
                            inner2,
                            view_data_of_values(r),
                            ref_wrap_rel(fv, node->Reference_is_mut),
                        )) by {
                        assert(value_as_data_rel(fv, value.0 as int, view_data_of_values(inner))
                            && crate::data::data_pairwise(
                            view_data_of_values(inner),
                            view_data_of_values(r),
                            ref_wrap_rel(fv, is_mut),
                        ));
                    }
                    assert(value_as_data_rel(
                        arena.values_v(),
                        self.index.0 as int,
                        view_data_of_values(r),
                    ));
                }
                r
            },
        }
    }
}

/// A pairing whose relation bounds the produced reference bounds the whole
/// shape.
proof fn lemma_pairwise_rel_bounded<X>(
    a: DataV<X>,
    b: DataV<ValueRef>,
    rel: spec_fn(AccessorV, X, ValueRef) -> bool,
    bound: int,
)
    requires
        crate::data::data_pairwise(a, b, rel),
        forall|acc: AccessorV, x: X, y: ValueRef| #[trigger] rel(acc, x, y) ==> y.0 < bound,
    ensures
        crate::node::data_refs_below(b, bound),
{
    match (a, b) {
        (DataV::Enum { variants: av, .. }, DataV::Enum { variants: bv, .. }) => {
            assert forall|i: int, j: int|
                0 <= i < bv.len() && 0 <= j < crate::node::variant_fields(
                    #[trigger] bv[i],
                ).len() implies (#[trigger] crate::node::variant_fields(bv[i])[j]).element.0
                < bound by {
                assert(crate::data::variant_pairwise(av[i], bv[i], rel));
            }
        },
        _ => {},
    }
}

/// A pairing that keeps the stored references keeps their bounds.
proof fn lemma_pairwise_same_bounded(a: DataV<ValueRef>, b: DataV<ValueRef>, bound: int)
    requires
        crate::data::data_pairwise(a, b, same_ref_rel()),
        crate::node::data_refs_below(a, bound),
    ensures
        crate::node::data_refs_below(b, bound),
{
    match (a, b) {
        (DataV::Enum { variants: av, .. }, DataV::Enum { variants: bv, .. }) => {
            assert forall|i: int, j: int|
                0 <= i < bv.len() && 0 <= j < crate::node::variant_fields(
                    #[trigger] bv[i],
                ).len() implies (#[trigger] crate::node::variant_fields(bv[i])[j]).element.0
                < bound by {
                assert(crate::data::variant_pairwise(av[i], bv[i], same_ref_rel()));
                assert(crate::node::variant_fields(av[i])[j].element.0 < bound);
            }
        },
        _ => {},
    }
}

/// Every reference a related shape holds points into the store.
proof fn lemma_rel_refs_below(
    vals: Seq<ValueNodeV>,
    i: int,
    r: DataV<ValueRef>,
    ninv: int,
    nmac: int,
)
    requires
        value_as_data_rel(vals, i, r),
        forall|j: int|
            0 <= j < vals.len() ==> crate::node::node_wf(#[trigger] vals[j], j, ninv, nmac),
    ensures
        crate::node::data_refs_below(r, vals.len() as int),
{
    match vals[i] {
        ValueNodeV::DataStructure { data, .. } => {
            assert(crate::node::node_wf(vals[i], i, ninv, nmac));
            assert(crate::node::data_refs_below(data, i));
            assert(crate::node::data_refs_below(data, vals.len() as int));
            lemma_pairwise_same_bounded(data, r, vals.len() as int);
        },
        ValueNodeV::Reference { is_mut, value } => {
            let inner = choose|inner: DataV<ValueRef>|
                value_as_data_rel(vals, value.0 as int, inner)
                    && #[trigger] crate::data::data_pairwise(
                    inner,
                    r,
                    ref_wrap_rel(vals, is_mut),
                );
            lemma_pairwise_rel_bounded(inner, r, ref_wrap_rel(vals, is_mut), vals.len() as int);
        },
        ValueNodeV::Binding { ty, .. } => {
            lemma_pairwise_rel_bounded(
                crate::ty::spec_as_data(ty),
                r,
                destructure_rel(vals, ValueRef(i as usize)),
                vals.len() as int,
            );
        },
        _ => {},
    }
}

} // verus!
