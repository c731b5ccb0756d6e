//! The value-node algebra's storage form: the node kinds held in the arena,
//! and the recursive type-inference and type-naming walks over them.

use vstd::prelude::*;

use crate::arena::Arena;
use crate::data::Accessor;
use crate::data::AccessorV;
use crate::data::Data;
use crate::data::DataV;
use crate::data::Field;
use crate::data::FieldV;
use crate::data::StructV;
use crate::data::Variant;
use crate::data::VariantV;
use crate::data::attrs_view;
use crate::ident::Ident;
use crate::ty::Type;
use crate::ty::TypeNode;
use crate::ty::TypeNodeV;
use crate::ty::reference_v;
use crate::ty::view_type;
use crate::ty::name_of;
use crate::ty::has_name;

verus! {

/// A stable reference to a value node in the arena.
#[derive(Clone, Copy, PartialEq, Eq, Structural, Debug, Hash)]
pub struct ValueRef(pub usize);

/// A stable reference to a recorded invocation in the arena.
#[derive(Clone, Copy, PartialEq, Eq, Structural, Debug, Hash)]
pub struct InvokeRef(pub usize);

/// A stable reference to a recorded macro invocation in the arena.
#[derive(Clone, Copy, PartialEq, Eq, Structural, Debug, Hash)]
pub struct MacroInvokeRef(pub usize);

/// One stored value node. Subvalues are held by reference into the arena,
/// never inline, so nodes stay cheap to copy and freely shared.
#[derive(PartialEq, Eq, Debug)]
pub enum ValueNode {
    /// A tuple of values.
    Tuple(Vec<ValueRef>),
    /// A string literal.
    Str(String),
    /// A reference to another value.
    Reference { is_mut: bool, value: ValueRef },
    /// An explicit dereference of another value.
    Dereference(ValueRef),
    /// A named binding with a known type.
    Binding { name: Ident, ty: Type },
    /// A data-structure literal: a name and a shape over value references.
    DataStructure { name: Ident, data: Data<ValueRef> },
    /// A reference to a recorded invocation.
    Invoke(InvokeRef),
    /// A field projected out of a parent value.
    Destructure { parent: ValueRef, accessor: Accessor, ty: Type },
    /// A reference to a recorded macro invocation.
    MacroInvocation(MacroInvokeRef),
}

/// The mathematical value of a [`ValueNode`].
#[verifier::ext_equal]
pub enum ValueNodeV {
    Tuple(Seq<ValueRef>),
    Str(Seq<char>),
    Reference { is_mut: bool, value: ValueRef },
    Dereference(ValueRef),
    Binding { name: Seq<char>, ty: TypeNodeV },
    DataStructure { name: Seq<char>, data: DataV<ValueRef> },
    Invoke(InvokeRef),
    Destructure { parent: ValueRef, accessor: AccessorV, ty: TypeNodeV },
    MacroInvocation(MacroInvokeRef),
}

/// The mathematical value of a value-level shape: accessors resolved,
/// elements kept as the stored references.
pub open spec fn view_data_value(d: Data<ValueRef>) -> DataV<ValueRef> {
    let vf = |f: Field<ValueRef>| FieldV { accessor: f.accessor@, element: f.element };
    let vv = |v: Variant<ValueRef>| view_variant_value(v);
    match d {
        Data::Struct(crate::data::Struct::Unit(us)) => DataV::Struct(
            StructV::Unit { attrs: attrs_view(us.attrs@) },
        ),
        Data::Struct(crate::data::Struct::Tuple(ts)) => DataV::Struct(
            StructV::Tuple { fields: ts.fields@.map_values(vf), attrs: attrs_view(ts.attrs@) },
        ),
        Data::Struct(crate::data::Struct::Struct(ss)) => DataV::Struct(
            StructV::Struct { fields: ss.fields@.map_values(vf), attrs: attrs_view(ss.attrs@) },
        ),
        Data::Enum(e) => DataV::Enum {
            variants: e.variants@.map_values(vv),
            attrs: attrs_view(e.attrs@),
        },
    }
}

pub open spec fn view_value_node(n: ValueNode) -> ValueNodeV {
    match n {
        ValueNode::Tuple(refs) => ValueNodeV::Tuple(refs@),
        ValueNode::Str(s) => ValueNodeV::Str(s@),
        ValueNode::Reference { is_mut, value } => ValueNodeV::Reference { is_mut, value },
        ValueNode::Dereference(v) => ValueNodeV::Dereference(v),
        ValueNode::Binding { name, ty } => ValueNodeV::Binding {
            name: name.name@,
            ty: view_type(ty),
        },
        ValueNode::DataStructure { name, data } => ValueNodeV::DataStructure {
            name: name.name@,
            data: view_data_value(data),
        },
        ValueNode::Invoke(ir) => ValueNodeV::Invoke(ir),
        ValueNode::Destructure { parent, accessor, ty } => ValueNodeV::Destructure {
            parent,
            accessor: accessor@,
            ty: view_type(ty),
        },
        ValueNode::MacroInvocation(mr) => ValueNodeV::MacroInvocation(mr),
    }
}

impl View for ValueNode {
    type V = ValueNodeV;

    open spec fn view(&self) -> ValueNodeV {
        view_value_node(*self)
    }
}

pub open spec fn view_seq_value_node(s: Seq<ValueNode>) -> Seq<ValueNodeV> {
    s.map_values(|n: ValueNode| view_value_node(n))
}

/// Every reference a value-level shape holds is below `bound`.
pub open spec fn data_refs_below(d: DataV<ValueRef>, bound: int) -> bool {
    &&& forall|i: int|
        0 <= i < d.struct_fields().len() ==> (#[trigger] d.struct_fields()[i]).element.0 < bound
    &&& (d is Enum ==> forall|i: int, j: int|
        0 <= i < d->Enum_variants.len() && 0 <= j < variant_fields(
            #[trigger] d->Enum_variants[i],
        ).len() ==> (#[trigger] variant_fields(d->Enum_variants[i])[j]).element.0 < bound)
}

pub open spec fn variant_fields(v: VariantV<ValueRef>) -> Seq<FieldV<ValueRef>> {
    match v {
        VariantV::Unit { .. } => Seq::empty(),
        VariantV::Tuple { fields, .. } => fields,
        VariantV::Struct { fields, .. } => fields,
    }
}

/// Every reference a node holds points strictly below `bound` in the value
/// store (so nodes only ever reference nodes pushed before them), and into
/// the invocation tables where it references those.
pub open spec fn node_wf(n: ValueNodeV, bound: int, invokes: int, macros: int) -> bool {
    match n {
        ValueNodeV::Tuple(refs) => forall|i: int|
            0 <= i < refs.len() ==> (#[trigger] refs[i]).0 < bound,
        ValueNodeV::Str(_) => true,
        ValueNodeV::Reference { value, .. } => value.0 < bound,
        ValueNodeV::Dereference(v) => v.0 < bound,
        ValueNodeV::Binding { .. } => true,
        ValueNodeV::DataStructure { data, .. } => data_refs_below(data, bound),
        ValueNodeV::Invoke(ir) => ir.0 < invokes,
        ValueNodeV::Destructure { parent, .. } => parent.0 < bound,
        ValueNodeV::MacroInvocation(mr) => mr.0 < macros,
    }
}

// ----------------------------------------------------------------------
// The type of a value.
// ----------------------------------------------------------------------

/// True where the stored value at index `i` can answer "what is my type":
/// a data-structure literal, an explicit dereference and a macro invocation
/// carry no type information, and asking them is a construction-time error.
pub open spec fn value_typed(vals: Seq<ValueNodeV>, outs: Seq<TypeNodeV>, i: int) -> bool
    decreases i, 1int, 0int,
{
    if 0 <= i < vals.len() {
        match vals[i] {
            ValueNodeV::Tuple(refs) => refs_typed(vals, outs, refs, i),
            ValueNodeV::Str(_) => true,
            ValueNodeV::Reference { value, .. } => value.0 < i && value_typed(
                vals,
                outs,
                value.0 as int,
            ),
            ValueNodeV::Binding { .. } => true,
            ValueNodeV::Destructure { .. } => true,
            ValueNodeV::Invoke(ir) => ir.0 < outs.len(),
            _ => false,
        }
    } else {
        false
    }
}

pub open spec fn refs_typed(
    vals: Seq<ValueNodeV>,
    outs: Seq<TypeNodeV>,
    refs: Seq<ValueRef>,
    bound: int,
) -> bool
    decreases bound, 0int, refs.len(),
{
    if refs.len() == 0 {
        true
    } else {
        refs[0].0 < bound && value_typed(vals, outs, refs[0].0 as int) && refs_typed(
            vals,
            outs,
            refs.drop_first(),
            bound,
        )
    }
}

/// The type of the stored value at index `i`, by structural recursion: a
/// tuple of the subvalues' types, `str` for a string literal, a reference
/// around the referent's type, the declared type of a binding or a
/// destructure, and the recorded output type of an invocation.
pub open spec fn spec_value_type(vals: Seq<ValueNodeV>, outs: Seq<TypeNodeV>, i: int) -> TypeNodeV
    decreases i, 1int, 0int,
{
    if 0 <= i < vals.len() {
        match vals[i] {
            ValueNodeV::Tuple(refs) => TypeNodeV::Tuple(spec_types_of(vals, outs, refs, i)),
            ValueNodeV::Str(_) => TypeNodeV::PrimitiveStr,
            ValueNodeV::Reference { is_mut, value } => {
                if value.0 < i {
                    reference_v(is_mut, None, spec_value_type(vals, outs, value.0 as int))
                } else {
                    TypeNodeV::Infer
                }
            },
            ValueNodeV::Binding { ty, .. } => ty,
            ValueNodeV::Destructure { ty, .. } => ty,
            ValueNodeV::Invoke(ir) => {
                if ir.0 < outs.len() {
                    outs[ir.0 as int]
                } else {
                    TypeNodeV::Infer
                }
            },
            _ => TypeNodeV::Infer,
        }
    } else {
        TypeNodeV::Infer
    }
}

pub open spec fn spec_types_of(
    vals: Seq<ValueNodeV>,
    outs: Seq<TypeNodeV>,
    refs: Seq<ValueRef>,
    bound: int,
) -> Seq<TypeNodeV>
    decreases bound, 0int, refs.len(),
{
    if refs.len() == 0 {
        Seq::empty()
    } else if refs[0].0 < bound {
        seq![spec_value_type(vals, outs, refs[0].0 as int)] + spec_types_of(
            vals,
            outs,
            refs.drop_first(),
            bound,
        )
    } else {
        seq![TypeNodeV::Infer] + spec_types_of(vals, outs, refs.drop_first(), bound)
    }
}

pub proof fn lemma_spec_types_of(
    vals: Seq<ValueNodeV>,
    outs: Seq<TypeNodeV>,
    refs: Seq<ValueRef>,
    bound: int,
)
    requires
        forall|i: int| 0 <= i < refs.len() ==> (#[trigger] refs[i]).0 < bound,
    ensures
        spec_types_of(vals, outs, refs, bound).len() == refs.len(),
        forall|i: int|
            0 <= i < refs.len() ==> spec_types_of(vals, outs, refs, bound)[i] == spec_value_type(
                vals,
                outs,
                (#[trigger] refs[i]).0 as int,
            ),
    decreases refs.len(),
{
    if refs.len() > 0 {
        assert(forall|i: int|
            1 <= i < refs.len() ==> #[trigger] refs[i] == refs.drop_first()[i - 1]);
        lemma_spec_types_of(vals, outs, refs.drop_first(), bound);
    }
}

pub proof fn lemma_refs_typed(
    vals: Seq<ValueNodeV>,
    outs: Seq<TypeNodeV>,
    refs: Seq<ValueRef>,
    bound: int,
)
    ensures
        refs_typed(vals, outs, refs, bound) <==> (forall|i: int|
            0 <= i < refs.len() ==> (#[trigger] refs[i]).0 < bound && value_typed(
                vals,
                outs,
                refs[i].0 as int,
            )),
    decreases refs.len(),
{
    if refs.len() > 0 {
        assert(forall|i: int|
            1 <= i < refs.len() ==> #[trigger] refs[i] == refs.drop_first()[i - 1]);
        lemma_refs_typed(vals, outs, refs.drop_first(), bound);
    }
}

impl Arena {
    /// The type of the stored value `r` refers to.
    pub fn value_type(&self, r: ValueRef) -> (t: Type)
        requires
            self.wf(),
            r.0 < self.values@.len(),
            value_typed(self.values_v(), self.invoke_outputs(), r.0 as int),
        ensures
            view_type(t) == spec_value_type(self.values_v(), self.invoke_outputs(), r.0 as int),
        decreases r.0,
    {
        proof {
            crate::arena::lemma_view_seq_value_node(self.values@);
        }
        let node = &self.values[r.0];
        match node {
            ValueNode::Tuple(refs) => {
                proof {
                    lemma_refs_typed(
                        self.values_v(),
                        self.invoke_outputs(),
                        refs@,
                        r.0 as int,
                    );
                    lemma_spec_types_of(
                        self.values_v(),
                        self.invoke_outputs(),
                        refs@,
                        r.0 as int,
                    );
                }
                let mut nodes: Vec<TypeNode> = Vec::new();
                let mut i: usize = 0;
                while i < refs.len()
                    invariant
                        self.wf(),
                        r.0 < self.values@.len(),
                        self.values_v()[r.0 as int] == ValueNodeV::Tuple(refs@),
                        i <= refs@.len(),
                        nodes@.len() == i,
                        forall|j: int|
                            0 <= j < refs@.len() ==> (#[trigger] refs@[j]).0 < r.0 && value_typed(
                                self.values_v(),
                                self.invoke_outputs(),
                                refs@[j].0 as int,
                            ),
                        forall|j: int|
                            0 <= j < i ==> crate::ty::view_type_node(#[trigger] nodes@[j])
                                == spec_value_type(
                                self.values_v(),
                                self.invoke_outputs(),
                                refs@[j].0 as int,
                            ),
                    decreases refs@.len() - i,
                {
                    let t = self.value_type(refs[i]);
                    nodes.push(t.0);
                    i = i + 1;
                }
                proof {
                    crate::ty::lemma_view_seq_type_node(nodes@);
                    lemma_spec_types_of(
                        self.values_v(),
                        self.invoke_outputs(),
                        refs@,
                        r.0 as int,
                    );
                    assert(crate::ty::view_seq_type_node(nodes@) =~= spec_types_of(
                        self.values_v(),
                        self.invoke_outputs(),
                        refs@,
                        r.0 as int,
                    ));
                }
                Type(TypeNode::Tuple(nodes))
            },
            ValueNode::Str(_) => Type(TypeNode::PrimitiveStr),
            ValueNode::Reference { is_mut, value } => {
                let inner = self.value_type(*value);
                let t = Type(
                    TypeNode::Reference {
                        is_mut: *is_mut,
                        lifetime: None,
                        inner: Box::new(inner.0),
                    },
                );
                proof {
                    assert(view_type(t) =~= spec_value_type(
                        self.values_v(),
                        self.invoke_outputs(),
                        r.0 as int,
                    ));
                }
                t
            },
            ValueNode::Binding { ty, .. } => ty.clone(),
            ValueNode::Destructure { ty, .. } => ty.clone(),
            ValueNode::Invoke(ir) => {
                proof {
                    crate::arena::lemma_invoke_outputs(self.invokes@);
                }
                self.invokes[ir.0].function.sig.output.clone()
            },
            _ => vstd::pervasive::unreached(),
        }
    }
}

impl ValueNode {
    /// The type of this node, answered by structural recursion through the
    /// arena. Asking a node kind that carries no type information (a
    /// data-structure literal, an explicit dereference, a macro invocation)
    /// is a construction-time error of the calling generator and is
    /// excluded.
    pub fn get_type(&self, arena: &Arena) -> (t: Type)
        requires
            arena.wf(),
            node_wf(self@, arena.values@.len() as int, arena.invokes@.len() as int, arena.macros@.len() as int),
            node_typed(arena.values_v(), arena.invoke_outputs(), self@),
        ensures
            view_type(t) == spec_node_type(arena.values_v(), arena.invoke_outputs(), self@),
    {
        match self {
            ValueNode::Tuple(refs) => {
                proof {
                    lemma_refs_typed(
                        arena.values_v(),
                        arena.invoke_outputs(),
                        refs@,
                        arena.values@.len() as int,
                    );
                    lemma_spec_types_of(
                        arena.values_v(),
                        arena.invoke_outputs(),
                        refs@,
                        arena.values@.len() as int,
                    );
                }
                let mut nodes: Vec<TypeNode> = Vec::new();
                let mut i: usize = 0;
                while i < refs.len()
                    invariant
                        arena.wf(),
                        *self == ValueNode::Tuple(*refs),
                        i <= refs@.len(),
                        nodes@.len() == i,
                        forall|j: int|
                            0 <= j < refs@.len() ==> (#[trigger] refs@[j]).0
                                < arena.values@.len() && value_typed(
                                arena.values_v(),
                                arena.invoke_outputs(),
                                refs@[j].0 as int,
                            ),
                        forall|j: int|
                            0 <= j < i ==> crate::ty::view_type_node(#[trigger] nodes@[j])
                                == spec_value_type(
                                arena.values_v(),
                                arena.invoke_outputs(),
                                refs@[j].0 as int,
                            ),
                    decreases refs@.len() - i,
                {
                    let t = arena.value_type(refs[i]);
                    nodes.push(t.0);
                    i = i + 1;
                }
                proof {
                    crate::ty::lemma_view_seq_type_node(nodes@);
                    lemma_spec_types_of(
                        arena.values_v(),
                        arena.invoke_outputs(),
                        refs@,
                        arena.values@.len() as int,
                    );
                    assert(crate::ty::view_seq_type_node(nodes@) =~= spec_types_of(
                        arena.values_v(),
                        arena.invoke_outputs(),
                        refs@,
                        arena.values@.len() as int,
                    ));
                }
                Type(TypeNode::Tuple(nodes))
            },
            ValueNode::Str(_) => Type(TypeNode::PrimitiveStr),
            ValueNode::Reference { is_mut, value } => {
                let inner = arena.value_type(*value);
                let t = Type(
                    TypeNode::Reference {
                        is_mut: *is_mut,
                        lifetime: None,
                        inner: Box::new(inner.0),
                    },
                );
                proof {
                    assert(view_type(t) =~= spec_node_type(
                        arena.values_v(),
                        arena.invoke_outputs(),
                        self@,
                    ));
                }
                t
            },
            ValueNode::Binding { ty, .. } => ty.clone(),
            ValueNode::Destructure { ty, .. } => ty.clone(),
            ValueNode::Invoke(ir) => {
                proof {
                    crate::arena::lemma_invoke_outputs(arena.invokes@);
                }
                arena.invokes[ir.0].function.sig.output.clone()
            },
            _ => vstd::pervasive::unreached(),
        }
    }
}

/// True where a node held outside the arena can answer "what is my type".
pub open spec fn node_typed(vals: Seq<ValueNodeV>, outs: Seq<TypeNodeV>, n: ValueNodeV) -> bool {
    match n {
        ValueNodeV::Tuple(refs) => refs_typed(vals, outs, refs, vals.len() as int),
        ValueNodeV::Str(_) => true,
        ValueNodeV::Reference { value, .. } => value.0 < vals.len() && value_typed(
            vals,
            outs,
            value.0 as int,
        ),
        ValueNodeV::Binding { .. } => true,
        ValueNodeV::Destructure { .. } => true,
        ValueNodeV::Invoke(ir) => ir.0 < outs.len(),
        _ => false,
    }
}

/// The type of a node held outside the arena.
pub open spec fn spec_node_type(vals: Seq<ValueNodeV>, outs: Seq<TypeNodeV>, n: ValueNodeV) -> TypeNodeV {
    match n {
        ValueNodeV::Tuple(refs) => TypeNodeV::Tuple(
            spec_types_of(vals, outs, refs, vals.len() as int),
        ),
        ValueNodeV::Str(_) => TypeNodeV::PrimitiveStr,
        ValueNodeV::Reference { is_mut, value } => {
            if value.0 < vals.len() {
                reference_v(is_mut, None, spec_value_type(vals, outs, value.0 as int))
            } else {
                TypeNodeV::Infer
            }
        },
        ValueNodeV::Binding { ty, .. } => ty,
        ValueNodeV::Destructure { ty, .. } => ty,
        ValueNodeV::Invoke(ir) => {
            if ir.0 < outs.len() {
                outs[ir.0 as int]
            } else {
                TypeNodeV::Infer
            }
        },
        _ => TypeNodeV::Infer,
    }
}


/// The mathematical value of one stored variant.
pub open spec fn view_variant_value(v: Variant<ValueRef>) -> VariantV<ValueRef> {
    let vf = |f: Field<ValueRef>| FieldV { accessor: f.accessor@, element: f.element };
    match v {
        Variant::Unit(uv) => VariantV::Unit { attrs: attrs_view(uv.attrs@) },
        Variant::Tuple(tv) => VariantV::Tuple {
            fields: tv.fields@.map_values(vf),
            attrs: attrs_view(tv.attrs@),
        },
        Variant::Struct(sv) => VariantV::Struct {
            fields: sv.fields@.map_values(vf),
            attrs: attrs_view(sv.attrs@),
        },
    }
}


// ----------------------------------------------------------------------
// The printable type name of a value.
// ----------------------------------------------------------------------

/// True where the stored value at index `i` can answer "what is my type's
/// name": an explicit dereference and a macro invocation cannot, and the
/// carried type must itself have a printable name.
pub open spec fn value_name_ok(vals: Seq<ValueNodeV>, outs: Seq<TypeNodeV>, i: int) -> bool
    decreases i, 1int, 0int,
{
    if 0 <= i < vals.len() {
        match vals[i] {
            ValueNodeV::Tuple(refs) => refs_name_ok(vals, outs, refs, i),
            ValueNodeV::Str(_) => true,
            ValueNodeV::DataStructure { .. } => true,
            ValueNodeV::Reference { value, .. } => value.0 < i && value_name_ok(
                vals,
                outs,
                value.0 as int,
            ),
            ValueNodeV::Binding { ty, .. } => has_name(ty),
            ValueNodeV::Destructure { ty, .. } => has_name(ty),
            ValueNodeV::Invoke(ir) => ir.0 < outs.len() && has_name(outs[ir.0 as int]),
            _ => false,
        }
    } else {
        false
    }
}

pub open spec fn refs_name_ok(
    vals: Seq<ValueNodeV>,
    outs: Seq<TypeNodeV>,
    refs: Seq<ValueRef>,
    bound: int,
) -> bool
    decreases bound, 0int, refs.len(),
{
    if refs.len() == 0 {
        true
    } else {
        refs[0].0 < bound && value_name_ok(vals, outs, refs[0].0 as int) && refs_name_ok(
            vals,
            outs,
            refs.drop_first(),
            bound,
        )
    }
}

pub proof fn lemma_refs_name_ok(
    vals: Seq<ValueNodeV>,
    outs: Seq<TypeNodeV>,
    refs: Seq<ValueRef>,
    bound: int,
)
    ensures
        refs_name_ok(vals, outs, refs, bound) <==> (forall|i: int|
            0 <= i < refs.len() ==> (#[trigger] refs[i]).0 < bound && value_name_ok(
                vals,
                outs,
                refs[i].0 as int,
            )),
    decreases refs.len(),
{
    if refs.len() > 0 {
        assert(forall|i: int|
            1 <= i < refs.len() ==> #[trigger] refs[i] == refs.drop_first()[i - 1]);
        lemma_refs_name_ok(vals, outs, refs.drop_first(), bound);
    }
}

/// The printable name of the type of the stored value at index `i`: a
/// parenthesized list for a tuple, `str` for a string literal, the
/// structure's name for a data-structure literal, the referent's name for a
/// reference, and the carried type's name for a binding, a destructure or
/// an invocation.
pub open spec fn spec_value_type_name(vals: Seq<ValueNodeV>, outs: Seq<TypeNodeV>, i: int) -> Seq<
    char,
>
    decreases i, 1int, 0int,
{
    if 0 <= i < vals.len() {
        match vals[i] {
            ValueNodeV::Tuple(refs) => seq!['('] + refs_names(vals, outs, refs, i) + seq![')'],
            ValueNodeV::Str(_) => "str"@,
            ValueNodeV::DataStructure { name, .. } => name,
            ValueNodeV::Reference { value, .. } => {
                if value.0 < i {
                    spec_value_type_name(vals, outs, value.0 as int)
                } else {
                    Seq::empty()
                }
            },
            ValueNodeV::Binding { ty, .. } => name_of(ty),
            ValueNodeV::Destructure { ty, .. } => name_of(ty),
            ValueNodeV::Invoke(ir) => {
                if ir.0 < outs.len() {
                    name_of(outs[ir.0 as int])
                } else {
                    Seq::empty()
                }
            },
            _ => Seq::empty(),
        }
    } else {
        Seq::empty()
    }
}

pub open spec fn refs_names(
    vals: Seq<ValueNodeV>,
    outs: Seq<TypeNodeV>,
    refs: Seq<ValueRef>,
    bound: int,
) -> Seq<char>
    decreases bound, 0int, refs.len(),
{
    if refs.len() == 0 {
        Seq::empty()
    } else {
        let head = if refs[0].0 < bound {
            spec_value_type_name(vals, outs, refs[0].0 as int)
        } else {
            Seq::empty()
        };
        if refs.len() == 1 {
            head
        } else {
            head + seq![',', ' '] + refs_names(vals, outs, refs.drop_first(), bound)
        }
    }
}

proof fn lemma_refs_names_push(
    vals: Seq<ValueNodeV>,
    outs: Seq<TypeNodeV>,
    refs: Seq<ValueRef>,
    x: ValueRef,
    bound: int,
)
    requires
        x.0 < bound,
    ensures
        refs_names(vals, outs, refs.push(x), bound) == (if refs.len() == 0 {
            spec_value_type_name(vals, outs, x.0 as int)
        } else {
            refs_names(vals, outs, refs, bound) + seq![',', ' '] + spec_value_type_name(
                vals,
                outs,
                x.0 as int,
            )
        }),
    decreases refs.len(),
{
    if refs.len() == 0 {
        assert(refs.push(x) =~= seq![x]);
    } else {
        lemma_refs_names_push(vals, outs, refs.drop_first(), x, bound);
        assert(refs.push(x).drop_first() =~= refs.drop_first().push(x));
        assert(refs.push(x)[0] == refs[0]);
        if refs.len() == 1 {
            assert(refs.drop_first() =~= Seq::<ValueRef>::empty());
            assert(refs_names(vals, outs, refs.push(x), bound) =~= refs_names(
                vals,
                outs,
                refs,
                bound,
            ) + seq![',', ' '] + spec_value_type_name(vals, outs, x.0 as int));
        } else {
            assert(refs_names(vals, outs, refs.push(x), bound) =~= refs_names(
                vals,
                outs,
                refs,
                bound,
            ) + seq![',', ' '] + spec_value_type_name(vals, outs, x.0 as int));
        }
    }
}

impl Arena {
    /// Appends the printable type name of the stored value `r` to `out`.
    fn push_value_name(&self, r: ValueRef, out: &mut String)
        requires
            self.wf(),
            r.0 < self.values@.len(),
            value_name_ok(self.values_v(), self.invoke_outputs(), r.0 as int),
        ensures
            final(out)@ == old(out)@ + spec_value_type_name(
                self.values_v(),
                self.invoke_outputs(),
                r.0 as int,
            ),
        decreases r.0,
    {
        proof {
            crate::arena::lemma_view_seq_value_node(self.values@);
        }
        match &self.values[r.0] {
            ValueNode::Tuple(refs) => {
                proof {
                    lemma_refs_name_ok(
                        self.values_v(),
                        self.invoke_outputs(),
                        refs@,
                        r.0 as int,
                    );
                }
                crate::ident::push_char(out, '(');
                let ghost base = out@;
                let mut i: usize = 0;
                while i < refs.len()
                    invariant
                        self.wf(),
                        r.0 < self.values@.len(),
                        self.values_v()[r.0 as int] == ValueNodeV::Tuple(refs@),
                        i <= refs@.len(),
                        base == old(out)@ + seq!['('],
                        forall|j: int|
                            0 <= j < refs@.len() ==> (#[trigger] refs@[j]).0 < r.0
                                && value_name_ok(
                                self.values_v(),
                                self.invoke_outputs(),
                                refs@[j].0 as int,
                            ),
                        out@ == base + refs_names(
                            self.values_v(),
                            self.invoke_outputs(),
                            refs@.take(i as int),
                            r.0 as int,
                        ),
                    decreases refs@.len() - i,
                {
                    if i > 0 {
                        crate::ident::push_char(out, ',');
                        crate::ident::push_char(out, ' ');
                    }
                    self.push_value_name(refs[i], out);
                    i = i + 1;
                    proof {
                        assert(refs@.take(i as int) =~= refs@.take(i - 1).push(refs@[i - 1]));
                        lemma_refs_names_push(
                            self.values_v(),
                            self.invoke_outputs(),
                            refs@.take(i - 1),
                            refs@[i - 1],
                            r.0 as int,
                        );
                        assert(out@ =~= base + refs_names(
                            self.values_v(),
                            self.invoke_outputs(),
                            refs@.take(i as int),
                            r.0 as int,
                        ));
                    }
                }
                crate::ident::push_char(out, ')');
                proof {
                    assert(refs@.take(refs@.len() as int) =~= refs@);
                    assert(out@ =~= old(out)@ + spec_value_type_name(
                        self.values_v(),
                        self.invoke_outputs(),
                        r.0 as int,
                    ));
                }
            },
            ValueNode::Str(_) => {
                out.append("str");
            },
            ValueNode::DataStructure { name, .. } => {
                out.append(name.name.as_str());
            },
            ValueNode::Reference { value, .. } => {
                self.push_value_name(*value, out);
            },
            ValueNode::Binding { ty, .. } => {
                let n = ty.0.get_name();
                out.append(n.as_str());
            },
            ValueNode::Destructure { ty, .. } => {
                let n = ty.0.get_name();
                out.append(n.as_str());
            },
            ValueNode::Invoke(ir) => {
                proof {
                    crate::arena::lemma_invoke_outputs(self.invokes@);
                }
                let n = self.invokes[ir.0].function.sig.output.0.get_name();
                out.append(n.as_str());
            },
            _ => vstd::pervasive::unreached(),
        }
    }

    /// The printable type name of the stored value `r`.
    pub fn value_type_name(&self, r: ValueRef) -> (s: String)
        requires
            self.wf(),
            r.0 < self.values@.len(),
            value_name_ok(self.values_v(), self.invoke_outputs(), r.0 as int),
        ensures
            s@ == spec_value_type_name(self.values_v(), self.invoke_outputs(), r.0 as int),
    {
        let mut out = String::new();
        self.push_value_name(r, &mut out);
        proof {
            assert(out@ =~= spec_value_type_name(
                self.values_v(),
                self.invoke_outputs(),
                r.0 as int,
            ));
        }
        out
    }
}

impl ValueNode {
    /// The printable type name of this node, as a string-literal node.
    /// Asking a node kind that carries none (an explicit dereference, a
    /// macro invocation) is a construction-time error and is excluded.
    pub fn get_type_name(&self, arena: &Arena) -> (r: ValueNode)
        requires
            arena.wf(),
            match self@ {
                ValueNodeV::Tuple(refs) => refs_name_ok(
                    arena.values_v(),
                    arena.invoke_outputs(),
                    refs,
                    arena.values@.len() as int,
                ),
                ValueNodeV::Str(_) => true,
                ValueNodeV::DataStructure { .. } => true,
                ValueNodeV::Reference { value, .. } => value.0 < arena.values@.len()
                    && value_name_ok(
                    arena.values_v(),
                    arena.invoke_outputs(),
                    value.0 as int,
                ),
                ValueNodeV::Binding { ty, .. } => has_name(ty),
                ValueNodeV::Destructure { ty, .. } => has_name(ty),
                ValueNodeV::Invoke(ir) => ir.0 < arena.invoke_outputs().len() && has_name(
                    arena.invoke_outputs()[ir.0 as int],
                ),
                _ => false,
            },
        ensures
            r@ == ValueNodeV::Str(
                spec_node_type_name(arena.values_v(), arena.invoke_outputs(), self@),
            ),
    {
        match self {
            ValueNode::Tuple(refs) => {
                proof {
                    lemma_refs_name_ok(
                        arena.values_v(),
                        arena.invoke_outputs(),
                        refs@,
                        arena.values@.len() as int,
                    );
                }
                let mut out = String::new();
                crate::ident::push_char(&mut out, '(');
                let ghost base = out@;
                let mut i: usize = 0;
                while i < refs.len()
                    invariant
                        arena.wf(),
                        *self == ValueNode::Tuple(*refs),
                        i <= refs@.len(),
                        base == seq!['('],
                        forall|j: int|
                            0 <= j < refs@.len() ==> (#[trigger] refs@[j]).0
                                < arena.values@.len() && value_name_ok(
                                arena.values_v(),
                                arena.invoke_outputs(),
                                refs@[j].0 as int,
                            ),
                        out@ == base + refs_names(
                            arena.values_v(),
                            arena.invoke_outputs(),
                            refs@.take(i as int),
                            arena.values@.len() as int,
                        ),
                    decreases refs@.len() - i,
                {
                    if i > 0 {
                        crate::ident::push_char(&mut out, ',');
                        crate::ident::push_char(&mut out, ' ');
                    }
                    arena.push_value_name(refs[i], &mut out);
                    i = i + 1;
                    proof {
                        assert(refs@.take(i as int) =~= refs@.take(i - 1).push(refs@[i - 1]));
                        lemma_refs_names_push(
                            arena.values_v(),
                            arena.invoke_outputs(),
                            refs@.take(i - 1),
                            refs@[i - 1],
                            arena.values@.len() as int,
                        );
                        assert(out@ =~= base + refs_names(
                            arena.values_v(),
                            arena.invoke_outputs(),
                            refs@.take(i as int),
                            arena.values@.len() as int,
                        ));
                    }
                }
                crate::ident::push_char(&mut out, ')');
                proof {
                    assert(refs@.take(refs@.len() as int) =~= refs@);
                    assert(out@ =~= spec_node_type_name(
                        arena.values_v(),
                        arena.invoke_outputs(),
                        self@,
                    ));
                }
                ValueNode::Str(out)
            },
            ValueNode::Str(_) => ValueNode::Str(String::from_str("str")),
            ValueNode::DataStructure { name, .. } => ValueNode::Str(name.name.clone()),
            ValueNode::Reference { value, .. } => ValueNode::Str(arena.value_type_name(*value)),
            ValueNode::Binding { ty, .. } => ValueNode::Str(ty.0.get_name()),
            ValueNode::Destructure { ty, .. } => ValueNode::Str(ty.0.get_name()),
            ValueNode::Invoke(ir) => {
                proof {
                    crate::arena::lemma_invoke_outputs(arena.invokes@);
                }
                ValueNode::Str(arena.invokes[ir.0].function.sig.output.0.get_name())
            },
            _ => vstd::pervasive::unreached(),
        }
    }
}

/// The printable type name of a node held outside the arena.
pub open spec fn spec_node_type_name(
    vals: Seq<ValueNodeV>,
    outs: Seq<TypeNodeV>,
    n: ValueNodeV,
) -> Seq<char> {
    match n {
        ValueNodeV::Tuple(refs) => seq!['('] + refs_names(vals, outs, refs, vals.len() as int)
            + seq![')'],
        ValueNodeV::Str(_) => "str"@,
        ValueNodeV::DataStructure { name, .. } => name,
        ValueNodeV::Reference { value, .. } => {
            if value.0 < vals.len() {
                spec_value_type_name(vals, outs, value.0 as int)
            } else {
                Seq::empty()
            }
        },
        ValueNodeV::Binding { ty, .. } => name_of(ty),
        ValueNodeV::Destructure { ty, .. } => name_of(ty),
        ValueNodeV::Invoke(ir) => {
            if ir.0 < outs.len() {
                name_of(outs[ir.0 as int])
            } else {
                Seq::empty()
            }
        },
        _ => Seq::empty(),
    }
}


impl Clone for Field<ValueRef> {
    fn clone(&self) -> (r: Self)
        ensures
            r.accessor@ == self.accessor@,
            r.element == self.element,
    {
        Field { accessor: self.accessor.clone(), element: self.element }
    }
}

impl Clone for Variant<ValueRef> {
    fn clone(&self) -> (r: Self)
        ensures
            view_variant_value(r) == view_variant_value(*self),
    {
        match self {
            Variant::Unit(uv) => Variant::Unit(
                crate::data::UnitVariant { attrs: crate::ident::clone_attrs(&uv.attrs) },
            ),
            Variant::Tuple(tv) => {
                let fields = tv.fields.clone();
                proof {
                    assert(fields@.map_values(
                        |f: Field<ValueRef>| FieldV { accessor: f.accessor@, element: f.element },
                    ) =~= tv.fields@.map_values(
                        |f: Field<ValueRef>| FieldV { accessor: f.accessor@, element: f.element },
                    ));
                }
                Variant::Tuple(
                    crate::data::TupleVariant {
                        fields,
                        attrs: crate::ident::clone_attrs(&tv.attrs),
                    },
                )
            },
            Variant::Struct(sv) => {
                let fields = sv.fields.clone();
                proof {
                    assert(fields@.map_values(
                        |f: Field<ValueRef>| FieldV { accessor: f.accessor@, element: f.element },
                    ) =~= sv.fields@.map_values(
                        |f: Field<ValueRef>| FieldV { accessor: f.accessor@, element: f.element },
                    ));
                }
                Variant::Struct(
                    crate::data::StructVariant {
                        fields,
                        attrs: crate::ident::clone_attrs(&sv.attrs),
                    },
                )
            },
        }
    }
}

impl Clone for Data<ValueRef> {
    fn clone(&self) -> (r: Self)
        ensures
            view_data_value(r) == view_data_value(*self),
    {
        match self {
            Data::Struct(crate::data::Struct::Unit(us)) => Data::Struct(
                crate::data::Struct::Unit(
                    crate::data::UnitStruct { attrs: crate::ident::clone_attrs(&us.attrs) },
                ),
            ),
            Data::Struct(crate::data::Struct::Tuple(ts)) => {
                let fields = ts.fields.clone();
                proof {
                    assert(fields@.map_values(
                        |f: Field<ValueRef>| FieldV { accessor: f.accessor@, element: f.element },
                    ) =~= ts.fields@.map_values(
                        |f: Field<ValueRef>| FieldV { accessor: f.accessor@, element: f.element },
                    ));
                }
                Data::Struct(
                    crate::data::Struct::Tuple(
                        crate::data::TupleStruct {
                            fields,
                            attrs: crate::ident::clone_attrs(&ts.attrs),
                        },
                    ),
                )
            },
            Data::Struct(crate::data::Struct::Struct(ss)) => {
                let fields = ss.fields.clone();
                proof {
                    assert(fields@.map_values(
                        |f: Field<ValueRef>| FieldV { accessor: f.accessor@, element: f.element },
                    ) =~= ss.fields@.map_values(
                        |f: Field<ValueRef>| FieldV { accessor: f.accessor@, element: f.element },
                    ));
                }
                Data::Struct(
                    crate::data::Struct::Struct(
                        crate::data::StructStruct {
                            fields,
                            attrs: crate::ident::clone_attrs(&ss.attrs),
                        },
                    ),
                )
            },
            Data::Enum(e) => {
                let variants = e.variants.clone();
                proof {
                    assert(variants@.map_values(|v: Variant<ValueRef>| view_variant_value(v))
                        =~= e.variants@.map_values(
                        |v: Variant<ValueRef>| view_variant_value(v),
                    ));
                }
                Data::Enum(
                    crate::data::Enum { variants, attrs: crate::ident::clone_attrs(&e.attrs) },
                )
            },
        }
    }
}

impl Clone for ValueNode {
    fn clone(&self) -> (r: Self)
        ensures
            r@ == self@,
    {
        match self {
            ValueNode::Tuple(refs) => {
                let refs2 = refs.clone();
                proof {
                    assert(refs2@ =~= refs@);
                }
                ValueNode::Tuple(refs2)
            },
            ValueNode::Str(s) => ValueNode::Str(s.clone()),
            ValueNode::Reference { is_mut, value } => ValueNode::Reference {
                is_mut: *is_mut,
                value: *value,
            },
            ValueNode::Dereference(v) => ValueNode::Dereference(*v),
            ValueNode::Binding { name, ty } => ValueNode::Binding {
                name: name.clone(),
                ty: ty.clone(),
            },
            ValueNode::DataStructure { name, data } => ValueNode::DataStructure {
                name: name.clone(),
                data: data.clone(),
            },
            ValueNode::Invoke(ir) => ValueNode::Invoke(*ir),
            ValueNode::Destructure { parent, accessor, ty } => ValueNode::Destructure {
                parent: *parent,
                accessor: accessor.clone(),
                ty: ty.clone(),
            },
            ValueNode::MacroInvocation(mr) => ValueNode::MacroInvocation(*mr),
        }
    }
}

impl ValueRef {
    /// Resolves this reference: hands back (a clone of) exactly the node
    /// that was stored for it. The lookup reads the arena and changes
    /// nothing, and a reference is never invalidated — nodes are only ever
    /// appended — so resolving the same reference again yields an equal
    /// node.
    pub fn node(self, arena: &Arena) -> (r: ValueNode)
        requires
            self.0 < arena.values@.len(),
        ensures
            r@ == arena.values_v()[self.0 as int],
    {
        proof {
            crate::arena::lemma_view_seq_value_node(arena.values@);
        }
        arena.values[self.0].clone()
    }
}

} // verus!
