use reflect::arena::Arena;
use reflect::data::Accessor;
use reflect::data::Data;
use reflect::data::Field;
use reflect::data::Struct;
use reflect::data::TupleStruct;
use reflect::generics::GenericConstraint;
use reflect::generics::GenericParam;
use reflect::generics::Generics;
use reflect::generics::SynParamMap;
use reflect::generics::TypeParamBound;
use reflect::ident::Attribute;
use reflect::node::ValueNode;
use reflect::ty::Type;
use reflect::ty::TypeNode;
use reflect::value::Value;
use reflect::error::Error;

fn default_generics() -> Generics {
    Generics {
        params: Vec::new(),
        constraints: Vec::new(),
        param_map: SynParamMap::new(),
    }
}

#[test]
fn arena_pushes_are_stable_and_unique() {
    let mut arena = Arena::new();
    let a = Value::new_str(&mut arena, "alpha");
    let b = Value::new_str(&mut arena, "beta");
    let c = Value::new_tuple(&mut arena, &[a, b]);
    assert_ne!(a.index, b.index);
    assert_ne!(a.index, c.index);
    assert_ne!(b.index, c.index);
    // every reference still resolves to exactly the node that was pushed
    assert_eq!(arena.values[a.index.0], ValueNode::Str(String::from("alpha")));
    assert_eq!(arena.values[b.index.0], ValueNode::Str(String::from("beta")));
    match &arena.values[c.index.0] {
        ValueNode::Tuple(refs) => assert_eq!(refs, &vec![a.index, b.index]),
        other => panic!("unexpected node {:?}", node_kind(other)),
    }
}

fn node_kind(n: &ValueNode) -> &'static str {
    match n {
        ValueNode::Tuple(_) => "tuple",
        ValueNode::Str(_) => "str",
        ValueNode::Reference { .. } => "reference",
        ValueNode::Dereference(_) => "dereference",
        ValueNode::Binding { .. } => "binding",
        ValueNode::DataStructure { .. } => "data structure",
        ValueNode::Invoke(_) => "invoke",
        ValueNode::Destructure { .. } => "destructure",
        ValueNode::MacroInvocation(_) => "macro invocation",
    }
}

#[test]
fn reference_round_trip_restores_the_type() {
    let t = Type::new_primitive_str();
    assert_eq!(t.new_reference().dereference(), t);
    assert_eq!(t.new_reference_mut().dereference(), t);
    let u = Type::new_tuple(&[Type::new_unit(), Type::new_primitive_str()]);
    assert_eq!(u.new_reference().dereference(), u);
    assert_eq!(u.new_reference_mut().dereference(), u);
}

#[test]
fn dereference_of_a_non_reference_wraps_it() {
    let t = Type::new_primitive_str();
    match t.dereference() {
        Type(TypeNode::Dereference(inner)) => assert_eq!(*inner, TypeNode::PrimitiveStr),
        _ => panic!("expected an explicit dereference node"),
    }
}

#[test]
fn empty_tuple_is_unit() {
    assert_eq!(Type::new_tuple(&[]), Type::new_unit());
}

#[test]
fn tuple_index_yields_each_element() {
    let a = Type::new_primitive_str();
    let b = Type::new_unit();
    let t = Type::new_tuple(&[a.clone(), b.clone()]);
    assert_eq!(t.index(0), a);
    assert_eq!(t.index(1), b);
}

#[test]
fn value_reference_round_trip() {
    let mut arena = Arena::new();
    let v = Value::new_str(&mut arena, "x");
    let r = v.new_reference(&mut arena);
    assert_eq!(r.dereference(&mut arena), v);
    let rm = v.new_reference_mut(&mut arena);
    assert_eq!(rm.dereference(&mut arena), v);
}

#[test]
fn value_dereference_of_non_reference_stores_a_node() {
    let mut arena = Arena::new();
    let v = Value::new_str(&mut arena, "x");
    let d = v.dereference(&mut arena);
    assert_eq!(arena.values[d.index.0], ValueNode::Dereference(v.index));
}

#[test]
fn declared_params_and_one_constraint() {
    // declaring ["T", "'a"] and then "T: Clone" gives a type-parameter
    // symbol for T, a lifetime symbol for 'a, and exactly one constraint
    // bounding T by the one trait Clone
    let mut arena = Arena::new();
    let mut g = default_generics();
    g.set_generic_params(&mut arena, &["T", "'a"]).unwrap();
    g.set_generic_constraints(&mut arena, &["T: Clone"]).unwrap();

    let t_sym = match g.param_map.get("T") {
        Some(GenericParam::Type(tp)) => tp,
        other => panic!("T resolved to {:?}", other),
    };
    match g.param_map.get("'a") {
        Some(GenericParam::Lifetime(_)) => {},
        other => panic!("'a resolved to {:?}", other),
    }
    assert_eq!(g.constraints.len(), 1);
    match &g.constraints[0] {
        GenericConstraint::Type(p) => {
            assert_eq!(p.bounded_ty, Type(TypeNode::TypeParam(t_sym)));
            assert_eq!(p.bounds.len(), 1);
            match &p.bounds[0] {
                TypeParamBound::Trait(tb) => {
                    assert_eq!(tb.path.path.len(), 1);
                    assert_eq!(tb.path.path[0].ident.name, "Clone");
                    assert!(tb.path.path[0].args.args.is_empty());
                    assert!(!tb.path.global);
                },
                other => panic!("unexpected bound {:?}", bound_kind(other)),
            }
        },
        _ => panic!("expected a type constraint"),
    }
}

fn bound_kind(b: &TypeParamBound) -> &'static str {
    match b {
        TypeParamBound::Trait(_) => "trait",
        TypeParamBound::Lifetime(_) => "lifetime",
    }
}

#[test]
fn declared_bounds_are_hoisted_into_constraints() {
    let mut arena = Arena::new();
    let mut g = default_generics();
    g.set_generic_params(&mut arena, &["'a", "T: Clone + Default"]).unwrap();
    assert_eq!(g.params.len(), 2);
    assert_eq!(g.constraints.len(), 1);
    match &g.constraints[0] {
        GenericConstraint::Type(p) => assert_eq!(p.bounds.len(), 2),
        _ => panic!("expected a type constraint"),
    }
}

#[test]
fn unparsable_or_unsupported_declarations_are_refused() {
    let mut arena = Arena::new();
    let mut g = default_generics();
    assert_eq!(g.set_generic_params(&mut arena, &["123"]), Err(Error::Parse));
    assert_eq!(
        g.set_generic_params(&mut arena, &["const N: usize"]),
        Err(Error::Unsupported)
    );
    assert_eq!(g.set_generic_constraints(&mut arena, &["%"]), Err(Error::Parse));
    // a constraint may only mention declared names
    assert_eq!(
        g.set_generic_constraints(&mut arena, &["'b: 'static"]),
        Err(Error::NotALifetime)
    );
    // nothing was changed by the failures
    assert!(g.params.is_empty());
    assert!(g.constraints.is_empty());
}

#[test]
fn static_lifetime_is_always_in_scope() {
    let mut arena = Arena::new();
    let mut g = default_generics();
    g.set_generic_params(&mut arena, &["'a"]).unwrap();
    g.set_generic_constraints(&mut arena, &["'a: 'static"]).unwrap();
    assert_eq!(g.constraints.len(), 1);
}

#[test]
fn fresh_generics_share_no_symbol_with_the_source() {
    let mut arena = Arena::new();
    let mut g = default_generics();
    g.set_generic_params(&mut arena, &["T", "'a"]).unwrap();
    g.set_generic_constraints(&mut arena, &["T: Clone", "'a: 'static"]).unwrap();

    let (g2, map) = g.clone_with_fresh_generics(&mut arena);
    assert_eq!(g2.params.len(), g.params.len());
    for (i, p) in g.params.iter().enumerate() {
        // the map is defined on every declared parameter
        let fresh = map.get(*p).unwrap();
        assert_eq!(fresh, g2.params[i]);
        // and no declared symbol survives into the clone
        assert!(!g2.params.contains(p));
    }
    // distinct parameters get distinct replacements
    assert_ne!(g2.params[0], g2.params[1]);
    // the well-known 'static lifetime maps to itself
    assert_eq!(
        map.get(GenericParam::Lifetime(reflect::generics::static_lifetime())),
        Some(GenericParam::Lifetime(reflect::generics::static_lifetime()))
    );
}

#[test]
fn two_fresh_clones_share_no_minted_symbol() {
    let mut arena = Arena::new();
    let mut g = default_generics();
    g.set_generic_params(&mut arena, &["T", "'a"]).unwrap();

    let (g2, _) = g.clone_with_fresh_generics(&mut arena);
    let (g3, _) = g.clone_with_fresh_generics(&mut arena);
    for p in &g2.params {
        assert!(!g3.params.contains(p));
        assert!(!g.params.contains(p));
    }
    for p in &g3.params {
        assert!(!g2.params.contains(p));
        assert!(!g.params.contains(p));
    }
}

#[test]
fn mapping_a_shape_keeps_its_structure() {
    let fields = vec![
        Field { accessor: Accessor::Index(0), element: Type::new_primitive_str() },
        Field { accessor: Accessor::Index(1), element: Type::new_unit() },
    ];
    let d: Data<Type> = Data::Struct(Struct::Tuple(TupleStruct {
        fields,
        attrs: vec![Attribute::new("derive(Debug)")],
    }));
    let mapped: Data<String> = d.map(|f: &Field<Type>| f.element.0.get_name());
    match (&d, &mapped) {
        (Data::Struct(Struct::Tuple(a)), Data::Struct(Struct::Tuple(b))) => {
            assert_eq!(a.fields.len(), b.fields.len());
            assert_eq!(a.attrs, b.attrs);
            for (fa, fb) in a.fields.iter().zip(b.fields.iter()) {
                assert_eq!(fa.accessor, fb.accessor);
            }
            assert_eq!(b.fields[0].element, "str");
            assert_eq!(b.fields[1].element, "()");
        },
        _ => panic!("the shape changed kind"),
    }
}

#[test]
fn indexing_a_tuple_struct_value_projects_the_field_type() {
    // building a value of a two-field tuple struct and taking .index(1)
    // yields a destructure node typed by the second field's declared type
    let mut arena = Arena::new();
    let first = Value::new_str(&mut arena, "first");
    let second = Value::new_tuple(&mut arena, &[]);
    let second_ty = second.get_type(&arena);
    let data: Data<Value> = Data::Struct(Struct::Tuple(TupleStruct {
        fields: vec![
            Field { accessor: Accessor::Index(0), element: first },
            Field { accessor: Accessor::Index(1), element: second },
        ],
        attrs: Vec::new(),
    }));
    let pair = Value::new_data_structure(&mut arena, "Pair", &data);
    let projected = pair.index(&mut arena, 1);
    match &arena.values[projected.index.0] {
        ValueNode::Destructure { parent, accessor, ty } => {
            assert_eq!(*parent, pair.index);
            assert_eq!(*accessor, Accessor::Index(1));
            assert_eq!(*ty, second_ty);
        },
        other => panic!("unexpected node {}", node_kind(other)),
    }
}

#[test]
fn indexing_a_tuple_value_returns_the_subvalue() {
    let mut arena = Arena::new();
    let a = Value::new_str(&mut arena, "a");
    let b = Value::new_str(&mut arena, "b");
    let t = Value::new_tuple(&mut arena, &[a, b]);
    assert_eq!(t.index(&mut arena, 0), a);
    assert_eq!(t.index(&mut arena, 1), b);
}

#[test]
fn indexing_an_unknown_shape_falls_back_to_an_inferred_projection() {
    let mut arena = Arena::new();
    let s = Value::new_str(&mut arena, "s");
    let projected = s.index(&mut arena, 3);
    match &arena.values[projected.index.0] {
        ValueNode::Destructure { accessor, ty, .. } => {
            assert_eq!(*accessor, Accessor::Index(3));
            assert_eq!(*ty, Type(TypeNode::Infer));
        },
        other => panic!("unexpected node {}", node_kind(other)),
    }
}

#[test]
fn value_types_are_inferred_structurally() {
    let mut arena = Arena::new();
    let a = Value::new_str(&mut arena, "a");
    let b = Value::new_str(&mut arena, "b");
    let t = Value::new_tuple(&mut arena, &[a, b]);
    let expected = Type::new_tuple(&[Type::new_primitive_str(), Type::new_primitive_str()]);
    assert_eq!(t.get_type(&arena), expected);
    let r = t.new_reference(&mut arena);
    assert_eq!(r.get_type(&arena), expected.new_reference());
}

#[test]
fn type_names_are_synthesized() {
    assert_eq!(Type::new_primitive_str().0.get_name(), "str");
    assert_eq!(Type::new_unit().0.get_name(), "()");
    let t = Type::new_tuple(&[Type::new_primitive_str(), Type::new_primitive_str()]);
    assert_eq!(t.0.get_name(), "(str, str)");
    assert_eq!(t.new_reference().0.get_name(), "(str, str)");
}

#[test]
fn value_type_names_are_stored_as_string_values() {
    let mut arena = Arena::new();
    let a = Value::new_str(&mut arena, "a");
    let b = Value::new_str(&mut arena, "b");
    let t = Value::new_tuple(&mut arena, &[a, b]);
    let name = t.get_type_name(&mut arena);
    assert_eq!(
        arena.values[name.index.0],
        ValueNode::Str(String::from("(str, str)"))
    );
}

#[test]
fn binding_values_carry_their_declared_type() {
    let mut arena = Arena::new();
    let ty = Type::new_primitive_str().new_reference();
    let v = Value::new_binding(&mut arena, "input", &ty);
    assert_eq!(v.get_type(&arena), ty);
}

#[test]
fn references_resolve_to_their_stored_nodes() {
    let mut arena = Arena::new();
    let v = Value::new_str(&mut arena, "alpha");
    let w = Value::new_tuple(&mut arena, &[v]);
    // resolving hands back exactly the stored node, and resolving again
    // yields an equal node; later pushes change neither
    let first = v.index.node(&arena);
    assert_eq!(first, ValueNode::Str(String::from("alpha")));
    let _more = Value::new_str(&mut arena, "beta");
    assert_eq!(v.index.node(&arena), first);
    match w.index.node(&arena) {
        ValueNode::Tuple(refs) => assert_eq!(refs, vec![v.index]),
        other => panic!("unexpected node {}", node_kind(&other)),
    }
}
