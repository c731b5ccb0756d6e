use reflect::arena::Arena;
use reflect::data::Accessor;
use reflect::data::Data;
use reflect::data::Field;
use reflect::data::Struct;
use reflect::data::TupleStruct;
use reflect::generics::GenericConstraint;
use reflect::generics::GenericParam;
use reflect::generics::Generics;
use reflect::generics::SynParamMap;
use reflect::module::Module;
use reflect::node::ValueNode;
use reflect::ty::Type;
use reflect::ty::TypeNode;
use reflect::value::Value;
use reflect::error::Error;
use reflect::syntax::RawBound;
use reflect::syntax::RawGenerics;
use reflect::syntax::RawParam;
use reflect::syntax::RawPath;
use reflect::syntax::RawPredicate;
use reflect::syntax::RawSeg;
use reflect::syntax::RawType;
use reflect::runtime::RuntimeType;

#[test]
fn module_paths_accumulate_segments() {
    let m = Module::root().get_module("std").get_module("fmt");
    assert!(m.path.global);
    assert_eq!(m.path.path.len(), 2);
    assert_eq!(m.path.path[0].ident.name, "std");
    assert_eq!(m.path.path[1].ident.name, "fmt");
}

#[test]
fn get_path_resolves_generic_arguments() {
    let mut arena = Arena::new();
    let mut g = Generics {
        params: Vec::new(),
        constraints: Vec::new(),
        param_map: SynParamMap::new(),
    };
    g.set_generic_params(&mut arena, &["T"]).unwrap();
    let m = Module::root().get_module("std").get_module("vec");
    let p = m.get_path("Vec<T>", &mut g.param_map, &mut arena).unwrap();
    assert_eq!(p.path.len(), 3);
    assert_eq!(p.path[2].ident.name, "Vec");
    assert_eq!(p.path[2].args.args.len(), 1);
    match &p.path[2].args.args[0] {
        reflect::generics::GenericArgument::Type(t) => match &t.0 {
            TypeNode::TypeParam(_) => {},
            _ => panic!("the argument should resolve to the declared parameter"),
        },
        _ => panic!("expected a type argument"),
    }
    // an unknown name inside the arguments is refused
    assert!(matches!(
        m.get_path("Vec<'b>", &mut g.param_map, &mut arena),
        Err(Error::NotALifetime)
    ));
}

#[test]
fn get_path_type_wraps_the_path() {
    let mut arena = Arena::new();
    let mut pm = SynParamMap::new();
    let m = Module::root().get_module("std");
    let t = m.get_path_type("Error", &mut pm, &mut arena).unwrap();
    match &t.0 {
        TypeNode::Path(p) => {
            assert!(p.global);
            assert_eq!(p.path[1].ident.name, "Error");
        },
        _ => panic!("expected a path type"),
    }
    assert_eq!(t.0.get_name(), "::std::Error");
}

#[test]
fn invoke_macro_records_the_invocation() {
    let mut arena = Arena::new();
    let a = Value::new_str(&mut arena, "hello");
    let m = Module::root().get_module("std");
    let v = m.invoke_macro(&mut arena, "format", &[a]);
    assert_eq!(arena.macros.len(), 1);
    let rec = &arena.macros[0];
    assert_eq!(rec.macro_path.path[1].ident.name, "format");
    assert_eq!(rec.args, vec![a.index]);
    match &arena.values[v.index.0] {
        ValueNode::MacroInvocation(mr) => assert_eq!(mr.0, 0),
        _ => panic!("expected a macro invocation node"),
    }
}

#[test]
fn trait_objects_are_built_from_bound_texts() {
    let mut arena = Arena::new();
    let mut g = Generics {
        params: Vec::new(),
        constraints: Vec::new(),
        param_map: SynParamMap::new(),
    };
    g.set_generic_params(&mut arena, &["'a"]).unwrap();
    let t = Type::new_trait_object(&["std::fmt::Debug", "'a"], &mut g.param_map, &mut arena)
        .unwrap();
    match &t.0 {
        TypeNode::TraitObject(bounds) => assert_eq!(bounds.len(), 2),
        _ => panic!("expected a trait object"),
    }
    assert!(matches!(
        Type::new_trait_object(&["'missing"], &mut g.param_map, &mut arena),
        Err(Error::NotALifetime)
    ));
}

#[test]
fn type_parameters_resolve_by_name() {
    let mut arena = Arena::new();
    let mut g = Generics {
        params: Vec::new(),
        constraints: Vec::new(),
        param_map: SynParamMap::new(),
    };
    g.set_generic_params(&mut arena, &["T", "'a"]).unwrap();
    let t = Type::new_type_param_from_str("T", &mut g.param_map).unwrap();
    assert!(matches!(t.0, TypeNode::TypeParam(_)));
    assert_eq!(
        Type::new_type_param_from_str("U", &mut g.param_map),
        Err(Error::NotATypeParam)
    );
    assert_eq!(
        Type::new_type_param_from_str("'a", &mut g.param_map),
        Err(Error::NotATypeParam)
    );
}

#[test]
fn references_with_lifetimes_resolve_the_name() {
    let mut arena = Arena::new();
    let mut g = Generics {
        params: Vec::new(),
        constraints: Vec::new(),
        param_map: SynParamMap::new(),
    };
    g.set_generic_params(&mut arena, &["'a"]).unwrap();
    let t = Type::new_primitive_str();
    let r = t.new_reference_with_lifetime("'a", &g.param_map).unwrap();
    match &r.0 {
        TypeNode::Reference { is_mut, lifetime, .. } => {
            assert!(!is_mut);
            assert!(lifetime.is_some());
        },
        _ => panic!("expected a reference"),
    }
    let rm = t.new_reference_mut_with_lifetime("'a", &g.param_map).unwrap();
    assert!(matches!(&rm.0, TypeNode::Reference { is_mut: true, .. }));
    assert!(matches!(
        t.new_reference_with_lifetime("'zz", &g.param_map),
        Err(Error::NotALifetime)
    ));
}

#[test]
fn param_map_append_moves_and_shadows() {
    let mut a = SynParamMap::new();
    let mut b = SynParamMap::new();
    a.insert("T", GenericParam::Type(reflect::generics::TypeParam(0)));
    b.insert("T", GenericParam::Type(reflect::generics::TypeParam(7)));
    b.insert("U", GenericParam::Type(reflect::generics::TypeParam(8)));
    a.append(&mut b);
    assert_eq!(b.get("T"), None);
    assert_eq!(b.get("U"), None);
    assert_eq!(a.get("T"), Some(GenericParam::Type(reflect::generics::TypeParam(7))));
    assert_eq!(a.get("U"), Some(GenericParam::Type(reflect::generics::TypeParam(8))));
}

#[test]
fn type_as_data_propagates_references_onto_fields() {
    let inner = Data::Struct(Struct::Tuple(TupleStruct {
        fields: vec![
            Field { accessor: Accessor::Index(0), element: Type::new_primitive_str() },
        ],
        attrs: Vec::new(),
    }));
    let ds = Type(TypeNode::DataStructure(Box::new(reflect::ty::DataStructure {
        name: reflect::ident::Ident::new("Wrapper"),
        generics: Generics {
            params: Vec::new(),
            constraints: Vec::new(),
            param_map: SynParamMap::new(),
        },
        data: inner,
    })));
    let shape = ds.new_reference().as_data();
    match shape {
        Data::Struct(Struct::Tuple(ts)) => {
            assert_eq!(ts.fields.len(), 1);
            match &ts.fields[0].element.0 {
                TypeNode::Reference { is_mut, inner, .. } => {
                    assert!(!is_mut);
                    assert_eq!(**inner, TypeNode::PrimitiveStr);
                },
                _ => panic!("the field should be wrapped in a reference"),
            }
        },
        _ => panic!("the shape changed kind"),
    }
}

#[test]
fn value_as_data_wraps_and_projects() {
    let mut arena = Arena::new();
    let first = Value::new_str(&mut arena, "first");
    let data: Data<Value> = Data::Struct(Struct::Tuple(TupleStruct {
        fields: vec![Field { accessor: Accessor::Index(0), element: first }],
        attrs: Vec::new(),
    }));
    let v = Value::new_data_structure(&mut arena, "Wrapper", &data);

    // the literal's shape hands back the stored subvalues
    let direct = v.as_data(&mut arena);
    match &direct {
        Data::Struct(Struct::Tuple(ts)) => assert_eq!(ts.fields[0].element, first),
        _ => panic!("the shape changed kind"),
    }

    // a reference wraps every field in a reference of the same mutability
    let r = v.new_reference(&mut arena);
    let wrapped = r.as_data(&mut arena);
    match &wrapped {
        Data::Struct(Struct::Tuple(ts)) => {
            match &arena.values[ts.fields[0].element.index.0] {
                ValueNode::Reference { is_mut, value } => {
                    assert!(!is_mut);
                    assert_eq!(*value, first.index);
                },
                _ => panic!("the field should be wrapped in a reference"),
            }
        },
        _ => panic!("the shape changed kind"),
    }

    // a binding of data-structure type projects each field out of itself
    let field_ty = Type::new_primitive_str();
    let binding_ty = Type(TypeNode::DataStructure(Box::new(reflect::ty::DataStructure {
        name: reflect::ident::Ident::new("Wrapper"),
        generics: Generics {
            params: Vec::new(),
            constraints: Vec::new(),
            param_map: SynParamMap::new(),
        },
        data: Data::Struct(Struct::Tuple(TupleStruct {
            fields: vec![Field { accessor: Accessor::Index(0), element: field_ty.clone() }],
            attrs: Vec::new(),
        })),
    })));
    let b = Value::new_binding(&mut arena, "w", &binding_ty);
    let projected = b.as_data(&mut arena);
    match &projected {
        Data::Struct(Struct::Tuple(ts)) => {
            match &arena.values[ts.fields[0].element.index.0] {
                ValueNode::Destructure { parent, accessor, ty } => {
                    assert_eq!(*parent, b.index);
                    assert_eq!(*accessor, Accessor::Index(0));
                    assert_eq!(*ty, field_ty);
                },
                _ => panic!("the field should be a projection"),
            }
        },
        _ => panic!("the shape changed kind"),
    }
}

#[test]
fn recorded_invocations_type_their_values() {
    let mut arena = Arena::new();
    let output = Type::new_primitive_str().new_reference();
    let ir = arena.push_invoke(reflect::arena::Invoke {
        function: reflect::arena::Function {
            sig: reflect::arena::Signature { output: output.clone() },
        },
    });
    let v = Value::new_invoke(&mut arena, ir);
    assert_eq!(v.get_type(&arena), output);
    let name = v.get_type_name(&mut arena);
    assert_eq!(arena.values[name.index.0], ValueNode::Str(String::from("str")));
}

#[test]
fn attribute_lists_are_kept_as_given() {
    let d: Data<Type> = Data::Struct(Struct::Unit(reflect::data::UnitStruct {
        attrs: vec![reflect::ident::Attribute::new("non_exhaustive")],
    }));
    assert_eq!(d.attrs().len(), 1);
    assert_eq!(d.attrs()[0].text, "non_exhaustive");
}

#[test]
fn whole_declarations_translate_in_one_pass() {
    let clone_path = RawPath {
        global: false,
        segs: vec![RawSeg { name: String::from("Clone"), args: Vec::new() }],
    };
    let raw = RawGenerics {
        params: vec![
            RawParam::Life { name: String::from("'a"), bounds: Vec::new() },
            RawParam::Ty {
                name: String::from("T"),
                bounds: vec![RawBound::Trait {
                    for_lifetimes: Vec::new(),
                    path: clone_path,
                }],
            },
        ],
        predicates: vec![RawPredicate::Ty {
            for_lifetimes: Vec::new(),
            ty: RawType::Named(RawPath {
                global: false,
                segs: vec![RawSeg { name: String::from("T"), args: Vec::new() }],
            }),
            bounds: vec![RawBound::Life(String::from("'a"))],
        }],
    };
    let mut arena = Arena::new();
    let g = Generics::from_raw_generics(&mut arena, &raw).unwrap();
    assert_eq!(g.params.len(), 2);
    assert!(matches!(g.params[0], GenericParam::Lifetime(_)));
    assert!(matches!(g.params[1], GenericParam::Type(_)));
    // one hoisted bound constraint, then the where-clause predicate
    assert_eq!(g.constraints.len(), 2);
    assert!(matches!(g.param_map.get("T"), Some(GenericParam::Type(_))));
    assert!(matches!(g.param_map.get("'a"), Some(GenericParam::Lifetime(_))));

    // a const parameter is recognized but never supported
    let bad = RawGenerics { params: vec![RawParam::ConstParam], predicates: Vec::new() };
    assert_eq!(Generics::from_raw_generics(&mut arena, &bad), Err(Error::Unsupported));
}

#[test]
fn type_parameter_names_carry_their_symbol_number() {
    let mut arena = Arena::new();
    let mut g = Generics {
        params: Vec::new(),
        constraints: Vec::new(),
        param_map: SynParamMap::new(),
    };
    g.set_generic_params(&mut arena, &["T", "U"]).unwrap();
    let t = Type::new_type_param_from_str("T", &mut g.param_map).unwrap();
    let u = Type::new_type_param_from_str("U", &mut g.param_map).unwrap();
    assert_eq!(t.0.get_name(), "T0");
    assert_eq!(u.0.get_name(), "T1");
}

#[test]
fn disambiguating_parentheses_are_unwrapped() {
    let mut arena = Arena::new();
    let mut pm = SynParamMap::new();
    let m = Module::root();
    // one parenthesized element without a trailing comma is not a tuple
    let p = m.get_path("Vec<((str, str))>", &mut pm, &mut arena).unwrap();
    match &p.path[0].args.args[0] {
        reflect::generics::GenericArgument::Type(t) => match &t.0 {
            TypeNode::Tuple(elems) => assert_eq!(elems.len(), 2),
            _ => panic!("expected the inner tuple itself"),
        },
        _ => panic!("expected a type argument"),
    }
    // a trailing comma makes a real one-element tuple
    let q = m.get_path("Vec<(str,)>", &mut pm, &mut arena).unwrap();
    match &q.path[0].args.args[0] {
        reflect::generics::GenericArgument::Type(t) => match &t.0 {
            TypeNode::Tuple(elems) => assert_eq!(elems.len(), 1),
            _ => panic!("expected a one-element tuple"),
        },
        _ => panic!("expected a type argument"),
    }
}

#[test]
fn unsupported_shapes_are_refused_by_translation() {
    let mut arena = Arena::new();
    let mut pm = SynParamMap::new();
    // an equality predicate is recognized but never supported
    assert_eq!(
        reflect::translate::x_predicate_pub(&mut pm, &mut arena, &RawPredicate::Eq),
        Err(Error::Unsupported)
    );
    // an unrecognized type shape is refused the same way
    assert_eq!(
        reflect::translate::x_type_pub(&mut pm, &mut arena, &RawType::Other),
        Err(Error::Unsupported)
    );
    // a const argument is recognized but never supported
    let const_arg = RawType::Named(RawPath {
        global: false,
        segs: vec![RawSeg {
            name: String::from("Holder"),
            args: vec![reflect::syntax::RawArg::ConstArg],
        }],
    });
    assert_eq!(
        reflect::translate::x_type_pub(&mut pm, &mut arena, &const_arg),
        Err(Error::Unsupported)
    );
}

#[test]
fn introducer_lists_mint_and_register_fresh_lifetimes() {
    let mut arena = Arena::new();
    let mut pm = SynParamMap::new();
    // a dyn type whose bound introduces its own lifetime
    let dyn_for = RawType::Dyn(vec![RawBound::Trait {
        for_lifetimes: vec![String::from("'x")],
        path: RawPath {
            global: false,
            segs: vec![RawSeg {
                name: String::from("Fancy"),
                args: vec![reflect::syntax::RawArg::Life(String::from("'x"))],
            }],
        },
    }]);
    let t = reflect::translate::x_type_pub(&mut pm, &mut arena, &dyn_for).unwrap();
    match &t.0 {
        TypeNode::TraitObject(bounds) => match &bounds[0] {
            reflect::generics::TypeParamBound::Trait(tb) => {
                assert_eq!(tb.lifetimes.len(), 1);
                // the introduced name resolves inside the bound's arguments
                match &tb.path.path[0].args.args[0] {
                    reflect::generics::GenericArgument::Lifetime(l) => {
                        assert_eq!(*l, tb.lifetimes[0]);
                    },
                    _ => panic!("expected a lifetime argument"),
                }
            },
            _ => panic!("expected a trait bound"),
        },
        _ => panic!("expected a trait object"),
    }
    // the introduced name stays registered in the table
    assert!(matches!(pm.get("'x"), Some(GenericParam::Lifetime(_))));
}

#[test]
fn written_introducer_lists_parse_and_register() {
    let mut arena = Arena::new();
    let mut g = Generics {
        params: Vec::new(),
        constraints: Vec::new(),
        param_map: SynParamMap::new(),
    };
    g.set_generic_params(&mut arena, &["T"]).unwrap();
    g.set_generic_constraints(&mut arena, &["for<'x> T: Fancy<'x>"]).unwrap();
    assert_eq!(g.constraints.len(), 1);
    match &g.constraints[0] {
        GenericConstraint::Type(p) => {
            // the predicate-level introducer list carries the minted symbol
            assert_eq!(p.lifetimes.len(), 1);
            match &p.bounds[0] {
                reflect::generics::TypeParamBound::Trait(tb) => {
                    assert!(tb.lifetimes.is_empty());
                    match &tb.path.path[0].args.args[0] {
                        reflect::generics::GenericArgument::Lifetime(l) => {
                            assert_eq!(*l, p.lifetimes[0]);
                        },
                        _ => panic!("expected a lifetime argument"),
                    }
                },
                _ => panic!("expected a trait bound"),
            }
        },
        _ => panic!("expected a type constraint"),
    }
    assert!(matches!(g.param_map.get("'x"), Some(GenericParam::Lifetime(_))));

    // a declared bound may introduce its own lifetimes too
    let mut g2 = Generics {
        params: Vec::new(),
        constraints: Vec::new(),
        param_map: SynParamMap::new(),
    };
    g2.set_generic_params(&mut arena, &["U: for<'y, 'z> Curious<'y, 'z>"]).unwrap();
    assert_eq!(g2.constraints.len(), 1);
    match &g2.constraints[0] {
        GenericConstraint::Type(p) => match &p.bounds[0] {
            reflect::generics::TypeParamBound::Trait(tb) => {
                assert_eq!(tb.lifetimes.len(), 2);
                assert_ne!(tb.lifetimes[0], tb.lifetimes[1]);
            },
            _ => panic!("expected a trait bound"),
        },
        _ => panic!("expected a type constraint"),
    }
}

#[test]
fn bindings_and_constraints_parse_in_arguments() {
    let mut arena = Arena::new();
    let mut g = Generics {
        params: Vec::new(),
        constraints: Vec::new(),
        param_map: SynParamMap::new(),
    };
    g.set_generic_params(&mut arena, &["T"]).unwrap();
    let m = Module::root();
    let p = m.get_path("Iter<Item = T>", &mut g.param_map, &mut arena).unwrap();
    match &p.path[0].args.args[0] {
        reflect::generics::GenericArgument::Binding(b) => {
            assert_eq!(b.ident.name, "Item");
            assert!(matches!(b.ty.0, TypeNode::TypeParam(_)));
        },
        _ => panic!("expected a binding argument"),
    }
    let q = m.get_path("Iter<Item: Clone>", &mut g.param_map, &mut arena).unwrap();
    match &q.path[0].args.args[0] {
        reflect::generics::GenericArgument::Constraint(c) => {
            assert_eq!(c.ident.name, "Item");
            assert_eq!(c.bounds.len(), 1);
        },
        _ => panic!("expected a constraint argument"),
    }
}

#[test]
fn struct_fields_list_every_shape() {
    let s: Struct<Type> = Struct::Unit(reflect::data::UnitStruct { attrs: Vec::new() });
    assert!(s.fields().is_empty());
    let t: Struct<Type> = Struct::Tuple(TupleStruct {
        fields: vec![Field { accessor: Accessor::Index(0), element: Type::new_unit() }],
        attrs: Vec::new(),
    });
    assert_eq!(t.fields().len(), 1);
}

#[test]
fn runtime_hooks_resolve_to_type_nodes() {
    assert_eq!(reflect::runtime::str.SELF(), TypeNode::PrimitiveStr);
    let node = TypeNode::PrimitiveStr;
    assert_eq!(node.SELF(), TypeNode::PrimitiveStr);
    let p = Module::root().get_module("std").path;
    match p.clone().SELF() {
        TypeNode::Path(q) => assert_eq!(q, p),
        _ => panic!("a path resolves to a path type"),
    }
}
