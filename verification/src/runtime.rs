//! The runtime-polymorphism hooks: everything resolvable to a type, a
//! function or a parent exposes one `SELF` capability, so that call sites
//! can accept any of them uniformly.

use vstd::prelude::*;

use std::rc::Rc;

use crate::arena::Function;
use crate::path::Path;
use crate::ty::TypeNode;

verus! {

/// Anything resolvable to a type node.
pub trait RuntimeType {
    #[allow(non_snake_case)]
    fn SELF(self) -> TypeNode;
}

/// A parent item (a trait or an impl) that paths and functions hang off.
pub struct Parent {
    pub path: Path,
}

/// Anything resolvable to a recorded function.
pub trait RuntimeFunction {
    #[allow(non_snake_case)]
    fn SELF(self) -> Rc<Function>;
}

/// Anything resolvable to a parent item.
pub trait RuntimeParent {
    #[allow(non_snake_case)]
    fn SELF(self) -> Rc<Parent>;
}

/// A parent that is a trait.
pub trait RuntimeTrait: RuntimeParent {

}

/// A parent that is an impl.
pub trait RuntimeImpl: RuntimeParent {

}

/// The primitive `str` type's stand-in at call sites that accept anything
/// resolvable to a type.
#[allow(non_camel_case_types)]
pub struct str;

impl RuntimeType for str {
    fn SELF(self) -> (r: TypeNode)
        ensures
            r@ == crate::ty::TypeNodeV::PrimitiveStr,
    {
        TypeNode::PrimitiveStr
    }
}

impl RuntimeType for TypeNode {
    fn SELF(self) -> (r: TypeNode)
        ensures
            r == self,
    {
        self
    }
}

impl RuntimeType for Path {
    fn SELF(self) -> (r: TypeNode)
        ensures
            r@ == crate::ty::TypeNodeV::Path(crate::path::view_path(self)),
    {
        TypeNode::Path(self)
    }
}

} // verus!
