//! Modules: simple qualified-name prefixes that paths and macro-style
//! invocations are derived from.

use vstd::prelude::*;

use crate::arena::Arena;
use crate::arena::MacroInvoke;
use crate::ident::Ident;
use crate::node::ValueNode;
use crate::node::ValueNodeV;
use crate::node::ValueRef;
use crate::path::Path;
use crate::path::PathSegment;
use crate::path::PathSegmentV;
use crate::path::view_seq_seg;
use crate::value::Value;
use crate::value::refs_of;
use crate::generics::GenericArguments;

verus! {

/// A module: a qualified-name prefix, anchored at the crate root or
/// relative.
pub struct Module {
    pub path: Path,
}

impl Path {
    /// Appends a plain name segment, without generic arguments.
    pub fn get_simple_path(&self, name: &str) -> (r: Path)
        ensures
            r@.global == self@.global,
            r@.segs == self@.segs.push(PathSegmentV { ident: name@, args: Seq::empty() }),
    {
        let mut r = self.clone();
        let ghost prev = r.path@;
        r.path.push(
            PathSegment { ident: Ident::new(name), args: GenericArguments { args: Vec::new() } },
        );
        proof {
            crate::path::lemma_view_seq_seg(prev);
            crate::path::lemma_view_seq_seg(r.path@);
            assert(crate::generics::view_seq_arg(Seq::<crate::generics::GenericArgument>::empty())
                =~= Seq::<crate::generics::GenericArgumentV>::empty());
            assert(forall|i: int| 0 <= i < prev.len() ==> #[trigger] r.path@[i] == prev[i]);
            assert(view_seq_seg(r.path@) =~= view_seq_seg(prev).push(
                PathSegmentV { ident: name@, args: Seq::empty() },
            ));
        }
        r
    }
}

impl Module {
    /// The crate root: the empty, globally anchored prefix.
    pub fn root() -> (r: Module)
        ensures
            r.path@.global == true,
            r.path@.segs == Seq::<PathSegmentV>::empty(),
    {
        let r = Module { path: Path { global: true, path: Vec::new() } };
        proof {
            assert(view_seq_seg(Seq::<PathSegment>::empty()) =~= Seq::<PathSegmentV>::empty());
        }
        r
    }

    /// The child module named `name`.
    pub fn get_module(&self, name: &str) -> (r: Module)
        ensures
            r.path@.global == self.path@.global,
            r.path@.segs == self.path@.segs.push(
                PathSegmentV { ident: name@, args: Seq::empty() },
            ),
    {
        Module { path: self.path.get_simple_path(name) }
    }

    /// Records a macro-style invocation of `name` under this module with
    /// the given arguments, and returns a value wrapping it.
    pub fn invoke_macro(&self, arena: &mut Arena, name: &str, values: &[Value]) -> (r: Value)
        requires
            old(arena).wf(),
            forall|i: int|
                0 <= i < values@.len() ==> (#[trigger] values@[i]).index.0 < old(
                    arena,
                ).values@.len(),
        ensures
            final(arena).wf(),
            r.index.0 == old(arena).values@.len(),
            final(arena).macros@.len() == old(arena).macros@.len() + 1,
            final(arena).macros@[old(arena).macros@.len() as int].macro_path@.global
                == self.path@.global,
            final(arena).macros@[old(arena).macros@.len() as int].macro_path@.segs
                == self.path@.segs.push(PathSegmentV { ident: name@, args: Seq::empty() }),
            final(arena).macros@[old(arena).macros@.len() as int].args@ == refs_of(values@),
            final(arena).values_v() == old(arena).values_v().push(
                ValueNodeV::MacroInvocation(
                    crate::node::MacroInvokeRef(old(arena).macros@.len() as usize),
                ),
            ),
            final(arena).invokes@ == old(arena).invokes@,
            final(arena).lifetimes == old(arena).lifetimes,
            final(arena).type_params == old(arena).type_params,
    {
        let macro_path = self.path.get_simple_path(name);
        let mut args: Vec<ValueRef> = Vec::new();
        let mut i: usize = 0;
        while i < values.len()
            invariant
                i <= values@.len(),
                args@.len() == i,
                forall|j: int| 0 <= j < i ==> #[trigger] args@[j] == values@[j].index,
            decreases values@.len() - i,
        {
            args.push(values[i].index);
            i = i + 1;
        }
        proof {
            assert(args@ =~= refs_of(values@));
        }
        let invoke = arena.push_macro(MacroInvoke { macro_path, args });
        let index = arena.push_value(ValueNode::MacroInvocation(invoke));
        Value { index }
    }
}

} // verus!
