//! The caller-owned storage context.
//!
//! One `Arena` value holds every appendable store the representation needs:
//! the value nodes, the recorded invocations, the recorded macro invocations,
//! and the two counters that mint fresh generic-parameter symbols. Stores are
//! append-only: an index handed out once resolves to the same node for the
//! lifetime of the arena.

use vstd::prelude::*;

use crate::node::MacroInvokeRef;
use crate::node::InvokeRef;
use crate::node::ValueNode;
use crate::node::ValueNodeV;
use crate::node::ValueRef;
use crate::node::node_wf;
use crate::node::view_seq_value_node;
use crate::node::view_value_node;
use crate::path::Path;
use crate::ty::Type;
use crate::ty::TypeNodeV;
use crate::ty::view_type;

verus! {

/// A recorded function signature: at minimum, its declared output type. The
/// table of these is populated by the caller; the value layer only consults
/// it to type an invocation node.
pub struct Signature {
    pub output: Type,
}

/// A recorded function: its signature.
pub struct Function {
    pub sig: Signature,
}

/// A recorded invocation of a function.
pub struct Invoke {
    pub function: Function,
}

/// A recorded macro-style invocation: the invoked path and the arguments.
pub struct MacroInvoke {
    pub macro_path: Path,
    pub args: Vec<ValueRef>,
}

/// The output types of the recorded invocations, in order.
pub open spec fn invoke_outputs_of(s: Seq<Invoke>) -> Seq<TypeNodeV>
    decreases s,
{
    if s.len() == 0 {
        Seq::empty()
    } else {
        seq![view_type(s[0].function.sig.output)] + invoke_outputs_of(s.drop_first())
    }
}

pub proof fn lemma_invoke_outputs(s: Seq<Invoke>)
    ensures
        invoke_outputs_of(s).len() == s.len(),
        forall|i: int|
            0 <= i < s.len() ==> invoke_outputs_of(s)[i] == view_type(
                (#[trigger] s[i]).function.sig.output,
            ),
    decreases s,
{
    if s.len() > 0 {
        lemma_invoke_outputs(s.drop_first());
        assert(forall|i: int| 1 <= i < s.len() ==> #[trigger] s[i] == s.drop_first()[i - 1]);
    }
}

pub proof fn lemma_view_seq_value_node(s: Seq<ValueNode>)
    ensures
        view_seq_value_node(s).len() == s.len(),
        forall|i: int| 0 <= i < s.len() ==> view_seq_value_node(s)[i] == view_value_node(s[i]),
{
}

/// The caller-owned context every construction call works against.
pub struct Arena {
    /// The stored value nodes, append-only.
    pub values: Vec<ValueNode>,
    /// The recorded invocations, append-only, populated by the caller.
    pub invokes: Vec<Invoke>,
    /// The recorded macro invocations, append-only.
    pub macros: Vec<MacroInvoke>,
    /// Next lifetime symbol number to mint. Number `0` is reserved for the
    /// well-known `'static` lifetime and is never minted.
    pub lifetimes: usize,
    /// Next type-parameter symbol number to mint.
    pub type_params: usize,
}

impl Arena {
    /// True of every arena this module hands out or mutates: the reserved
    /// `'static` symbol number is already spent.
    pub open spec fn counters_wf(self) -> bool {
        self.lifetimes >= 1
    }

    /// The mathematical values of the stored value nodes, in order.
    pub open spec fn values_v(self) -> Seq<ValueNodeV> {
        view_seq_value_node(self.values@)
    }

    /// The recorded invocations' declared output types, in order.
    pub open spec fn invoke_outputs(self) -> Seq<TypeNodeV> {
        invoke_outputs_of(self.invokes@)
    }

    /// The arena's invariant: the counters are started, every stored node
    /// references only nodes stored before it (and existing table entries),
    /// and every recorded macro invocation's arguments are stored values.
    pub open spec fn wf(self) -> bool {
        &&& self.counters_wf()
        &&& self.values_v().len() == self.values@.len()
        &&& forall|i: int|
            0 <= i < self.values_v().len() ==> node_wf(
                #[trigger] self.values_v()[i],
                i,
                self.invokes@.len() as int,
                self.macros@.len() as int,
            )
        &&& forall|i: int, j: int|
            0 <= i < self.macros@.len() && 0 <= j < (#[trigger] self.macros@[i]).args@.len()
                ==> (#[trigger] self.macros@[i].args@[j]).0 < self.values@.len()
    }

    pub fn new() -> (r: Arena)
        ensures
            r.wf(),
            r.values@.len() == 0,
            r.invokes@.len() == 0,
            r.macros@.len() == 0,
            r.lifetimes == 1,
            r.type_params == 0,
    {
        Arena {
            values: Vec::new(),
            invokes: Vec::new(),
            macros: Vec::new(),
            lifetimes: 1,
            type_params: 0,
        }
    }

    /// Appends a node and returns a stable reference to it.
    ///
    /// This is where arena monotonicity lives: the returned reference equals
    /// the old length, so it is distinct from every reference handed out
    /// before; every earlier node is untouched, so every earlier reference
    /// keeps resolving to exactly the node that was pushed for it; and no
    /// operation ever removes or edits a stored node.
    pub fn push_value(&mut self, node: ValueNode) -> (r: ValueRef)
        requires
            old(self).wf(),
            node_wf(
                node@,
                old(self).values@.len() as int,
                old(self).invokes@.len() as int,
                old(self).macros@.len() as int,
            ),
        ensures
            final(self).wf(),
            r.0 == old(self).values@.len(),
            final(self).values_v() == old(self).values_v().push(node@),
            final(self).values_v()[r.0 as int] == node@,
            forall|i: int|
                0 <= i < old(self).values_v().len() ==> final(self).values_v()[i] == old(
                    self,
                ).values_v()[i],
            final(self).invokes@ == old(self).invokes@,
            final(self).macros@ == old(self).macros@,
            final(self).lifetimes == old(self).lifetimes,
            final(self).type_params == old(self).type_params,
    {
        let r = ValueRef(self.values.len());
        self.values.push(node);
        proof {
            lemma_view_seq_value_node(old(self).values@);
            lemma_view_seq_value_node(self.values@);
            assert(self.values_v() =~= old(self).values_v().push(node@));
        }
        r
    }

    /// Records an invocation and returns a stable reference to it.
    pub fn push_invoke(&mut self, invoke: Invoke) -> (r: InvokeRef)
        requires
            old(self).wf(),
        ensures
            final(self).wf(),
            r.0 == old(self).invokes@.len(),
            final(self).invoke_outputs() == old(self).invoke_outputs().push(
                view_type(invoke.function.sig.output),
            ),
            final(self).values_v() == old(self).values_v(),
            final(self).values@ == old(self).values@,
            final(self).macros@ == old(self).macros@,
            final(self).lifetimes == old(self).lifetimes,
            final(self).type_params == old(self).type_params,
    {
        let r = InvokeRef(self.invokes.len());
        let ghost iv = invoke;
        self.invokes.push(invoke);
        proof {
            lemma_invoke_outputs(old(self).invokes@);
            lemma_invoke_outputs(self.invokes@);
            assert(self.invokes@.len() == old(self).invokes@.len() + 1);
            assert(forall|i: int|
                0 <= i < old(self).invokes@.len() ==> #[trigger] self.invokes@[i] == old(
                    self,
                ).invokes@[i]);
            assert(self.invokes@[old(self).invokes@.len() as int] == iv);
            assert forall|i: int| 0 <= i < self.invokes@.len() implies self.invoke_outputs()[i]
                == old(self).invoke_outputs().push(view_type(iv.function.sig.output))[i] by {
                if i < old(self).invokes@.len() {
                    assert(self.invokes@[i] == old(self).invokes@[i]);
                    assert(self.invoke_outputs()[i] == view_type(
                        self.invokes@[i].function.sig.output,
                    ));
                    assert(old(self).invoke_outputs()[i] == view_type(
                        old(self).invokes@[i].function.sig.output,
                    ));
                } else {
                    assert(self.invokes@[i] == iv);
                    assert(self.invoke_outputs()[i] == view_type(iv.function.sig.output));
                }
            }
            assert(self.invoke_outputs() =~= old(self).invoke_outputs().push(
                view_type(iv.function.sig.output),
            ));
            assert forall|i: int| 0 <= i < self.values_v().len() implies node_wf(
                #[trigger] self.values_v()[i],
                i,
                self.invokes@.len() as int,
                self.macros@.len() as int,
            ) by {
                assert(node_wf(
                    self.values_v()[i],
                    i,
                    old(self).invokes@.len() as int,
                    self.macros@.len() as int,
                ));
            }
        }
        r
    }

    /// Records a macro invocation and returns a stable reference to it.
    pub fn push_macro(&mut self, invoke: MacroInvoke) -> (r: MacroInvokeRef)
        requires
            old(self).wf(),
            forall|j: int|
                0 <= j < invoke.args@.len() ==> (#[trigger] invoke.args@[j]).0 < old(
                    self,
                ).values@.len(),
        ensures
            final(self).wf(),
            r.0 == old(self).macros@.len(),
            final(self).macros@ == old(self).macros@.push(invoke),
            final(self).values_v() == old(self).values_v(),
            final(self).values@ == old(self).values@,
            final(self).invokes@ == old(self).invokes@,
            final(self).lifetimes == old(self).lifetimes,
            final(self).type_params == old(self).type_params,
    {
        let r = MacroInvokeRef(self.macros.len());
        self.macros.push(invoke);
        proof {
            assert forall|i: int| 0 <= i < self.values_v().len() implies node_wf(
                #[trigger] self.values_v()[i],
                i,
                self.invokes@.len() as int,
                self.macros@.len() as int,
            ) by {
                assert(node_wf(
                    self.values_v()[i],
                    i,
                    self.invokes@.len() as int,
                    old(self).macros@.len() as int,
                ));
            }
        }
        r
    }

    /// Mints a fresh lifetime symbol number, distinct from every number
    /// minted before and from the reserved `'static` number.
    pub fn mint_lifetime(&mut self) -> (r: usize)
        requires
            old(self).counters_wf(),
            old(self).lifetimes < usize::MAX,
        ensures
            final(self).counters_wf(),
            r == old(self).lifetimes,
            r >= 1,
            final(self).lifetimes == old(self).lifetimes + 1,
            final(self).type_params == old(self).type_params,
            final(self).values == old(self).values,
            final(self).invokes == old(self).invokes,
            final(self).macros == old(self).macros,
            old(self).wf() ==> final(self).wf(),
    {
        let r = self.lifetimes;
        self.lifetimes = self.lifetimes + 1;
        r
    }

    /// Mints a fresh type-parameter symbol number, distinct from every number
    /// minted before.
    pub fn mint_type_param(&mut self) -> (r: usize)
        requires
            old(self).counters_wf(),
            old(self).type_params < usize::MAX,
        ensures
            final(self).counters_wf(),
            r == old(self).type_params,
            final(self).type_params == old(self).type_params + 1,
            final(self).lifetimes == old(self).lifetimes,
            final(self).values == old(self).values,
            final(self).invokes == old(self).invokes,
            final(self).macros == old(self).macros,
            old(self).wf() ==> final(self).wf(),
    {
        let r = self.type_params;
        self.type_params = self.type_params + 1;
        r
    }
}

} // verus!
