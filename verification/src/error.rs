//! The error type for fallible construction operations.
//!
//! Failures are construction-time mistakes of the calling generator, not
//! runtime conditions: text that does not parse as the declaration grammar,
//! recognized-but-unsupported input shapes, and names that do not resolve
//! against the generic-parameter table in scope.

use vstd::prelude::*;

verus! {

#[derive(Clone, Copy, PartialEq, Eq, Structural, Debug)]
pub enum Error {
    /// The given text does not match the supported declaration grammar.
    Parse,
    /// A recognized but unsupported shape — a `const` generic parameter or
    /// argument, an equality predicate, an unrecognized type shape — or an
    /// exhausted symbol counter.
    Unsupported,
    /// A lifetime name that is not bound to a lifetime symbol in the
    /// parameter table in scope.
    NotALifetime,
    /// A name that is not bound to a type-parameter symbol in the parameter
    /// table in scope.
    NotATypeParam,
}

} // verus!
