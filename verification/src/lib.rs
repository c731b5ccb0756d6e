//! A code-generation intermediate representation: programs construct
//! fragments of a statically typed, generic, reference-and-ownership-aware
//! target language — types, values, struct/enum data shapes, module paths,
//! macro-style invocations — as plain data, instead of manipulating source
//! text, and later hand the result to an external printer.
//!
//! The pieces:
//!
//! - [`arena`]: the caller-owned storage context. Every value node, recorded
//!   invocation and macro invocation lives in one [`arena::Arena`], addressed
//!   by small copyable indices; stores are append-only, so an index stays
//!   valid for the lifetime of the arena, which also owns the counters that
//!   mint fresh generic-parameter symbols.
//! - [`generics`]: the generic-parameter model — symbolic lifetime and type
//!   parameters, constraints, the name lookup table — and the fresh-generics
//!   renaming used whenever a definition is reused in a new instantiation
//!   context.
//! - [`ty`] and [`value`]: the twin node algebras, with constructors for
//!   every variant, the reference-collapsing dereference rule, tuple
//!   projection, shape reinterpretation, and the recursive type-inference
//!   and type-naming walks.
//! - [`data`]: the structural shape model shared by both algebras.
//! - [`path`] and [`module`]: qualified names and the module prefixes they
//!   hang off.
//! - [`syntax`], [`parse`] and [`translate`]: the parsed-syntax boundary —
//!   plain data standing for an externally parsed declaration — the crate's
//!   own parser for the small declaration grammar the string-taking calls
//!   accept, and the name resolution that turns parsed syntax into symbolic
//!   form.
//! - [`runtime`]: the polymorphism hooks through which call sites accept
//!   anything resolvable to a type, a function or a parent item.

pub mod arena;
pub mod data;
pub mod error;
pub mod fresh;
pub mod generics;
pub mod ident;
pub mod module;
pub mod node;
pub mod parse;
pub mod path;
pub mod runtime;
pub mod syntax;
pub mod translate;
pub mod ty;
pub mod value;

pub use arena::Arena;
pub use error::Error;
pub use generics::Generics;
pub use module::Module;
pub use ty::Type;
pub use value::Value;
