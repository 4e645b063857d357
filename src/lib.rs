//! Built-in function library of an XPath-style expression evaluator: the
//! values that flow through a call, the typed call errors, the arity and type
//! checks, the core functions and the name registry that holds them.

pub mod args;
pub mod error;
pub mod function;
pub mod number;
pub mod registry;
pub mod text;
pub mod value;
