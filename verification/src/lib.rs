//! Core of a small embeddable scripting engine: a dynamically typed value
//! union with a shared, reference-counted string type, and the function-call
//! dispatch protocol that moves arguments into a callee without cloning them.

pub mod ast;
pub mod call;
pub mod dynamic;
pub mod engine;
pub mod error;
pub mod immutable_string;
pub mod parser;

pub use ast::Ast;
pub use ast::Expr;
pub use ast::Stmt;
pub use call::FnRegistry;
pub use call::FnSig;
pub use call::NativeCallContext;
pub use call::NativeFn;
pub use call::ScriptFnDef;
pub use call::Tag;
pub use dynamic::Dynamic;
pub use engine::Engine;
pub use engine::Scope;
pub use error::EvalAltResult;
pub use immutable_string::ImmutableString;
