//! A compiler from a small S-expression language to the WebAssembly binary
//! module format: type resolution, stack-machine code emission with implicit
//! numeric widening, signature interning, and exact binary serialization.
pub mod ast;
pub mod encoder;
pub mod env;
pub mod error;
pub mod literal;
pub mod lexer;
pub mod parser;
pub mod resolver;
pub mod stack;
pub mod util;

pub mod compiler;
pub mod emitter;
