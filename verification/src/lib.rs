//! A single-pass bytecode compiler and stack virtual machine for the MAX
//! scripting language.
//!
//! The pipeline runs leaves first: [`scanner`] turns source text into tokens,
//! [`parser`] keeps the token window, [`compiler`] emits a [`chunk::Chunk`]
//! wrapped in an [`object::ObjFunction`], and [`vm`] interprets it.
pub mod chunk;
pub mod compiler;
pub mod object;
pub mod parser;
pub mod scanner;
pub mod text;
pub mod value;
pub mod vm;
