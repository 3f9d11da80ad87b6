//! Crow scripting language: the runtime core and the front of the pipeline.
//!
//! - [`op`]: the 32-bit instructions and their 24-bit immediate.
//! - [`object`], [`value`], [`float`]: prototypes, closures, up-value cells
//!   and the values that the machine computes with.
//! - [`vm`]: the virtual machine, the mathematical machine that it is
//!   proved to follow ([`vm::model`]) and what holds of every run
//!   ([`vm::laws`]).
//! - [`token`], [`lexer`]: lexical analysis.
//! - [`ast`], [`types`], [`typechecker`]: syntax trees and their types.
//! - [`errors`], [`text`], [`limits`]: what the others share.

pub mod ast;
pub mod errors;
pub mod float;
pub mod lexer;
pub mod limits;
pub mod object;
pub mod op;
pub mod text;
pub mod token;
pub mod typechecker;
pub mod types;
pub mod value;
pub mod vm;

pub use op::{shorthand, Op};
pub use vm::Vm;
