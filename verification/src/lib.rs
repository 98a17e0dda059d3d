//! Front end of a compiler for a dynamic scripting language: a tokenizer,
//! an intermediate representation held as a control-flow graph of interned
//! values, and an incremental builder that lowers short-circuit boolean
//! operators into explicit branches with block-carried arguments.

pub mod forest;
pub mod ir;
pub mod lex;
pub mod parse;
pub mod runtime;
pub mod string_pool;
pub mod vec_cell;
