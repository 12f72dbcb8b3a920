//! Lowering of a type-checked program into a control-flow graph.
//!
//! The typed tree ([`typed`]) is the input, the graph of basic blocks
//! ([`cfg`]) the output. [`lower::build_cfg`] lowers every function of a
//! program, each with a [`builder::Builder`] of its own. [`model`] says, as
//! mathematical functions on the builder's state, what each step produces;
//! the builder is proved to compute exactly that, and to hand over a graph
//! in which every block and register that is named exists. [`laws`] and
//! [`balance`] hold what is proved of the model: that `break` and `continue`
//! go to the innermost loop, that a chain of field accesses is stored to
//! with one instruction, and that every temporary is used up once.
pub mod position;
pub mod syntax;
pub mod typed;
pub mod lowerable;
pub mod cfg;
pub mod select;
pub mod diagnostics;
pub mod operand;
pub mod model;
pub mod builder;
pub mod expressions;
pub mod statements;
pub mod lower;
pub mod laws;
pub mod balance;
