//! Lowering of checked scripts to the wire graph.

pub mod assign;
pub mod awaiting;
pub mod ctx;
pub mod decl;
pub mod emit;
pub mod gates;
pub mod graph;
pub mod names;
pub mod nesting;
pub mod predeclare;
pub mod record;
pub mod signals;
pub mod state;
pub mod stmt;
pub mod task;
pub mod wiring;
