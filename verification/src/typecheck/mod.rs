//! Type checker.

pub mod scope;
pub mod typing;
pub mod checking;
pub mod ctx;
pub mod order;
pub mod register;
pub mod reporting;
pub mod rules;
pub mod judge;
pub mod laws;
pub mod calls;
pub mod check;
