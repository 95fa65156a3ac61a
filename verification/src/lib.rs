//! Front end and wire-graph lowering of the wirescript language.

#![allow(unused_imports)]

pub mod analysis;
pub mod answers;
pub mod assoc;
pub mod ast;
pub mod ast_view;
pub mod catalog;
pub mod diagnostic;
pub mod lexer;
pub mod lexer_laws;
pub mod literal;
pub mod literal_laws;
pub mod lower;
pub mod resolve;
pub mod string_laws;
pub mod text;
pub mod text_laws;
pub mod type_expr;
pub mod types;
pub mod typecheck;
