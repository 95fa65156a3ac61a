//! What an editor asks of a script.

pub mod card_laws;
pub mod field_laws;
pub mod fields;
pub mod files;
pub mod hover;
pub mod navigate;
pub mod offer;
pub mod offer_laws;
pub mod server;
pub mod symbols;
pub mod text;
pub mod web;
