//! Imports: which files a script needs, and the declarations they contribute.

pub mod alias;
pub mod fetch_laws;
pub mod files;
pub mod idents;
pub mod imports;
pub mod import_laws;
pub mod merge;
pub mod name_laws;
