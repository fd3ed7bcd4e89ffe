//! Analysis engine for Debian `control` files as a language server needs it:
//! byte offsets against editor positions, the catalogue of known fields,
//! field-casing diagnostics, completions and quick fixes.

pub mod actions;
pub mod analysis;
pub mod control;
pub mod laws;
pub mod lines;
pub mod parse;
pub mod position;
pub mod session;
pub mod strings;
pub mod workspace;
