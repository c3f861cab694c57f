//! Auro-3D layouts.

pub mod laws;
pub mod layout;
pub mod table;
