//! Armor plates: how a loaded plate is put together, and which contacts count as hits.
pub mod collision;
pub mod construct;
pub mod mesh;
pub mod plate;
