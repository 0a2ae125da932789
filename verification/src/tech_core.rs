//! The tech core: which lights it shows in each phase of an assembly, and the report on them.
pub mod lights;
pub mod program;
pub mod report;
pub mod state;
