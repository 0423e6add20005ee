//! Interval abstract domain over arbitrary-precision integers, and the
//! naming of definitions and types used as keys of a summary store.

pub mod text;
pub mod numerical;
pub mod memory;
