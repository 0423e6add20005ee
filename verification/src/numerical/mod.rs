pub mod integer;
pub mod interval;
pub mod laws;
