pub mod utils;
pub mod mangling;
pub mod summary_keys;
pub mod concreteness;
