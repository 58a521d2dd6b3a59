pub mod common;
pub mod gg;
pub mod id_set;
pub mod result;
pub mod search;
