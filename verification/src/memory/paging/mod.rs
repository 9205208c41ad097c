//! Page tables: what an entry means, how tables are reached, and how a
//! hierarchy of them is torn down.

pub mod arena;
pub mod call_laws;
pub mod laws;
pub mod table;
pub mod tear_down;
pub mod x86_64;
