//! The scheduler of one processor, and how work is spread over several.

pub mod call_laws;
pub mod current;
pub mod laws;
pub mod part_laws;
pub mod placement;
pub mod placement_laws;
pub mod runqueue;
pub mod stat;
pub mod state;
