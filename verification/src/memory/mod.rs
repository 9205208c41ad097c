//! Physical memory: addresses, regions, the early allocator and the buddy
//! allocator.

pub mod address;
pub mod buddy;
pub mod call_laws;
pub mod early_laws;
pub mod frame;
pub mod init;
pub mod inner;
pub mod laws;
pub mod merge_laws;
pub mod model;
pub mod model_proofs;
pub mod page;
pub mod page_alloc;
pub mod page_laws;
pub mod paging;
pub mod smalloc;
pub mod steps;
