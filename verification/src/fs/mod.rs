//! What file systems share: attributes, directory entries and the system
//! calls on them.

pub mod attr;
pub mod chmod;
pub mod dir;
pub mod laws;
