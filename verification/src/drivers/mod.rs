//! Drivers: memory for virtio devices and the kernel's own file systems.

pub mod call_laws;
pub mod fs;
pub mod virtio_hal;
