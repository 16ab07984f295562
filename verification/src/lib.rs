//! Hardware abstraction layer for an electrophoretic (e-ink) display and its
//! input peripherals: a memory-mapped framebuffer with a marker-based refresh
//! protocol, a snapshot store for saving and restoring canvas regions, and a
//! decode pipeline turning raw input-device events into typed domain events.

pub mod framebuffer;
pub mod geom;
pub mod input;
pub mod refresh;
pub mod snapshot;
