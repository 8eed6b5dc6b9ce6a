//! Devices, as far as the kernel keeps state for them.

pub mod input;
