//! File systems.

pub mod fat16;
