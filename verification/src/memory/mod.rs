//! Virtual addresses, physical frames and page mappings.

pub mod address;
pub mod frames;
pub mod paging;
