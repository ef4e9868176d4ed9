//! The buffer pool: one region of memory, cut into frames.

pub mod frame;
pub mod mmap;
