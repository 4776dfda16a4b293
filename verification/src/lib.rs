//! Snapshot and image tooling for microVMs.

pub mod chunks;
pub mod cpu_check;
pub mod entrypoint;
pub mod extract;
pub mod file_tree;
pub mod free_pages;
pub mod guest_memory;
pub mod image;
pub mod page_faults;
pub mod persist;
pub mod restore;
pub mod text;
pub mod vm_state;
pub mod zeroing;
