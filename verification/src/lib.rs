//! A fixed-capacity, append-only storage segment backed by a writable
//! memory-mapped region: the lowest building block of a segmented commit log.
//!
//! The segment owns the mapped region, keeps a write cursor, gates every
//! write against the remaining capacity, serves random-access byte reads,
//! and can ask the operating system to persist the mapped pages.

pub mod log;
pub mod name;
pub mod region;

pub use log::Error;
pub use log::Log;
pub use name::segment_file_name;
