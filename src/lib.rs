//! Core of a Total Commander packer plugin for HRX (human-readable archive)
//! files: entry iteration, extraction, packing, deletion and boundary-safe
//! saving, built on the `hrx` crate's parser and serialiser.

pub mod document;
pub mod wcxhead;
pub mod paths;
pub mod progress;
pub mod archive;
pub mod pack;
pub mod state;
pub mod util;

pub use archive::{is_valid_archive, modify_archive};
pub use pack::{PackJob, PackOptions};
pub use state::ArchiveState;
pub use util::CListIter;
