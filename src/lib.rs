//! Linker sets: typed, statically-lived collections whose entries are
//! contributed from anywhere in a program and gathered by the linker into
//! one contiguous region.
//!
//! [`LinkerSet`] is a handle on such a region and [`LinkerSetIter`] a
//! one-shot, exact-length traversal of it; [`protocol`] holds the naming
//! convention that ties an entry's section to its set's boundary symbols.

pub mod iter;
pub mod protocol;
pub mod set;

pub use iter::LinkerSetIter;
pub use protocol::{parse_set_name, section_name, set_entry, start_symbol, stop_symbol, SetNameError};
pub use set::LinkerSet;
