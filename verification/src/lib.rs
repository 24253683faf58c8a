//! Element-by-element construction of fixed-length containers.
//!
//! A container of `N` elements is produced from a per-index producer without
//! a placeholder-fill pass: values are written one at a time into a region of
//! vacant slots, and the region becomes a container only once every slot is
//! occupied. When production stops early, the values written so far are
//! released and the failure is handed back unchanged.
//!
//! - [`direction`]: the order in which slots are written.
//! - [`region`]: the slot storage.
//! - [`mode`]: how a producer's answer is read (bare value, `Result`,
//!   `Option`).
//! - [`engine`]: the fill itself, as steps ([`Fill`]) and as loops over a
//!   closure or an iterator.
//! - [`array`]: fixed-length containers ([`IsArray`]) and their constructors.

pub mod array;
pub mod direction;
pub mod engine;
pub mod mode;
pub mod region;

pub use array::{
    array_init, array_init_copy, from_iter, from_iter_copy, try_array_init, try_array_init_copy,
    IsArray,
};
pub use direction::Direction;
pub use engine::{fill_from_sequence, fill_with, Abort, Fill, Guard};
pub use mode::{Absent, Fallible, Mode, Naked, Optional, Unfailing};
pub use region::Region;
