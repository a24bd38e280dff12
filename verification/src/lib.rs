//! A change-tracking and presentation-state engine for a live view of
//! uncommitted edits in a working tree.
//!
//! The library turns raw filesystem events into debounced refreshes,
//! keeps a bounded history of fetched diff texts, computes where the
//! view should scroll so the first meaningful change is visible, and
//! maintains the single session record that a rendering surface reads.
//! Running the version-control queries, watching the filesystem and
//! drawing the screen are left to the surrounding program; this crate
//! holds the logic and its proofs.

use vstd::prelude::*;

pub mod classify;
pub mod clock;
pub mod debounce;
pub mod fetch;
pub mod history;
pub mod numfmt;
pub mod path_times;
pub mod scroll;
pub mod state;
pub mod text;

verus! {

/// Number of retained diff-history entries; the oldest entry is
/// evicted first once the store would exceed this bound.
pub const HISTORY_CAPACITY: usize = 50;

} // verus!
