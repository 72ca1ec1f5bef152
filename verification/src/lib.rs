//! A fine-grained reactive-state runtime.
//!
//! A [`Runtime`] owns every reactive cell, every registered effect and the
//! ambient record of the effect that is running. [`Ref`] is a mutable cell,
//! [`Computed`] a cached value derived from other cells, and [`effect`]
//! registers a reaction that re-runs whenever a cell it has read is written.
//! Handles are plain indices into the runtime, so copies of a handle share
//! the cell they name.
pub mod derived;
pub mod laws;
pub mod model;
pub mod propagation;
pub mod runtime;
pub mod signal;

pub use derived::{computed, Computed};
pub use model::{CellModel, Effect, Entry, Formula, Model};
pub use propagation::effect;
pub use runtime::Runtime;
pub use signal::{use_ref, Ref};
