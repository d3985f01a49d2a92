//! A terminal note browser's model: bundles of notes read lazily from a
//! directory, a cursor over them, and the browser's reaction to keys. Reading
//! and writing files is left to the caller, which hands in what it read.

pub mod app;
pub mod bundles;
pub mod selection;

pub use app::{BasaltApp, BasaltState, Command, Key};
pub use bundles::{Bundle, BundleLoader, Note, BUNDLE_BAD_NAME, NOTE_BAD_NAME};
pub use selection::Selection;
