//! A store of free-text notes, partitioned by context: each note belongs either
//! to the global namespace or to one directory.
//!
//! The store itself does no input or output. Its caller hands it the current
//! directory and the persisted document, and gets back what is to be written
//! and printed.
//!
//! - [`model`] holds the mathematical model of the store and its laws;
//! - [`notes`] holds the store: adding, removing, listing, and the persisted
//!   document;
//! - [`args`] and [`dispatch`] turn one request of the user into a change of
//!   the store and an outcome;
//! - [`decimal`] and [`path`] hold the texts that the store writes.

pub mod args;
pub mod decimal;
pub mod dispatch;
pub mod model;
pub mod notes;
pub mod path;

pub use args::{Args, Commands};
pub use dispatch::{run, Outcome};
pub use notes::{
    context_key, load_notes, print_cwd_notes, print_global_notes, save_notes, DirectoryNotes,
    NoteError, NotesData,
};
pub use path::get_notes_path;
