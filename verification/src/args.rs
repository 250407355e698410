//! What the user asks for on the command line.

use vstd::prelude::*;

verus! {

/// The request of one invocation: a command, or none to list the notes, and
/// the flag that selects the global context.
#[derive(Debug, PartialEq, Eq)]
pub struct Args {
    pub command: Option<Commands>,
    /// Whether the request is about the global notes.
    pub global: bool,
}

/// The commands that change the collection.
#[derive(Debug, PartialEq, Eq)]
pub enum Commands {
    /// Take a note.
    Add { note: String },
    /// Remove the note with this id.
    Remove { id: i32 },
}

} // verus!
