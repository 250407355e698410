//! From a request to what the program has to do about it.

use vstd::prelude::*;
use vstd::string::StringExecFns;
use crate::args::{Args, Commands};
use crate::model::{
    context_of, is_cwd_listing, is_global_listing, store_add, store_has_note, store_remove,
};
use crate::notes::{
    derived_key, note_not_found_text, print_cwd_notes, print_global_notes, texts, NotesData,
};

verus! {

/// What is left to do once a request was carried out on the collection.
#[derive(Debug, PartialEq, Eq)]
pub enum Outcome {
    /// The collection changed. It is to be persisted, and only when that
    /// succeeded is `message` to be printed.
    Changed { message: String },
    /// The collection is as it was. The lines are to be printed.
    Report { lines: Vec<String> },
    /// The request cannot be carried out as things stand. The process is to
    /// stop with the diagnostic.
    Abort { diagnostic: String },
}

/// An outcome with its texts as sequences of characters.
pub enum OutcomeModel {
    Changed { message: Seq<char> },
    Report { lines: Seq<Seq<char>> },
    Abort { diagnostic: Seq<char> },
}

impl View for Outcome {
    type V = OutcomeModel;

    open spec fn view(&self) -> OutcomeModel {
        match *self {
            Outcome::Changed { message } => OutcomeModel::Changed { message: message@ },
            Outcome::Report { lines } => OutcomeModel::Report { lines: texts(lines@) },
            Outcome::Abort { diagnostic } => OutcomeModel::Abort { diagnostic: diagnostic@ },
        }
    }
}

/// The outcome that reports one line.
pub open spec fn report_line(line: Seq<char>) -> OutcomeModel {
    OutcomeModel::Report { lines: seq![line] }
}

fn report(prefix: &str, text: &str) -> (outcome: Outcome)
    ensures
        outcome@ == report_line(prefix@ + text@),
{
    let mut line = String::from_str(prefix);
    line.append(text);
    let mut lines: Vec<String> = Vec::new();
    lines.push(line);
    assert(texts(lines@) =~= seq![prefix@ + text@]);
    Outcome::Report { lines }
}

/// Carries out one request on the collection and says what is left to do.
///
/// `cwd` is the current directory, or the reason why it could not be
/// resolved. A note is added or removed in the global context with the global
/// flag, else in the context of the current directory; a request that is
/// turned down leaves the collection as it was and is reported in one line.
/// Without a command the notes of the context are listed. The process is to
/// stop where the notes of a directory are to be listed and the directory is
/// not known, and where a context has handed out its largest id.
pub fn run(args: Args, notes: &mut NotesData, cwd: Result<String, String>) -> (outcome: Outcome)
    ensures
        match args.command {
            Some(Commands::Add { note }) => match derived_key(args.global, cwd) {
                Some(key) => if context_of(old(notes)@, key).next_id < i32::MAX {
                    &&& final(notes)@ == store_add(old(notes)@, key, note@)
                    &&& outcome@ == OutcomeModel::Changed { message: "Note added!"@ }
                } else {
                    &&& final(notes)@ == old(notes)@
                    &&& outcome@ == OutcomeModel::Abort {
                        diagnostic: "attempt to add with overflow"@,
                    }
                },
                None => {
                    &&& final(notes)@ == old(notes)@
                    &&& cwd matches Err(detail)
                    &&& outcome@ == report_line("Error adding note: "@ + detail@)
                },
            },
            Some(Commands::Remove { id }) => match derived_key(args.global, cwd) {
                Some(key) => if store_has_note(old(notes)@, key, id as int) {
                    &&& final(notes)@ == store_remove(old(notes)@, key, id as int)
                    &&& outcome@ == OutcomeModel::Changed { message: "Note removed"@ }
                } else if old(notes)@.contains_key(key) {
                    &&& final(notes)@ == old(notes)@
                    &&& outcome@ == report_line("Error: "@ + note_not_found_text(id as int))
                } else {
                    &&& final(notes)@ == old(notes)@
                    &&& outcome@ == report_line("Error: "@ + "No notes found"@)
                },
                None => {
                    &&& final(notes)@ == old(notes)@
                    &&& outcome@ == report_line("Error: "@ + "Could not get cwd"@)
                },
            },
            None => {
                &&& final(notes)@ == old(notes)@
                &&& if args.global {
                    &&& outcome matches Outcome::Report { lines }
                    &&& is_global_listing(texts(lines@), old(notes)@)
                } else {
                    match cwd {
                        Ok(dir) => {
                            &&& outcome matches Outcome::Report { lines }
                            &&& is_cwd_listing(texts(lines@), old(notes)@, dir@)
                        },
                        Err(detail) => outcome@ == OutcomeModel::Abort {
                            diagnostic: "Unable to read current directory: "@ + detail@,
                        },
                    }
                }
            },
        },
{
    let Args { command, global } = args;
    match command {
        Some(Commands::Add { note }) => {
            if !notes.can_add_note(global, &cwd) {
                return Outcome::Abort {
                    diagnostic: String::from_str("attempt to add with overflow"),
                };
            }
            match notes.add_note(note, global, cwd) {
                Ok(_) => Outcome::Changed { message: String::from_str("Note added!") },
                Err(e) => {
                    let text = e.message();
                    report("Error adding note: ", text.as_str())
                },
            }
        },
        Some(Commands::Remove { id }) => match notes.remove_note(id, global, cwd) {
            Ok(_) => Outcome::Changed { message: String::from_str("Note removed") },
            Err(e) => {
                let text = e.message();
                report("Error: ", text.as_str())
            },
        },
        None => {
            if global {
                Outcome::Report { lines: print_global_notes(notes) }
            } else {
                match cwd {
                    Ok(dir) => Outcome::Report { lines: print_cwd_notes(notes, dir.as_str()) },
                    Err(detail) => {
                        let mut diagnostic = String::from_str("Unable to read current directory: ");
                        diagnostic.append(detail.as_str());
                        Outcome::Abort { diagnostic }
                    },
                }
            }
        },
    }
}

} // verus!
