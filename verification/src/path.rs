//! Where the persisted document lives.

use vstd::prelude::*;
use vstd::string::StringExecFns;

verus! {

/// Name of the persisted document inside the home directory.
pub open spec fn notes_file_name() -> Seq<char> {
    ".notes.json"@
}

/// The home directory joined with the file name: one separator is put between
/// the two unless the directory is empty or already ends in one.
pub open spec fn notes_path_of(home: Seq<char>) -> Seq<char> {
    if home.len() == 0 || home.last() == '/' {
        home + notes_file_name()
    } else {
        home + seq!['/'] + notes_file_name()
    }
}

/// Location of the persisted document for the given home directory.
pub fn get_notes_path(home: &str) -> (path: String)
    ensures
        path@ == notes_path_of(home@),
{
    let mut path = String::from_str(home);
    let n = home.unicode_len();
    if n > 0 && home.get_char(n - 1) != '/' {
        proof {
            reveal_strlit("/");
        }
        path.append("/");
    }
    path.append(".notes.json");
    path
}

} // verus!
