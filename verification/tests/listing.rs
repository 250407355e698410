use dir_notes::{print_cwd_notes, print_global_notes, NotesData};

fn dir(path: &str) -> Result<String, String> {
    Ok(path.to_string())
}

fn sorted_below_header(lines: Vec<String>) -> (String, Vec<String>) {
    let mut rest = lines;
    let header = rest.remove(0);
    rest.sort();
    (header, rest)
}

#[test]
fn scenario_note_in_a_directory() {
    let mut notes = NotesData::new();
    assert_eq!(notes.add_note("buy milk".to_string(), false, dir("/tmp/proj")), Ok(()));
    assert_eq!(notes.get("/tmp/proj").unwrap().notes.get(&1), Some(&"buy milk".to_string()));
    assert_eq!(
        print_cwd_notes(&notes, "/tmp/proj"),
        vec!["Notes for /tmp/proj:".to_string(), "\t1: buy milk".to_string()]
    );
}

#[test]
fn scenario_global_note() {
    let mut notes = NotesData::new();
    assert_eq!(notes.add_note("global todo".to_string(), true, dir("/tmp/proj")), Ok(()));
    assert_eq!(notes.get("global").unwrap().notes.get(&1), Some(&"global todo".to_string()));
    assert_eq!(
        print_cwd_notes(&notes, "/tmp/proj"),
        vec!["No notes for this directory".to_string()]
    );
    assert_eq!(print_cwd_notes(&notes, "/"), vec!["No notes for this directory".to_string()]);
    assert_eq!(
        print_global_notes(&notes),
        vec!["Global notes:".to_string(), "\t1: global todo".to_string()]
    );
}

#[test]
fn scenario_third_note_after_a_removal() {
    let mut notes = NotesData::new();
    assert_eq!(notes.add_note("first".to_string(), false, dir("/tmp/proj")), Ok(()));
    assert_eq!(notes.add_note("second".to_string(), false, dir("/tmp/proj")), Ok(()));
    assert_eq!(notes.remove_note(1, false, dir("/tmp/proj")), Ok(()));
    assert_eq!(notes.add_note("third".to_string(), false, dir("/tmp/proj")), Ok(()));
    assert_eq!(notes.get("/tmp/proj").unwrap().notes.get(&3), Some(&"third".to_string()));
    assert!(notes.get("/tmp/proj").unwrap().notes.get(&1).is_none());
    let (header, rest) = sorted_below_header(print_cwd_notes(&notes, "/tmp/proj"));
    assert_eq!(header, "Notes for /tmp/proj:");
    assert_eq!(rest, vec!["\t2: second".to_string(), "\t3: third".to_string()]);
}

#[test]
fn blank_directory_listing_is_the_same_for_never_created_and_emptied() {
    let never = NotesData::new();
    let mut emptied = NotesData::new();
    assert_eq!(emptied.add_note("gone soon".to_string(), false, dir("/w")), Ok(()));
    assert_eq!(emptied.remove_note(1, false, dir("/w")), Ok(()));
    assert!(emptied.get("/w").is_some());
    assert!(never.get("/w").is_none());
    assert_eq!(print_cwd_notes(&never, "/w"), vec!["No notes for this directory".to_string()]);
    assert_eq!(print_cwd_notes(&emptied, "/w"), print_cwd_notes(&never, "/w"));
}

#[test]
fn blank_global_listing_is_the_same_for_never_created_and_emptied() {
    let never = NotesData::new();
    let mut emptied = NotesData::new();
    assert_eq!(emptied.add_note("gone soon".to_string(), true, dir("/w")), Ok(()));
    assert_eq!(emptied.remove_note(1, true, dir("/w")), Ok(()));
    assert_eq!(print_global_notes(&never), vec!["No global notes".to_string()]);
    assert_eq!(print_global_notes(&emptied), print_global_notes(&never));
}

#[test]
fn listing_shows_every_note_once() {
    let mut notes = NotesData::new();
    for i in 1..=12 {
        assert_eq!(notes.add_note(format!("note number {}", i), true, dir("/w")), Ok(()));
    }
    assert_eq!(notes.remove_note(5, true, dir("/w")), Ok(()));
    let lines = print_global_notes(&notes);
    assert_eq!(lines.len(), 12);
    let (header, rest) = sorted_below_header(lines);
    assert_eq!(header, "Global notes:");
    let mut expected: Vec<String> =
        (1..=12).filter(|i| *i != 5).map(|i| format!("\t{}: note number {}", i, i)).collect();
    expected.sort();
    assert_eq!(rest, expected);
}

#[test]
fn listing_keeps_the_text_as_it_is() {
    let mut notes = NotesData::new();
    assert_eq!(notes.add_note(String::new(), true, dir("/w")), Ok(()));
    assert_eq!(notes.add_note("two\nlines: \u{e9}\t!".to_string(), false, dir("/w w")), Ok(()));
    assert_eq!(print_global_notes(&notes), vec!["Global notes:".to_string(), "\t1: ".to_string()]);
    assert_eq!(
        print_cwd_notes(&notes, "/w w"),
        vec!["Notes for /w w:".to_string(), "\t1: two\nlines: \u{e9}\t!".to_string()]
    );
}

#[test]
fn listing_shows_negative_ids_with_their_sign() {
    let mut notes = NotesData::new();
    let mut map = std::collections::HashMap::new();
    map.insert(-3, "minus three".to_string());
    notes.insert("/w".to_string(), dir_notes::DirectoryNotes { count: -2, notes: map });
    assert_eq!(
        print_cwd_notes(&notes, "/w"),
        vec!["Notes for /w:".to_string(), "\t-3: minus three".to_string()]
    );
}

#[test]
fn directory_named_global_is_the_global_context() {
    let mut notes = NotesData::new();
    assert_eq!(notes.add_note("shared".to_string(), true, dir("/w")), Ok(()));
    assert_eq!(
        print_cwd_notes(&notes, "global"),
        vec!["Notes for global:".to_string(), "\t1: shared".to_string()]
    );
}
