use std::collections::HashMap;

use dir_notes::{load_notes, save_notes, DirectoryNotes, NotesData};

fn dir(path: &str) -> Result<String, String> {
    Ok(path.to_string())
}

fn context(count: i32, notes: &[(i32, &str)]) -> DirectoryNotes {
    let mut map = HashMap::new();
    for (id, text) in notes {
        map.insert(*id, text.to_string());
    }
    DirectoryNotes { count, notes: map }
}

fn sorted(mut doc: Vec<(String, DirectoryNotes)>) -> Vec<(String, DirectoryNotes)> {
    doc.sort_by(|a, b| a.0.cmp(&b.0));
    doc
}

fn sample() -> NotesData {
    let mut notes = NotesData::new();
    assert_eq!(notes.add_note("g1".to_string(), true, dir("/a")), Ok(()));
    assert_eq!(notes.add_note("a1".to_string(), false, dir("/a")), Ok(()));
    assert_eq!(notes.add_note("a2".to_string(), false, dir("/a")), Ok(()));
    assert_eq!(notes.add_note("b1".to_string(), false, dir("/b")), Ok(()));
    assert_eq!(notes.remove_note(1, false, dir("/b")), Ok(()));
    assert_eq!(notes.remove_note(1, false, dir("/a")), Ok(()));
    notes
}

#[test]
fn missing_document_loads_as_empty_collection() {
    let notes = load_notes(None);
    assert!(notes.get("global").is_none());
    assert!(save_notes(&notes).is_empty());
    assert_eq!(notes.next_id("global"), 1);
}

#[test]
fn empty_document_loads_as_empty_collection() {
    let notes = load_notes(Some(Vec::new()));
    assert!(save_notes(&notes).is_empty());
}

#[test]
fn document_holds_every_context_once() {
    let doc = sorted(save_notes(&sample()));
    assert_eq!(
        doc,
        vec![
            ("/a".to_string(), context(3, &[(2, "a2")])),
            ("/b".to_string(), context(2, &[])),
            ("global".to_string(), context(2, &[(1, "g1")])),
        ]
    );
}

#[test]
fn loading_reads_counters_and_notes() {
    let notes = load_notes(Some(vec![
        ("global".to_string(), context(4, &[(1, "one"), (3, "three")])),
        ("/w".to_string(), context(1, &[])),
    ]));
    assert_eq!(notes.get("global"), Some(&context(4, &[(1, "one"), (3, "three")])));
    assert_eq!(notes.get("/w"), Some(&context(1, &[])));
    assert!(notes.get("/v").is_none());
    assert_eq!(notes.next_id("global"), 4);
}

#[test]
fn save_then_load_gives_the_collection_back() {
    let notes = sample();
    let again = load_notes(Some(save_notes(&notes)));
    assert_eq!(again.get("global"), notes.get("global"));
    assert_eq!(again.get("/a"), notes.get("/a"));
    assert_eq!(again.get("/b"), notes.get("/b"));
    assert_eq!(sorted(save_notes(&again)), sorted(save_notes(&notes)));
}

#[test]
fn save_and_load_repeated_change_nothing() {
    let notes = sample();
    let first = sorted(save_notes(&notes));
    let mut current = notes;
    for _ in 0..5 {
        current = load_notes(Some(save_notes(&current)));
        assert_eq!(sorted(save_notes(&current)), first);
    }
    assert_eq!(current.next_id("/a"), 3);
    assert_eq!(current.next_id("/b"), 2);
    assert_eq!(current.next_id("global"), 2);
}

#[test]
fn loaded_collection_goes_on_counting() {
    let mut notes = load_notes(Some(save_notes(&sample())));
    assert_eq!(notes.add_note("a3".to_string(), false, dir("/a")), Ok(()));
    assert_eq!(notes.get("/a"), Some(&context(4, &[(2, "a2"), (3, "a3")])));
    assert_eq!(notes.add_note("b2".to_string(), false, dir("/b")), Ok(()));
    assert_eq!(notes.get("/b"), Some(&context(3, &[(2, "b2")])));
}

#[test]
fn last_context_of_a_repeated_key_counts() {
    let notes = load_notes(Some(vec![
        ("/w".to_string(), context(2, &[(1, "early")])),
        ("/v".to_string(), context(5, &[(4, "other")])),
        ("/w".to_string(), context(9, &[(8, "late")])),
    ]));
    assert_eq!(notes.get("/w"), Some(&context(9, &[(8, "late")])));
    assert_eq!(notes.get("/v"), Some(&context(5, &[(4, "other")])));
    assert_eq!(save_notes(&notes).len(), 2);
}
