//! The note store: contexts by key, each with its counter and its notes.

use std::collections::HashMap;
use vstd::prelude::*;
use vstd::std_specs::hash::spec_hash_map_iter;
use vstd::std_specs::iter::IteratorSpec;
use vstd::string::StringExecFns;
use crate::decimal::{i32_to_decimal, int_decimal};
use crate::model::{
    context_of, context_with_note, context_without_note, document_store, fresh_context,
    global_key, is_cwd_listing, is_document_of, is_global_listing, is_order_of,
    lemma_document_reads_back, note_line, note_lines, same_context, store_add, store_has_note,
    store_remove, store_wf, ContextModel, DocumentModel, StoreModel,
};

verus! {

/// The notes of a hash map as the model holds them: by id, each as its text.
pub open spec fn entries_model(notes: Map<i32, String>) -> Map<int, Seq<char>> {
    Map::new(
        |id: int| i32::MIN <= id <= i32::MAX && notes.contains_key(id as i32),
        |id: int| notes[id as i32]@,
    )
}

/// Whether the list holds every note of `entries` once, with its id and its
/// text, and nothing else.
pub open spec fn lists_entries(list: Seq<(i32, String)>, entries: Map<int, Seq<char>>) -> bool {
    &&& forall|i: int, j: int| 0 <= i < j < list.len() ==> list[i].0 != list[j].0
    &&& forall|i: int|
        0 <= i < list.len() ==> entries.contains_key(#[trigger] list[i].0 as int)
            && entries[list[i].0 as int] == list[i].1@
    &&& forall|id: int| #[trigger]
        entries.contains_key(id) ==> exists|i: int| 0 <= i < list.len() && list[i].0 == id
}

/// The notes of one context.
#[derive(Debug, PartialEq, Eq)]
pub struct DirectoryNotes {
    /// The id that the next note receives.
    pub count: i32,
    /// The notes taken so far, by id.
    pub notes: HashMap<i32, String>,
}

impl View for DirectoryNotes {
    type V = ContextModel;

    open spec fn view(&self) -> ContextModel {
        ContextModel { next_id: self.count as int, entries: entries_model(self.notes@) }
    }
}

impl DirectoryNotes {
    /// A context in which no note was taken yet: the first note will be 1.
    pub fn new() -> (ctx: Self)
        ensures
            ctx@ == fresh_context(),
    {
        let ctx = DirectoryNotes { count: 1, notes: HashMap::new() };
        assert(ctx@.entries =~= Map::empty());
        ctx
    }

    /// Takes a note: it receives the counter as its id, and the counter moves on.
    pub fn add(&mut self, note: String)
        requires
            old(self).count < i32::MAX,
        ensures
            final(self)@ == context_with_note(old(self)@, note@),
    {
        self.notes.insert(self.count, note);
        self.count = self.count + 1;
        assert(self@.entries =~= old(self)@.entries.insert(old(self).count as int, note@));
    }

    /// The notes of the context, each once, in no particular order.
    pub fn entries(&self) -> (list: Vec<(i32, String)>)
        ensures
            lists_entries(list@, self@.entries),
    {
        let mut list: Vec<(i32, String)> = Vec::new();
        let ghost walk = spec_hash_map_iter(&self.notes).remaining();
        for pair in it: self.notes.iter()
            invariant
                it.seq() == walk,
                walk.no_duplicates(),
                list@.len() == it.index(),
                forall|j: int|
                    0 <= j < list@.len() ==> list@[j].0 == *walk[j].0 && list@[j].1 == *walk[j].1,
        {
            let (id, note) = pair;
            list.push((*id, note.clone()));
        }
        proof {
            assert forall|i: int, j: int| 0 <= i < j < list@.len() implies list@[i].0
                != list@[j].0 by {
                assert(walk[i] != walk[j]);
                assert(self.notes@.contains_key(*walk[i].0));
                assert(self.notes@.contains_key(*walk[j].0));
            }
            assert forall|i: int| 0 <= i < list@.len() implies self@.entries.contains_key(
                #[trigger] list@[i].0 as int,
            ) && self@.entries[list@[i].0 as int] == list@[i].1@ by {
                assert(self.notes@.contains_key(*walk[i].0));
            }
            assert forall|id: int| #[trigger] self@.entries.contains_key(id) implies exists|i: int|
                0 <= i < list@.len() && list@[i].0 == id by {
                let k = id as i32;
                assert(self.notes@.contains_key(k));
                assert(walk.contains((&k, &self.notes@[k])));
                let i = choose|i: int| 0 <= i < walk.len() && walk[i] == (&k, &self.notes@[k]);
                assert(list@[i].0 == id);
            }
        }
        list
    }

    /// Whether the context holds no note.
    pub fn is_empty(&self) -> (empty: bool)
        ensures
            empty == forall|id: int| !self@.entries.contains_key(id),
    {
        let empty = self.notes.is_empty();
        proof {
            if empty {
                assert forall|id: int| !self@.entries.contains_key(id) by {
                    assert(!self.notes@.dom().contains(id as i32));
                }
            } else {
                let k = choose|k: i32| self.notes@.dom().contains(k);
                assert(self@.entries.contains_key(k as int));
            }
        }
        empty
    }

    /// Removes the note `id` and reports whether there was one. The counter stays.
    pub fn remove(&mut self, id: i32) -> (found: bool)
        ensures
            found == old(self)@.entries.contains_key(id as int),
            final(self)@ == context_without_note(old(self)@, id as int),
    {
        let removed = self.notes.remove(&id);
        assert(self@.entries =~= old(self)@.entries.remove(id as int));
        removed.is_some()
    }
}

impl Clone for DirectoryNotes {
    fn clone(&self) -> (copy: Self)
        ensures
            copy.count == self.count,
            copy.notes@ == self.notes@,
            copy@ == self@,
    {
        DirectoryNotes { count: self.count, notes: self.notes.clone() }
    }
}

/// Why a request on the collection was turned down.
#[derive(Debug, PartialEq, Eq)]
pub enum NoteError {
    /// The current directory could not be resolved; `detail` says why.
    Environment { detail: String },
    /// The context has no notes yet.
    ContextNotFound,
    /// The context exists, but holds no note with this id.
    NoteNotFound { id: i32 },
}

/// The line that reports a note that is not there.
pub open spec fn note_not_found_text(id: int) -> Seq<char> {
    "Note with id "@ + int_decimal(id) + " not found"@
}

impl NoteError {
    /// The text of the error, as it is shown to the user.
    pub open spec fn message_text(self) -> Seq<char> {
        match self {
            NoteError::Environment { detail } => detail@,
            NoteError::ContextNotFound => "No notes found"@,
            NoteError::NoteNotFound { id } => note_not_found_text(id as int),
        }
    }

    /// The text of the error, as it is shown to the user.
    pub fn message(&self) -> (text: String)
        ensures
            text@ == self.message_text(),
    {
        match self {
            NoteError::Environment { detail } => detail.clone(),
            NoteError::ContextNotFound => String::from_str("No notes found"),
            NoteError::NoteNotFound { id } => {
                let mut text = String::from_str("Note with id ");
                let number = i32_to_decimal(*id);
                text.append(number.as_str());
                text.append(" not found");
                text
            },
        }
    }
}

/// The key of the context that a request is about, where it can be derived:
/// the global key with the global flag, else the current directory.
pub open spec fn derived_key(global: bool, cwd: Result<String, String>) -> Option<Seq<char>> {
    if global {
        Some(global_key())
    } else {
        match cwd {
            Ok(dir) => Some(dir@),
            Err(_) => None,
        }
    }
}

/// Derives the context key. `cwd` is the current directory, or the reason why
/// it could not be resolved; it is looked at only without the global flag.
pub fn context_key(global: bool, cwd: Result<String, String>) -> (key: Result<String, String>)
    ensures
        match key {
            Ok(k) => derived_key(global, cwd) == Some(k@),
            Err(e) => !global && cwd == Err::<String, String>(e),
        },
{
    if global {
        Ok(String::from_str("global"))
    } else {
        cwd
    }
}

/// The whole collection of notes: the contexts by key. A context comes into
/// being with its first note and stays from then on.
#[derive(Debug)]
pub struct NotesData {
    contexts: Vec<(String, DirectoryNotes)>,
}

/// Whether no key occurs twice in the list.
spec fn keys_distinct(list: Seq<(String, DirectoryNotes)>) -> bool {
    forall|i: int, j: int| 0 <= i < j < list.len() ==> list[i].0@ != list[j].0@
}

/// Whether `i` is a place in the list that holds `key`.
spec fn holds_key(list: Seq<(String, DirectoryNotes)>, key: Seq<char>, i: int) -> bool {
    0 <= i < list.len() && list[i].0@ == key
}

/// The store that a list of contexts stands for.
spec fn contexts_model(list: Seq<(String, DirectoryNotes)>) -> StoreModel {
    Map::new(
        |key: Seq<char>| exists|i: int| holds_key(list, key, i),
        |key: Seq<char>| list[choose|i: int| holds_key(list, key, i)].1@,
    )
}

proof fn lemma_model_at(list: Seq<(String, DirectoryNotes)>, i: int)
    requires
        keys_distinct(list),
        0 <= i < list.len(),
    ensures
        contexts_model(list).contains_key(list[i].0@),
        contexts_model(list)[list[i].0@] == list[i].1@,
{
    let key = list[i].0@;
    assert(holds_key(list, key, i));
    let j = choose|j: int| holds_key(list, key, j);
    assert(j == i);
}

proof fn lemma_model_push(list: Seq<(String, DirectoryNotes)>, key: String, ctx: DirectoryNotes)
    requires
        keys_distinct(list),
        !contexts_model(list).contains_key(key@),
    ensures
        keys_distinct(list.push((key, ctx))),
        contexts_model(list.push((key, ctx))) == contexts_model(list).insert(key@, ctx@),
{
    let longer = list.push((key, ctx));
    assert forall|i: int, j: int| 0 <= i < j < longer.len() implies longer[i].0@
        != longer[j].0@ by {
        if j == list.len() {
            assert(!holds_key(list, key@, i));
        }
    }
    let n = list.len() as int;
    assert forall|k: Seq<char>| #[trigger]
        contexts_model(longer).contains_key(k) == contexts_model(list).insert(
            key@,
            ctx@,
        ).contains_key(k) by {
        if contexts_model(longer).contains_key(k) {
            let i = choose|i: int| holds_key(longer, k, i);
            if i < n {
                assert(holds_key(list, k, i));
            }
        }
        if k == key@ {
            assert(holds_key(longer, k, n));
        } else if contexts_model(list).contains_key(k) {
            let i = choose|i: int| holds_key(list, k, i);
            assert(holds_key(longer, k, i));
        }
    }
    assert forall|k: Seq<char>| #[trigger]
        contexts_model(longer).contains_key(k) implies contexts_model(longer)[k]
        == contexts_model(list).insert(key@, ctx@)[k] by {
        let i = choose|i: int| holds_key(longer, k, i);
        lemma_model_at(longer, i);
        if i < n {
            assert(holds_key(list, k, i));
            lemma_model_at(list, i);
        }
    }
}

proof fn lemma_model_update(
    list: Seq<(String, DirectoryNotes)>,
    at: int,
    key: String,
    ctx: DirectoryNotes,
)
    requires
        keys_distinct(list),
        0 <= at < list.len(),
        key@ == list[at].0@,
    ensures
        keys_distinct(list.update(at, (key, ctx))),
        contexts_model(list.update(at, (key, ctx))) == contexts_model(list).insert(key@, ctx@),
{
    let changed = list.update(at, (key, ctx));
    assert forall|i: int, j: int| 0 <= i < j < changed.len() implies changed[i].0@
        != changed[j].0@ by {
        assert(list[i].0@ != list[j].0@);
    }
    assert forall|k: Seq<char>| #[trigger]
        contexts_model(changed).contains_key(k) == contexts_model(list).insert(
            key@,
            ctx@,
        ).contains_key(k) by {
        if contexts_model(changed).contains_key(k) {
            let i = choose|i: int| holds_key(changed, k, i);
            assert(holds_key(list, k, i));
        }
        if k == key@ {
            assert(holds_key(changed, k, at));
        } else if contexts_model(list).contains_key(k) {
            let i = choose|i: int| holds_key(list, k, i);
            assert(holds_key(changed, k, i));
        }
    }
    assert forall|k: Seq<char>| #[trigger]
        contexts_model(changed).contains_key(k) implies contexts_model(changed)[k]
        == contexts_model(list).insert(key@, ctx@)[k] by {
        let i = choose|i: int| holds_key(changed, k, i);
        lemma_model_at(changed, i);
        assert(holds_key(list, k, i));
        lemma_model_at(list, i);
    }
}

impl View for NotesData {
    type V = StoreModel;

    closed spec fn view(&self) -> StoreModel {
        contexts_model(self.contexts@)
    }
}

impl NotesData {
    #[verifier::type_invariant]
    spec fn inv(self) -> bool {
        keys_distinct(self.contexts@)
    }

    /// An empty collection.
    pub fn new() -> (notes: Self)
        ensures
            notes@ == Map::<Seq<char>, ContextModel>::empty(),
    {
        NotesData { contexts: Vec::new() }
    }

    fn position(&self, key: &String) -> (found: Option<usize>)
        ensures
            match found {
                Some(i) => holds_key(self.contexts@, key@, i as int),
                None => !self@.contains_key(key@),
            },
    {
        let mut i: usize = 0;
        while i < self.contexts.len()
            invariant
                i <= self.contexts@.len(),
                forall|j: int| 0 <= j < i ==> !holds_key(self.contexts@, key@, j),
            decreases self.contexts@.len() - i,
        {
            if self.contexts[i].0 == *key {
                return Some(i);
            }
            i = i + 1;
        }
        None
    }

    /// The context under `key`, if the collection has one.
    pub fn get(&self, key: &str) -> (found: Option<&DirectoryNotes>)
        ensures
            match found {
                Some(ctx) => self@.contains_key(key@) && ctx@ == self@[key@],
                None => !self@.contains_key(key@),
            },
    {
        let owned = key.to_owned();
        match self.position(&owned) {
            Some(i) => {
                proof {
                    use_type_invariant(self);
                    lemma_model_at(self.contexts@, i as int);
                }
                Some(&self.contexts[i].1)
            },
            None => None,
        }
    }

    /// The id that the next note under `key` receives: the counter of the
    /// context, or 1 where the collection has no such context yet.
    pub fn next_id(&self, key: &str) -> (id: i32)
        ensures
            id == context_of(self@, key@).next_id,
    {
        match self.get(key) {
            Some(ctx) => ctx.count,
            None => 1,
        }
    }

    /// Moves the list of contexts out and leaves an empty one behind.
    fn take_contexts(&mut self) -> (list: Vec<(String, DirectoryNotes)>)
        ensures
            list@ == old(self).contexts@,
            keys_distinct(list@),
    {
        proof {
            use_type_invariant(&*self);
        }
        let mut list: Vec<(String, DirectoryNotes)> = Vec::new();
        std::mem::swap(&mut self.contexts, &mut list);
        list
    }

    /// Puts a list of contexts in place of the present one.
    fn put_contexts(&mut self, list: Vec<(String, DirectoryNotes)>)
        requires
            keys_distinct(list@),
        ensures
            final(self).contexts@ == list@,
    {
        let mut list = list;
        std::mem::swap(&mut self.contexts, &mut list);
    }

    /// Puts `ctx` under `key`, in place of the context that was there, if any.
    pub fn insert(&mut self, key: String, ctx: DirectoryNotes)
        ensures
            final(self)@ == old(self)@.insert(key@, ctx@),
    {
        let found = self.position(&key);
        let mut list = self.take_contexts();
        match found {
            Some(i) => {
                proof {
                    lemma_model_update(list@, i as int, key, ctx);
                }
                list[i] = (key, ctx);
            },
            None => {
                proof {
                    lemma_model_push(list@, key, ctx);
                }
                list.push((key, ctx));
            },
        }
        self.put_contexts(list);
    }

    /// Adds `note` to the context under `key`, which is created where the
    /// collection has none yet.
    pub fn add_note_to(&mut self, key: String, note: String)
        requires
            context_of(old(self)@, key@).next_id < i32::MAX,
        ensures
            final(self)@ == store_add(old(self)@, key@, note@),
    {
        let found = self.position(&key);
        let mut list = self.take_contexts();
        match found {
            Some(i) => {
                proof {
                    lemma_model_at(list@, i as int);
                }
                list[i].1.add(note);
                proof {
                    let before = old(self).contexts@;
                    lemma_model_update(before, i as int, list@[i as int].0, list@[i as int].1);
                }
            },
            None => {
                let mut ctx = DirectoryNotes::new();
                ctx.add(note);
                proof {
                    lemma_model_push(list@, key, ctx);
                }
                list.push((key, ctx));
            },
        }
        self.put_contexts(list);
    }

    /// Removes the note `id` from the context under `key`. The context stays,
    /// with its counter, also where it is left without notes. Where the
    /// request is turned down the collection is left as it was.
    pub fn remove_note_from(&mut self, key: &str, id: i32) -> (result: Result<(), NoteError>)
        ensures
            if store_has_note(old(self)@, key@, id as int) {
                result is Ok && final(self)@ == store_remove(old(self)@, key@, id as int)
            } else if old(self)@.contains_key(key@) {
                final(self)@ == old(self)@ && result == Err::<(), NoteError>(
                    NoteError::NoteNotFound { id },
                )
            } else {
                final(self)@ == old(self)@ && result == Err::<(), NoteError>(
                    NoteError::ContextNotFound,
                )
            },
    {
        let owned = key.to_owned();
        let found = self.position(&owned);
        match found {
            Some(i) => {
                let mut list = self.take_contexts();
                proof {
                    lemma_model_at(list@, i as int);
                }
                let removed = list[i].1.remove(id);
                proof {
                    let before = old(self).contexts@;
                    lemma_model_update(before, i as int, list@[i as int].0, list@[i as int].1);
                }
                self.put_contexts(list);
                if removed {
                    Ok(())
                } else {
                    proof {
                        let ctx = old(self)@[key@];
                        assert(ctx.entries.remove(id as int) =~= ctx.entries);
                    }
                    Err(NoteError::NoteNotFound { id })
                }
            },
            None => Err(NoteError::ContextNotFound),
        }
    }

    /// Whether a note can be added: the counter of the context that the
    /// request is about has not reached the largest id yet. Where no context
    /// can be derived nothing is added, and nothing stands in the way.
    pub fn can_add_note(&self, global: bool, cwd: &Result<String, String>) -> (room: bool)
        ensures
            room == (derived_key(global, *cwd) matches Some(key) ==> context_of(self@, key).next_id
                < i32::MAX),
    {
        if global {
            self.next_id("global") < i32::MAX
        } else {
            match cwd {
                Ok(dir) => self.next_id(dir.as_str()) < i32::MAX,
                Err(_) => true,
            }
        }
    }

    /// Adds `note` to the global context, or to the context of the current
    /// directory. `cwd` is the current directory, or the reason why it could
    /// not be resolved; without the global flag that reason is the error.
    pub fn add_note(&mut self, note: String, global: bool, cwd: Result<String, String>) -> (result:
        Result<(), NoteError>)
        requires
            derived_key(global, cwd) matches Some(key) ==> context_of(old(self)@, key).next_id
                < i32::MAX,
        ensures
            match derived_key(global, cwd) {
                Some(key) => result is Ok && final(self)@ == store_add(old(self)@, key, note@),
                None => {
                    &&& final(self)@ == old(self)@
                    &&& cwd matches Err(detail)
                    &&& result == Err::<(), NoteError>(NoteError::Environment { detail })
                },
            },
            store_wf(old(self)@) ==> store_wf(final(self)@),
            forall|other: Seq<char>|
                derived_key(global, cwd) != Some(other) ==> same_context(
                    old(self)@,
                    final(self)@,
                    other,
                ),
    {
        match context_key(global, cwd) {
            Ok(key) => {
                self.add_note_to(key, note);
                Ok(())
            },
            Err(detail) => Err(NoteError::Environment { detail }),
        }
    }

    /// Removes the note `id` from the global context, or from the context of
    /// the current directory. Where the request is turned down the collection
    /// is left as it was.
    pub fn remove_note(&mut self, id: i32, global: bool, cwd: Result<String, String>) -> (result:
        Result<(), NoteError>)
        ensures
            match derived_key(global, cwd) {
                Some(key) => if store_has_note(old(self)@, key, id as int) {
                    result is Ok && final(self)@ == store_remove(old(self)@, key, id as int)
                } else if old(self)@.contains_key(key) {
                    final(self)@ == old(self)@ && result == Err::<(), NoteError>(
                        NoteError::NoteNotFound { id },
                    )
                } else {
                    final(self)@ == old(self)@ && result == Err::<(), NoteError>(
                        NoteError::ContextNotFound,
                    )
                },
                None => {
                    &&& final(self)@ == old(self)@
                    &&& result matches Err(NoteError::Environment { detail })
                    &&& detail@ == "Could not get cwd"@
                },
            },
            store_wf(old(self)@) ==> store_wf(final(self)@),
            forall|other: Seq<char>|
                derived_key(global, cwd) != Some(other) ==> same_context(
                    old(self)@,
                    final(self)@,
                    other,
                ),
    {
        match context_key(global, cwd) {
            Ok(key) => {
                self.remove_note_from(key.as_str(), id)
            },
            Err(_) => Err(NoteError::Environment { detail: String::from_str("Could not get cwd") }),
        }
    }
}

/// The contexts of a list as the model holds them.
pub open spec fn document_model(doc: Seq<(String, DirectoryNotes)>) -> DocumentModel {
    doc.map_values(|pair: (String, DirectoryNotes)| (pair.0@, pair.1@))
}

fn clone_contexts(list: &Vec<(String, DirectoryNotes)>) -> (copy: Vec<(String, DirectoryNotes)>)
    ensures
        copy@.len() == list@.len(),
        forall|i: int|
            0 <= i < list@.len() ==> (#[trigger] copy@[i]).0@ == list@[i].0@ && copy@[i].1@
                == list@[i].1@,
{
    let mut copy: Vec<(String, DirectoryNotes)> = Vec::new();
    let mut i: usize = 0;
    while i < list.len()
        invariant
            i <= list@.len(),
            copy@.len() == i,
            forall|j: int|
                0 <= j < i ==> (#[trigger] copy@[j]).0@ == list@[j].0@ && copy@[j].1@
                    == list@[j].1@,
        decreases list@.len() - i,
    {
        copy.push((list[i].0.clone(), list[i].1.clone()));
        i = i + 1;
    }
    copy
}

impl Clone for NotesData {
    fn clone(&self) -> (copy: Self)
        ensures
            copy@ == self@,
    {
        proof {
            use_type_invariant(self);
        }
        let list = clone_contexts(&self.contexts);
        let copy = NotesData { contexts: list };
        proof {
            assert forall|key: Seq<char>| #[trigger]
                copy@.contains_key(key) == self@.contains_key(key) by {
                if copy@.contains_key(key) {
                    let i = choose|i: int| holds_key(copy.contexts@, key, i);
                    assert(holds_key(self.contexts@, key, i));
                }
                if self@.contains_key(key) {
                    let i = choose|i: int| holds_key(self.contexts@, key, i);
                    assert(holds_key(copy.contexts@, key, i));
                }
            }
            assert forall|key: Seq<char>| #[trigger] copy@.contains_key(key) implies copy@[key]
                == self@[key] by {
                let i = choose|i: int| holds_key(copy.contexts@, key, i);
                lemma_model_at(copy.contexts@, i);
                lemma_model_at(self.contexts@, i);
            }
        }
        copy
    }
}

impl Default for NotesData {
    fn default() -> (notes: Self)
        ensures
            notes@ == Map::<Seq<char>, ContextModel>::empty(),
    {
        NotesData::new()
    }
}

/// The collection that a persisted document holds. `document` is what was
/// read, or `None` where nothing could be read: the document is missing, or it
/// is not of the expected shape. Then the collection is empty.
pub fn load_notes(document: Option<Vec<(String, DirectoryNotes)>>) -> (notes: NotesData)
    ensures
        match document {
            Some(doc) => notes@ == document_store(document_model(doc@)),
            None => notes@ == Map::<Seq<char>, ContextModel>::empty(),
        },
{
    let mut notes = NotesData::new();
    match document {
        Some(doc) => {
            let ghost full = doc@;
            for pair in it: doc.into_iter()
                invariant
                    it.seq() == full,
                    notes@ == document_store(document_model(full.take(it.index()))),
            {
                let ghost before = document_model(full.take(it.index()));
                let ghost after = document_model(full.take(it.index() + 1));
                assert(after.drop_last() =~= before);
                let (key, ctx) = pair;
                notes.insert(key, ctx);
            }
            assert(full.take(full.len() as int) =~= full);
        },
        None => {},
    }
    notes
}

/// The document that holds the collection, to be persisted: every context
/// once, with its key, its counter and its notes.
pub fn save_notes(notes: &NotesData) -> (document: Vec<(String, DirectoryNotes)>)
    ensures
        is_document_of(document_model(document@), notes@),
        document_store(document_model(document@)) == notes@,
{
    let document = clone_contexts(&notes.contexts);
    proof {
        use_type_invariant(notes);
        let model = document_model(document@);
        assert forall|i: int| 0 <= i < model.len() implies notes@.contains_key(
            #[trigger] model[i].0,
        ) && notes@[model[i].0] == model[i].1 by {
            lemma_model_at(notes.contexts@, i);
        }
        assert forall|key: Seq<char>| #[trigger] notes@.contains_key(key) implies exists|i: int|
            0 <= i < model.len() && model[i].0 == key by {
            let i = choose|i: int| holds_key(notes.contexts@, key, i);
            assert(model[i].0 == key);
        }
        lemma_document_reads_back(model, notes@);
    }
    document
}

/// The texts of a list of lines.
pub open spec fn texts(lines: Seq<String>) -> Seq<Seq<char>> {
    lines.map_values(|line: String| line@)
}

fn note_line_of(id: i32, note: &String) -> (line: String)
    ensures
        line@ == note_line(id as int, note@),
{
    let mut line = String::from_str("\t");
    let number = i32_to_decimal(id);
    line.append(number.as_str());
    line.append(": ");
    line.append(note.as_str());
    line
}

fn listing(ctx: Option<&DirectoryNotes>, header: String, nothing: &str) -> (lines: Vec<String>)
    ensures
        match ctx {
            Some(c) if exists|id: int| c@.entries.contains_key(id) => exists|ids: Seq<int>|
                #[trigger] is_order_of(ids, c@.entries) && texts(lines@) == seq![header@]
                    + note_lines(ids, c@.entries),
            _ => texts(lines@) == seq![nothing@],
        },
{
    let mut lines: Vec<String> = Vec::new();
    match ctx {
        Some(c) if !c.is_empty() => {
            let list = c.entries();
            lines.push(header);
            let ghost ids = list@.map_values(|pair: (i32, String)| pair.0 as int);
            let mut i: usize = 0;
            while i < list.len()
                invariant
                    i <= list@.len(),
                    lists_entries(list@, c@.entries),
                    ids == list@.map_values(|pair: (i32, String)| pair.0 as int),
                    lines@.len() == i + 1,
                    lines@[0] == header,
                    forall|j: int|
                        0 <= j < i ==> (#[trigger] lines@[j + 1])@ == note_line(
                            ids[j],
                            c@.entries[ids[j]],
                        ),
                decreases list@.len() - i,
            {
                let line = note_line_of(list[i].0, &list[i].1);
                lines.push(line);
                i = i + 1;
            }
            proof {
                assert forall|id: int| ids.contains(id) <==> c@.entries.contains_key(id) by {
                    if c@.entries.contains_key(id) {
                        let at = choose|at: int| 0 <= at < list@.len() && list@[at].0 == id;
                        assert(ids[at] == id);
                    }
                }
                assert(is_order_of(ids, c@.entries));
                let shown = seq![header@] + note_lines(ids, c@.entries);
                assert forall|k: int| 0 <= k < shown.len() implies texts(lines@)[k]
                    == shown[k] by {
                    if k > 0 {
                        let j = k - 1;
                        assert(lines@[j + 1]@ == note_line(ids[j], c@.entries[ids[j]]));
                    }
                }
            }
        },
        _ => {
            lines.push(String::from_str(nothing));
        },
    }
    lines
}

/// The lines that show the notes of the directory `cwd`: a header and one
/// line for each note, in no particular order, or one line that says that
/// there are none.
pub fn print_cwd_notes(notes: &NotesData, cwd: &str) -> (lines: Vec<String>)
    ensures
        is_cwd_listing(texts(lines@), notes@, cwd@),
{
    let mut header = String::from_str("Notes for ");
    header.append(cwd);
    header.append(":");
    listing(notes.get(cwd), header, "No notes for this directory")
}

/// The lines that show the global notes: a header and one line for each note,
/// in no particular order, or one line that says that there are none.
pub fn print_global_notes(notes: &NotesData) -> (lines: Vec<String>)
    ensures
        is_global_listing(texts(lines@), notes@),
{
    listing(notes.get("global"), String::from_str("Global notes:"), "No global notes")
}

} // verus!
