//! The mathematical model of the note store, and the laws that hold of it.
//!
//! A store is a map from context key to context. A context holds the counter
//! that names the next note and the notes taken so far, by id.

use vstd::prelude::*;
use crate::decimal::int_decimal;

verus! {

/// One context: the id that the next note receives, and the notes by id.
pub struct ContextModel {
    pub next_id: int,
    pub entries: Map<int, Seq<char>>,
}

/// The whole collection: contexts by key.
pub type StoreModel = Map<Seq<char>, ContextModel>;

/// The key under which global notes are kept.
pub open spec fn global_key() -> Seq<char> {
    "global"@
}

/// A context in which no note was taken yet.
pub open spec fn fresh_context() -> ContextModel {
    ContextModel { next_id: 1, entries: Map::empty() }
}

/// The context under `key`, or a fresh one where the store has none.
pub open spec fn context_of(store: StoreModel, key: Seq<char>) -> ContextModel {
    if store.contains_key(key) {
        store[key]
    } else {
        fresh_context()
    }
}

/// The context after one more note: the note takes the counter as its id and
/// the counter moves on by one.
pub open spec fn context_with_note(ctx: ContextModel, text: Seq<char>) -> ContextModel {
    ContextModel { next_id: ctx.next_id + 1, entries: ctx.entries.insert(ctx.next_id, text) }
}

/// The context without the note `id`; the counter stays.
pub open spec fn context_without_note(ctx: ContextModel, id: int) -> ContextModel {
    ContextModel { next_id: ctx.next_id, entries: ctx.entries.remove(id) }
}

/// The store after `text` was added under `key`.
pub open spec fn store_add(store: StoreModel, key: Seq<char>, text: Seq<char>) -> StoreModel {
    store.insert(key, context_with_note(context_of(store, key), text))
}

/// Whether the note `id` can be removed from the context under `key`.
pub open spec fn store_has_note(store: StoreModel, key: Seq<char>, id: int) -> bool {
    store.contains_key(key) && store[key].entries.contains_key(id)
}

/// The store after the note `id` was removed from the context under `key`.
pub open spec fn store_remove(store: StoreModel, key: Seq<char>, id: int) -> StoreModel {
    store.insert(key, context_without_note(store[key], id))
}

/// Every id in use lies between 1 and the counter, the counter excluded.
pub open spec fn context_wf(ctx: ContextModel) -> bool {
    &&& ctx.next_id >= 1
    &&& forall|id: int| #[trigger] ctx.entries.contains_key(id) ==> 1 <= id < ctx.next_id
}

/// Every context of the store keeps its counter above the ids in use.
pub open spec fn store_wf(store: StoreModel) -> bool {
    forall|key: Seq<char>| #[trigger] store.contains_key(key) ==> context_wf(store[key])
}

/// Whether the two stores agree on the context under `key`: both lack it, or
/// both hold it with the same counter and the same notes.
pub open spec fn same_context(before: StoreModel, after: StoreModel, key: Seq<char>) -> bool {
    &&& after.contains_key(key) == before.contains_key(key)
    &&& before.contains_key(key) ==> after[key] == before[key]
}

/// Whether the context shows no note: it was never created, or it is empty.
pub open spec fn context_is_blank(store: StoreModel, key: Seq<char>) -> bool {
    !store.contains_key(key) || forall|id: int| !store[key].entries.contains_key(id)
}

/// Whether `ids` names every note of `entries` once, and nothing else.
pub open spec fn is_order_of(ids: Seq<int>, entries: Map<int, Seq<char>>) -> bool {
    &&& ids.no_duplicates()
    &&& forall|id: int| ids.contains(id) <==> entries.contains_key(id)
}

/// The line that shows one note: a tab, the id, a colon, a space, the text.
pub open spec fn note_line(id: int, text: Seq<char>) -> Seq<char> {
    "\t"@ + int_decimal(id) + ": "@ + text
}

/// The lines of the notes of `entries`, in the order of `ids`.
pub open spec fn note_lines(ids: Seq<int>, entries: Map<int, Seq<char>>) -> Seq<Seq<char>> {
    Seq::new(ids.len(), |i: int| note_line(ids[i], entries[ids[i]]))
}

/// Whether `lines` is a listing of the context under `key`: the line `nothing`
/// alone where the context shows no note, else `header` and then one line for
/// each note, in some order.
pub open spec fn is_listing(
    lines: Seq<Seq<char>>,
    store: StoreModel,
    key: Seq<char>,
    header: Seq<char>,
    nothing: Seq<char>,
) -> bool {
    if context_is_blank(store, key) {
        lines == seq![nothing]
    } else {
        exists|ids: Seq<int>| #[trigger]
            is_order_of(ids, store[key].entries) && lines == seq![header] + note_lines(
                ids,
                store[key].entries,
            )
    }
}

/// The header of the listing of a directory.
pub open spec fn cwd_header(cwd: Seq<char>) -> Seq<char> {
    "Notes for "@ + cwd + ":"@
}

/// Whether `lines` is the listing of the notes of the directory `cwd`.
pub open spec fn is_cwd_listing(lines: Seq<Seq<char>>, store: StoreModel, cwd: Seq<char>) -> bool {
    is_listing(lines, store, cwd, cwd_header(cwd), "No notes for this directory"@)
}

/// Whether `lines` is the listing of the global notes.
pub open spec fn is_global_listing(lines: Seq<Seq<char>>, store: StoreModel) -> bool {
    is_listing(lines, store, global_key(), "Global notes:"@, "No global notes"@)
}

/// The persisted document: the contexts, each with its key.
pub type DocumentModel = Seq<(Seq<char>, ContextModel)>;

/// The store that a document stands for. Where the document names a key more
/// than once, the last context under that key is the one that counts.
pub open spec fn document_store(doc: DocumentModel) -> StoreModel
    decreases doc.len(),
{
    if doc.len() == 0 {
        Map::empty()
    } else {
        document_store(doc.drop_last()).insert(doc.last().0, doc.last().1)
    }
}

/// Whether the document writes down the store: each context once, under its
/// key, with its counter and its notes, and nothing else.
pub open spec fn is_document_of(doc: DocumentModel, store: StoreModel) -> bool {
    &&& forall|i: int, j: int| 0 <= i < j < doc.len() ==> doc[i].0 != doc[j].0
    &&& forall|i: int|
        0 <= i < doc.len() ==> store.contains_key(#[trigger] doc[i].0) && store[doc[i].0]
            == doc[i].1
    &&& forall|key: Seq<char>| #[trigger]
        store.contains_key(key) ==> exists|i: int| 0 <= i < doc.len() && doc[i].0 == key
}

/// One request to change the notes of a context.
pub enum Step {
    Add { text: Seq<char> },
    Remove { id: int },
}

/// The store after one step on the context under `key`. A removal that names
/// no note of the context changes nothing.
pub open spec fn apply_step(store: StoreModel, key: Seq<char>, step: Step) -> StoreModel {
    match step {
        Step::Add { text } => store_add(store, key, text),
        Step::Remove { id } => if store_has_note(store, key, id) {
            store_remove(store, key, id)
        } else {
            store
        },
    }
}

/// The store after the steps were applied in order to the context under `key`.
pub open spec fn apply_steps(store: StoreModel, key: Seq<char>, steps: Seq<Step>) -> StoreModel
    decreases steps.len(),
{
    if steps.len() == 0 {
        store
    } else {
        apply_step(apply_steps(store, key, steps.drop_last()), key, steps.last())
    }
}

/// How many of the steps are additions.
pub open spec fn count_adds(steps: Seq<Step>) -> nat
    decreases steps.len(),
{
    if steps.len() == 0 {
        0
    } else {
        count_adds(steps.drop_last()) + if steps.last() is Add {
            1nat
        } else {
            0nat
        }
    }
}

/// Adding a note keeps the counters above the ids in use.
pub proof fn lemma_add_preserves_wf(store: StoreModel, key: Seq<char>, text: Seq<char>)
    requires
        store_wf(store),
    ensures
        store_wf(store_add(store, key, text)),
{
}

/// Removing a note keeps the counters above the ids in use.
pub proof fn lemma_remove_preserves_wf(store: StoreModel, key: Seq<char>, id: int)
    requires
        store_wf(store),
        store.contains_key(key),
    ensures
        store_wf(store_remove(store, key, id)),
{
}

/// Every addition moves the counter of its context on by one, and nothing
/// else moves it: after any sequence of additions and removals the counter
/// has grown by the number of additions.
pub proof fn lemma_counter_counts_adds(store: StoreModel, key: Seq<char>, steps: Seq<Step>)
    ensures
        context_of(apply_steps(store, key, steps), key).next_id == context_of(store, key).next_id
            + count_adds(steps),
    decreases steps.len(),
{
    if steps.len() > 0 {
        lemma_counter_counts_adds(store, key, steps.drop_last());
    }
}

/// Starting from a context that does not exist yet, after any sequence of
/// additions and removals the next note receives the number of additions made
/// so far plus one: ids are handed out as 1, 2, 3, ... without gaps, and no
/// removal gives an id back. The context exists from the first addition on,
/// also when every note was removed again, and all its ids were handed out.
pub proof fn lemma_ids_count_up(store: StoreModel, key: Seq<char>, steps: Seq<Step>)
    requires
        !store.contains_key(key),
    ensures
        context_of(apply_steps(store, key, steps), key).next_id == count_adds(steps) + 1,
        apply_steps(store, key, steps).contains_key(key) == (count_adds(steps) > 0),
        forall|id: int| #[trigger]
            context_of(apply_steps(store, key, steps), key).entries.contains_key(id) ==> 1 <= id
                <= count_adds(steps),
    decreases steps.len(),
{
    if steps.len() > 0 {
        lemma_ids_count_up(store, key, steps.drop_last());
    }
}

/// A note that was added receives the counter of its context as its id, and
/// that id is larger than every id handed out in the context before.
pub proof fn lemma_added_id_is_new(store: StoreModel, key: Seq<char>, text: Seq<char>)
    requires
        store_wf(store),
    ensures
        ({
            let before = context_of(store, key);
            let after = store_add(store, key, text)[key];
            &&& after.entries.contains_key(before.next_id)
            &&& after.entries[before.next_id] == text
            &&& after.next_id == before.next_id + 1
            &&& forall|id: int| #[trigger] before.entries.contains_key(id) ==> id < before.next_id
        }),
{
}

/// Steps on one context leave every other context as it was: neither its
/// counter nor its notes change, and no other context appears or disappears.
pub proof fn lemma_contexts_isolated(
    store: StoreModel,
    key: Seq<char>,
    steps: Seq<Step>,
    other: Seq<char>,
)
    requires
        other != key,
    ensures
        apply_steps(store, key, steps).contains_key(other) == store.contains_key(other),
        store.contains_key(other) ==> apply_steps(store, key, steps)[other] == store[other],
    decreases steps.len(),
{
    if steps.len() > 0 {
        lemma_contexts_isolated(store, key, steps.drop_last(), other);
    }
}

/// A context that was never created and one that was emptied are listed
/// alike: whatever else the two stores hold, both listings are the one line
/// that says that there are no notes.
pub proof fn lemma_blank_contexts_list_alike(
    never: StoreModel,
    emptied: StoreModel,
    key: Seq<char>,
    header: Seq<char>,
    nothing: Seq<char>,
    first: Seq<Seq<char>>,
    second: Seq<Seq<char>>,
)
    requires
        !never.contains_key(key),
        emptied.contains_key(key),
        forall|id: int| !emptied[key].entries.contains_key(id),
        is_listing(first, never, key, header, nothing),
        is_listing(second, emptied, key, header, nothing),
    ensures
        first == second,
        first == seq![nothing],
{
}

/// A listing shows every note of the context: below the header stands the
/// line of each note.
pub proof fn lemma_listing_shows_each_note(
    lines: Seq<Seq<char>>,
    store: StoreModel,
    key: Seq<char>,
    header: Seq<char>,
    nothing: Seq<char>,
    id: int,
)
    requires
        is_listing(lines, store, key, header, nothing),
        store_has_note(store, key, id),
    ensures
        lines[0] == header,
        exists|i: int| 1 <= i < lines.len() && lines[i] == note_line(id, store[key].entries[id]),
{
    let entries = store[key].entries;
    let ids = choose|ids: Seq<int>| #[trigger]
        is_order_of(ids, entries) && lines == seq![header] + note_lines(ids, entries);
    assert(ids.contains(id));
    let at = choose|at: int| 0 <= at < ids.len() && ids[at] == id;
    assert(lines[at + 1] == note_lines(ids, entries)[at]);
}

/// A listing shows no note twice and nothing but the notes: where the context
/// shows notes, the listing has one line for each and one for the header.
pub proof fn lemma_listing_length(
    lines: Seq<Seq<char>>,
    store: StoreModel,
    key: Seq<char>,
    header: Seq<char>,
    nothing: Seq<char>,
)
    requires
        is_listing(lines, store, key, header, nothing),
        !context_is_blank(store, key),
        store[key].entries.dom().finite(),
    ensures
        lines.len() == store[key].entries.dom().len() + 1,
{
    let entries = store[key].entries;
    let ids = choose|ids: Seq<int>| #[trigger]
        is_order_of(ids, entries) && lines == seq![header] + note_lines(ids, entries);
    ids.unique_seq_to_set();
    assert(ids.to_set() =~= entries.dom());
}

/// Reading a document back gives the store that was written: every context
/// returns with its key, its counter and its notes.
pub proof fn lemma_document_reads_back(doc: DocumentModel, store: StoreModel)
    requires
        is_document_of(doc, store),
    ensures
        document_store(doc) == store,
    decreases doc.len(),
{
    if doc.len() > 0 {
        let head = doc.drop_last();
        let rest = store.remove(doc.last().0);
        assert forall|k: Seq<char>| #[trigger] rest.contains_key(k) implies exists|i: int|
            0 <= i < head.len() && head[i].0 == k by {
            let i = choose|i: int| 0 <= i < doc.len() && doc[i].0 == k;
            assert(head[i].0 == k);
        }
        lemma_document_reads_back(head, rest);
    }
}

/// Writing, reading, writing and reading again changes nothing: the store
/// read from the second document is the store read from the first, which is
/// the store that was written.
pub proof fn lemma_save_load_is_idempotent(
    store: StoreModel,
    first: DocumentModel,
    second: DocumentModel,
)
    requires
        is_document_of(first, store),
        is_document_of(second, document_store(first)),
    ensures
        document_store(first) == store,
        document_store(second) == store,
{
    lemma_document_reads_back(first, store);
    lemma_document_reads_back(second, document_store(first));
}

} // verus!
