//! The stored lorebooks: how they and their entries are created, read,
//! changed and deleted. The entries of a lorebook are kept by falling
//! priority.

use vstd::prelude::*;
use vstd::string::StrSliceExecFns;
use crate::entities::{
    mark_deleted, marker, CreateEntryInput, CreateLorebookInput, Lorebook, LorebookEntry, UpdateEntryInput,
    UpdateLorebookInput,
};
use crate::error::{AppError, AppResult};
use crate::lorebook::{falling, find_slot, lemma_slot_for, slot_for, LorebookService};
use crate::strings::{clone_strings, is_blank_text, trim_text, trimmed_text};
use crate::text::str_eq;

verus! {

/// The priority of an entry that is created without one.
pub const DEFAULT_PRIORITY: i32 = 50;

/// Where an entry goes that is created without a position.
pub const DEFAULT_POSITION: &'static str = "after_system";

/// The two entries hold the same values.
pub open spec fn same_entry(a: LorebookEntry, b: LorebookEntry) -> bool {
    &&& a.id == b.id
    &&& a.lorebook_id == b.lorebook_id
    &&& a.name == b.name
    &&& a.keywords@ == b.keywords@
    &&& a.content == b.content
    &&& a.priority == b.priority
    &&& a.is_enabled == b.is_enabled
    &&& a.case_sensitive == b.case_sensitive
    &&& a.match_whole_word == b.match_whole_word
    &&& a.insertion_position == b.insertion_position
    &&& a.token_budget == b.token_budget
    &&& a.created_at == b.created_at
}

/// The two sequences hold the same entries in the same order.
pub open spec fn same_entries(a: Seq<LorebookEntry>, b: Seq<LorebookEntry>) -> bool {
    &&& a.len() == b.len()
    &&& forall|k: int| 0 <= k < a.len() ==> same_entry(#[trigger] a[k], b[k])
}

/// The two lorebooks hold the same values but for their entries.
pub open spec fn same_header(a: Lorebook, b: Lorebook) -> bool {
    &&& a.id == b.id
    &&& a.name == b.name
    &&& a.description == b.description
    &&& a.is_global == b.is_global
    &&& a.is_enabled == b.is_enabled
    &&& a.created_at == b.created_at
    &&& a.updated_at == b.updated_at
    &&& a.deleted_at == b.deleted_at
}

/// The two lorebooks hold the same values and the same entries.
pub open spec fn same_book(a: Lorebook, b: Lorebook) -> bool {
    same_header(a, b) && same_entries(a.entries@, b.entries@)
}

/// A copy of an entry.
pub fn copy_entry(e: &LorebookEntry) -> (copy: LorebookEntry)
    ensures
        same_entry(copy, *e),
{
    LorebookEntry {
        id: e.id.clone(),
        lorebook_id: e.lorebook_id.clone(),
        name: e.name.clone(),
        keywords: clone_strings(&e.keywords),
        content: e.content.clone(),
        priority: e.priority,
        is_enabled: e.is_enabled,
        case_sensitive: e.case_sensitive,
        match_whole_word: e.match_whole_word,
        insertion_position: e.insertion_position.clone(),
        token_budget: e.token_budget,
        created_at: e.created_at,
    }
}

/// A copy of entries.
pub fn copy_entries(entries: &Vec<LorebookEntry>) -> (copy: Vec<LorebookEntry>)
    ensures
        same_entries(copy@, entries@),
{
    let mut copy: Vec<LorebookEntry> = Vec::new();
    let mut i: usize = 0;
    while i < entries.len()
        invariant
            i <= entries.len(),
            copy@.len() == i,
            forall|k: int| 0 <= k < i ==> same_entry(#[trigger] copy@[k], entries@[k]),
        decreases entries.len() - i,
    {
        copy.push(copy_entry(&entries[i]));
        i += 1;
    }
    copy
}

/// A copy of a lorebook with its entries.
pub fn copy_book(b: &Lorebook) -> (copy: Lorebook)
    ensures
        same_book(copy, *b),
{
    Lorebook {
        id: b.id.clone(),
        name: b.name.clone(),
        description: b.description.clone(),
        is_global: b.is_global,
        is_enabled: b.is_enabled,
        created_at: b.created_at,
        updated_at: b.updated_at,
        deleted_at: b.deleted_at,
        entries: copy_entries(&b.entries),
    }
}

/// The first position from `from` on of a lorebook with the id `id` that
/// is not deleted.
pub open spec fn book_at(books: Seq<Lorebook>, id: Seq<char>, from: int) -> Option<int>
    decreases books.len() - from + 1,
{
    if from < 0 || from >= books.len() {
        None
    } else if books[from].id@ == id && books[from].deleted_at is None {
        Some(from)
    } else {
        book_at(books, id, from + 1)
    }
}

/// The position of the lorebook with the id `id` that is not deleted.
pub fn find_book(books: &Vec<Lorebook>, id: &str) -> (found: Option<usize>)
    ensures
        match found {
            Some(at) => book_at(books@, id@, 0) == Some(at as int) && at < books@.len()
                && books@[at as int].id@ == id@ && books@[at as int].deleted_at is None,
            None => book_at(books@, id@, 0) is None,
        },
{
    let mut i: usize = 0;
    while i < books.len()
        invariant
            i <= books.len(),
            book_at(books@, id@, 0) == book_at(books@, id@, i as int),
        decreases books.len() - i,
    {
        if books[i].deleted_at.is_none() && str_eq(books[i].id.as_str(), id) {
            return Some(i);
        }
        i += 1;
    }
    None
}

/// The entries of every lorebook stand by falling priority.
pub open spec fn ordered_books(books: Seq<Lorebook>) -> bool {
    forall|i: int| 0 <= i < books.len() ==> falling((#[trigger] books[i]).entries@)
}

/// The lorebook `b` is the one that `input` asks for, with the id `id`,
/// made at the time `now`: enabled, without entries, and applying to all
/// conversations only where the input says so.
pub open spec fn is_new_book(b: Lorebook, input: CreateLorebookInput, id: Seq<char>, now: i64) -> bool {
    &&& b.id@ == id
    &&& b.name == input.name
    &&& b.description@ == (match input.description {
        Some(d) => d@,
        None => Seq::<char>::empty(),
    })
    &&& b.is_global == (match input.is_global {
        Some(g) => g,
        None => false,
    })
    &&& b.is_enabled
    &&& b.created_at == now
    &&& b.updated_at == now
    &&& b.deleted_at is None
    &&& b.entries@.len() == 0
}

/// The lorebook `b` is `before` with the fields that `input` gives in place
/// of its own, changed at the time `now`. Its entries stay.
pub open spec fn is_changed_book(b: Lorebook, before: Lorebook, input: UpdateLorebookInput, now: i64) -> bool {
    &&& b.id == before.id
    &&& b.name == (match input.name {
        Some(v) => v,
        None => before.name,
    })
    &&& b.description == (match input.description {
        Some(v) => v,
        None => before.description,
    })
    &&& b.is_global == (match input.is_global {
        Some(v) => v,
        None => before.is_global,
    })
    &&& b.is_enabled == (match input.is_enabled {
        Some(v) => v,
        None => before.is_enabled,
    })
    &&& b.created_at == before.created_at
    &&& b.updated_at == now
    &&& b.deleted_at == before.deleted_at
    &&& b.entries == before.entries
}

/// The lorebook `b` deleted at the time `now`: it keeps the marker that it
/// has, and gets the time `now` as its marker where it has none.
pub open spec fn deleted_book(b: Lorebook, now: i64) -> Lorebook {
    Lorebook { deleted_at: marker(b.deleted_at, now), ..b }
}

/// The first position from `from` on of an entry with the id `id`.
pub open spec fn entry_at(entries: Seq<LorebookEntry>, id: Seq<char>, from: int) -> Option<int>
    decreases entries.len() - from + 1,
{
    if from < 0 || from >= entries.len() {
        None
    } else if entries[from].id@ == id {
        Some(from)
    } else {
        entry_at(entries, id, from + 1)
    }
}

/// The first position from `from` on of a lorebook that holds an entry
/// with the id `id`.
pub open spec fn holder_at(books: Seq<Lorebook>, id: Seq<char>, from: int) -> Option<int>
    decreases books.len() - from + 1,
{
    if from < 0 || from >= books.len() {
        None
    } else if entry_at(books[from].entries@, id, 0) is Some {
        Some(from)
    } else {
        holder_at(books, id, from + 1)
    }
}

/// The entries without those that have the id `id`.
pub open spec fn without_entry(entries: Seq<LorebookEntry>, id: Seq<char>) -> Seq<LorebookEntry>
    decreases entries.len(),
{
    if entries.len() == 0 {
        Seq::empty()
    } else if entries.last().id@ == id {
        without_entry(entries.drop_last(), id)
    } else {
        without_entry(entries.drop_last(), id).push(entries.last())
    }
}

/// The entry `e` is the one that `input` asks for, with the id `id`, made
/// at the time `now`: enabled, and with priority 50, matching of whole words
/// without regard to case, and the position behind the system prompt where
/// the input leaves them open.
pub open spec fn is_new_entry(e: LorebookEntry, input: CreateEntryInput, id: Seq<char>, now: i64) -> bool {
    &&& e.id@ == id
    &&& e.lorebook_id == input.lorebook_id
    &&& e.name == input.name
    &&& e.keywords@ == input.keywords@
    &&& e.content == input.content
    &&& e.priority == (match input.priority {
        Some(p) => p,
        None => DEFAULT_PRIORITY,
    })
    &&& e.is_enabled
    &&& e.case_sensitive == (match input.case_sensitive {
        Some(f) => f,
        None => false,
    })
    &&& e.match_whole_word == (match input.match_whole_word {
        Some(f) => f,
        None => true,
    })
    &&& e.insertion_position@ == (match input.insertion_position {
        Some(p) => p@,
        None => DEFAULT_POSITION@,
    })
    &&& e.token_budget == input.token_budget
    &&& e.created_at == now
}

/// The entry `e` is `before` with the fields that `input` gives in place of
/// its own.
pub open spec fn is_changed_entry(e: LorebookEntry, before: LorebookEntry, input: UpdateEntryInput) -> bool {
    &&& e.id == before.id
    &&& e.lorebook_id == before.lorebook_id
    &&& e.name == (match input.name {
        Some(v) => v,
        None => before.name,
    })
    &&& e.keywords@ == (match input.keywords {
        Some(v) => v@,
        None => before.keywords@,
    })
    &&& e.content == (match input.content {
        Some(v) => v,
        None => before.content,
    })
    &&& e.priority == (match input.priority {
        Some(v) => v,
        None => before.priority,
    })
    &&& e.is_enabled == (match input.is_enabled {
        Some(v) => v,
        None => before.is_enabled,
    })
    &&& e.case_sensitive == (match input.case_sensitive {
        Some(v) => v,
        None => before.case_sensitive,
    })
    &&& e.match_whole_word == (match input.match_whole_word {
        Some(v) => v,
        None => before.match_whole_word,
    })
    &&& e.insertion_position == (match input.insertion_position {
        Some(v) => v,
        None => before.insertion_position,
    })
    &&& e.token_budget == (match input.token_budget {
        Some(v) => Some(v),
        None => before.token_budget,
    })
    &&& e.created_at == before.created_at
}

/// An entry that goes into its slot keeps the entries in falling order.
pub proof fn lemma_insert_keeps_falling(entries: Seq<LorebookEntry>, e: LorebookEntry)
    requires
        falling(entries),
    ensures
        falling(entries.insert(slot_for(entries, e.priority), e)),
{
    lemma_slot_for(entries, e.priority);
    let at = slot_for(entries, e.priority);
    let after = entries.insert(at, e);
    assert forall|i: int, j: int| 0 <= i < j < after.len() implies (#[trigger] after[i]).priority >= (
    #[trigger] after[j]).priority by {
        if i < at {
            assert(after[i] == entries[i]);
        } else if i > at {
            assert(after[i] == entries[i - 1]);
        }
        if j < at {
            assert(after[j] == entries[j]);
        } else if j > at {
            assert(after[j] == entries[j - 1]);
        }
    }
}

/// Entries in falling order stay so when one of them leaves.
pub proof fn lemma_remove_keeps_falling(entries: Seq<LorebookEntry>, at: int)
    requires
        falling(entries),
        0 <= at < entries.len(),
    ensures
        falling(entries.remove(at)),
{
    let after = entries.remove(at);
    assert forall|i: int, j: int| 0 <= i < j < after.len() implies (#[trigger] after[i]).priority >= (
    #[trigger] after[j]).priority by {
        let oi = if i < at { i } else { i + 1 };
        let oj = if j < at { j } else { j + 1 };
        assert(after[i] == entries[oi]);
        assert(after[j] == entries[oj]);
    }
}

/// Each of the entries without one id is one of the entries, and they keep
/// their order; so entries in falling order stay so.
pub proof fn lemma_without_entry(entries: Seq<LorebookEntry>, id: Seq<char>)
    ensures
        without_entry(entries, id).len() <= entries.len(),
        forall|k: int|
            0 <= k < without_entry(entries, id).len() ==> (#[trigger] without_entry(
                entries,
                id,
            )[k]).id@ != id,
        falling(entries) ==> falling(without_entry(entries, id)),
        forall|k: int|
            0 <= k < without_entry(entries, id).len() ==> exists|o: int|
                k <= o < entries.len() && entries[o] == #[trigger] without_entry(entries, id)[k],
    decreases entries.len(),
{
    if entries.len() > 0 {
        let shorter = entries.drop_last();
        lemma_without_entry(shorter, id);
        let before = without_entry(shorter, id);
        let after = without_entry(entries, id);
        assert forall|k: int| 0 <= k < after.len() implies exists|o: int|
            k <= o < entries.len() && entries[o] == #[trigger] after[k] by {
            if k < before.len() {
                assert(after[k] == before[k]);
                let o = choose|o: int| k <= o < shorter.len() && shorter[o] == before[k];
                assert(entries[o] == after[k]);
            } else {
                assert(entries[entries.len() - 1] == after[k]);
            }
        }
        if falling(entries) {
            assert forall|i: int, j: int| 0 <= i < j < shorter.len() implies (
            #[trigger] shorter[i]).priority >= (#[trigger] shorter[j]).priority by {
                assert(shorter[i] == entries[i]);
                assert(shorter[j] == entries[j]);
            }
            assert forall|i: int, j: int| 0 <= i < j < after.len() implies (
            #[trigger] after[i]).priority >= (#[trigger] after[j]).priority by {
                assert(after[i] == before[i]);
                if j < before.len() {
                    assert(after[j] == before[j]);
                } else {
                    let o = choose|o: int| i <= o < shorter.len() && shorter[o] == before[i];
                    assert(entries[o] == before[i]);
                    assert(after[j] == entries.last());
                    assert(entries[o].priority >= entries[entries.len() - 1].priority);
                }
            }
        }
    }
}

/// The position of the first entry with the id `id`.
pub fn find_entry(entries: &Vec<LorebookEntry>, id: &str) -> (found: Option<usize>)
    ensures
        match found {
            Some(at) => entry_at(entries@, id@, 0) == Some(at as int) && at < entries@.len()
                && entries@[at as int].id@ == id@,
            None => entry_at(entries@, id@, 0) is None,
        },
{
    let mut i: usize = 0;
    while i < entries.len()
        invariant
            i <= entries.len(),
            entry_at(entries@, id@, 0) == entry_at(entries@, id@, i as int),
        decreases entries.len() - i,
    {
        if str_eq(entries[i].id.as_str(), id) {
            return Some(i);
        }
        i += 1;
    }
    None
}

/// The position of the first lorebook that holds an entry with the id
/// `id`.
pub fn find_holder(books: &Vec<Lorebook>, id: &str) -> (found: Option<usize>)
    ensures
        match found {
            Some(at) => holder_at(books@, id@, 0) == Some(at as int) && at < books@.len()
                && entry_at(books@[at as int].entries@, id@, 0) is Some,
            None => holder_at(books@, id@, 0) is None,
        },
{
    let mut i: usize = 0;
    while i < books.len()
        invariant
            i <= books.len(),
            holder_at(books@, id@, 0) == holder_at(books@, id@, i as int),
        decreases books.len() - i,
    {
        if find_entry(&books[i].entries, id).is_some() {
            return Some(i);
        }
        i += 1;
    }
    None
}

/// The entries without those that have the id `id`.
fn drop_entry(entries: Vec<LorebookEntry>, id: &str) -> (kept: Vec<LorebookEntry>)
    ensures
        kept@ == without_entry(entries@, id@),
{
    let ghost all = entries@;
    let mut kept: Vec<LorebookEntry> = Vec::new();
    for entry in it: entries
        invariant
            it.seq() == all,
            kept@ == without_entry(all.take(it.index()), id@),
    {
        proof {
            let upto = all.take(it.index() + 1);
            assert(upto.drop_last() =~= all.take(it.index()));
            assert(upto.last() == entry);
        }
        if !str_eq(entry.id.as_str(), id) {
            kept.push(entry);
        }
    }
    proof {
        assert(all.take(all.len() as int) =~= all);
    }
    kept
}

/// The positions among the first `upto` of the lorebooks that are not
/// deleted, in rising order.
pub open spec fn live_books(books: Seq<Lorebook>, upto: int) -> Seq<int>
    decreases upto,
{
    if upto <= 0 {
        Seq::empty()
    } else if books[upto - 1].deleted_at is None {
        live_books(books, upto - 1).push(upto - 1)
    } else {
        live_books(books, upto - 1)
    }
}

/// The lorebook applies to all conversations: it is global, enabled and not
/// deleted.
pub open spec fn applies_to_all(b: Lorebook) -> bool {
    b.is_global && b.is_enabled && b.deleted_at is None
}

/// The positions among the first `upto` of the lorebooks that apply to all
/// conversations, in rising order.
pub open spec fn global_books(books: Seq<Lorebook>, upto: int) -> Seq<int>
    decreases upto,
{
    if upto <= 0 {
        Seq::empty()
    } else if applies_to_all(books[upto - 1]) {
        global_books(books, upto - 1).push(upto - 1)
    } else {
        global_books(books, upto - 1)
    }
}

/// The entries that are enabled, in their order.
pub open spec fn enabled_only(entries: Seq<LorebookEntry>) -> Seq<LorebookEntry>
    decreases entries.len(),
{
    if entries.len() == 0 {
        Seq::empty()
    } else if entries.last().is_enabled {
        enabled_only(entries.drop_last()).push(entries.last())
    } else {
        enabled_only(entries.drop_last())
    }
}

/// The positions of the lorebooks that are not deleted, and of those that
/// apply to all conversations, lie among the lorebooks.
pub proof fn lemma_book_positions(books: Seq<Lorebook>, upto: int)
    requires
        0 <= upto <= books.len(),
    ensures
        forall|k: int|
            0 <= k < live_books(books, upto).len() ==> {
                let at = #[trigger] live_books(books, upto)[k];
                0 <= at < upto && books[at].deleted_at is None
            },
        forall|k: int|
            0 <= k < global_books(books, upto).len() ==> {
                let at = #[trigger] global_books(books, upto)[k];
                0 <= at < upto && applies_to_all(books[at])
            },
    decreases upto,
{
    if upto > 0 {
        lemma_book_positions(books, upto - 1);
        let before = global_books(books, upto - 1);
        let after = global_books(books, upto);
        assert forall|k: int| 0 <= k < after.len() implies {
            let at = #[trigger] after[k];
            0 <= at < upto && applies_to_all(books[at])
        } by {
            if k < before.len() {
                assert(after[k] == before[k]);
            }
        }
    }
}

/// Copies of the entries that are enabled.
fn copy_enabled(entries: &Vec<LorebookEntry>) -> (copy: Vec<LorebookEntry>)
    ensures
        same_entries(copy@, enabled_only(entries@)),
{
    let mut copy: Vec<LorebookEntry> = Vec::new();
    let mut i: usize = 0;
    while i < entries.len()
        invariant
            i <= entries.len(),
            same_entries(copy@, enabled_only(entries@.take(i as int))),
        decreases entries.len() - i,
    {
        let ghost had = copy@;
        let ghost before = enabled_only(entries@.take(i as int));
        proof {
            let upto = entries@.take(i + 1);
            assert(upto.drop_last() =~= entries@.take(i as int));
            assert(upto.last() == entries@[i as int]);
        }
        if entries[i].is_enabled {
            copy.push(copy_entry(&entries[i]));
            proof {
                let after = enabled_only(entries@.take(i + 1));
                assert forall|k: int| 0 <= k < copy@.len() implies same_entry(
                    #[trigger] copy@[k],
                    after[k],
                ) by {
                    if k < had.len() {
                        assert(copy@[k] == had[k]);
                        assert(after[k] == before[k]);
                    }
                }
            }
        }
        i += 1;
    }
    proof {
        assert(entries@.take(entries@.len() as int) =~= entries@);
    }
    copy
}

/// The entry with the fields that `input` gives in place of its own.
fn change_entry(entry: LorebookEntry, input: &UpdateEntryInput) -> (e: LorebookEntry)
    ensures
        is_changed_entry(e, entry, *input),
{
    let mut e = entry;
    match &input.name {
        Some(v) => {
            e.name = v.clone();
        },
        None => {},
    }
    match &input.keywords {
        Some(v) => {
            e.keywords = clone_strings(v);
        },
        None => {},
    }
    match &input.content {
        Some(v) => {
            e.content = v.clone();
        },
        None => {},
    }
    match input.priority {
        Some(v) => {
            e.priority = v;
        },
        None => {},
    }
    match input.is_enabled {
        Some(v) => {
            e.is_enabled = v;
        },
        None => {},
    }
    match input.case_sensitive {
        Some(v) => {
            e.case_sensitive = v;
        },
        None => {},
    }
    match input.match_whole_word {
        Some(v) => {
            e.match_whole_word = v;
        },
        None => {},
    }
    match &input.insertion_position {
        Some(v) => {
            e.insertion_position = v.clone();
        },
        None => {},
    }
    match input.token_budget {
        Some(v) => {
            e.token_budget = Some(v);
        },
        None => {},
    }
    e
}

/// The unit that holds the operations on the stored lorebooks.
pub struct LorebookRepo;

impl LorebookRepo {
    /// Stores a new lorebook with the id `id`, made at the time `now`.
    pub fn create(books: &mut Vec<Lorebook>, input: &CreateLorebookInput, id: String, now: i64) -> (created:
        Lorebook)
        ensures
            final(books)@.len() == old(books)@.len() + 1,
            final(books)@.drop_last() == old(books)@,
            is_new_book(final(books)@.last(), *input, id@, now),
            same_book(created, final(books)@.last()),
            ordered_books(old(books)@) ==> ordered_books(final(books)@),
    {
        let book = Lorebook {
            id,
            name: input.name.clone(),
            description: match &input.description {
                Some(d) => d.clone(),
                None => String::new(),
            },
            is_global: match input.is_global {
                Some(g) => g,
                None => false,
            },
            is_enabled: true,
            created_at: now,
            updated_at: now,
            deleted_at: None,
            entries: Vec::new(),
        };
        let created = copy_book(&book);
        books.push(book);
        assert(books@.drop_last() =~= old(books)@);
        proof {
            if ordered_books(old(books)@) {
                assert forall|i: int| 0 <= i < books@.len() implies falling(
                    (#[trigger] books@[i]).entries@,
                ) by {
                    if i < old(books)@.len() {
                        assert(books@[i] == old(books)@[i]);
                    }
                }
            }
        }
        created
    }

    /// The lorebook with the id `id` that is not deleted, with its
    /// entries.
    pub fn find_by_id(books: &Vec<Lorebook>, id: &str) -> (result: AppResult<Lorebook>)
        ensures
            match result {
                Ok(b) => book_at(books@, id@, 0) is Some && same_book(
                    b,
                    books@[book_at(books@, id@, 0)->0],
                ),
                Err(e) => book_at(books@, id@, 0) is None && e is NotFound,
            },
    {
        match find_book(books, id) {
            Some(at) => Ok(copy_book(&books[at])),
            None => Err(AppError::NotFound("Record not found".to_owned())),
        }
    }

    /// Replaces the given fields of the lorebook with the id `id` that is
    /// not deleted, and notes the time of the change.
    pub fn update(books: &mut Vec<Lorebook>, id: &str, input: &UpdateLorebookInput, now: i64) -> (result:
        AppResult<Lorebook>)
        ensures
            final(books)@.len() == old(books)@.len(),
            ordered_books(old(books)@) ==> ordered_books(final(books)@),
            match result {
                Ok(b) => book_at(old(books)@, id@, 0) is Some && ({
                    let at = book_at(old(books)@, id@, 0)->0;
                    &&& is_changed_book(final(books)@[at], old(books)@[at], *input, now)
                    &&& same_book(b, final(books)@[at])
                    &&& forall|i: int|
                        0 <= i < old(books)@.len() && i != at ==> #[trigger] final(books)@[i] == old(books)@[i]
                }),
                Err(e) => book_at(old(books)@, id@, 0) is None && e is NotFound && final(books)@ == old(books)@,
            },
    {
        match find_book(books, id) {
            Some(at) => {
                let mut b = books.remove(at);
                match &input.name {
                    Some(v) => {
                        b.name = v.clone();
                    },
                    None => {},
                }
                match &input.description {
                    Some(v) => {
                        b.description = v.clone();
                    },
                    None => {},
                }
                match input.is_global {
                    Some(v) => {
                        b.is_global = v;
                    },
                    None => {},
                }
                match input.is_enabled {
                    Some(v) => {
                        b.is_enabled = v;
                    },
                    None => {},
                }
                b.updated_at = now;
                let copy = copy_book(&b);
                books.insert(at, b);
                proof {
                    if ordered_books(old(books)@) {
                        assert forall|i: int| 0 <= i < books@.len() implies falling(
                            (#[trigger] books@[i]).entries@,
                        ) by {
                            assert(books@[i].entries == old(books)@[i].entries);
                        }
                    }
                }
                Ok(copy)
            },
            None => Err(AppError::NotFound("Record not found".to_owned())),
        }
    }

    /// Marks every lorebook with the id `id` as deleted at the time `now`.
    /// A lorebook that is deleted already keeps its marker.
    pub fn delete(books: &mut Vec<Lorebook>, id: &str, now: i64)
        ensures
            final(books)@.len() == old(books)@.len(),
            forall|i: int|
                0 <= i < old(books)@.len() ==> #[trigger] final(books)@[i] == (if (old(books)@[i]).id@
                    == id@ {
                    deleted_book(old(books)@[i], now)
                } else {
                    old(books)@[i]
                }),
    {
        let mut i: usize = 0;
        while i < books.len()
            invariant
                i <= books.len(),
                books@.len() == old(books)@.len(),
                forall|j: int|
                    0 <= j < i ==> #[trigger] books@[j] == (if (old(books)@[j]).id@ == id@ {
                        deleted_book(old(books)@[j], now)
                    } else {
                        old(books)@[j]
                    }),
                forall|j: int| i <= j < books@.len() ==> books@[j] == old(books)@[j],
            decreases books.len() - i,
        {
            if str_eq(books[i].id.as_str(), id) {
                let mut b = books.remove(i);
                b.deleted_at = mark_deleted(b.deleted_at, now);
                books.insert(i, b);
            }
            i += 1;
        }
    }
    /// Stores a new entry with the id `id`, made at the time `now`, in the
    /// lorebook that it names: behind the entries whose priority is not
    /// lower. Without that lorebook nothing is stored.
    pub fn create_entry(books: &mut Vec<Lorebook>, input: &CreateEntryInput, id: String, now: i64) -> (result:
        AppResult<LorebookEntry>)
        ensures
            final(books)@.len() == old(books)@.len(),
            ordered_books(old(books)@) ==> ordered_books(final(books)@),
            match result {
                Ok(e) => book_at(old(books)@, input.lorebook_id@, 0) is Some && ({
                    let at = book_at(old(books)@, input.lorebook_id@, 0)->0;
                    let before = old(books)@[at];
                    let slot = slot_for(before.entries@, e.priority);
                    &&& is_new_entry(e, *input, id@, now)
                    &&& same_header(final(books)@[at], before)
                    &&& final(books)@[at].entries@.len() == before.entries@.len() + 1
                    &&& same_entry(final(books)@[at].entries@[slot], e)
                    &&& final(books)@[at].entries@.remove(slot) == before.entries@
                    &&& forall|i: int|
                        0 <= i < old(books)@.len() && i != at ==> #[trigger] final(books)@[i] == old(books)@[i]
                }),
                Err(e) => book_at(old(books)@, input.lorebook_id@, 0) is None && e is NotFound
                    && final(books)@ == old(books)@,
            },
    {
        match find_book(books, input.lorebook_id.as_str()) {
            Some(at) => {
                let entry = LorebookEntry {
                    id,
                    lorebook_id: input.lorebook_id.clone(),
                    name: input.name.clone(),
                    keywords: clone_strings(&input.keywords),
                    content: input.content.clone(),
                    priority: match input.priority {
                        Some(p) => p,
                        None => DEFAULT_PRIORITY,
                    },
                    is_enabled: true,
                    case_sensitive: match input.case_sensitive {
                        Some(f) => f,
                        None => false,
                    },
                    match_whole_word: match input.match_whole_word {
                        Some(f) => f,
                        None => true,
                    },
                    insertion_position: match &input.insertion_position {
                        Some(p) => p.clone(),
                        None => DEFAULT_POSITION.to_owned(),
                    },
                    token_budget: input.token_budget,
                    created_at: now,
                };
                let copy = copy_entry(&entry);
                let mut b = books.remove(at);
                let slot = find_slot(&b.entries, entry.priority);
                let ghost had = b.entries@;
                b.entries.insert(slot, entry);
                assert(b.entries@.remove(slot as int) =~= had);
                proof {
                    if ordered_books(old(books)@) {
                        assert(falling(old(books)@[at as int].entries@));
                        lemma_insert_keeps_falling(had, entry);
                    }
                }
                books.insert(at, b);
                proof {
                    if ordered_books(old(books)@) {
                        assert forall|i: int| 0 <= i < books@.len() implies falling(
                            (#[trigger] books@[i]).entries@,
                        ) by {
                            if i != at {
                                assert(books@[i] == old(books)@[i]);
                            }
                        }
                    }
                }
                Ok(copy)
            },
            None => Err(AppError::NotFound("Record not found".to_owned())),
        }
    }

    /// Replaces the given fields of the first entry with the id `id`. The
    /// entry leaves its place and goes behind the entries of its lorebook
    /// whose priority is not lower than its own.
    pub fn update_entry(books: &mut Vec<Lorebook>, id: &str, input: &UpdateEntryInput) -> (result: AppResult<
        LorebookEntry,
    >)
        ensures
            final(books)@.len() == old(books)@.len(),
            ordered_books(old(books)@) ==> ordered_books(final(books)@),
            match result {
                Ok(e) => holder_at(old(books)@, id@, 0) is Some && ({
                    let at = holder_at(old(books)@, id@, 0)->0;
                    let before = old(books)@[at];
                    let place = entry_at(before.entries@, id@, 0)->0;
                    let others = before.entries@.remove(place);
                    let slot = slot_for(others, e.priority);
                    &&& is_changed_entry(e, before.entries@[place], *input)
                    &&& same_header(final(books)@[at], before)
                    &&& final(books)@[at].entries@.len() == before.entries@.len()
                    &&& same_entry(final(books)@[at].entries@[slot], e)
                    &&& final(books)@[at].entries@.remove(slot) == others
                    &&& forall|i: int|
                        0 <= i < old(books)@.len() && i != at ==> #[trigger] final(books)@[i] == old(books)@[i]
                }),
                Err(e) => holder_at(old(books)@, id@, 0) is None && e is NotFound && final(books)@
                    == old(books)@,
            },
    {
        match find_holder(books, id) {
            Some(at) => {
                let mut b = books.remove(at);
                let place = match find_entry(&b.entries, id) {
                    Some(place) => place,
                    None => 0,
                };
                let ghost all = b.entries@;
                let taken = b.entries.remove(place);
                let e = change_entry(taken, input);
                let copy = copy_entry(&e);
                let slot = find_slot(&b.entries, e.priority);
                let ghost others = b.entries@;
                b.entries.insert(slot, e);
                assert(b.entries@.remove(slot as int) =~= others);
                proof {
                    if ordered_books(old(books)@) {
                        assert(falling(old(books)@[at as int].entries@));
                        lemma_remove_keeps_falling(all, place as int);
                        lemma_insert_keeps_falling(others, e);
                    }
                }
                books.insert(at, b);
                proof {
                    if ordered_books(old(books)@) {
                        assert forall|i: int| 0 <= i < books@.len() implies falling(
                            (#[trigger] books@[i]).entries@,
                        ) by {
                            if i != at {
                                assert(books@[i] == old(books)@[i]);
                            }
                        }
                    }
                }
                Ok(copy)
            },
            None => Err(AppError::NotFound("Record not found".to_owned())),
        }
    }

    /// Takes every entry with the id `id` out of every lorebook.
    pub fn delete_entry(books: &mut Vec<Lorebook>, id: &str)
        ensures
            final(books)@.len() == old(books)@.len(),
            ordered_books(old(books)@) ==> ordered_books(final(books)@),
            forall|i: int|
                0 <= i < old(books)@.len() ==> same_header(
                    #[trigger] final(books)@[i],
                    old(books)@[i],
                ) && final(books)@[i].entries@ == without_entry(old(books)@[i].entries@, id@),
    {
        let mut i: usize = 0;
        while i < books.len()
            invariant
                i <= books.len(),
                books@.len() == old(books)@.len(),
                forall|j: int|
                    0 <= j < i ==> same_header(#[trigger] books@[j], old(books)@[j])
                        && books@[j].entries@ == without_entry(old(books)@[j].entries@, id@),
                forall|j: int| i <= j < books@.len() ==> books@[j] == old(books)@[j],
            decreases books.len() - i,
        {
            let b = books.remove(i);
            let kept = Lorebook {
                id: b.id,
                name: b.name,
                description: b.description,
                is_global: b.is_global,
                is_enabled: b.is_enabled,
                created_at: b.created_at,
                updated_at: b.updated_at,
                deleted_at: b.deleted_at,
                entries: drop_entry(b.entries, id),
            };
            books.insert(i, kept);
            i += 1;
        }
        proof {
            if ordered_books(old(books)@) {
                assert forall|i: int| 0 <= i < books@.len() implies falling(
                    (#[trigger] books@[i]).entries@,
                ) by {
                    assert(falling(old(books)@[i].entries@));
                    lemma_without_entry(old(books)@[i].entries@, id@);
                }
            }
        }
    }
    /// The lorebooks that are not deleted, with their entries, in the order
    /// in which they are stored.
    pub fn find_all(books: &Vec<Lorebook>) -> (found: Vec<Lorebook>)
        ensures
            found@.len() == live_books(books@, books@.len() as int).len(),
            forall|k: int|
                0 <= k < found@.len() ==> same_book(
                    #[trigger] found@[k],
                    books@[live_books(books@, books@.len() as int)[k]],
                ),
    {
        let mut found: Vec<Lorebook> = Vec::new();
        let mut i: usize = 0;
        while i < books.len()
            invariant
                i <= books.len(),
                found@.len() == live_books(books@, i as int).len(),
                forall|k: int|
                    0 <= k < found@.len() ==> same_book(
                        #[trigger] found@[k],
                        books@[live_books(books@, i as int)[k]],
                    ),
            decreases books.len() - i,
        {
            let ghost before = live_books(books@, i as int);
            let ghost had = found@;
            if books[i].deleted_at.is_none() {
                found.push(copy_book(&books[i]));
            }
            i += 1;
            proof {
                let after = live_books(books@, i as int);
                assert forall|k: int| 0 <= k < found@.len() implies same_book(
                    #[trigger] found@[k],
                    books@[after[k]],
                ) by {
                    if k < before.len() {
                        assert(after[k] == before[k]);
                        assert(found@[k] == had[k]);
                    } else {
                        assert(after[k] == i - 1);
                    }
                }
            }
        }
        found
    }

    /// The lorebooks that apply to all conversations, each with those of
    /// its entries that are enabled, in the order in which they are stored.
    pub fn find_global(books: &Vec<Lorebook>) -> (found: Vec<Lorebook>)
        ensures
            found@.len() == global_books(books@, books@.len() as int).len(),
            forall|k: int|
                0 <= k < found@.len() ==> ({
                    let b = books@[global_books(books@, books@.len() as int)[k]];
                    same_header(#[trigger] found@[k], b) && same_entries(
                        found@[k].entries@,
                        enabled_only(b.entries@),
                    )
                }),
    {
        let mut found: Vec<Lorebook> = Vec::new();
        let mut i: usize = 0;
        while i < books.len()
            invariant
                i <= books.len(),
                found@.len() == global_books(books@, i as int).len(),
                forall|k: int|
                    0 <= k < found@.len() ==> ({
                        let b = books@[global_books(books@, i as int)[k]];
                        same_header(#[trigger] found@[k], b) && same_entries(
                            found@[k].entries@,
                            enabled_only(b.entries@),
                        )
                    }),
            decreases books.len() - i,
        {
            let ghost before = global_books(books@, i as int);
            let ghost had = found@;
            let b = &books[i];
            if b.is_global && b.is_enabled && b.deleted_at.is_none() {
                found.push(
                    Lorebook {
                        id: b.id.clone(),
                        name: b.name.clone(),
                        description: b.description.clone(),
                        is_global: b.is_global,
                        is_enabled: b.is_enabled,
                        created_at: b.created_at,
                        updated_at: b.updated_at,
                        deleted_at: b.deleted_at,
                        entries: copy_enabled(&b.entries),
                    },
                );
            }
            i += 1;
            proof {
                let after = global_books(books@, i as int);
                assert forall|k: int| 0 <= k < found@.len() implies ({
                    let b = books@[after[k]];
                    same_header(#[trigger] found@[k], b) && same_entries(
                        found@[k].entries@,
                        enabled_only(b.entries@),
                    )
                }) by {
                    if k < before.len() {
                        assert(after[k] == before[k]);
                        assert(found@[k] == had[k]);
                    } else {
                        assert(after[k] == i - 1);
                    }
                }
            }
        }
        found
    }
}

/// Why an entry cannot be created, if it cannot, apart from its lorebook:
/// it needs a keyword and a content that is not blank.
pub open spec fn entry_refusal(input: CreateEntryInput) -> bool {
    input.keywords@.len() == 0 || is_blank_text(input.content@)
}

impl LorebookService {
    /// Creates a lorebook with the id `id` under the trimmed name of the
    /// input. A blank name is refused.
    pub fn create(books: &mut Vec<Lorebook>, input: CreateLorebookInput, id: String, now: i64) -> (result:
        AppResult<Lorebook>)
        ensures
            match result {
                Ok(b) => !is_blank_text(input.name@) && final(books)@.len() == old(books)@.len() + 1
                    && final(books)@.drop_last() == old(books)@ && same_book(b, final(books)@.last())
                    && b.id@ == id@ && b.name@ == trimmed_text(input.name@) && b.description@ == (
                match input.description {
                    Some(d) => d@,
                    None => Seq::<char>::empty(),
                }) && b.is_global == (match input.is_global {
                    Some(g) => g,
                    None => false,
                }) && b.is_enabled && b.created_at == now && b.updated_at == now && b.deleted_at
                    is None && b.entries@.len() == 0,
                Err(e) => is_blank_text(input.name@) && e is Validation && final(books)@ == old(books)@,
            },
    {
        let name = trim_text(input.name.as_str());
        if name.as_str().unicode_len() == 0 {
            return Err(AppError::Validation("Name required".to_owned()));
        }
        let clean = CreateLorebookInput {
            name,
            description: input.description,
            is_global: input.is_global,
        };
        Ok(LorebookRepo::create(books, &clean, id, now))
    }

    /// Marks the lorebook with the id `id` as deleted at the time `now`.
    /// Without such a lorebook nothing changes.
    pub fn delete(books: &mut Vec<Lorebook>, id: &str, now: i64) -> (result: AppResult<()>)
        ensures
            final(books)@.len() == old(books)@.len(),
            match result {
                Ok(_) => book_at(old(books)@, id@, 0) is Some && forall|i: int|
                    0 <= i < old(books)@.len() ==> #[trigger] final(books)@[i] == (if (old(books)@[i]).id@
                        == id@ {
                        deleted_book(old(books)@[i], now)
                    } else {
                        old(books)@[i]
                    }),
                Err(e) => book_at(old(books)@, id@, 0) is None && e is NotFound && final(books)@ == old(books)@,
            },
    {
        match find_book(books, id) {
            Some(_) => {
                LorebookRepo::delete(books, id, now);
                Ok(())
            },
            None => Err(AppError::NotFound("Record not found".to_owned())),
        }
    }

    /// Creates an entry in the lorebook that the input names. An entry
    /// without a keyword, and one with a blank content, is refused; so is one
    /// for a lorebook that is not there.
    pub fn create_entry(books: &mut Vec<Lorebook>, input: CreateEntryInput, id: String, now: i64) -> (result:
        AppResult<LorebookEntry>)
        ensures
            final(books)@.len() == old(books)@.len(),
            ordered_books(old(books)@) ==> ordered_books(final(books)@),
            match result {
                Ok(e) => !entry_refusal(input) && book_at(old(books)@, input.lorebook_id@, 0) is Some && ({
                    let at = book_at(old(books)@, input.lorebook_id@, 0)->0;
                    let before = old(books)@[at];
                    let slot = slot_for(before.entries@, e.priority);
                    &&& is_new_entry(e, input, id@, now)
                    &&& same_header(final(books)@[at], before)
                    &&& final(books)@[at].entries@.len() == before.entries@.len() + 1
                    &&& same_entry(final(books)@[at].entries@[slot], e)
                    &&& final(books)@[at].entries@.remove(slot) == before.entries@
                    &&& forall|i: int|
                        0 <= i < old(books)@.len() && i != at ==> #[trigger] final(books)@[i] == old(books)@[i]
                }),
                Err(e) => final(books)@ == old(books)@ && (if entry_refusal(input) {
                    e is Validation
                } else {
                    e is NotFound && book_at(old(books)@, input.lorebook_id@, 0) is None
                }),
            },
    {
        if input.keywords.len() == 0 {
            return Err(AppError::Validation("Keyword required".to_owned()));
        }
        if crate::strings::is_blank(input.content.as_str()) {
            return Err(AppError::Validation("Content required".to_owned()));
        }
        LorebookRepo::create_entry(books, &input, id, now)
    }
}

} // verus!
