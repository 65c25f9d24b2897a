//! Settings as a typed record over a flat map of dotted keys, and the log
//! of schema migrations.

use vstd::prelude::*;
use vstd::string::{StrSliceExecFns, StringExecFns};
use crate::entities::Settings;
use crate::error::{AppError, AppResult};
use crate::memory::{chars_of, find_char, first_char_from, parse_string_array, string_array_of};
use crate::strings::texts;
use crate::numbers::{parse_i32, parsed_i32};
use crate::text::{opt_text, str_eq};

verus! {

/// A row of the settings: a key and its value.
#[derive(Clone, Debug, PartialEq, Eq)]
pub struct SettingRow {
    pub key: String,
    pub value: String,
}

/// The value of the last of the first `upto` rows with the key `key`.
pub open spec fn value_of(rows: Seq<SettingRow>, key: Seq<char>, upto: int) -> Option<Seq<char>>
    decreases upto,
{
    if upto <= 0 || upto > rows.len() {
        None
    } else if rows[upto - 1].key@ == key {
        Some(rows[upto - 1].value@)
    } else {
        value_of(rows, key, upto - 1)
    }
}

/// The value under `key`, where a later row overrides an earlier one.
pub fn lookup<'a>(rows: &'a Vec<SettingRow>, key: &str) -> (found: Option<&'a str>)
    ensures
        match found {
            Some(value) => value_of(rows@, key@, rows@.len() as int) == Some(value@),
            None => value_of(rows@, key@, rows@.len() as int) is None,
        },
{
    let mut end: usize = rows.len();
    while end > 0
        invariant
            end <= rows.len(),
            value_of(rows@, key@, rows@.len() as int) == value_of(rows@, key@, end as int),
        decreases end,
    {
        if str_eq(rows[end - 1].key.as_str(), key) {
            return Some(rows[end - 1].value.as_str());
        }
        end -= 1;
    }
    None
}

/// The number under `key`, or `default` where there is none or it is no
/// number.
pub open spec fn number_of(rows: Seq<SettingRow>, key: Seq<char>, default: int) -> int {
    match value_of(rows, key, rows.len() as int) {
        Some(text) => match parsed_i32(text) {
            Some(v) => v,
            None => default,
        },
        None => default,
    }
}

/// The number under `key`, or `default`.
fn number(rows: &Vec<SettingRow>, key: &str, default: i32) -> (n: i32)
    ensures
        n == number_of(rows@, key@, default as int),
{
    match lookup(rows, key) {
        Some(text) => match parse_i32(text) {
            Some(v) => v,
            None => default,
        },
        None => default,
    }
}

/// The text without its double quotes.
pub open spec fn unquoted(s: Seq<char>) -> Seq<char>
    decreases s.len(),
{
    if s.len() == 0 {
        Seq::empty()
    } else if s.last() == '"' {
        unquoted(s.drop_last())
    } else {
        unquoted(s.drop_last()).push(s.last())
    }
}

/// The text without its double quotes.
pub fn strip_quotes(text: &str) -> (out: String)
    ensures
        out@ == unquoted(text@),
{
    let chars = chars_of(text);
    let mut out = String::new();
    let mut i: usize = 0;
    assert(text@.take(0) =~= Seq::<char>::empty());
    while i < chars.len()
        invariant
            i <= chars.len(),
            chars@ == text@,
            out@ == unquoted(text@.take(i as int)),
        decreases chars.len() - i,
    {
        proof {
            assert(text@.take(i + 1).drop_last() =~= text@.take(i as int));
            assert(text@.take(i + 1).last() == text@[i as int]);
        }
        if chars[i] != '"' {
            out.append(text.substring_char(i, i + 1));
            proof {
                assert(text@.subrange(i as int, i + 1) =~= seq![text@[i as int]]);
                assert(out@ =~= unquoted(text@.take(i as int)).push(text@[i as int]));
            }
        }
        i += 1;
    }
    proof {
        assert(text@.take(text@.len() as int) =~= text@);
    }
    out
}

/// The custom stop sequences that the rows hold: the strings of the JSON
/// array under `generation.stop_sequences`, and none where no such row is
/// there or its value is no array of strings.
pub open spec fn stops_are(stops: Option<Vec<String>>, rows: Seq<SettingRow>) -> bool {
    match value_of(rows, "generation.stop_sequences"@, rows.len() as int) {
        Some(text) => match string_array_of(text) {
            Some(items) => stops is Some && texts(stops->0@) == items,
            None => stops is None,
        },
        None => stops is None,
    }
}

/// The settings that the rows hold, as plain values.
pub open spec fn settings_are(settings: Settings, rows: Seq<SettingRow>) -> bool {
    &&& settings.generation.max_tokens == number_of(rows, "generation.max_tokens"@, 512)
    &&& settings.generation.context_size == number_of(rows, "generation.context_size"@, 4096)
    &&& settings.generation.lorebook_budget == Some(
        number_of(rows, "generation.lorebook_budget"@, 500) as i32,
    )
    &&& settings.generation.response_reserve == Some(
        number_of(rows, "generation.response_reserve"@, 512) as i32,
    )
    &&& settings.generation.example_dialogue_budget == Some(
        number_of(rows, "generation.example_dialogue_budget"@, 500) as i32,
    )
    &&& stops_are(settings.generation.stop_sequences, rows)
    &&& settings.app.theme@ == (match value_of(rows, "app.theme"@, rows.len() as int) {
        Some(text) => unquoted(text),
        None => "dark"@,
    })
    &&& settings.app.first_run == (match value_of(rows, "app.first_run"@, rows.len() as int) {
        Some(text) => text == "true"@,
        None => true,
    })
    &&& settings.model.path@ == (match value_of(rows, "model.path"@, rows.len() as int) {
        Some(text) => text,
        None => Seq::empty(),
    })
    &&& settings.model.gpu_layers == number_of(rows, "model.gpu_layers"@, 99)
    &&& opt_text(settings.model.sidecar_path) == value_of(
        rows,
        "model.sidecar_path"@,
        rows.len() as int,
    )
}

/// A key is a dotted identifier where it holds a dot.
pub open spec fn is_dotted(key: Seq<char>) -> bool {
    first_char_from(key, '.', 0) is Some
}

/// Where the row at `at` is replaced by one with the same key and no later
/// row has that key, the key has the value of the new row.
pub proof fn lemma_row_replaced(before: Seq<SettingRow>, after: Seq<SettingRow>, at: int, upto: int)
    requires
        0 <= at < before.len(),
        after.len() == before.len(),
        at < upto <= after.len(),
        forall|j: int| at < j < before.len() ==> (#[trigger] after[j]).key@ != after[at].key@,
    ensures
        value_of(after, after[at].key@, upto) == Some(after[at].value@),
    decreases upto,
{
    if upto - 1 > at {
        lemma_row_replaced(before, after, at, upto - 1);
    }
}

/// Where only the row at `at` changes and keeps its key, every other key
/// keeps its value.
pub proof fn lemma_other_rows(
    before: Seq<SettingRow>,
    after: Seq<SettingRow>,
    at: int,
    other: Seq<char>,
    upto: int,
)
    requires
        0 <= at < before.len(),
        after.len() == before.len(),
        0 <= upto <= after.len(),
        forall|j: int| 0 <= j < before.len() && j != at ==> #[trigger] after[j] == before[j],
        before[at].key@ != other,
        after[at].key@ != other,
    ensures
        value_of(after, other, upto) == value_of(before, other, upto),
    decreases upto,
{
    if upto > 0 {
        lemma_other_rows(before, after, at, other, upto - 1);
    }
}

/// Rows that are added behind the others leave what the others hold.
pub proof fn lemma_rows_prefix(before: Seq<SettingRow>, after: Seq<SettingRow>, key: Seq<char>, upto: int)
    requires
        before.len() <= after.len(),
        0 <= upto <= before.len(),
        forall|j: int| 0 <= j < before.len() ==> #[trigger] after[j] == before[j],
    ensures
        value_of(after, key, upto) == value_of(before, key, upto),
    decreases upto,
{
    if upto > 0 {
        lemma_rows_prefix(before, after, key, upto - 1);
    }
}

/// What is stored under `key` once the first `n` rows of `batch` are
/// stored over `rows`, one after the other.
pub open spec fn value_after(rows: Seq<SettingRow>, batch: Seq<SettingRow>, key: Seq<char>, n: int) -> Option<
    Seq<char>,
>
    decreases n,
{
    if n <= 0 || n > batch.len() {
        value_of(rows, key, rows.len() as int)
    } else if batch[n - 1].key@ == key {
        Some(batch[n - 1].value@)
    } else {
        value_after(rows, batch, key, n - 1)
    }
}

/// Every key of the batch is a dotted identifier.
pub open spec fn all_dotted(batch: Seq<SettingRow>) -> bool {
    forall|i: int| 0 <= i < batch.len() ==> is_dotted((#[trigger] batch[i]).key@)
}

/// Stores a batch of settings, as a whole or not at all: where one of its
/// keys is no dotted identifier, nothing is stored.
pub fn update_settings_batch(rows: &mut Vec<SettingRow>, batch: &Vec<SettingRow>) -> (result: AppResult<()>)
    ensures
        match result {
            Ok(_) => all_dotted(batch@) && forall|key: Seq<char>|
                #[trigger] value_of(final(rows)@, key, final(rows)@.len() as int) == value_after(
                    old(rows)@,
                    batch@,
                    key,
                    batch@.len() as int,
                ),
            Err(e) => e is Validation && !all_dotted(batch@) && final(rows)@ == old(rows)@,
        },
{
    match SettingsRepo::check_batch(batch) {
        Ok(_) => {},
        Err(e) => {
            return Err(e);
        },
    }
    let mut i: usize = 0;
    while i < batch.len()
        invariant
            i <= batch.len(),
            forall|key: Seq<char>|
                #[trigger] value_of(rows@, key, rows@.len() as int) == value_after(
                    old(rows)@,
                    batch@,
                    key,
                    i as int,
                ),
        decreases batch.len() - i,
    {
        let ghost had = rows@;
        SettingsRepo::set(rows, batch[i].key.as_str(), batch[i].value.as_str());
        i += 1;
        proof {
            assert forall|key: Seq<char>| #[trigger] value_of(rows@, key, rows@.len() as int)
                == value_after(old(rows)@, batch@, key, i as int) by {
                if key != batch@[i - 1].key@ {
                    assert(value_of(had, key, had.len() as int) == value_after(
                        old(rows)@,
                        batch@,
                        key,
                        i - 1,
                    ));
                }
            }
        }
    }
    Ok(())
}

/// The unit that holds the operations on the stored settings.
pub struct SettingsRepo;

impl SettingsRepo {
    /// The settings that the rows hold: the generation parameters with the
    /// budgets for lorebook entries, for the response and for example
    /// dialogues and the custom stop sequences, the application flags, and
    /// the place of the model and of the server binary. A key without a row,
    /// and a number that cannot be read, has its default.
    pub fn get_all(rows: &Vec<SettingRow>) -> (settings: Settings)
        ensures
            settings_are(settings, rows@),
    {
        let mut settings = Settings::default();
        settings.generation.max_tokens = number(rows, "generation.max_tokens", 512);
        settings.generation.context_size = number(rows, "generation.context_size", 4096);
        settings.generation.lorebook_budget = Some(number(rows, "generation.lorebook_budget", 500));
        settings.generation.response_reserve = Some(
            number(rows, "generation.response_reserve", 512),
        );
        settings.generation.example_dialogue_budget = Some(
            number(rows, "generation.example_dialogue_budget", 500),
        );
        settings.generation.stop_sequences = match lookup(rows, "generation.stop_sequences") {
            Some(text) => parse_string_array(text),
            None => None,
        };
        settings.model.sidecar_path = match lookup(rows, "model.sidecar_path") {
            Some(text) => Some(text.to_owned()),
            None => None,
        };
        settings.app.theme = match lookup(rows, "app.theme") {
            Some(text) => strip_quotes(text),
            None => "dark".to_owned(),
        };
        settings.app.first_run = match lookup(rows, "app.first_run") {
            Some(text) => str_eq(text, "true"),
            None => true,
        };
        settings.model.path = match lookup(rows, "model.path") {
            Some(text) => text.to_owned(),
            None => String::new(),
        };
        settings.model.gpu_layers = number(rows, "model.gpu_layers", 99);
        settings
    }

    /// The value that is stored under `key`.
    pub fn get(rows: &Vec<SettingRow>, key: &str) -> (value: Option<String>)
        ensures
            opt_text(value) == value_of(rows@, key@, rows@.len() as int),
    {
        match lookup(rows, key) {
            Some(text) => Some(text.to_owned()),
            None => None,
        }
    }

    /// Stores `value` under `key`, in place of what was stored under it.
    /// What is stored under other keys stays.
    pub fn set(rows: &mut Vec<SettingRow>, key: &str, value: &str)
        ensures
            value_of(final(rows)@, key@, final(rows)@.len() as int) == Some(value@),
            forall|other: Seq<char>|
                other != key@ ==> #[trigger] value_of(final(rows)@, other, final(rows)@.len() as int)
                    == value_of(old(rows)@, other, old(rows)@.len() as int),
            final(rows)@.len() == old(rows)@.len() + (if value_of(
                old(rows)@,
                key@,
                old(rows)@.len() as int,
            ) is Some {
                0int
            } else {
                1int
            }),
    {
        let row = SettingRow { key: key.to_owned(), value: value.to_owned() };
        let mut end: usize = rows.len();
        while end > 0
            invariant
                end <= rows.len(),
                rows@ == old(rows)@,
                row.key@ == key@,
                row.value@ == value@,
                value_of(rows@, key@, rows@.len() as int) == value_of(rows@, key@, end as int),
                forall|j: int| end <= j < rows@.len() ==> (#[trigger] rows@[j]).key@ != key@,
            decreases end,
        {
            if str_eq(rows[end - 1].key.as_str(), key) {
                rows.set(end - 1, row);
                proof {
                    lemma_row_replaced(old(rows)@, rows@, end - 1, rows@.len() as int);
                    assert forall|other: Seq<char>| other != key@ implies #[trigger] value_of(
                        rows@,
                        other,
                        rows@.len() as int,
                    ) == value_of(old(rows)@, other, old(rows)@.len() as int) by {
                        lemma_other_rows(old(rows)@, rows@, end - 1, other, rows@.len() as int);
                    }
                }
                return ;
            }
            end -= 1;
        }
        rows.push(row);
        proof {
            assert forall|other: Seq<char>| other != key@ implies #[trigger] value_of(
                rows@,
                other,
                rows@.len() as int,
            ) == value_of(old(rows)@, other, old(rows)@.len() as int) by {
                lemma_rows_prefix(old(rows)@, rows@, other, old(rows)@.len() as int);
            }
        }
    }

    /// Checks a batch of settings before any of it is stored: every key
    /// must be a dotted identifier. The batch is stored as a whole or not at
    /// all.
    pub fn check_batch(batch: &Vec<SettingRow>) -> (result: AppResult<()>)
        ensures
            match result {
                Ok(_) => forall|i: int| 0 <= i < batch@.len() ==> is_dotted((#[trigger] batch@[i]).key@),
                Err(e) => e is Validation && exists|i: int|
                    0 <= i < batch@.len() && !is_dotted((#[trigger] batch@[i]).key@),
            },
    {
        let mut i: usize = 0;
        while i < batch.len()
            invariant
                i <= batch.len(),
                forall|j: int| 0 <= j < i ==> is_dotted((#[trigger] batch@[j]).key@),
            decreases batch.len() - i,
        {
            let chars = chars_of(batch[i].key.as_str());
            if find_char(&chars, '.', 0).is_none() {
                let mut message = "Invalid setting key format: ".to_owned();
                message.append(batch[i].key.as_str());
                return Err(AppError::Validation(message));
            }
            i += 1;
        }
        Ok(())
    }
}

/// A schema migration.
#[derive(Clone, Copy, Debug, PartialEq, Eq, Structural)]
pub enum Migration {
    /// Migration 1: the initial schema.
    InitialSchema,
    /// Migration 5: embeddings and summaries.
    Embeddings,
    /// Migration 6: schema fixes.
    FixSchema,
}

impl Migration {
    /// The id under which the migration is logged.
    pub open spec fn id_of(self) -> int {
        match self {
            Migration::InitialSchema => 1,
            Migration::Embeddings => 5,
            Migration::FixSchema => 6,
        }
    }

    /// The id under which the migration is logged.
    pub fn id(&self) -> (id: i32)
        ensures
            id == self.id_of(),
    {
        match self {
            Migration::InitialSchema => 1,
            Migration::Embeddings => 5,
            Migration::FixSchema => 6,
        }
    }

    /// The name under which the migration is logged.
    pub fn name(&self) -> (name: &'static str)
        ensures
            name@ == (match self {
                Migration::InitialSchema => "001_initial_schema"@,
                Migration::Embeddings => "005_embeddings"@,
                Migration::FixSchema => "006_fix_schema"@,
            }),
    {
        match self {
            Migration::InitialSchema => "001_initial_schema",
            Migration::Embeddings => "005_embeddings",
            Migration::FixSchema => "006_fix_schema",
        }
    }
}

/// The migrations, in the order in which they are applied.
pub open spec fn all_migrations() -> Seq<Migration> {
    seq![Migration::InitialSchema, Migration::Embeddings, Migration::FixSchema]
}

/// The migration is logged as applied.
pub open spec fn is_applied(applied: Seq<i32>, m: Migration) -> bool {
    exists|i: int| 0 <= i < applied.len() && #[trigger] applied[i] == m.id_of()
}

/// The migrations among the first `upto` that are not logged as applied, in
/// order.
pub open spec fn pending_among(applied: Seq<i32>, upto: int) -> Seq<Migration>
    decreases upto,
{
    if upto <= 0 || upto > all_migrations().len() {
        Seq::empty()
    } else if is_applied(applied, all_migrations()[upto - 1]) {
        pending_among(applied, upto - 1)
    } else {
        pending_among(applied, upto - 1).push(all_migrations()[upto - 1])
    }
}

/// The migrations that are still to be applied.
pub open spec fn pending(applied: Seq<i32>) -> Seq<Migration> {
    pending_among(applied, 3)
}

/// The log after the migrations `done` are applied.
pub open spec fn log_after(applied: Seq<i32>, done: Seq<Migration>) -> Seq<i32>
    decreases done.len(),
{
    if done.len() == 0 {
        applied
    } else {
        log_after(applied, done.drop_last()).push(done.last().id_of() as i32)
    }
}

/// Tells whether the migration is logged as applied.
fn applied_has(applied: &Vec<i32>, m: Migration) -> (found: bool)
    ensures
        found == is_applied(applied@, m),
{
    let id = m.id();
    let mut i: usize = 0;
    while i < applied.len()
        invariant
            i <= applied.len(),
            id == m.id_of(),
            forall|j: int| 0 <= j < i ==> applied@[j] != m.id_of(),
        decreases applied.len() - i,
    {
        if applied[i] == id {
            return true;
        }
        i += 1;
    }
    false
}

/// The migrations that are still to be applied, in order, given the ids
/// that the log holds.
pub fn run_migrations(applied: &Vec<i32>) -> (due: Vec<Migration>)
    ensures
        due@ == pending(applied@),
{
    let mut due: Vec<Migration> = Vec::new();
    assert(due@ =~= pending_among(applied@, 0));
    if !applied_has(applied, Migration::InitialSchema) {
        due.push(Migration::InitialSchema);
    }
    assert(due@ =~= pending_among(applied@, 1));
    if !applied_has(applied, Migration::Embeddings) {
        due.push(Migration::Embeddings);
    }
    assert(due@ =~= pending_among(applied@, 2));
    if !applied_has(applied, Migration::FixSchema) {
        due.push(Migration::FixSchema);
    }
    due
}

/// A migration that is logged stays logged when more are applied.
pub proof fn lemma_log_keeps(applied: Seq<i32>, done: Seq<Migration>, m: Migration)
    requires
        is_applied(applied, m) || done.contains(m),
    ensures
        is_applied(log_after(applied, done), m),
    decreases done.len(),
{
    if done.len() == 0 {
    } else {
        let before = log_after(applied, done.drop_last());
        let after = log_after(applied, done);
        if done.last() == m {
            assert(after[after.len() - 1] == m.id_of());
        } else {
            if done.contains(m) {
                let k = choose|k: int| 0 <= k < done.len() && done[k] == m;
                assert(done.drop_last()[k] == m);
            }
            lemma_log_keeps(applied, done.drop_last(), m);
            let i = choose|i: int| 0 <= i < before.len() && #[trigger] before[i] == m.id_of();
            assert(after[i] == m.id_of());
        }
    }
}

/// Applying the migrations twice is a no-op after the first application:
/// once the pending migrations are applied and logged, none is pending.
pub proof fn lemma_migrations_idempotent(applied: Seq<i32>)
    ensures
        pending(log_after(applied, pending(applied))) == Seq::<Migration>::empty(),
{
    let done = pending(applied);
    let after = log_after(applied, done);
    assert forall|k: int| 0 <= k < 3 implies is_applied(after, #[trigger] all_migrations()[k]) by {
        let m = all_migrations()[k];
        if !is_applied(applied, m) {
            lemma_pending_holds(applied, 3, k);
        }
        lemma_log_keeps(applied, done, m);
    }
    assert(pending_among(after, 0) =~= Seq::<Migration>::empty());
    assert(is_applied(after, all_migrations()[0]));
    assert(pending_among(after, 1) =~= Seq::<Migration>::empty());
    assert(is_applied(after, all_migrations()[1]));
    assert(pending_among(after, 2) =~= Seq::<Migration>::empty());
    assert(is_applied(after, all_migrations()[2]));
}

/// A migration that is not logged is among the pending ones.
pub proof fn lemma_pending_holds(applied: Seq<i32>, upto: int, k: int)
    requires
        0 <= k < upto <= 3,
        !is_applied(applied, all_migrations()[k]),
    ensures
        pending_among(applied, upto).contains(all_migrations()[k]),
    decreases upto,
{
    let now = pending_among(applied, upto);
    if k == upto - 1 {
        assert(now[now.len() - 1] == all_migrations()[k]);
    } else {
        lemma_pending_holds(applied, upto - 1, k);
        let before = pending_among(applied, upto - 1);
        let i = choose|i: int| 0 <= i < before.len() && before[i] == all_migrations()[k];
        assert(now[i] == all_migrations()[k]);
    }
}

/// The tables without which the core cannot work.
pub open spec fn critical_names() -> Seq<Seq<char>> {
    seq![
        "characters"@,
        "personas"@,
        "conversations"@,
        "conversation_characters"@,
        "messages"@,
        "message_queue"@,
        "settings"@,
    ]
}

/// The tables without which the core cannot work.
pub fn critical_tables() -> (names: Vec<&'static str>)
    ensures
        names@.len() == critical_names().len(),
        forall|i: int| 0 <= i < names@.len() ==> (#[trigger] names@[i])@ == critical_names()[i],
{
    let mut names: Vec<&'static str> = Vec::new();
    names.push("characters");
    names.push("personas");
    names.push("conversations");
    names.push("conversation_characters");
    names.push("messages");
    names.push("message_queue");
    names.push("settings");
    names
}

/// One of the tables has the name `name`.
pub open spec fn has_table(tables: Seq<String>, name: Seq<char>) -> bool {
    exists|i: int| 0 <= i < tables.len() && (#[trigger] tables[i])@ == name
}

/// The first `upto` of `names` that no table has, in their order.
pub open spec fn missing_among(names: Seq<Seq<char>>, tables: Seq<String>, upto: int) -> Seq<Seq<char>>
    decreases upto,
{
    if upto <= 0 || upto > names.len() {
        Seq::empty()
    } else if has_table(tables, names[upto - 1]) {
        missing_among(names, tables, upto - 1)
    } else {
        missing_among(names, tables, upto - 1).push(names[upto - 1])
    }
}

/// The safety check at startup: the critical tables that are missing
/// among the tables that are there. The caller creates them as well as it
/// can, whatever the log of migrations says.
pub fn missing_tables(tables: &Vec<String>) -> (missing: Vec<&'static str>)
    ensures
        missing@.len() == missing_among(critical_names(), tables@, critical_names().len() as int).len(),
        forall|i: int|
            0 <= i < missing@.len() ==> (#[trigger] missing@[i])@ == missing_among(
                critical_names(),
                tables@,
                critical_names().len() as int,
            )[i],
{
    let names = critical_tables();
    let mut missing: Vec<&'static str> = Vec::new();
    let mut k: usize = 0;
    while k < names.len()
        invariant
            k <= names.len(),
            names@.len() == critical_names().len(),
            forall|i: int| 0 <= i < names@.len() ==> (#[trigger] names@[i])@ == critical_names()[i],
            missing@.len() == missing_among(critical_names(), tables@, k as int).len(),
            forall|i: int|
                0 <= i < missing@.len() ==> (#[trigger] missing@[i])@ == missing_among(
                    critical_names(),
                    tables@,
                    k as int,
                )[i],
        decreases names.len() - k,
    {
        let name = names[k];
        let mut found = false;
        let mut i: usize = 0;
        while i < tables.len()
            invariant
                i <= tables.len(),
                !found ==> forall|j: int| 0 <= j < i ==> (#[trigger] tables@[j])@ != name@,
                found ==> has_table(tables@, name@),
            decreases tables.len() - i,
        {
            if str_eq(tables[i].as_str(), name) {
                found = true;
            }
            i += 1;
        }
        let ghost before = missing_among(critical_names(), tables@, k as int);
        let ghost had = missing@;
        if !found {
            missing.push(name);
        }
        k += 1;
        proof {
            let after = missing_among(critical_names(), tables@, k as int);
            assert(names@[k - 1]@ == critical_names()[k - 1]);
            assert forall|i: int| 0 <= i < missing@.len() implies (#[trigger] missing@[i])@
                == after[i] by {
                if i < had.len() {
                    assert(missing@[i] == had[i]);
                    assert(after[i] == before[i]);
                }
            }
        }
    }
    missing
}

/// The unit that holds the operations on settings.
pub struct SettingsService;

impl SettingsService {
    /// The settings that the rows hold.
    pub fn get_all(rows: &Vec<SettingRow>) -> (settings: Settings)
        ensures
            settings_are(settings, rows@),
    {
        SettingsRepo::get_all(rows)
    }

    /// The value that is stored under `key`.
    pub fn get(rows: &Vec<SettingRow>, key: &str) -> (value: Option<String>)
        ensures
            opt_text(value) == value_of(rows@, key@, rows@.len() as int),
    {
        SettingsRepo::get(rows, key)
    }

    /// Stores `value` under `key`, in place of what was stored under it.
    pub fn set(rows: &mut Vec<SettingRow>, key: &str, value: &str)
        ensures
            value_of(final(rows)@, key@, final(rows)@.len() as int) == Some(value@),
            forall|other: Seq<char>|
                other != key@ ==> #[trigger] value_of(final(rows)@, other, final(rows)@.len() as int)
                    == value_of(old(rows)@, other, old(rows)@.len() as int),
    {
        SettingsRepo::set(rows, key, value)
    }
}

} // verus!
