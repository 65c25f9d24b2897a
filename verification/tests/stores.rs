use glee::characters::{character_prompt, strip_code_fence, CharacterRepo};
use glee::conversations::{ConversationRepo, ConversationService};
use glee::context::MemoryService;
use glee::characters::ExportService;
use glee::download::{check_stale_downloads, DownloadRepo, DownloadService};
use glee::entities::{
    AuthorType, Character, Conversation, CreateCharacterInput, CreateEntryInput,
    CreateLorebookInput, Download, DownloadStatus, Lorebook, Message, Persona,
    UpdateCharacterInput, UpdateConversationInput, UpdateEntryInput, UpdateLorebookInput,
};
use glee::error::{AppError, ErrorKind};
use glee::inference::{
    app_info, binary_candidates, binary_places, find_sidecar_binary, model_status,
};
use glee::lorebook::LorebookService;
use glee::lorebook_store::LorebookRepo;
use glee::memory::{FactAction, MemoryEntry};
use glee::message_service::MessageService;
use glee::messages::MessageRepo;
use glee::personas::PersonaRepo;
use glee::settings::{
    critical_tables, missing_tables, update_settings_batch, SettingRow, SettingsRepo,
    SettingsService,
};
use glee::setup::{seed_defaults, STARTER_CHARACTER_ID};
use glee::state::AppState;
use glee::summary::{ConversationSummary, SummaryService};

fn character_input(name: &str) -> CreateCharacterInput {
    CreateCharacterInput {
        name: name.to_string(),
        description: "d".to_string(),
        personality: "p".to_string(),
        system_prompt: "s".to_string(),
        first_message: "f".to_string(),
        example_dialogues: "e".to_string(),
        avatar_path: Some("a.png".to_string()),
        tags: vec!["t".to_string()],
    }
}

fn no_character_update() -> UpdateCharacterInput {
    UpdateCharacterInput {
        name: None,
        description: None,
        personality: None,
        system_prompt: None,
        first_message: None,
        example_dialogues: None,
        avatar_path: None,
        tags: None,
    }
}

fn entry_input(lorebook_id: &str, name: &str, priority: Option<i32>) -> CreateEntryInput {
    CreateEntryInput {
        lorebook_id: lorebook_id.to_string(),
        name: name.to_string(),
        keywords: vec!["dragon".to_string()],
        content: "Dragons sleep under the hill.".to_string(),
        priority,
        case_sensitive: None,
        match_whole_word: None,
        insertion_position: None,
        token_budget: None,
    }
}

fn no_entry_update() -> UpdateEntryInput {
    UpdateEntryInput {
        name: None,
        keywords: None,
        content: None,
        priority: None,
        is_enabled: None,
        case_sensitive: None,
        match_whole_word: None,
        insertion_position: None,
        token_budget: None,
    }
}

fn book(books: &mut Vec<Lorebook>, id: &str, global: bool) -> Lorebook {
    LorebookRepo::create(
        books,
        &CreateLorebookInput {
            name: format!("Book {}", id),
            description: None,
            is_global: Some(global),
        },
        id.to_string(),
        10,
    )
}

fn names(book: &Lorebook) -> Vec<&str> {
    book.entries.iter().map(|e| e.name.as_str()).collect()
}

fn conversation(id: &str, characters: Vec<Character>) -> Conversation {
    Conversation {
        id: id.to_string(),
        title: format!("Chat {}", id),
        persona_id: None,
        is_group: characters.len() > 1,
        active_message_id: None,
        created_at: 1,
        updated_at: 1,
        deleted_at: None,
        characters,
        lorebook_ids: Vec::new(),
    }
}

fn message(id: &str, conversation: &str, parent: Option<&str>, active: bool) -> Message {
    Message {
        id: id.to_string(),
        conversation_id: conversation.to_string(),
        parent_id: parent.map(|p| p.to_string()),
        author_type: AuthorType::User,
        author_id: None,
        content: format!("text of {}", id),
        is_active_branch: active,
        branch_index: 0,
        token_count: 3,
        created_at: 1,
        author_name: None,
        sibling_count: None,
    }
}

fn download(id: &str, status: DownloadStatus, updated_at: i64) -> Download {
    Download {
        id: id.to_string(),
        url: "http://host/model.gguf".to_string(),
        destination_path: "/data/models/model.gguf".to_string(),
        total_bytes: 100,
        downloaded_bytes: 10,
        status,
        checksum: None,
        created_at: 1,
        updated_at,
        error_message: Some("old".to_string()),
    }
}

#[test]
fn characters_are_stored_changed_and_listed() {
    let mut characters: Vec<Character> = Vec::new();
    let aria = CharacterRepo::create(&mut characters, &character_input("Aria"), "c1".to_string(), 5);
    assert_eq!(aria.id, "c1");
    assert_eq!(aria.name, "Aria");
    assert_eq!(aria.tags, vec!["t".to_string()]);
    assert!(!aria.is_bundled);
    assert_eq!((aria.created_at, aria.updated_at, aria.deleted_at), (5, 5, None));
    let bundled = CharacterRepo::create_bundled(&mut characters, &character_input("Bo"), "c2", 6);
    assert!(bundled.is_bundled);
    assert_eq!(characters.len(), 2);
    assert_eq!(characters[1], bundled);

    let mut update = no_character_update();
    update.name = Some("Aria II".to_string());
    update.tags = Some(vec!["x".to_string(), "y".to_string()]);
    update.avatar_path = Some("b.png".to_string());
    let changed = CharacterRepo::update(&mut characters, "c1", &update, 9).unwrap();
    assert_eq!(changed.name, "Aria II");
    assert_eq!(changed.description, "d");
    assert_eq!(changed.tags, vec!["x".to_string(), "y".to_string()]);
    assert_eq!(changed.avatar_path, Some("b.png".to_string()));
    assert_eq!((changed.created_at, changed.updated_at), (5, 9));
    assert_eq!(characters[0], changed);
    assert_eq!(characters[1], bundled);

    let untouched = CharacterRepo::update(&mut characters, "c2", &no_character_update(), 11).unwrap();
    assert_eq!(untouched.name, "Bo");
    assert_eq!(untouched.updated_at, 11);

    assert_eq!(
        CharacterRepo::update(&mut characters, "nobody", &update, 9).map_err(|e| e.kind()),
        Err(ErrorKind::NotFound)
    );
    CharacterRepo::delete(&mut characters, "c1", 12);
    assert_eq!(
        CharacterRepo::find_by_id(&characters, "c1").map_err(|e| e.kind()),
        Err(ErrorKind::NotFound)
    );
    assert_eq!(CharacterRepo::find_by_id(&characters, "c2").unwrap().name, "Bo");
    let live = CharacterRepo::find_all(&characters);
    assert_eq!(live.len(), 1);
    assert_eq!(live[0].id, "c2");
    assert_eq!(
        CharacterRepo::update(&mut characters, "c1", &update, 13).map_err(|e| e.kind()),
        Err(ErrorKind::NotFound)
    );
}

#[test]
fn character_prompt_wraps_the_concept() {
    let prompt = character_prompt("a shy baker");
    assert!(prompt.starts_with("You are a character creation assistant."));
    assert!(prompt.contains("\n\nConcept: a shy baker\n\nGenerate a JSON object"));
    assert!(prompt.contains("(use {{user}} and {{char}} format)"));
    assert!(prompt.ends_with("The response must be parseable JSON."));
}

#[test]
fn code_fences_are_stripped() {
    assert_eq!(strip_code_fence("  {\"name\":\"A\"}\n"), "{\"name\":\"A\"}");
    assert_eq!(strip_code_fence("```json\n{\"name\":\"A\"}\n```"), "{\"name\":\"A\"}");
    assert_eq!(strip_code_fence("\n```\n{\"name\":\"A\"}\n```  "), "{\"name\":\"A\"}");
    assert_eq!(strip_code_fence("```json```json {} ``````"), "{}");
    assert_eq!(strip_code_fence("```json"), "");
    assert_eq!(strip_code_fence("```"), "");
    assert_eq!(strip_code_fence("``"), "``");
    assert_eq!(strip_code_fence("```jso\n[]\n```"), "jso\n[]");
    assert_eq!(strip_code_fence("{} ```"), "{} ```");
    assert_eq!(strip_code_fence(""), "");
}

#[test]
fn lorebooks_are_stored_changed_and_deleted() {
    let mut books: Vec<Lorebook> = Vec::new();
    let world = book(&mut books, "b1", true);
    assert_eq!(world.name, "Book b1");
    assert_eq!(world.description, "");
    assert!(world.is_global && world.is_enabled);
    assert!(world.entries.is_empty());
    let plain = LorebookRepo::create(
        &mut books,
        &CreateLorebookInput { name: "Plain".to_string(), description: Some("x".to_string()), is_global: None },
        "b2".to_string(),
        11,
    );
    assert!(!plain.is_global);
    assert_eq!(plain.description, "x");

    let changed = LorebookRepo::update(
        &mut books,
        "b2",
        &UpdateLorebookInput {
            name: Some("Renamed".to_string()),
            description: None,
            is_global: Some(true),
            is_enabled: Some(false),
        },
        20,
    )
    .unwrap();
    assert_eq!(changed.name, "Renamed");
    assert_eq!(changed.description, "x");
    assert!(changed.is_global && !changed.is_enabled);
    assert_eq!((changed.created_at, changed.updated_at), (11, 20));
    assert_eq!(books[1], changed);
    assert_eq!(books[0], world);
    assert_eq!(
        LorebookRepo::update(
            &mut books,
            "b9",
            &UpdateLorebookInput { name: None, description: None, is_global: None, is_enabled: None },
            20,
        )
        .map_err(|e| e.kind()),
        Err(ErrorKind::NotFound)
    );

    assert_eq!(LorebookRepo::find_all(&books).len(), 2);
    let global = LorebookRepo::find_global(&books);
    assert_eq!(global.len(), 1);
    assert_eq!(global[0].id, "b1");

    assert_eq!(
        LorebookService::delete(&mut books, "b9", 30).map_err(|e| e.kind()),
        Err(ErrorKind::NotFound)
    );
    assert_eq!(LorebookService::delete(&mut books, "b1", 30), Ok(()));
    assert_eq!(books[0].deleted_at, Some(30));
    assert_eq!(
        LorebookRepo::find_by_id(&books, "b1").map_err(|e| e.kind()),
        Err(ErrorKind::NotFound)
    );
    assert_eq!(LorebookRepo::find_all(&books).len(), 1);
    assert!(LorebookRepo::find_global(&books).is_empty());
    assert_eq!(
        LorebookService::delete(&mut books, "b1", 31).map_err(|e| e.kind()),
        Err(ErrorKind::NotFound)
    );
}

#[test]
fn lorebook_names_must_not_be_blank() {
    let mut books: Vec<Lorebook> = Vec::new();
    assert_eq!(
        LorebookService::create(
            &mut books,
            CreateLorebookInput { name: " \t".to_string(), description: None, is_global: None },
            "b1".to_string(),
            1,
        ),
        Err(AppError::Validation("Name required".to_string()))
    );
    assert!(books.is_empty());
    let made = LorebookService::create(
        &mut books,
        CreateLorebookInput { name: "  World ".to_string(), description: None, is_global: None },
        "b1".to_string(),
        1,
    )
    .unwrap();
    assert_eq!(made.name, "World");
    assert_eq!(books.len(), 1);
}

#[test]
fn entries_are_kept_by_falling_priority() {
    let mut books: Vec<Lorebook> = Vec::new();
    book(&mut books, "b1", false);
    book(&mut books, "b2", false);
    let mid = LorebookRepo::create_entry(&mut books, &entry_input("b1", "mid", None), "e1".to_string(), 3).unwrap();
    assert_eq!(mid.priority, 50);
    assert!(mid.is_enabled && mid.match_whole_word && !mid.case_sensitive);
    assert_eq!(mid.insertion_position, "after_system");
    assert_eq!(mid.created_at, 3);
    LorebookRepo::create_entry(&mut books, &entry_input("b1", "high", Some(90)), "e2".to_string(), 4).unwrap();
    LorebookRepo::create_entry(&mut books, &entry_input("b1", "low", Some(10)), "e3".to_string(), 5).unwrap();
    LorebookRepo::create_entry(&mut books, &entry_input("b1", "mid2", Some(50)), "e4".to_string(), 6).unwrap();
    assert_eq!(names(&books[0]), vec!["high", "mid", "mid2", "low"]);
    assert!(books[1].entries.is_empty());
    assert_eq!(
        LorebookRepo::create_entry(&mut books, &entry_input("b9", "x", None), "e9".to_string(), 7)
            .map_err(|e| e.kind()),
        Err(ErrorKind::NotFound)
    );

    let mut update = no_entry_update();
    update.priority = Some(5);
    update.content = Some("Changed.".to_string());
    update.is_enabled = Some(false);
    let changed = LorebookRepo::update_entry(&mut books, "e2", &update).unwrap();
    assert_eq!(changed.name, "high");
    assert_eq!(changed.content, "Changed.");
    assert_eq!(changed.priority, 5);
    assert!(!changed.is_enabled);
    assert_eq!(changed.created_at, 4);
    assert_eq!(names(&books[0]), vec!["mid", "mid2", "low", "high"]);
    assert_eq!(books[0].entries[3], changed);

    let same = LorebookRepo::update_entry(&mut books, "e1", &no_entry_update()).unwrap();
    assert_eq!(same, mid);
    assert_eq!(names(&books[0]), vec!["mid2", "mid", "low", "high"]);
    assert_eq!(
        LorebookRepo::update_entry(&mut books, "e9", &update).map_err(|e| e.kind()),
        Err(ErrorKind::NotFound)
    );

    let found = LorebookRepo::find_by_id(&books, "b1").unwrap();
    assert_eq!(found, books[0]);
    books[0].is_global = true;
    let global = LorebookRepo::find_global(&books);
    assert_eq!(global.len(), 1);
    assert_eq!(names(&global[0]), vec!["mid2", "mid", "low"]);

    LorebookRepo::delete_entry(&mut books, "e1");
    assert_eq!(names(&books[0]), vec!["mid2", "low", "high"]);
    LorebookRepo::delete_entry(&mut books, "e9");
    assert_eq!(names(&books[0]), vec!["mid2", "low", "high"]);
}

#[test]
fn entries_need_a_keyword_a_content_and_a_lorebook() {
    let mut books: Vec<Lorebook> = Vec::new();
    book(&mut books, "b1", false);
    let mut no_keyword = entry_input("b1", "x", None);
    no_keyword.keywords = Vec::new();
    assert_eq!(
        LorebookService::create_entry(&mut books, no_keyword, "e1".to_string(), 1),
        Err(AppError::Validation("Keyword required".to_string()))
    );
    let mut blank = entry_input("b1", "x", None);
    blank.content = "  \n ".to_string();
    assert_eq!(
        LorebookService::create_entry(&mut books, blank, "e1".to_string(), 1),
        Err(AppError::Validation("Content required".to_string()))
    );
    assert_eq!(
        LorebookService::create_entry(&mut books, entry_input("b7", "x", None), "e1".to_string(), 1)
            .map_err(|e| e.kind()),
        Err(ErrorKind::NotFound)
    );
    assert!(books[0].entries.is_empty());
    let made = LorebookService::create_entry(&mut books, entry_input("b1", "x", None), "e1".to_string(), 1).unwrap();
    assert_eq!(made.id, "e1");
    assert_eq!(books[0].entries, vec![made]);
}

#[test]
fn conversations_are_changed_and_found() {
    let aria = Character {
        id: "c1".to_string(),
        name: "Aria".to_string(),
        description: String::new(),
        personality: String::new(),
        system_prompt: String::new(),
        first_message: String::new(),
        example_dialogues: String::new(),
        avatar_path: None,
        tags: vec!["a".to_string()],
        is_bundled: false,
        created_at: 1,
        updated_at: 1,
        deleted_at: None,
    };
    let mut bo = aria.clone();
    bo.id = "c2".to_string();
    let mut conversations = vec![
        conversation("g", vec![aria.clone(), bo.clone()]),
        conversation("k1", vec![aria.clone()]),
        conversation("k2", vec![aria.clone()]),
        conversation("k3", vec![bo.clone()]),
    ];
    assert_eq!(ConversationRepo::find_by_id(&conversations, "k2").unwrap(), conversations[2]);
    assert_eq!(
        ConversationRepo::find_by_single_character(&conversations, "c1").unwrap().id,
        "k1"
    );
    assert_eq!(
        ConversationRepo::find_by_single_character(&conversations, "c2").unwrap().id,
        "k3"
    );
    assert_eq!(ConversationRepo::find_by_single_character(&conversations, "c3"), None);

    let changed = ConversationRepo::update(
        &mut conversations,
        "k1",
        &UpdateConversationInput { title: Some("New".to_string()), persona_id: Some("me".to_string()) },
        7,
    )
    .unwrap();
    assert_eq!(changed.title, "New");
    assert_eq!(changed.persona_id, Some("me".to_string()));
    assert_eq!(changed.updated_at, 7);
    assert_eq!(conversations[1], changed);
    let kept = ConversationRepo::update(
        &mut conversations,
        "k1",
        &UpdateConversationInput { title: None, persona_id: None },
        8,
    )
    .unwrap();
    assert_eq!(kept.title, "New");
    assert_eq!(kept.persona_id, Some("me".to_string()));

    ConversationRepo::update_active_message(&mut conversations, "k2", "m9", 9);
    assert_eq!(conversations[2].active_message_id, Some("m9".to_string()));
    assert_eq!(conversations[2].updated_at, 9);
    assert_eq!(conversations[0].active_message_id, None);

    ConversationRepo::attach_lorebook(&mut conversations, "k2", "b1");
    ConversationRepo::attach_lorebook(&mut conversations, "k2", "b2");
    ConversationRepo::attach_lorebook(&mut conversations, "k2", "b1");
    assert_eq!(conversations[2].lorebook_ids, vec!["b1".to_string(), "b2".to_string()]);
    ConversationRepo::detach_lorebook(&mut conversations, "k2", "b1");
    assert_eq!(conversations[2].lorebook_ids, vec!["b2".to_string()]);
    ConversationRepo::detach_lorebook(&mut conversations, "k2", "b7");
    assert_eq!(conversations[2].lorebook_ids, vec!["b2".to_string()]);
    assert!(conversations[1].lorebook_ids.is_empty());

    ConversationRepo::delete(&mut conversations, "k1", 10);
    assert_eq!(conversations[1].deleted_at, Some(10));
    assert_eq!(
        ConversationRepo::find_by_id(&conversations, "k1").map_err(|e| e.kind()),
        Err(ErrorKind::NotFound)
    );
    assert_eq!(
        ConversationRepo::find_by_single_character(&conversations, "c1").unwrap().id,
        "k2"
    );
    let live: Vec<String> = ConversationRepo::find_all(&conversations).into_iter().map(|c| c.id).collect();
    assert_eq!(live, vec!["g".to_string(), "k2".to_string(), "k3".to_string()]);
    assert_eq!(
        ConversationRepo::update(
            &mut conversations,
            "k1",
            &UpdateConversationInput { title: None, persona_id: None },
            11,
        )
        .map_err(|e| e.kind()),
        Err(ErrorKind::NotFound)
    );
}

#[test]
fn lorebooks_are_attached_to_conversations_that_are_there() {
    let mut conversations = vec![conversation("k", Vec::new())];
    let mut books: Vec<Lorebook> = Vec::new();
    book(&mut books, "b1", false);
    assert_eq!(
        LorebookService::attach_to_conversation(&mut conversations, &books, "k", "b9").map_err(|e| e.kind()),
        Err(ErrorKind::NotFound)
    );
    assert_eq!(
        LorebookService::attach_to_conversation(&mut conversations, &books, "x", "b1").map_err(|e| e.kind()),
        Err(ErrorKind::NotFound)
    );
    assert!(conversations[0].lorebook_ids.is_empty());
    assert_eq!(LorebookService::attach_to_conversation(&mut conversations, &books, "k", "b1"), Ok(()));
    assert_eq!(conversations[0].lorebook_ids, vec!["b1".to_string()]);
}

#[test]
fn conversation_export_holds_the_active_chain() {
    let mut c = conversation("k", Vec::new());
    c.persona_id = Some("me".to_string());
    let conversations = vec![c.clone()];
    let msgs = vec![
        message("m1", "k", None, true),
        message("m2", "k", Some("m1"), false),
        message("m3", "k", Some("m1"), true),
        message("o1", "other", None, true),
    ];
    let persona = Persona {
        id: "me".to_string(),
        name: "Me".to_string(),
        description: String::new(),
        is_default: false,
        created_at: 1,
        updated_at: 1,
        deleted_at: None,
    };
    let export = ExportService::export_conversation(
        &conversations,
        &msgs,
        &vec![persona.clone()],
        "k",
        "2024-01-01T00:00:00+00:00".to_string(),
    )
    .unwrap();
    assert_eq!(export.glee_export_version, "1.0");
    assert_eq!(export.export_type, "conversation");
    assert_eq!(export.exported_at, "2024-01-01T00:00:00+00:00");
    assert_eq!(export.conversation, c);
    assert_eq!(export.messages, vec![msgs[0].clone(), msgs[2].clone()]);
    assert_eq!(export.persona, Some(persona));
    let without = ExportService::export_conversation(&conversations, &msgs, &Vec::new(), "k", String::new()).unwrap();
    assert_eq!(without.persona, None);
    assert_eq!(
        ExportService::export_conversation(&conversations, &msgs, &Vec::new(), "x", String::new())
            .map_err(|e| e.kind()),
        Err(ErrorKind::NotFound)
    );
}

#[test]
fn settings_are_stored_by_key() {
    let mut rows: Vec<SettingRow> = Vec::new();
    assert_eq!(SettingsRepo::get(&rows, "app.theme"), None);
    SettingsRepo::set(&mut rows, "app.theme", "light");
    SettingsRepo::set(&mut rows, "model.path", "/m.gguf");
    assert_eq!(rows.len(), 2);
    SettingsService::set(&mut rows, "app.theme", "dark");
    assert_eq!(rows.len(), 2);
    assert_eq!(SettingsService::get(&rows, "app.theme"), Some("dark".to_string()));
    assert_eq!(SettingsRepo::get(&rows, "model.path"), Some("/m.gguf".to_string()));
    assert_eq!(SettingsService::get_all(&rows).model.path, "/m.gguf");
}

#[test]
fn setting_batches_are_stored_as_a_whole() {
    let row = |k: &str, v: &str| SettingRow { key: k.to_string(), value: v.to_string() };
    let mut rows = vec![row("app.theme", "dark")];
    let bad = vec![row("model.path", "/m.gguf"), row("theme", "light")];
    assert_eq!(
        update_settings_batch(&mut rows, &bad),
        Err(AppError::Validation("Invalid setting key format: theme".to_string()))
    );
    assert_eq!(rows, vec![row("app.theme", "dark")]);
    let good = vec![row("model.path", "/m.gguf"), row("app.theme", "light"), row("model.path", "/n.gguf")];
    assert_eq!(update_settings_batch(&mut rows, &good), Ok(()));
    assert_eq!(SettingsRepo::get(&rows, "app.theme"), Some("light".to_string()));
    assert_eq!(SettingsRepo::get(&rows, "model.path"), Some("/n.gguf".to_string()));
    assert_eq!(rows.len(), 2);
}

#[test]
fn facts_are_planned_and_carried_out() {
    let memory = MemoryEntry {
        id: "mem1".to_string(),
        conversation_id: Some("k".to_string()),
        character_id: "c1".to_string(),
        content: "User: Is 25 years old".to_string(),
        source_messages: vec!["m1".to_string()],
        created_at: 1,
    };
    let mut memories = vec![memory.clone()];
    let answer = "[\"User: Is 30 years old\", \"User: Is 25 years old\", \"World: The inn is closed\", \"hm\"]";
    let actions = MemoryService::process_message("I am thirty years old now.", answer, &memories);
    assert_eq!(
        actions,
        vec![
            FactAction::Update { memory_id: "mem1".to_string(), content: "User: Is 30 years old".to_string() },
            FactAction::Skip,
            FactAction::Insert { content: "World: The inn is closed".to_string() },
            FactAction::Skip,
        ]
    );
    assert!(MemoryService::process_message("too short", answer, &memories).is_empty());
    assert!(MemoryService::process_message("I am thirty years old now.", "[]", &memories).is_empty());

    let mut ids = 2;
    for action in actions {
        ids += 1;
        MemoryService::apply(&mut memories, action, format!("mem{}", ids), "c1", "k", "m7", 9);
    }
    assert_eq!(memories.len(), 2);
    assert_eq!(memories[0], MemoryEntry { content: "User: Is 30 years old".to_string(), ..memory });
    assert_eq!(
        memories[1],
        MemoryEntry {
            id: "mem5".to_string(),
            conversation_id: Some("k".to_string()),
            character_id: "c1".to_string(),
            content: "World: The inn is closed".to_string(),
            source_messages: vec!["m7".to_string()],
            created_at: 9,
        }
    );
}

#[test]
fn summary_is_planned_with_its_prompt() {
    let mut chain: Vec<Message> = Vec::new();
    for i in 0..25 {
        let mut m = message(&format!("m{}", i), "k", None, true);
        m.author_type = if i % 2 == 0 { AuthorType::User } else { AuthorType::Character };
        m.content = format!("line {}", i);
        chain.push(m);
    }
    assert_eq!(SummaryService::maybe_summarize(&chain[..19].to_vec(), &Vec::new(), 20, 4000), None);
    let (range, prompt) = SummaryService::maybe_summarize(&chain, &Vec::new(), 20, 4000).unwrap();
    assert_eq!((range.start, range.end), (0, 20));
    assert!(prompt.starts_with("Summarize this conversation in 2-3 sentences"));
    assert!(prompt.contains("\n\nUser: line 0\nCharacter: line 1\n"));
    assert!(prompt.ends_with("Character: line 19\n\nSummary:"));
    let summary = ConversationSummary {
        id: "sum1".to_string(),
        conversation_id: "k".to_string(),
        content: "so far".to_string(),
        message_range_start: Some("m0".to_string()),
        message_range_end: Some("m9".to_string()),
        message_count: 10,
        token_count: 5,
        created_at: 1,
    };
    assert_eq!(SummaryService::maybe_summarize(&chain, &vec![summary.clone()], 20, 4000), None);
    let (range, _) = SummaryService::maybe_summarize(&chain, &vec![summary], 20, 40).unwrap();
    assert_eq!((range.start, range.end), (10, 20));
}

#[test]
fn binary_is_looked_for_in_order() {
    let places = binary_candidates(Some("/opt/server"), "/res", Some("/exe"), false);
    assert_eq!(
        places,
        vec![
            "/opt/server",
            "resources/llama-server",
            "/res/llama-server",
            "/res/resources/llama-server",
            "src-tauri/resources/llama-server",
            "/exe/llama-server",
            "/exe/resources/llama-server",
            "llama-server",
        ]
    );
    let bare = binary_candidates(Some(""), "/res", None, true);
    assert_eq!(
        bare,
        vec![
            "resources/llama-server.exe",
            "/res/llama-server.exe",
            "/res/resources/llama-server.exe",
            "src-tauri/resources/llama-server.exe",
            "llama-server.exe",
        ]
    );
    assert_eq!(binary_candidates(None, "/res", None, true), bare);
    let mut exists = vec![false; places.len()];
    exists[2] = true;
    exists[5] = true;
    assert_eq!(find_sidecar_binary(&places, &exists, false), Ok("/res/llama-server".to_string()));
    assert_eq!(
        find_sidecar_binary(&places, &vec![false; places.len()], false),
        Err(AppError::Sidecar(
            "Sidecar binary 'llama-server' not found. Configure custom path in Settings or ensure it's in the resources directory."
                .to_string()
        ))
    );
    assert_eq!(
        find_sidecar_binary(&places, &vec![false, false], true).map_err(|e| e.kind()),
        Err(ErrorKind::Sidecar)
    );
    assert_eq!(
        find_sidecar_binary(&vec!["a".to_string()], &vec![false, true], false).map_err(|e| e.kind()),
        Err(ErrorKind::Sidecar)
    );
}

#[test]
fn model_status_tells_what_is_there() {
    let ready = model_status(true, "", false, "/d/model.gguf", false);
    assert_eq!(ready.status, "ready");
    assert!(ready.model_loaded);
    assert_eq!(ready.model_path, None);
    let configured = model_status(false, "/m.gguf", true, "/d/model.gguf", false);
    assert_eq!(configured.status, "not_loaded");
    assert_eq!(configured.model_path, Some("/m.gguf".to_string()));
    let missing = model_status(false, "/m.gguf", false, "/d/model.gguf", true);
    assert_eq!(missing.status, "not_found");
    assert_eq!(missing.model_path, Some("/m.gguf".to_string()));
    let default = model_status(false, "", true, "/d/model.gguf", true);
    assert_eq!(default.status, "not_loaded");
    assert_eq!(default.model_path, Some("/d/model.gguf".to_string()));
    let nothing = model_status(false, "", true, "/d/model.gguf", false);
    assert_eq!(nothing.status, "not_found");
    assert_eq!(nothing.model_path, None);

    let info = app_info("0.1.0", "/data", true, "");
    assert_eq!((info.version.as_str(), info.data_dir.as_str(), info.model_loaded), ("0.1.0", "/data", true));
    assert_eq!(info.model_path, None);
    assert_eq!(app_info("0.1.0", "/data", false, "/m.gguf").model_path, Some("/m.gguf".to_string()));
}

#[test]
fn downloads_are_paused_resumed_and_cancelled() {
    let mut downloads = vec![
        download("d1", DownloadStatus::Completed, 1),
        download("d2", DownloadStatus::Downloading, 2),
    ];
    assert_eq!(DownloadService::get_active(&downloads).unwrap().id, "d2");
    assert_eq!(DownloadService::get_status(&downloads, "d1").unwrap(), downloads[0]);
    assert_eq!(DownloadRepo::find_by_id(&downloads, "d9").map_err(|e| e.kind()), Err(ErrorKind::NotFound));

    let paused = DownloadService::pause(&mut downloads, "d2", 10).unwrap();
    assert_eq!(paused.status, DownloadStatus::Paused);
    assert_eq!(paused.updated_at, 10);
    assert_eq!(paused.error_message, None);
    assert_eq!(paused.downloaded_bytes, 10);
    assert_eq!(downloads[1], paused);
    assert_eq!(downloads[0].status, DownloadStatus::Completed);
    let resumed = DownloadService::resume(&mut downloads, "d2", 11).unwrap();
    assert_eq!(resumed.status, DownloadStatus::Pending);
    assert_eq!(DownloadService::pause(&mut downloads, "d9", 12).map_err(|e| e.kind()), Err(ErrorKind::NotFound));
    DownloadService::cancel(&mut downloads, "d2", 13);
    assert_eq!(downloads[1].status, DownloadStatus::Cancelled);
    assert_eq!(downloads[1].updated_at, 13);
    assert_eq!(DownloadService::get_active(&downloads), None);
}

#[test]
fn stale_downloads_become_pending_again() {
    let mut downloads = vec![download("d1", DownloadStatus::Downloading, 100)];
    assert!(!check_stale_downloads(&mut downloads, 130));
    assert_eq!(downloads[0].status, DownloadStatus::Downloading);
    assert_eq!(downloads[0].updated_at, 100);
    assert!(check_stale_downloads(&mut downloads, 131));
    assert_eq!(downloads[0].status, DownloadStatus::Pending);
    assert_eq!(downloads[0].updated_at, 131);
    assert!(!check_stale_downloads(&mut downloads, 1000));
    let mut paused = vec![download("d1", DownloadStatus::Paused, 100), download("d2", DownloadStatus::Downloading, 1)];
    assert!(!check_stale_downloads(&mut paused, 1000));
    assert_eq!(paused[1].status, DownloadStatus::Downloading);
}

#[test]
fn a_fresh_installation_is_seeded_once() {
    let mut personas: Vec<Persona> = Vec::new();
    let mut characters: Vec<Character> = Vec::new();
    seed_defaults(&mut personas, &mut characters, "me".to_string(), 5);
    assert_eq!(personas.len(), 1);
    assert_eq!(personas[0].name, "User");
    assert!(personas[0].is_default);
    assert_eq!(characters.len(), 1);
    assert_eq!(characters[0].id, STARTER_CHARACTER_ID);
    assert_eq!(characters[0].name, "Aria");
    assert!(characters[0].is_bundled);
    assert_eq!(characters[0].tags, vec!["assistant".to_string(), "friendly".to_string()]);
    assert!(characters[0].first_message.starts_with("Hey there! I'm Aria."));
    let (p, c) = (personas.clone(), characters.clone());
    seed_defaults(&mut personas, &mut characters, "me2".to_string(), 6);
    assert_eq!(personas, p);
    assert_eq!(characters, c);

    PersonaRepo::delete(&mut personas, "me", 7);
    CharacterRepo::delete(&mut characters, STARTER_CHARACTER_ID, 7);
    assert!(PersonaRepo::find_all(&personas).is_empty());
    seed_defaults(&mut personas, &mut characters, "me3".to_string(), 8);
    assert_eq!(personas.len(), 2);
    assert_eq!(personas[1].id, "me3");
    assert_eq!(characters.len(), 2);
    assert_eq!(characters[1].deleted_at, None);
}

#[test]
fn sending_needs_a_model_and_a_free_conversation() {
    let mut state = AppState::new();
    assert_eq!(
        MessageService::may_send(&state, "k"),
        Err(AppError::Sidecar("Model not loaded. Please load a model first.".to_string()))
    );
    assert_eq!(
        MessageService::may_regenerate(&state),
        Err(AppError::Sidecar("Model not loaded".to_string()))
    );
    state.set_sidecar(true);
    assert_eq!(MessageService::may_send(&state, "k"), Ok(()));
    assert_eq!(MessageService::may_regenerate(&state), Ok(()));
    assert!(state.try_start_generation("m1".to_string(), "k".to_string(), 100));
    assert_eq!(
        MessageService::may_send(&state, "k"),
        Err(AppError::Validation("Already generating a response for this conversation".to_string()))
    );
    assert_eq!(MessageService::may_send(&state, "other"), Ok(()));
    let stopped = state.shutdown().unwrap();
    assert_eq!(stopped.message_id, "m1");
    assert!(!state.is_generating());
    assert_eq!(state.shutdown(), None);
    assert!(state.take_sidecar());
    assert_eq!(MessageService::may_send(&state, "k").map_err(|e| e.kind()), Err(ErrorKind::Sidecar));
}

#[test]
fn missing_critical_tables_are_named() {
    let all: Vec<String> = critical_tables().into_iter().map(|t| t.to_string()).collect();
    assert_eq!(all.len(), 7);
    assert!(missing_tables(&all).is_empty());
    assert_eq!(missing_tables(&Vec::new()), critical_tables());
    let some = vec!["settings".to_string(), "messages".to_string(), "other".to_string(), "characters".to_string()];
    assert_eq!(
        missing_tables(&some),
        vec!["personas", "conversations", "conversation_characters", "message_queue"]
    );
}

#[test]
fn siblings_are_counted_by_group() {
    let msgs = vec![
        message("r1", "k", None, true),
        message("r2", "k", None, false),
        message("a", "k", Some("r1"), true),
        message("b", "k", Some("r1"), false),
        message("c", "k", Some("r1"), false),
        message("d", "k", Some("a"), true),
        message("x", "other", Some("r1"), true),
    ];
    assert_eq!(MessageRepo::count_all_siblings(&msgs, "k"), vec![2, 2, 3, 3, 3, 1, 0]);
    assert_eq!(MessageRepo::count_all_siblings(&msgs, "other"), vec![0, 0, 0, 0, 0, 0, 1]);
    assert!(MessageRepo::count_all_siblings(&Vec::new(), "k").is_empty());
}

#[test]
fn budgets_and_stop_sequences_are_read_from_the_rows() {
    let row = |k: &str, v: &str| SettingRow { key: k.to_string(), value: v.to_string() };
    let defaults = SettingsRepo::get_all(&Vec::new());
    assert_eq!(defaults.generation.lorebook_budget, Some(500));
    assert_eq!(defaults.generation.response_reserve, Some(512));
    assert_eq!(defaults.generation.example_dialogue_budget, Some(500));
    assert_eq!(defaults.generation.stop_sequences, None);
    assert_eq!(defaults.model.sidecar_path, None);
    let rows = vec![
        row("generation.lorebook_budget", "200"),
        row("generation.response_reserve", "256"),
        row("generation.example_dialogue_budget", "many"),
        row("generation.stop_sequences", "[\"</s>\", \"User:\"]"),
        row("model.sidecar_path", "/opt/llama-server"),
    ];
    let settings = SettingsRepo::get_all(&rows);
    assert_eq!(settings.generation.lorebook_budget, Some(200));
    assert_eq!(settings.generation.response_reserve, Some(256));
    assert_eq!(settings.generation.example_dialogue_budget, Some(500));
    assert_eq!(settings.generation.stop_sequences, Some(vec!["</s>".to_string(), "User:".to_string()]));
    assert_eq!(settings.model.sidecar_path, Some("/opt/llama-server".to_string()));
    assert_eq!(settings.generation.max_tokens, 512);
    let broken = SettingsRepo::get_all(&vec![row("generation.stop_sequences", "</s>")]);
    assert_eq!(broken.generation.stop_sequences, None);
    let none = SettingsRepo::get_all(&vec![row("generation.stop_sequences", "[]")]);
    assert_eq!(none.generation.stop_sequences, Some(Vec::new()));
}

#[test]
fn summaries_of_a_conversation_are_removed() {
    let summary = |id: &str, conversation: &str| ConversationSummary {
        id: id.to_string(),
        conversation_id: conversation.to_string(),
        content: "so far".to_string(),
        message_range_start: None,
        message_range_end: None,
        message_count: 1,
        token_count: 2,
        created_at: 3,
    };
    let mut summaries = vec![summary("a", "k"), summary("b", "other"), summary("c", "k"), summary("d", "x")];
    SummaryService::delete_for_conversation(&mut summaries, "k");
    assert_eq!(summaries, vec![summary("b", "other"), summary("d", "x")]);
    SummaryService::delete_for_conversation(&mut summaries, "k");
    assert_eq!(summaries.len(), 2);
    SummaryService::delete_for_conversation(&mut summaries, "x");
    SummaryService::delete_for_conversation(&mut summaries, "other");
    assert!(summaries.is_empty());
}

#[test]
fn downloads_go_where_their_kind_belongs() {
    let input = |url: &str, kind: Option<&str>| glee::entities::StartDownloadInput {
        url: url.to_string(),
        checksum: Some("abc".to_string()),
        download_type: kind.map(|k| k.to_string()),
    };
    assert_eq!(
        DownloadService::target(&input("http://host/dir/model.gguf", None)),
        (false, "model.gguf".to_string())
    );
    assert_eq!(
        DownloadService::target(&input("http://host/server.zip", Some("binary"))),
        (true, "server.zip".to_string())
    );
    assert_eq!(DownloadService::target(&input("plain", Some("model"))), (false, "plain".to_string()));
    assert_eq!(DownloadService::target(&input("http://host/", Some("Binary"))), (false, String::new()));

    let mut downloads: Vec<Download> = Vec::new();
    let started = DownloadService::start_at(
        &mut downloads,
        input("http://host/model.gguf", None),
        "/place/model.gguf".to_string(),
        "d1".to_string(),
        7,
    )
    .unwrap();
    assert_eq!(started.destination_path, "/place/model.gguf");
    assert_eq!(started.url, "http://host/model.gguf");
    assert_eq!(started.status, DownloadStatus::Pending);
    assert_eq!((started.total_bytes, started.downloaded_bytes), (0, 0));
    assert_eq!(started.checksum, Some("abc".to_string()));
    assert_eq!((started.created_at, started.updated_at), (7, 7));
    assert_eq!(downloads, vec![started]);
    downloads[0].status = DownloadStatus::Downloading;
    assert_eq!(
        DownloadService::start_at(&mut downloads, input("u", None), "p".to_string(), "d2".to_string(), 8),
        Err(AppError::Download("Busy".to_string()))
    );
    assert_eq!(downloads.len(), 1);
}

#[test]
fn binary_places_are_named_by_their_parts() {
    let places = binary_places(Some("/opt/server"), "/res", Some("/exe"), true);
    let expected: Vec<Vec<String>> = vec![
        vec!["/opt/server"],
        vec!["resources", "llama-server.exe"],
        vec!["/res", "llama-server.exe"],
        vec!["/res", "resources", "llama-server.exe"],
        vec!["src-tauri/resources", "llama-server.exe"],
        vec!["/exe", "llama-server.exe"],
        vec!["/exe", "resources", "llama-server.exe"],
        vec!["llama-server.exe"],
    ]
    .into_iter()
    .map(|place| place.into_iter().map(|part| part.to_string()).collect())
    .collect();
    assert_eq!(places, expected);
    assert_eq!(binary_places(None, "/res", None, false).len(), 5);
    let paths = binary_candidates(Some("/opt/server"), "/res", Some("/exe"), true);
    assert_eq!(paths.len(), 8);
    assert_eq!(paths[0], "/opt/server");
    assert_eq!(paths[7], "llama-server.exe");
    let joined = std::path::Path::new("/res").join("resources").join("llama-server.exe");
    assert_eq!(paths[3], joined.to_string_lossy());
}

#[test]
fn clearing_a_conversation_removes_its_messages() {
    let mut c = conversation("k", Vec::new());
    c.active_message_id = Some("m3".to_string());
    let before = c.clone();
    let mut msgs = vec![
        message("m1", "k", None, true),
        message("o1", "other", None, true),
        message("m3", "k", Some("m1"), true),
        message("o2", "other", Some("o1"), false),
    ];
    ConversationService::clear_messages(&mut msgs, &mut c, 9);
    assert_eq!(msgs, vec![message("o1", "other", None, true), message("o2", "other", Some("o1"), false)]);
    assert_eq!(c.active_message_id, None);
    assert_eq!(c.updated_at, 9);
    assert_eq!(Conversation { active_message_id: before.active_message_id.clone(), updated_at: 1, ..c.clone() }, before);
    ConversationService::clear_messages(&mut msgs, &mut c, 10);
    assert_eq!(msgs.len(), 2);
}

#[test]
fn soft_deletes_keep_the_first_marker() {
    let mut books: Vec<Lorebook> = Vec::new();
    book(&mut books, "b1", false);
    LorebookRepo::delete(&mut books, "b1", 10);
    LorebookRepo::delete(&mut books, "b1", 20);
    assert_eq!(books[0].deleted_at, Some(10));
    let mut conversations = vec![conversation("k", Vec::new())];
    ConversationRepo::delete(&mut conversations, "k", 10);
    ConversationRepo::delete(&mut conversations, "k", 20);
    assert_eq!(conversations[0].deleted_at, Some(10));
    let mut personas: Vec<Persona> = Vec::new();
    let mut characters: Vec<Character> = Vec::new();
    seed_defaults(&mut personas, &mut characters, "me".to_string(), 1);
    PersonaRepo::delete(&mut personas, "me", 10);
    PersonaRepo::delete(&mut personas, "me", 20);
    assert_eq!(personas[0].deleted_at, Some(10));
}
