use glee::characters::{CharacterRepo, CharacterService, ExportService, ImportKind};
use glee::conversations::ConversationService;
use glee::entities::{
    AuthorType, Character, CharacterCardDataV2, CharacterCardV1, CharacterCardV2,
    CreateCharacterInput, CreateConversationInput, CreatePersonaInput, DownloadStatus, Message,
    Persona, QueueStatus, Settings, UpdateCharacterInput, UpdateConversationInput,
    UpdatePersonaInput,
};
use glee::error::{AppError, CommandError, ErrorKind};
use glee::paths::AppPaths;
use glee::personas::{PersonaRepo, PersonaService};
use glee::settings::{run_migrations, strip_quotes, Migration, SettingRow, SettingsRepo};
use glee::tokens::estimate_tokens;

fn character(id: &str, first_message: &str) -> Character {
    Character {
        id: id.to_string(),
        name: format!("Name of {}", id),
        description: "desc".to_string(),
        personality: "pers".to_string(),
        system_prompt: String::new(),
        first_message: first_message.to_string(),
        example_dialogues: "ex".to_string(),
        avatar_path: None,
        tags: vec!["a".to_string(), "b".to_string()],
        is_bundled: false,
        created_at: 1,
        updated_at: 1,
        deleted_at: None,
    }
}

fn persona(id: &str, is_default: bool) -> Persona {
    Persona {
        id: id.to_string(),
        name: id.to_string(),
        description: String::new(),
        is_default,
        created_at: 1,
        updated_at: 1,
        deleted_at: None,
    }
}

fn defaults(personas: &[Persona]) -> usize {
    personas.iter().filter(|p| p.is_default).count()
}

fn input(name: &str, description: &str) -> CreateCharacterInput {
    CreateCharacterInput {
        name: name.to_string(),
        description: description.to_string(),
        personality: "p".to_string(),
        system_prompt: "s".to_string(),
        first_message: "f".to_string(),
        example_dialogues: "e".to_string(),
        avatar_path: Some("a.png".to_string()),
        tags: vec!["t".to_string()],
    }
}

#[test]
fn author_and_status_names_round_trip() {
    for a in [AuthorType::User, AuthorType::Character, AuthorType::System] {
        assert_eq!(AuthorType::from_str(a.as_str()), Ok(a));
        assert_eq!(a.to_string(), a.as_str());
    }
    assert_eq!(AuthorType::Character.as_str(), "character");
    assert_eq!(AuthorType::from_str("User"), Err(()));
    for s in [
        QueueStatus::Pending,
        QueueStatus::Processing,
        QueueStatus::Completed,
        QueueStatus::Failed,
        QueueStatus::Cancelled,
    ] {
        assert_eq!(QueueStatus::from_str(&s.to_string()), Ok(s));
    }
    assert_eq!(QueueStatus::Processing.to_string(), "processing");
    assert_eq!(QueueStatus::from_str("paused"), Err(()));
    for s in [
        DownloadStatus::Pending,
        DownloadStatus::Downloading,
        DownloadStatus::Completed,
        DownloadStatus::Failed,
        DownloadStatus::Cancelled,
        DownloadStatus::Paused,
    ] {
        assert_eq!(DownloadStatus::from_str(&s.to_string()), Ok(s));
    }
    assert_eq!(DownloadStatus::from_str(""), Err(()));
}

#[test]
fn errors_carry_a_code_and_a_message() {
    let cases = [
        (AppError::Database("d".to_string()), "DATABASE_ERROR", "Database error: d"),
        (AppError::NotFound("n".to_string()), "NOT_FOUND", "Not found: n"),
        (AppError::Validation("v".to_string()), "VALIDATION_ERROR", "Validation error: v"),
        (AppError::Io("i".to_string()), "IO_ERROR", "IO error: i"),
        (AppError::Json("j".to_string()), "JSON_ERROR", "JSON error: j"),
        (AppError::Http("h".to_string()), "HTTP_ERROR", "HTTP error: h"),
        (AppError::Sidecar("s".to_string()), "SIDECAR_ERROR", "Sidecar error: s"),
        (AppError::Llm("l".to_string()), "LLM_ERROR", "LLM error: l"),
        (AppError::Queue("q".to_string()), "QUEUE_ERROR", "Queue error: q"),
        (AppError::Download("w".to_string()), "DOWNLOAD_ERROR", "Download error: w"),
        (AppError::Import("m".to_string()), "IMPORT_ERROR", "Import error: m"),
        (AppError::Export("x".to_string()), "EXPORT_ERROR", "Export error: x"),
        (AppError::Other("o".to_string()), "UNKNOWN_ERROR", "o"),
    ];
    for (error, code, message) in cases {
        assert_eq!(error.code(), code);
        assert_eq!(error.to_string(), message);
        let command = CommandError::from(error);
        assert_eq!(command.code, code);
        assert_eq!(command.message, message);
    }
    assert_eq!(AppError::Llm("x".to_string()).kind(), ErrorKind::Llm);
}

#[test]
fn paths_lie_under_the_data_directory() {
    let paths = AppPaths::new("/data/glee");
    assert_eq!(paths.database_path, "/data/glee/glee.db");
    assert_eq!(paths.avatars_dir, "/data/glee/avatars");
    assert_eq!(paths.models_dir, "/data/glee/models");
    assert_eq!(paths.exports_dir, "/data/glee/exports");
    assert_eq!(paths.logs_dir, "/data/glee/logs");
    assert_eq!(paths.default_model_path(), "/data/glee/models/model.gguf");
    assert_eq!(paths.model_file_path("tiny.gguf"), "/data/glee/models/tiny.gguf");
    assert_eq!(paths.avatar_file_path("a.png"), "/data/glee/avatars/a.png");
}

#[test]
fn at_most_one_persona_is_the_default() {
    let mut personas = vec![persona("a", true), persona("b", false)];
    let created = PersonaRepo::create(
        &mut personas,
        &CreatePersonaInput { name: "c".to_string(), description: String::new(), is_default: true },
        "c".to_string(),
        5,
    );
    assert!(created.is_default);
    assert_eq!(defaults(&personas), 1);
    assert!(personas[2].is_default);
    PersonaRepo::create(
        &mut personas,
        &CreatePersonaInput { name: "d".to_string(), description: String::new(), is_default: false },
        "d".to_string(),
        6,
    );
    assert_eq!(defaults(&personas), 1);
    let b = PersonaRepo::set_default(&mut personas, "b", 7).unwrap();
    assert!(b.is_default);
    assert_eq!(b.updated_at, 7);
    assert_eq!(defaults(&personas), 1);
    assert_eq!(PersonaRepo::find_default(&personas).unwrap().id, "b");
    let update = UpdatePersonaInput { name: Some("A!".to_string()), description: None, is_default: Some(true) };
    let a = PersonaRepo::update(&mut personas, "a", &update, 8).unwrap();
    assert_eq!(a.name, "A!");
    assert!(a.is_default);
    assert_eq!(defaults(&personas), 1);
    let off = UpdatePersonaInput { name: None, description: Some("x".to_string()), is_default: Some(false) };
    PersonaRepo::update(&mut personas, "a", &off, 9).unwrap();
    assert_eq!(defaults(&personas), 0);
    assert_eq!(PersonaRepo::find_default(&personas), None);
    assert_eq!(
        PersonaRepo::set_default(&mut personas, "missing", 10).map_err(|e| e.kind()),
        Err(ErrorKind::NotFound)
    );
    assert_eq!(defaults(&personas), 0);
}

#[test]
fn default_persona_cannot_be_deleted() {
    let mut personas = vec![persona("a", true), persona("b", false)];
    assert_eq!(
        PersonaService::delete(&mut personas, "a", 5),
        Err(AppError::Validation("Cannot delete the default persona".to_string()))
    );
    assert_eq!(personas[0].deleted_at, None);
    assert_eq!(PersonaService::delete(&mut personas, "b", 5), Ok(()));
    assert_eq!(personas[1].deleted_at, Some(5));
    assert_eq!(
        PersonaService::delete(&mut personas, "b", 6).map_err(|e| e.kind()),
        Err(ErrorKind::NotFound)
    );
    assert_eq!(PersonaRepo::find_by_id(&personas, "b").map_err(|e| e.kind()), Err(ErrorKind::NotFound));
    assert_eq!(PersonaRepo::resolve(&personas, Some("a")).unwrap().id, "a");
    assert_eq!(PersonaRepo::resolve(&personas, Some("b")), None);
    assert_eq!(PersonaRepo::resolve(&personas, None).unwrap().id, "a");
}

#[test]
fn persona_names_must_not_be_blank() {
    let blank = CreatePersonaInput { name: "  ".to_string(), description: String::new(), is_default: false };
    assert_eq!(PersonaService::create(blank), Err(AppError::Validation("Name is required".to_string())));
    let ok = CreatePersonaInput { name: " Sam ".to_string(), description: "d".to_string(), is_default: true };
    let clean = PersonaService::create(ok).unwrap();
    assert_eq!(clean.name, "Sam");
    assert!(clean.is_default);
    let update = UpdatePersonaInput { name: Some(" ".to_string()), description: None, is_default: None };
    assert_eq!(PersonaService::update(&update).map_err(|e| e.kind()), Err(ErrorKind::Validation));
    let none = UpdatePersonaInput { name: None, description: None, is_default: None };
    assert_eq!(PersonaService::update(&none), Ok(()));
}

#[test]
fn character_input_is_checked_and_trimmed() {
    assert_eq!(CharacterService::create(input("  Aria ", "d")).unwrap().name, "Aria");
    assert_eq!(
        CharacterService::create(input(" \n", "d")),
        Err(AppError::Validation("Name is required".to_string()))
    );
    assert_eq!(
        CharacterService::create(input(&"n".repeat(101), "d")),
        Err(AppError::Validation("Name must be 100 characters or less".to_string()))
    );
    assert!(CharacterService::create(input(&"n".repeat(100), "d")).is_ok());
    assert!(CharacterService::create(input(&"é".repeat(51), "d")).is_err());
    assert_eq!(
        CharacterService::create(input("Aria", &"d".repeat(50001))),
        Err(AppError::Validation("Description is too long".to_string()))
    );
    assert!(CharacterService::create(input("Aria", &"d".repeat(50000))).is_ok());
    let update = UpdateCharacterInput {
        name: Some("\t".to_string()),
        description: None,
        personality: None,
        system_prompt: None,
        first_message: None,
        example_dialogues: None,
        avatar_path: None,
        tags: None,
    };
    assert_eq!(
        CharacterService::update(&update),
        Err(AppError::Validation("Name cannot be empty".to_string()))
    );
}

#[test]
fn soft_deleting_twice_leaves_one_marker() {
    let mut characters = vec![character("a", ""), character("b", "")];
    CharacterRepo::delete(&mut characters, "a", 10);
    assert_eq!(characters[0].deleted_at, Some(10));
    assert_eq!(characters[1].deleted_at, None);
    let once = characters.clone();
    CharacterRepo::delete(&mut characters, "a", 10);
    assert_eq!(characters, once);
    CharacterRepo::delete(&mut characters, "a", 20);
    assert_eq!(characters, once);
    assert_eq!(characters[0].deleted_at, Some(10));
    assert_eq!(characters[0].tags, vec!["a".to_string(), "b".to_string()]);
    assert!(CharacterRepo::find_by_id(&characters, "a").is_err());
    assert!(CharacterRepo::find_all(&characters).iter().all(|c| c.id != "a"));
    assert_eq!(characters[1], character("b", ""));
}

#[test]
fn cards_become_character_inputs() {
    let data = CharacterCardDataV2 {
        name: " Aria ".to_string(),
        description: "A guide.".to_string(),
        personality: "Warm.".to_string(),
        scenario: "A tavern.".to_string(),
        first_mes: "Hi.".to_string(),
        mes_example: "ex".to_string(),
        system_prompt: "sys".to_string(),
        tags: (0..25).map(|i| format!("t{}", i)).collect(),
        creator_notes: None,
        creator: None,
        character_version: None,
    };
    let v2 = CharacterCardV2 { spec: "chara_card_v2".to_string(), spec_version: "2.0".to_string(), data };
    let v1 = CharacterCardV1 {
        name: "Old".to_string(),
        description: "Flat.".to_string(),
        personality: "p".to_string(),
        scenario: String::new(),
        first_mes: "Yo.".to_string(),
        mes_example: "e".to_string(),
    };
    let from_v2 =
        CharacterService::import_card(100, Some(v2.clone()), Some(v1.clone()), Some("a.png".to_string()))
            .unwrap();
    assert_eq!(from_v2.name, "Aria");
    assert_eq!(from_v2.description, "A guide.\n\nScenario: A tavern.");
    assert_eq!(from_v2.system_prompt, "sys");
    assert_eq!(from_v2.first_message, "Hi.");
    assert_eq!(from_v2.tags.len(), 20);
    assert_eq!(from_v2.tags[19], "t19");
    assert_eq!(from_v2.avatar_path, Some("a.png".to_string()));
    let from_v1 = CharacterService::import_card(100, None, Some(v1), None).unwrap();
    assert_eq!(from_v1.name, "Old");
    assert_eq!(from_v1.description, "Flat.");
    assert_eq!(from_v1.system_prompt, "");
    assert!(from_v1.tags.is_empty());
    assert_eq!(
        CharacterService::import_card(2_000_001, Some(v2), None, None),
        Err(AppError::Import("Character card data too large".to_string()))
    );
    assert_eq!(
        CharacterService::import_card(10, None, None, None),
        Err(AppError::Import("Invalid character card format".to_string()))
    );
}

#[test]
fn export_and_import_round_trip_a_character() {
    let c = character("aria", "Hi.");
    let exported = ExportService::export_character(
        c.clone(),
        Some(vec![0x89, b'P', b'N', b'G']),
        "2026-01-01T00:00:00+00:00".to_string(),
    )
    .unwrap();
    assert_eq!(exported.glee_export_version, "1.0");
    assert_eq!(exported.export_type, "character");
    assert_eq!(exported.avatar_base64, Some("data:image/png;base64,iVBORw==".to_string()));
    assert_eq!(
        ExportService::decode_avatar(exported.avatar_base64.as_deref().unwrap()),
        Ok(vec![0x89, b'P', b'N', b'G'])
    );
    let input = ExportService::import_character(exported, Some("new.png".to_string()));
    assert_eq!(input.name, c.name);
    assert_eq!(input.description, c.description);
    assert_eq!(input.personality, c.personality);
    assert_eq!(input.first_message, c.first_message);
    assert_eq!(input.example_dialogues, c.example_dialogues);
    assert_eq!(input.tags, c.tags);
    assert_eq!(input.avatar_path, Some("new.png".to_string()));
    let bare = ExportService::export_character(c, None, "t".to_string()).unwrap();
    assert_eq!(bare.avatar_base64, None);
}

#[test]
fn avatars_that_are_no_base64_are_refused() {
    assert_eq!(ExportService::decode_avatar("aGk="), Ok(b"hi".to_vec()));
    assert_eq!(ExportService::decode_avatar("data:image/jpeg;base64,aGk="), Ok(b"hi".to_vec()));
    assert_eq!(
        ExportService::decode_avatar("data:image/png;base64,***").map_err(|e| e.kind()),
        Err(ErrorKind::Import)
    );
}

#[test]
fn import_data_knows_character_exports() {
    let data = "{\"glee_export_version\":\"1.0\",\"export_type\":\"character\"}";
    assert_eq!(ExportService::import_data(data), Ok(ImportKind::Character));
    assert_eq!(
        ExportService::import_data("{\"export_type\":\"character\"}"),
        Err(AppError::Import("Unknown format".to_string()))
    );
}

#[test]
fn conversation_needs_its_characters_and_persona() {
    let characters = vec![character("a", "Hello!"), character("b", "")];
    let personas = vec![persona("p", false), persona("d", true)];
    let make = |ids: &[&str], title: Option<&str>, persona_id: Option<&str>| CreateConversationInput {
        character_ids: ids.iter().map(|i| i.to_string()).collect(),
        title: title.map(|t| t.to_string()),
        persona_id: persona_id.map(|p| p.to_string()),
    };
    let create = |input: &CreateConversationInput| {
        ConversationService::create(&characters, &personas, input, "conv".to_string(), "m".to_string(), 3)
    };
    assert_eq!(
        create(&make(&[], None, None)),
        Err(AppError::Validation("At least one character is required".to_string()))
    );
    assert_eq!(create(&make(&["a", "zz"], None, None)).map_err(|e| e.kind()), Err(ErrorKind::NotFound));
    assert_eq!(create(&make(&["a"], None, Some("zz"))).map_err(|e| e.kind()), Err(ErrorKind::NotFound));
    let (group, first) = create(&make(&["b", "a"], None, Some("p"))).unwrap();
    assert!(group.is_group);
    assert_eq!(group.title, "Group Chat");
    assert_eq!(group.persona_id, Some("p".to_string()));
    assert_eq!(group.characters.iter().map(|c| c.id.as_str()).collect::<Vec<_>>(), vec!["b", "a"]);
    assert_eq!(first, None);
    assert_eq!(group.active_message_id, None);
    let (single, first) = create(&make(&["a"], Some("Evening"), None)).unwrap();
    assert!(!single.is_group);
    assert_eq!(single.title, "Evening");
    assert_eq!(single.persona_id, Some("d".to_string()));
    let first = first.unwrap();
    assert_eq!(first.content, "Hello!");
    assert_eq!(first.token_count, estimate_tokens("Hello!"));
    assert_eq!(first.author_id, Some("a".to_string()));
    assert_eq!(single.active_message_id, Some("m".to_string()));
    let blank = UpdateConversationInput { title: Some(" ".to_string()), persona_id: None };
    assert_eq!(
        ConversationService::update(&blank),
        Err(AppError::Validation("Title cannot be empty".to_string()))
    );
}

#[test]
fn messages_are_read_with_their_sibling_counts() {
    let m = |id: &str, parent: Option<&str>, active: bool, conv: &str| Message {
        id: id.to_string(),
        conversation_id: conv.to_string(),
        parent_id: parent.map(|p| p.to_string()),
        author_type: AuthorType::User,
        author_id: None,
        content: id.to_string(),
        is_active_branch: active,
        branch_index: 0,
        token_count: 1,
        created_at: 1,
        author_name: None,
        sibling_count: None,
    };
    let msgs = vec![
        m("r1", None, true, "conv"),
        m("r2", None, false, "conv"),
        m("x", None, true, "other"),
        m("a", Some("r1"), false, "conv"),
        m("b", Some("r1"), true, "conv"),
        m("c", Some("r1"), false, "conv"),
    ];
    let chain = ConversationService::get_messages(&msgs, "conv");
    let seen: Vec<(&str, Option<i32>)> =
        chain.iter().map(|m| (m.id.as_str(), m.sibling_count)).collect();
    assert_eq!(seen, vec![("r1", Some(2)), ("b", Some(3))]);
}

#[test]
fn settings_are_read_from_rows_with_defaults() {
    let row = |k: &str, v: &str| SettingRow { key: k.to_string(), value: v.to_string() };
    assert_eq!(SettingsRepo::get_all(&vec![]), Settings::default());
    let rows = vec![
        row("generation.max_tokens", "1024"),
        row("generation.context_size", "many"),
        row("app.theme", "\"light\""),
        row("app.first_run", "false"),
        row("model.path", "/m/x.gguf"),
        row("model.gpu_layers", "-1"),
        row("generation.max_tokens", "2048"),
        row("unknown.key", "1"),
    ];
    let s = SettingsRepo::get_all(&rows);
    assert_eq!(s.generation.max_tokens, 2048);
    assert_eq!(s.generation.context_size, 4096);
    assert_eq!(s.generation.lorebook_budget, Some(500));
    assert_eq!(s.generation.response_reserve, Some(512));
    assert_eq!(s.app.theme, "light");
    assert!(!s.app.first_run);
    assert_eq!(s.model.path, "/m/x.gguf");
    assert_eq!(s.model.gpu_layers, -1);
    assert_eq!(strip_quotes("\"a\"b\"\""), "ab");
    assert!(SettingsRepo::get_all(&vec![row("app.first_run", "TRUE")]).app.first_run == false);
}

#[test]
fn setting_batches_need_dotted_keys() {
    let row = |k: &str| SettingRow { key: k.to_string(), value: "v".to_string() };
    assert_eq!(SettingsRepo::check_batch(&vec![row("a.b"), row("c.d.e")]), Ok(()));
    assert_eq!(SettingsRepo::check_batch(&vec![]), Ok(()));
    assert_eq!(
        SettingsRepo::check_batch(&vec![row("a.b"), row("plain")]),
        Err(AppError::Validation("Invalid setting key format: plain".to_string()))
    );
}

#[test]
fn migrations_are_applied_once() {
    assert_eq!(
        run_migrations(&vec![]),
        vec![Migration::InitialSchema, Migration::Embeddings, Migration::FixSchema]
    );
    assert_eq!(run_migrations(&vec![1]), vec![Migration::Embeddings, Migration::FixSchema]);
    assert_eq!(run_migrations(&vec![6, 1, 2]), vec![Migration::Embeddings]);
    let mut log = vec![5];
    for m in run_migrations(&log) {
        log.push(m.id());
    }
    assert_eq!(log, vec![5, 1, 6]);
    assert!(run_migrations(&log).is_empty());
    assert_eq!(Migration::Embeddings.name(), "005_embeddings");
    assert_eq!(Migration::InitialSchema.id(), 1);
}
