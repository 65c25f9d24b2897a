use glee::context::{
    assemble_system_prompt, build_llm_messages, identity_block, persona_block, recent_haystack,
    select_history, ContextResult, MemoryService, PromptMessage,
};
use glee::entities::{
    AppSettings, AuthorType, Character, Conversation, GenerationSettings, Lorebook, LorebookEntry,
    Message, ModelSettings, Persona, Settings,
};
use glee::error::AppError;
use glee::lorebook::{contains_whole_word, select_entries, LorebookService};
use glee::tokens::estimate_tokens;

fn character(name: &str) -> Character {
    Character {
        id: format!("char-{}", name),
        name: name.to_string(),
        description: String::new(),
        personality: String::new(),
        system_prompt: String::new(),
        first_message: String::new(),
        example_dialogues: String::new(),
        avatar_path: None,
        tags: vec![],
        is_bundled: false,
        created_at: 1,
        updated_at: 1,
        deleted_at: None,
    }
}

fn persona(name: &str, description: &str) -> Persona {
    Persona {
        id: format!("p-{}", name),
        name: name.to_string(),
        description: description.to_string(),
        is_default: true,
        created_at: 1,
        updated_at: 1,
        deleted_at: None,
    }
}

fn message(id: usize, author: AuthorType, content: &str, tokens: i32) -> Message {
    Message {
        id: format!("m{}", id),
        conversation_id: "conv".to_string(),
        parent_id: if id == 0 { None } else { Some(format!("m{}", id - 1)) },
        author_type: author,
        author_id: None,
        content: content.to_string(),
        is_active_branch: true,
        branch_index: 0,
        token_count: tokens,
        created_at: id as i64,
        author_name: None,
        sibling_count: None,
    }
}

fn entry(id: &str, keywords: &[&str], content: &str, priority: i32) -> LorebookEntry {
    LorebookEntry {
        id: id.to_string(),
        lorebook_id: "book".to_string(),
        name: id.to_string(),
        keywords: keywords.iter().map(|k| k.to_string()).collect(),
        content: content.to_string(),
        priority,
        is_enabled: true,
        case_sensitive: false,
        match_whole_word: false,
        insertion_position: "after_system".to_string(),
        token_budget: None,
        created_at: 1,
    }
}

fn book(id: &str, enabled: bool, entries: Vec<LorebookEntry>) -> Lorebook {
    Lorebook {
        id: id.to_string(),
        name: id.to_string(),
        description: String::new(),
        is_global: true,
        is_enabled: enabled,
        created_at: 1,
        updated_at: 1,
        deleted_at: None,
        entries,
    }
}

fn settings(lorebook_budget: Option<i32>, response_reserve: Option<i32>) -> Settings {
    Settings {
        generation: GenerationSettings {
            max_tokens: 512,
            context_size: 4096,
            lorebook_budget,
            response_reserve,
            example_dialogue_budget: Some(500),
            stop_sequences: None,
        },
        app: AppSettings { theme: "dark".to_string(), first_run: false },
        model: ModelSettings { path: String::new(), gpu_layers: 99, sidecar_path: None },
    }
}

fn conversation(characters: Vec<Character>) -> Conversation {
    Conversation {
        id: "conv".to_string(),
        title: "Chat".to_string(),
        persona_id: None,
        is_group: characters.len() > 1,
        active_message_id: None,
        created_at: 1,
        updated_at: 1,
        deleted_at: None,
        characters,
        lorebook_ids: vec![],
    }
}

#[test]
fn identity_uses_the_system_prompt_verbatim() {
    let mut c = character("Aria");
    c.system_prompt = "Be Aria.".to_string();
    c.description = "ignored".to_string();
    assert_eq!(identity_block(&c), "Be Aria.");
}

#[test]
fn identity_is_synthesized_from_name_description_personality() {
    let mut c = character("Aria");
    assert_eq!(identity_block(&c), "You are Aria.");
    c.description = "A pilot.".to_string();
    assert_eq!(identity_block(&c), "You are Aria.\nA pilot.");
    c.personality = "Dry wit.".to_string();
    assert_eq!(identity_block(&c), "You are Aria.\nA pilot.\nPersonality: Dry wit.");
    c.description = String::new();
    assert_eq!(identity_block(&c), "You are Aria.\nPersonality: Dry wit.");
}

#[test]
fn persona_block_needs_a_description() {
    assert_eq!(persona_block(&None), None);
    assert_eq!(persona_block(&Some(persona("Sam", ""))), None);
    assert_eq!(
        persona_block(&Some(persona("Sam", "A tired student."))),
        Some("User persona: A tired student.".to_string())
    );
}

#[test]
fn recent_text_joins_the_last_ten_newest_first() {
    let messages: Vec<Message> =
        (0..12).map(|i| message(i, AuthorType::User, &format!("t{}", i), 1)).collect();
    assert_eq!(recent_haystack(&messages), "t11 t10 t9 t8 t7 t6 t5 t4 t3 t2");
    assert_eq!(recent_haystack(&messages[..2].to_vec()), "t1 t0");
    assert_eq!(recent_haystack(&vec![]), "");
}

#[test]
fn whole_word_matching_respects_word_boundaries() {
    assert!(contains_whole_word(b"the red dragon sleeps", b"dragon"));
    assert!(contains_whole_word(b"dragon", b"dragon"));
    assert!(contains_whole_word(b"a dragon!", b"dragon"));
    assert!(!contains_whole_word(b"dragons", b"dragon"));
    assert!(!contains_whole_word(b"snapdragon", b"dragon"));
    assert!(!contains_whole_word(b"dragon_1", b"dragon"));
    assert!(contains_whole_word(b"dragons and a dragon", b"dragon"));
}

#[test]
fn entries_match_by_keyword_case_and_whole_word() {
    let mut sensitive = entry("e1", &["Dragon"], "lore 1", 1);
    sensitive.case_sensitive = true;
    let insensitive = entry("e2", &["DRAGON"], "lore 2", 1);
    let mut whole = entry("e3", &["drag"], "lore 3", 1);
    whole.match_whole_word = true;
    let mut disabled = entry("e4", &["dragon"], "lore 4", 1);
    disabled.is_enabled = false;
    let nokey = entry("e5", &[], "lore 5", 1);
    let found = select_entries(vec![sensitive, insensitive, whole, disabled, nokey], "a dragon");
    let ids: Vec<&str> = found.iter().map(|e| e.id.as_str()).collect();
    assert_eq!(ids, vec!["e2"]);
}

#[test]
fn entries_are_deduplicated_and_sorted_by_priority() {
    let candidates = vec![
        entry("low", &["sea"], "low", 1),
        entry("high", &["sea"], "high", 9),
        entry("mid-a", &["sea"], "mid a", 5),
        entry("high", &["sea"], "again", 100),
        entry("mid-b", &["sea"], "mid b", 5),
        entry("none", &["desert"], "none", 50),
    ];
    let found = select_entries(candidates, "The SEA is calm");
    let ids: Vec<&str> = found.iter().map(|e| e.id.as_str()).collect();
    assert_eq!(ids, vec!["high", "mid-a", "mid-b", "low"]);
    assert_eq!(found[0].content, "high");
}

#[test]
fn candidates_come_from_global_and_enabled_attached_books() {
    let global = vec![book("g", true, vec![entry("g1", &["sea"], "g1", 1)])];
    let attached = vec![
        book("a", true, vec![entry("a1", &["sea"], "a1", 2)]),
        book("off", false, vec![entry("o1", &["sea"], "o1", 3)]),
    ];
    let found = LorebookService::find_matching_entries(global, attached, "sea");
    let ids: Vec<&str> = found.iter().map(|e| e.id.as_str()).collect();
    assert_eq!(ids, vec!["a1", "g1"]);
}

#[test]
fn system_prompt_places_lore_around_the_identity() {
    let mut c = character("Aria");
    c.example_dialogues = "A: hi".to_string();
    let p = Some(persona("Sam", "Curious."));
    let mut before = entry("b", &["x"], "Before lore.", 9);
    before.insertion_position = "before_system".to_string();
    let after = entry("a", &["x"], "After lore.", 5);
    let prompt = assemble_system_prompt(&c, &p, &vec![before, after], 500);
    assert_eq!(
        prompt,
        "Before lore.\n\nYou are Aria.\n\nUser persona: Curious.\n\nAfter lore.\n\nExamples:\nA: hi"
    );
}

#[test]
fn lore_walk_stops_at_the_first_entry_over_budget() {
    let c = character("Aria");
    let small = entry("s", &["x"], "abcdefg", 9); // 2 tokens
    let big = entry("b", &["x"], &"x".repeat(70), 5); // 20 tokens
    let tiny = entry("t", &["x"], "abc", 1); // 1 token, but behind the big one
    let entries = vec![small, big, tiny];
    assert_eq!(assemble_system_prompt(&c, &None, &entries, 21), "You are Aria.\n\nabcdefg");
    assert_eq!(
        assemble_system_prompt(&c, &None, &entries, 23),
        format!("You are Aria.\n\nabcdefg\n\n{}\n\nabc", "x".repeat(70))
    );
    assert_eq!(assemble_system_prompt(&c, &None, &entries, 1), "You are Aria.");
}

#[test]
fn history_keeps_the_newest_messages_that_fit() {
    let messages: Vec<Message> =
        (0..5).map(|i| message(i, AuthorType::User, "x", 10)).collect();
    let (history, used) = select_history(&messages, 25);
    assert_eq!(history.iter().map(|m| m.id.as_str()).collect::<Vec<_>>(), vec!["m3", "m4"]);
    assert_eq!(used, 20);
    let (all, used_all) = select_history(&messages, 50);
    assert_eq!(all.len(), 5);
    assert_eq!(used_all, 50);
    let (none, used_none) = select_history(&messages, 9);
    assert!(none.is_empty());
    assert_eq!(used_none, 0);
    let (negative, _) = select_history(&messages, -1);
    assert!(negative.is_empty());
}

#[test]
fn history_never_skips_a_message_that_does_not_fit() {
    let messages = vec![
        message(0, AuthorType::User, "a", 1),
        message(1, AuthorType::User, "b", 100),
        message(2, AuthorType::User, "c", 1),
    ];
    let (history, used) = select_history(&messages, 5);
    assert_eq!(history.iter().map(|m| m.id.as_str()).collect::<Vec<_>>(), vec!["m2"]);
    assert_eq!(used, 1);
}

#[test]
fn budget_enforcement_over_a_long_history() {
    let mut aria = character("Aria");
    aria.description = "A friendly guide.".to_string();
    let messages: Vec<Message> = (0..120)
        .map(|i| {
            let author = if i % 2 == 0 { AuthorType::User } else { AuthorType::Character };
            message(i, author, &format!("message number {}", i), 30)
        })
        .collect();
    let ctx = MemoryService::build_context(
        &settings(Some(200), Some(256)),
        &conversation(vec![aria]),
        &messages,
        Some(persona("Sam", "")),
        vec![],
        vec![],
        1024,
    )
    .unwrap();
    let system_tokens = estimate_tokens(&ctx.system_prompt);
    let available = 1024 - system_tokens - 256;
    let sum: i32 = ctx.messages.iter().map(|m| m.token_count).sum();
    assert!(sum <= available);
    assert!(sum + 30 > available);
    assert_eq!(ctx.total_tokens, system_tokens + sum);
    assert_eq!(ctx.messages.len(), (available / 30) as usize);
    // The newest messages, whole and in chronological order.
    let first = 120 - ctx.messages.len();
    for (k, m) in ctx.messages.iter().enumerate() {
        assert_eq!(m, &messages[first + k]);
    }
    assert_eq!(ctx.character_name, "Aria");
    assert_eq!(ctx.persona_name, "Sam");
    assert_eq!(ctx.system_prompt, "You are Aria.\nA friendly guide.");
}

#[test]
fn context_uses_defaults_and_matching_lore() {
    let aria = character("Aria");
    let messages = vec![message(0, AuthorType::User, "Tell me about the Dragon", 6)];
    let global = vec![book("g", true, vec![entry("e", &["dragon"], "Dragons hoard gold.", 1)])];
    let ctx = MemoryService::build_context(
        &settings(None, None),
        &conversation(vec![aria]),
        &messages,
        None,
        global,
        vec![],
        4096,
    )
    .unwrap();
    assert_eq!(ctx.system_prompt, "You are Aria.\n\nDragons hoard gold.");
    assert_eq!(ctx.persona_name, "User");
    assert_eq!(ctx.messages.len(), 1);
    assert_eq!(ctx.total_tokens, estimate_tokens(&ctx.system_prompt) + 6);
}

#[test]
fn context_needs_a_character() {
    let result = MemoryService::build_context(
        &settings(None, None),
        &conversation(vec![]),
        &vec![],
        None,
        vec![],
        vec![],
        4096,
    );
    assert_eq!(result, Err(AppError::NotFound("No char".to_string())));
}

#[test]
fn prompt_messages_carry_roles_and_speaker_names() {
    let mut by_character = message(1, AuthorType::Character, "Hello.", 2);
    by_character.author_name = Some("Aria".to_string());
    let unnamed = message(2, AuthorType::Character, "Again.", 2);
    let ctx = ContextResult {
        system_prompt: "SYS".to_string(),
        messages: vec![
            message(0, AuthorType::User, "hi", 1),
            by_character,
            unnamed,
            message(3, AuthorType::System, "note", 1),
        ],
        character_name: "Aria".to_string(),
        persona_name: "Sam".to_string(),
        total_tokens: 10,
    };
    let prompt = build_llm_messages(&ctx, "Bela");
    let pair = |role: &str, content: &str| PromptMessage {
        role: role.to_string(),
        content: content.to_string(),
    };
    assert_eq!(
        prompt,
        vec![
            pair("system", "SYS"),
            pair("user", "Sam: hi"),
            pair("assistant", "Aria: Hello."),
            pair("assistant", "Bela: Again."),
            pair("system", "note"),
        ]
    );
    let mut anonymous = ctx.clone();
    anonymous.persona_name = String::new();
    assert_eq!(build_llm_messages(&anonymous, "Bela")[1], pair("user", "User: hi"));
}
