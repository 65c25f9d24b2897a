use glee::entities::{AuthorType, Character, Conversation, Message, QueueStatus, QueueTask};
use glee::error::{AppError, ErrorKind};
use glee::message_service::MessageService;
use glee::messages::{is_well_formed, MessageRepo};
use glee::state::AppState;
use glee::tokens::estimate_tokens;

fn msg(id: &str, parent: Option<&str>, active: bool, branch: i32) -> Message {
    Message {
        id: id.to_string(),
        conversation_id: "conv".to_string(),
        parent_id: parent.map(|p| p.to_string()),
        author_type: AuthorType::Character,
        author_id: Some("aria".to_string()),
        content: format!("text of {}", id),
        is_active_branch: active,
        branch_index: branch,
        token_count: 3,
        created_at: 1,
        author_name: Some("Aria".to_string()),
        sibling_count: None,
    }
}

fn user(id: &str, parent: Option<&str>, active: bool, branch: i32) -> Message {
    let mut m = msg(id, parent, active, branch);
    m.author_type = AuthorType::User;
    m.author_id = None;
    m.author_name = None;
    m
}

fn aria() -> Character {
    Character {
        id: "aria".to_string(),
        name: "Aria".to_string(),
        description: String::new(),
        personality: String::new(),
        system_prompt: String::new(),
        first_message: "Hi.".to_string(),
        example_dialogues: String::new(),
        avatar_path: None,
        tags: vec![],
        is_bundled: false,
        created_at: 1,
        updated_at: 1,
        deleted_at: None,
    }
}

fn conversation(active: Option<&str>) -> Conversation {
    Conversation {
        id: "conv".to_string(),
        title: "Chat with Aria".to_string(),
        persona_id: None,
        is_group: false,
        active_message_id: active.map(|a| a.to_string()),
        created_at: 1,
        updated_at: 1,
        deleted_at: None,
        characters: vec![aria()],
        lorebook_ids: vec![],
    }
}

/// root ─ u1 ─┬─ c1 (active) ─ u2 (active) ─ c3 (active)
///            └─ c2 ─ u3
fn tree() -> Vec<Message> {
    vec![
        msg("root", None, true, 0),
        user("u1", Some("root"), true, 0),
        msg("c1", Some("u1"), true, 0),
        user("u2", Some("c1"), true, 0),
        msg("c2", Some("u1"), false, 1),
        msg("c3", Some("u2"), true, 0),
        user("u3", Some("c2"), false, 0),
    ]
}

fn active_ids(msgs: &[Message]) -> Vec<&str> {
    msgs.iter().filter(|m| m.is_active_branch).map(|m| m.id.as_str()).collect()
}

fn ids(msgs: &[Message]) -> Vec<&str> {
    msgs.iter().map(|m| m.id.as_str()).collect()
}

/// The active messages are exactly the ancestors of the active message.
fn chain_holds(msgs: &[Message], active: &Option<String>) -> bool {
    let mut expected: Vec<String> = Vec::new();
    let mut cur = active.clone();
    while let Some(id) = cur {
        let m = match msgs.iter().find(|m| m.id == id) {
            Some(m) => m,
            None => return false,
        };
        expected.push(m.id.clone());
        cur = m.parent_id.clone();
    }
    msgs.iter().all(|m| m.is_active_branch == expected.contains(&m.id))
}

#[test]
fn well_formedness_needs_distinct_ids_and_parents_first() {
    assert!(is_well_formed(&tree()));
    assert!(is_well_formed(&vec![]));
    let mut twice = tree();
    twice.push(msg("c1", Some("u1"), false, 2));
    assert!(!is_well_formed(&twice));
    let orphan = vec![msg("a", Some("missing"), true, 0)];
    assert!(!is_well_formed(&orphan));
    let child_first = vec![msg("b", Some("a"), true, 0), msg("a", None, true, 0)];
    assert!(!is_well_formed(&child_first));
}

#[test]
fn next_branch_index_is_one_more_than_the_highest() {
    let msgs = tree();
    assert_eq!(MessageRepo::get_next_branch_index(&msgs, Some("u1"), "conv"), 2);
    assert_eq!(MessageRepo::get_next_branch_index(&msgs, Some("c3"), "conv"), 0);
    assert_eq!(MessageRepo::get_next_branch_index(&msgs, None, "conv"), 1);
    assert_eq!(MessageRepo::get_next_branch_index(&msgs, None, "other"), 0);
    assert_eq!(MessageRepo::get_next_branch_index(&vec![], None, "conv"), 0);
}

#[test]
fn deactivate_subtree_reaches_all_descendants() {
    let mut msgs = tree();
    MessageRepo::deactivate_subtree(&mut msgs, "c1");
    assert_eq!(active_ids(&msgs), vec!["root", "u1"]);
    let mut unchanged = tree();
    MessageRepo::deactivate_subtree(&mut unchanged, "missing");
    assert_eq!(unchanged, tree());
}

#[test]
fn activate_path_reaches_all_ancestors() {
    let mut msgs = tree();
    for m in msgs.iter_mut() {
        m.is_active_branch = false;
    }
    MessageRepo::activate_path_to_root(&mut msgs, "u3");
    assert_eq!(active_ids(&msgs), vec!["root", "u1", "c2", "u3"]);
}

#[test]
fn switch_branch_moves_the_chain_and_back() {
    let mut msgs = tree();
    let mut conv = conversation(Some("c3"));
    let chain = MessageService::switch_branch(&mut msgs, &mut conv, "c2", 50).unwrap();
    assert_eq!(ids(&chain), vec!["root", "u1", "c2", "u3"]);
    assert_eq!(active_ids(&msgs), vec!["root", "u1", "c2", "u3"]);
    assert_eq!(conv.active_message_id, Some("u3".to_string()));
    assert_eq!(conv.updated_at, 50);
    assert!(chain_holds(&msgs, &conv.active_message_id));
    // Switching back takes the lowest child at each step.
    let back = MessageService::switch_branch(&mut msgs, &mut conv, "c1", 60).unwrap();
    assert_eq!(ids(&back), vec!["root", "u1", "c1", "u2", "c3"]);
    assert_eq!(conv.active_message_id, Some("c3".to_string()));
    assert_eq!(msgs, tree());
    let missing = MessageService::switch_branch(&mut msgs, &mut conv, "nope", 70);
    assert_eq!(missing.map_err(|e| e.kind()), Err(ErrorKind::NotFound));
}

#[test]
fn switching_to_the_active_branch_extends_the_chain_to_the_deepest_leaf() {
    let mut msgs = tree();
    msgs.push(msg("c4", Some("c3"), false, 0));
    let mut conv = conversation(Some("c3"));
    MessageService::switch_branch(&mut msgs, &mut conv, "c1", 5).unwrap();
    assert_eq!(conv.active_message_id, Some("c4".to_string()));
    assert!(chain_holds(&msgs, &conv.active_message_id));
}

#[test]
fn siblings_and_children_come_by_branch_index() {
    let mut msgs = tree();
    msgs.push(msg("c0", Some("u1"), false, -1));
    let siblings = MessageService::get_siblings(&msgs, "c2").unwrap();
    assert_eq!(ids(&siblings), vec!["c0", "c1", "c2"]);
    assert_eq!(ids(&MessageRepo::find_children(&msgs, "u1")), vec!["c0", "c1", "c2"]);
    assert_eq!(ids(&MessageRepo::find_siblings(&msgs, "root").unwrap()), vec!["root"]);
    assert!(MessageRepo::find_children(&msgs, "u3").is_empty());
    assert_eq!(
        MessageRepo::find_siblings(&msgs, "nope").map_err(|e| e.kind()),
        Err(ErrorKind::NotFound)
    );
}

#[test]
fn deepest_active_follows_active_children() {
    let msgs = tree();
    assert_eq!(MessageRepo::find_deepest_active(&msgs, "root").unwrap().id, "c3");
    assert_eq!(MessageRepo::find_deepest_active(&msgs, "c2").unwrap().id, "c2");
    assert_eq!(MessageRepo::find_active_child(&msgs, "u1").unwrap().id, "c1");
    assert_eq!(MessageRepo::find_active_child(&msgs, "c2"), None);
    assert_eq!(ids(&MessageRepo::find_active_branch(&msgs, "conv")), vec!["root", "u1", "c1", "u2", "c3"]);
    assert!(MessageRepo::find_active_branch(&msgs, "other").is_empty());
}

#[test]
fn create_refuses_a_known_id_and_update_content_keeps_the_rest() {
    let mut msgs = tree();
    let known = msg("c1", Some("u1"), false, 5);
    assert_eq!(MessageRepo::create(&mut msgs, &known).map_err(|e| e.kind()), Err(ErrorKind::Database));
    assert_eq!(msgs, tree());
    let fresh = msg("new", Some("c3"), true, 0);
    assert_eq!(MessageRepo::create(&mut msgs, &fresh), Ok(fresh.clone()));
    assert_eq!(msgs.last(), Some(&fresh));
    MessageRepo::update_content(&mut msgs, "new", "How are you?", 4);
    let mut expected = fresh;
    expected.content = "How are you?".to_string();
    expected.token_count = 4;
    assert_eq!(msgs.last(), Some(&expected));
    MessageRepo::set_branch_active(&mut msgs, "new", false);
    assert!(!msgs.last().unwrap().is_active_branch);
}

#[test]
fn delete_cascades_to_descendants() {
    let mut msgs = tree();
    MessageRepo::delete(&mut msgs, "c1");
    assert_eq!(ids(&msgs), vec!["root", "u1", "c2", "u3"]);
    MessageRepo::delete(&mut msgs, "missing");
    assert_eq!(msgs.len(), 4);
}

#[test]
fn sending_an_empty_message_is_a_validation_error() {
    for content in ["", "   ", "\n\t ", "\u{a0}\u{3000}"] {
        let mut msgs = tree();
        let mut conv = conversation(Some("c3"));
        let mut tasks: Vec<QueueTask> = vec![];
        let result = MessageService::send_user_message(
            &mut msgs, &mut conv, &mut tasks, "conv", content, "m-new".to_string(),
            "t-new".to_string(), 9,
        );
        assert_eq!(result, Err(AppError::Validation("Empty message".to_string())));
        assert_eq!(msgs, tree());
        assert_eq!(conv, conversation(Some("c3")));
        assert!(tasks.is_empty());
    }
}

#[test]
fn sending_appends_an_active_user_message_and_a_task() {
    let mut msgs = tree();
    let mut conv = conversation(Some("c3"));
    let mut tasks: Vec<QueueTask> = vec![];
    let (m, t) = MessageService::send_user_message(
        &mut msgs, &mut conv, &mut tasks, "conv", "  hello  ", "m-new".to_string(),
        "t-new".to_string(), 9,
    )
    .unwrap();
    assert_eq!(m.content, "hello");
    assert_eq!(m.parent_id, Some("c3".to_string()));
    assert_eq!(m.author_type, AuthorType::User);
    assert_eq!(m.branch_index, 0);
    assert_eq!(m.token_count, estimate_tokens("hello"));
    assert!(m.is_active_branch);
    assert_eq!(msgs.last(), Some(&m));
    assert_eq!(conv.active_message_id, Some("m-new".to_string()));
    assert_eq!(t.status, QueueStatus::Pending);
    assert_eq!(t.parent_message_id, Some("m-new".to_string()));
    assert_eq!(t.target_character_id, Some("aria".to_string()));
    assert_eq!(t.priority, 0);
    assert_eq!(tasks, vec![t]);
    assert!(chain_holds(&msgs, &conv.active_message_id));
    assert!(is_well_formed(&msgs));
}

#[test]
fn sending_refuses_the_wrong_conversation_and_known_ids() {
    let mut msgs = tree();
    let mut conv = conversation(Some("c3"));
    let mut tasks: Vec<QueueTask> = vec![];
    let wrong = MessageService::send_user_message(
        &mut msgs, &mut conv, &mut tasks, "other", "hi", "m".to_string(), "t".to_string(), 9,
    );
    assert_eq!(wrong.map_err(|e| e.kind()), Err(ErrorKind::NotFound));
    let known = MessageService::send_user_message(
        &mut msgs, &mut conv, &mut tasks, "conv", "hi", "c1".to_string(), "t".to_string(), 9,
    );
    assert_eq!(known.map_err(|e| e.kind()), Err(ErrorKind::Database));
    assert_eq!(msgs, tree());
}

#[test]
fn regenerating_a_non_character_message_is_a_validation_error() {
    let mut msgs = tree();
    let mut conv = conversation(Some("c3"));
    let mut tasks: Vec<QueueTask> = vec![];
    let result =
        MessageService::regenerate_message(&mut msgs, &mut conv, &mut tasks, "u2", "t".to_string(), 9);
    assert_eq!(
        result,
        Err(AppError::Validation("Can only regenerate character messages".to_string()))
    );
    assert_eq!(msgs, tree());
    assert!(tasks.is_empty());
    let missing =
        MessageService::regenerate_message(&mut msgs, &mut conv, &mut tasks, "nope", "t".to_string(), 9);
    assert_eq!(missing.map_err(|e| e.kind()), Err(ErrorKind::NotFound));
}

#[test]
fn regenerating_deactivates_the_subtree_and_points_at_the_parent() {
    let mut msgs = tree();
    let mut conv = conversation(Some("c3"));
    let mut tasks: Vec<QueueTask> = vec![];
    let task = MessageService::regenerate_message(
        &mut msgs, &mut conv, &mut tasks, "c3", "t-regen".to_string(), 9,
    )
    .unwrap();
    assert_eq!(active_ids(&msgs), vec!["root", "u1", "c1", "u2"]);
    assert_eq!(conv.active_message_id, Some("u2".to_string()));
    assert_eq!(task.parent_message_id, Some("u2".to_string()));
    assert_eq!(task.target_character_id, Some("aria".to_string()));
    assert_eq!(task.status, QueueStatus::Pending);
    assert_eq!(tasks.len(), 1);
    assert!(chain_holds(&msgs, &conv.active_message_id));
}

#[test]
fn editing_adds_an_active_sibling_and_asks_for_an_answer() {
    let mut msgs = tree();
    let mut conv = conversation(Some("c3"));
    let mut tasks: Vec<QueueTask> = vec![];
    let edited = MessageService::edit_message(
        &mut msgs, &mut conv, &mut tasks, "u2", " new text ", "u2b".to_string(),
        "t-edit".to_string(), 9,
    )
    .unwrap();
    assert_eq!(edited.content, "new text");
    assert_eq!(edited.parent_id, Some("c1".to_string()));
    assert_eq!(edited.branch_index, 1);
    assert_eq!(edited.author_type, AuthorType::User);
    assert_eq!(active_ids(&msgs), vec!["root", "u1", "c1", "u2b"]);
    assert_eq!(conv.active_message_id, Some("u2b".to_string()));
    assert_eq!(tasks.len(), 1);
    assert_eq!(tasks[0].parent_message_id, Some("u2b".to_string()));
    assert!(chain_holds(&msgs, &conv.active_message_id));
    // Editing a character's message asks for no answer.
    let again = MessageService::edit_message(
        &mut msgs, &mut conv, &mut tasks, "c1", "rewritten", "c1b".to_string(),
        "t-none".to_string(), 10,
    )
    .unwrap();
    assert_eq!(again.branch_index, 2);
    assert_eq!(tasks.len(), 1);
    assert!(chain_holds(&msgs, &conv.active_message_id));
    let blank = MessageService::edit_message(
        &mut msgs, &mut conv, &mut tasks, "c1", "  ", "x".to_string(), "y".to_string(), 11,
    );
    assert_eq!(blank.map_err(|e| e.kind()), Err(ErrorKind::Validation));
}

#[test]
fn deleting_the_active_message_points_at_an_alternative_sibling() {
    let mut msgs = tree();
    let mut conv = conversation(Some("c3"));
    MessageService::delete(&mut msgs, &mut conv, "c1", 9).unwrap();
    assert_eq!(ids(&msgs), vec!["root", "u1", "c2", "u3"]);
    assert_eq!(conv.active_message_id, Some("u3".to_string()));
    assert_eq!(active_ids(&msgs), vec!["root", "u1", "c2", "u3"]);
    assert!(chain_holds(&msgs, &conv.active_message_id));
}

#[test]
fn deleting_the_active_message_without_sibling_points_at_the_parent() {
    let mut msgs = tree();
    let mut conv = conversation(Some("c3"));
    MessageService::delete(&mut msgs, &mut conv, "c3", 9).unwrap();
    assert_eq!(conv.active_message_id, Some("u2".to_string()));
    assert_eq!(active_ids(&msgs), vec!["root", "u1", "c1", "u2"]);
    assert!(chain_holds(&msgs, &conv.active_message_id));
}

#[test]
fn deleting_the_only_root_points_at_nothing() {
    let mut msgs = tree();
    let mut conv = conversation(Some("c3"));
    MessageService::delete(&mut msgs, &mut conv, "root", 9).unwrap();
    assert!(msgs.is_empty());
    assert_eq!(conv.active_message_id, None);
    assert!(chain_holds(&msgs, &conv.active_message_id));
}

#[test]
fn deleting_off_the_chain_keeps_the_pointer() {
    let mut msgs = tree();
    let mut conv = conversation(Some("c3"));
    MessageService::delete(&mut msgs, &mut conv, "c2", 9).unwrap();
    assert_eq!(ids(&msgs), vec!["root", "u1", "c1", "u2", "c3"]);
    assert_eq!(conv, conversation(Some("c3")));
    assert!(chain_holds(&msgs, &conv.active_message_id));
    let missing = MessageService::delete(&mut msgs, &mut conv, "nope", 9);
    assert_eq!(missing.map_err(|e| e.kind()), Err(ErrorKind::NotFound));
}

#[test]
fn stopping_frees_the_slot_and_cancels_the_open_tasks() {
    let task = |id: &str, conv: &str, status: QueueStatus| QueueTask {
        id: id.to_string(),
        conversation_id: conv.to_string(),
        parent_message_id: None,
        target_character_id: None,
        status,
        priority: 0,
        created_at: 1,
        started_at: None,
        completed_at: None,
        error_message: None,
    };
    let mut tasks = vec![
        task("a", "conv", QueueStatus::Processing),
        task("b", "conv", QueueStatus::Pending),
        task("c", "other", QueueStatus::Pending),
        task("d", "conv", QueueStatus::Completed),
    ];
    let mut state = AppState::new();
    assert!(state.try_start_generation("m".to_string(), "conv".to_string(), 100));
    let stopped = MessageService::stop_generation(&mut state, &mut tasks).unwrap();
    assert_eq!(stopped.message_id, "m");
    assert!(!state.is_generating());
    let statuses: Vec<QueueStatus> = tasks.iter().map(|t| t.status).collect();
    assert_eq!(
        statuses,
        vec![QueueStatus::Cancelled, QueueStatus::Cancelled, QueueStatus::Pending, QueueStatus::Completed]
    );
    assert_eq!(MessageService::stop_generation(&mut state, &mut tasks), None);
}
