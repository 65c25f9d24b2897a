use glee::conversations::ConversationService;
use glee::entities::{
    AuthorType, Character, ChatErrorEvent, Conversation, CreateConversationInput, Message,
    Persona, QueueStatus, QueueTask,
};
use glee::error::ErrorKind;
use glee::message_service::MessageService;
use glee::messages::MessageRepo;
use glee::scheduler::{
    claim_next_task, conclude, create_placeholder, fail_task, gate, on_health, on_wake,
    reserve_or_roll_back, Claim, Effect, Gate, GenerationOutcome, GenerationRun, RunStep, Wake,
    WorkerStep,
};
use glee::sse::{GenerationEvent, SseReader};
use glee::state::{AppState, QueueMessage};

fn aria() -> Character {
    Character {
        id: "aria".to_string(),
        name: "Aria".to_string(),
        description: String::new(),
        personality: String::new(),
        system_prompt: String::new(),
        first_message: "Hi.".to_string(),
        example_dialogues: String::new(),
        avatar_path: None,
        tags: vec!["assistant".to_string()],
        is_bundled: false,
        created_at: 1,
        updated_at: 1,
        deleted_at: None,
    }
}

struct World {
    state: AppState,
    characters: Vec<Character>,
    conv: Conversation,
    msgs: Vec<Message>,
    tasks: Vec<QueueTask>,
}

/// A conversation with Aria, whose first message is "Hi.".
fn first_turn() -> World {
    let characters = vec![aria()];
    let personas: Vec<Persona> = vec![];
    let input = CreateConversationInput {
        character_ids: vec!["aria".to_string()],
        title: None,
        persona_id: None,
    };
    let (conv, first) = ConversationService::create(
        &characters, &personas, &input, "conv".to_string(), "m-first".to_string(), 1,
    )
    .unwrap();
    let mut state = AppState::new();
    state.set_sidecar(true);
    World { state, characters, conv, msgs: first.into_iter().collect(), tasks: vec![] }
}

fn chain_holds(msgs: &[Message], active: &Option<String>) -> bool {
    let mut expected: Vec<String> = Vec::new();
    let mut cur = active.clone();
    while let Some(id) = cur {
        let m = match msgs.iter().find(|m| m.id == id) {
            Some(m) => m,
            None => return false,
        };
        expected.push(m.id.clone());
        cur = m.parent_id.clone();
    }
    msgs.iter().all(|m| m.is_active_branch == expected.contains(&m.id))
}

fn processing(tasks: &[QueueTask]) -> usize {
    tasks.iter().filter(|t| t.status == QueueStatus::Processing).count()
}

/// Runs one iteration of the worker up to the open stream.
fn begin(w: &mut World, message_id: &str, now: i64) -> QueueTask {
    assert_eq!(gate(&w.state), Gate::CheckHealth);
    assert_eq!(on_health(&mut w.state, true), None);
    let (task, character) = match claim_next_task(&mut w.tasks, &w.characters, now) {
        Claim::Ready { task, character } => (task, character),
        other => panic!("no task ready: {:?}", other),
    };
    assert_eq!(processing(&w.tasks), 1);
    create_placeholder(
        &mut w.msgs, &mut w.conv, &task, &w.characters[character], message_id.to_string(), now,
    )
    .unwrap();
    assert!(reserve_or_roll_back(
        &mut w.state, &mut w.msgs, &mut w.conv, &mut w.tasks, &task, message_id, 1_000, now
    ));
    task
}

/// Feeds SSE bodies through the reader and the run, and returns what became visible.
fn stream(bodies: &[&str]) -> (Vec<String>, Option<GenerationOutcome>) {
    let mut reader = SseReader::new();
    let mut run = GenerationRun::new("Aria");
    let mut visible = Vec::new();
    for body in bodies {
        for event in reader.on_chunk(body.as_bytes()) {
            match run.on_event(event) {
                RunStep::Tokens(tokens) => visible.extend(tokens),
                RunStep::Finished(tokens) => {
                    visible.extend(tokens);
                    return (visible, Some(GenerationOutcome::Completed(run.content())));
                }
                RunStep::Cancelled => return (visible, Some(GenerationOutcome::Cancelled)),
                RunStep::Failed(e) => return (visible, Some(GenerationOutcome::Failed(e))),
            }
        }
    }
    (visible, None)
}

fn sse(content: &str, finish: Option<&str>) -> String {
    let finish = match finish {
        Some(f) => format!("\"{}\"", f),
        None => "null".to_string(),
    };
    format!(
        "data: {{\"choices\":[{{\"delta\":{{\"content\":\"{}\"}},\"finish_reason\":{}}}]}}\n\n",
        content, finish
    )
}

#[test]
fn wake_sources_decide_the_step() {
    assert_eq!(on_wake(Wake::Shutdown), WorkerStep::Exit);
    assert_eq!(on_wake(Wake::Message(QueueMessage::Process)), WorkerStep::Process);
    assert_eq!(on_wake(Wake::Message(QueueMessage::Stop)), WorkerStep::Exit);
    assert_eq!(on_wake(Wake::Closed), WorkerStep::Exit);
    assert_eq!(on_wake(Wake::Tick), WorkerStep::CheckTimeoutThenProcess);
}

#[test]
fn gate_is_idle_without_model_and_while_generating() {
    let mut state = AppState::new();
    assert_eq!(gate(&state), Gate::Idle);
    state.set_sidecar(true);
    assert_eq!(gate(&state), Gate::CheckHealth);
    state.try_start_generation("m".to_string(), "c".to_string(), 1);
    assert_eq!(gate(&state), Gate::Idle);
}

#[test]
fn failed_health_check_releases_the_process() {
    let mut state = AppState::new();
    state.set_sidecar(true);
    let event = on_health(&mut state, false).unwrap();
    assert_eq!(event.status, "error");
    assert_eq!(
        event.message,
        Some("AI model stopped unexpectedly. Please restart from Settings.".to_string())
    );
    assert!(!state.is_model_loaded());
    assert_eq!(gate(&state), Gate::Idle);
}

#[test]
fn scenario_first_turn() {
    let w = first_turn();
    assert_eq!(w.msgs.len(), 1);
    let first = &w.msgs[0];
    assert_eq!(first.content, "Hi.");
    assert_eq!(first.branch_index, 0);
    assert!(first.is_active_branch);
    assert_eq!(first.parent_id, None);
    assert_eq!(first.author_type, AuthorType::Character);
    assert_eq!(w.conv.active_message_id, Some(first.id.clone()));
    assert_eq!(w.conv.title, "Chat with Aria");
    assert!(!w.conv.is_group);
}

#[test]
fn scenario_user_send_and_generation() {
    let mut w = first_turn();
    let (user, _) = MessageService::send_user_message(
        &mut w.msgs, &mut w.conv, &mut w.tasks, "conv", "hello", "m-user".to_string(),
        "t1".to_string(), 2,
    )
    .unwrap();
    assert_eq!(user.branch_index, 0);
    assert_eq!(user.parent_id, Some("m-first".to_string()));
    let task = begin(&mut w, "m-answer", 3);
    let placeholder = w.msgs.last().unwrap().clone();
    assert_eq!(placeholder.content, "");
    assert_eq!(placeholder.token_count, 0);
    assert_eq!(placeholder.author_type, AuthorType::Character);
    assert_eq!(placeholder.parent_id, Some("m-user".to_string()));
    assert!(w.state.is_generating_message("m-answer"));
    let (visible, outcome) = stream(&[
        &sse("How", None),
        &sse(" are", None),
        &sse(" you?", Some("stop")),
    ]);
    assert_eq!(visible.concat(), "How are you?");
    let outcome = outcome.unwrap();
    assert_eq!(outcome, GenerationOutcome::Completed("How are you?".to_string()));
    let effects = conclude(
        &mut w.state, &mut w.msgs, &mut w.conv, &mut w.tasks, &task, "aria", "m-answer", outcome, 4,
    );
    let answer = w.msgs.last().unwrap().clone();
    assert_eq!(answer.content, "How are you?");
    assert_eq!(answer.token_count, 4);
    assert!(answer.is_active_branch);
    assert_eq!(w.conv.active_message_id, Some("m-answer".to_string()));
    assert_eq!(w.tasks[0].status, QueueStatus::Completed);
    assert_eq!(w.tasks[0].completed_at, Some(4));
    assert!(!w.state.is_generating());
    assert_eq!(processing(&w.tasks), 0);
    assert_eq!(effects.len(), 4);
    match &effects[0] {
        Effect::ChatComplete(e) => {
            assert_eq!(e.conversation_id, "conv");
            assert_eq!(e.message, answer);
        }
        other => panic!("unexpected {:?}", other),
    }
    assert_eq!(effects[1], Effect::Summarize { conversation_id: "conv".to_string() });
    assert_eq!(
        effects[2],
        Effect::ExtractMemory {
            message_id: "m-user".to_string(),
            character_id: "aria".to_string(),
            conversation_id: "conv".to_string()
        }
    );
    assert_eq!(
        effects[3],
        Effect::ExtractMemory {
            message_id: "m-answer".to_string(),
            character_id: "aria".to_string(),
            conversation_id: "conv".to_string()
        }
    );
    assert!(chain_holds(&w.msgs, &w.conv.active_message_id));
}

fn after_first_answer() -> World {
    let mut w = first_turn();
    MessageService::send_user_message(
        &mut w.msgs, &mut w.conv, &mut w.tasks, "conv", "hello", "m-user".to_string(),
        "t1".to_string(), 2,
    )
    .unwrap();
    let task = begin(&mut w, "m-answer", 3);
    let (_, outcome) = stream(&[&sse("How are you?", Some("stop"))]);
    conclude(
        &mut w.state, &mut w.msgs, &mut w.conv, &mut w.tasks, &task, "aria", "m-answer",
        outcome.unwrap(), 4,
    );
    w
}

#[test]
fn scenario_regenerate() {
    let mut w = after_first_answer();
    let before = w.msgs.clone();
    MessageService::regenerate_message(
        &mut w.msgs, &mut w.conv, &mut w.tasks, "m-answer", "t2".to_string(), 5,
    )
    .unwrap();
    assert!(!w.msgs.iter().find(|m| m.id == "m-answer").unwrap().is_active_branch);
    assert_eq!(w.conv.active_message_id, Some("m-user".to_string()));
    let task = begin(&mut w, "m-again", 6);
    assert_eq!(w.msgs.last().unwrap().branch_index, 1);
    let (_, outcome) = stream(&[&sse("Fine.", None), "data: [DONE]\n\n"]);
    conclude(
        &mut w.state, &mut w.msgs, &mut w.conv, &mut w.tasks, &task, "aria", "m-again",
        outcome.unwrap(), 7,
    );
    assert_eq!(w.msgs.last().unwrap().content, "Fine.");
    assert_eq!(MessageRepo::find_siblings(&w.msgs, "m-again").unwrap().len(), 2);
    assert!(chain_holds(&w.msgs, &w.conv.active_message_id));
    let chain = MessageService::switch_branch(&mut w.msgs, &mut w.conv, "m-answer", 8).unwrap();
    assert_eq!(chain, before);
    assert_eq!(w.conv.active_message_id, Some("m-answer".to_string()));
    assert_eq!(&w.msgs[..3], &before[..]);
}

#[test]
fn scenario_stall_recovery() {
    let mut w = after_first_answer();
    MessageService::send_user_message(
        &mut w.msgs, &mut w.conv, &mut w.tasks, "conv", "more", "m-user2".to_string(),
        "t2".to_string(), 5,
    )
    .unwrap();
    let before = w.msgs.clone();
    let task = begin(&mut w, "m-stalled", 6);
    let mut reader = SseReader::new();
    let mut run = GenerationRun::new("Aria");
    for event in reader.on_chunk(sse("One", None).as_bytes()) {
        assert_eq!(run.on_event(event), RunStep::Tokens(vec![]));
    }
    let step = run.on_event(reader.on_stall().unwrap());
    let error = match step {
        RunStep::Failed(e) => e,
        other => panic!("unexpected {:?}", other),
    };
    assert!(error.contains("stalled"));
    let effects = conclude(
        &mut w.state, &mut w.msgs, &mut w.conv, &mut w.tasks, &task, "aria", "m-stalled",
        GenerationOutcome::Failed(error.clone()), 7,
    );
    assert_eq!(
        effects,
        vec![
            Effect::TerminateSidecar,
            Effect::ChatError(ChatErrorEvent {
                conversation_id: "conv".to_string(),
                message_id: Some("m-stalled".to_string()),
                error: error.clone(),
            })
        ]
    );
    assert_eq!(w.msgs, before);
    assert_eq!(w.conv.active_message_id, Some("m-user2".to_string()));
    assert_eq!(w.tasks.last().unwrap().status, QueueStatus::Failed);
    assert_eq!(w.tasks.last().unwrap().error_message, Some(error));
    assert!(!w.state.is_model_loaded());
    assert!(!w.state.is_generating());
    // The next iteration finds no inference process.
    assert_eq!(gate(&w.state), Gate::Idle);
    assert!(chain_holds(&w.msgs, &w.conv.active_message_id));
}

#[test]
fn other_errors_keep_the_inference_process() {
    let mut w = after_first_answer();
    MessageService::send_user_message(
        &mut w.msgs, &mut w.conv, &mut w.tasks, "conv", "more", "m-user2".to_string(),
        "t2".to_string(), 5,
    )
    .unwrap();
    let task = begin(&mut w, "m-broken", 6);
    let effects = conclude(
        &mut w.state, &mut w.msgs, &mut w.conv, &mut w.tasks, &task, "aria", "m-broken",
        GenerationOutcome::Failed("connection reset".to_string()), 7,
    );
    assert_eq!(effects.len(), 1);
    assert!(w.state.is_model_loaded());
    let mut w2 = after_first_answer();
    MessageService::send_user_message(
        &mut w2.msgs, &mut w2.conv, &mut w2.tasks, "conv", "more", "m-user2".to_string(),
        "t2".to_string(), 5,
    )
    .unwrap();
    let task2 = begin(&mut w2, "m-late", 6);
    let effects2 = conclude(
        &mut w2.state, &mut w2.msgs, &mut w2.conv, &mut w2.tasks, &task2, "aria", "m-late",
        GenerationOutcome::Failed("request timeout".to_string()), 7,
    );
    assert_eq!(effects2[0], Effect::TerminateSidecar);
}

#[test]
fn cancelled_generation_leaves_the_conversation_as_it_was() {
    let mut w = after_first_answer();
    MessageService::send_user_message(
        &mut w.msgs, &mut w.conv, &mut w.tasks, "conv", "more", "m-user2".to_string(),
        "t2".to_string(), 5,
    )
    .unwrap();
    let before = w.msgs.clone();
    let task = begin(&mut w, "m-cancelled", 6);
    let mut reader = SseReader::new();
    let mut run = GenerationRun::new("Aria");
    assert_eq!(run.on_event(reader.on_cancel().unwrap()), RunStep::Cancelled);
    let effects = conclude(
        &mut w.state, &mut w.msgs, &mut w.conv, &mut w.tasks, &task, "aria", "m-cancelled",
        GenerationOutcome::Cancelled, 7,
    );
    assert!(effects.is_empty());
    assert_eq!(w.msgs, before);
    assert_eq!(w.conv.active_message_id, Some("m-user2".to_string()));
    assert_eq!(w.tasks.last().unwrap().status, QueueStatus::Cancelled);
    assert!(!w.state.is_generating());
}

#[test]
fn occupied_slot_returns_the_task_to_pending() {
    let mut w = after_first_answer();
    MessageService::send_user_message(
        &mut w.msgs, &mut w.conv, &mut w.tasks, "conv", "more", "m-user2".to_string(),
        "t2".to_string(), 5,
    )
    .unwrap();
    let before = w.msgs.clone();
    let (task, character) = match claim_next_task(&mut w.tasks, &w.characters, 6) {
        Claim::Ready { task, character } => (task, character),
        other => panic!("unexpected {:?}", other),
    };
    create_placeholder(
        &mut w.msgs, &mut w.conv, &task, &w.characters[character], "m-late".to_string(), 6,
    )
    .unwrap();
    // Another generation took the slot in the meantime.
    assert!(w.state.try_start_generation("other".to_string(), "elsewhere".to_string(), 999));
    assert!(!reserve_or_roll_back(
        &mut w.state, &mut w.msgs, &mut w.conv, &mut w.tasks, &task, "m-late", 1_000, 7
    ));
    assert_eq!(w.msgs, before);
    assert_eq!(w.conv.active_message_id, Some("m-user2".to_string()));
    assert_eq!(w.tasks.last().unwrap().status, QueueStatus::Pending);
    assert!(w.state.is_generating_message("other"));
    assert_eq!(processing(&w.tasks), 0);
}

#[test]
fn task_without_character_fails_at_once() {
    let task = |id: &str, target: Option<&str>| QueueTask {
        id: id.to_string(),
        conversation_id: "conv".to_string(),
        parent_message_id: None,
        target_character_id: target.map(|t| t.to_string()),
        status: QueueStatus::Pending,
        priority: 0,
        created_at: 1,
        started_at: None,
        completed_at: None,
        error_message: None,
    };
    let mut deleted = aria();
    deleted.deleted_at = Some(5);
    let characters = vec![deleted];
    let mut tasks = vec![task("a", None)];
    assert_eq!(
        claim_next_task(&mut tasks, &characters, 9),
        Claim::Failed {
            task_id: "a".to_string(),
            error: "No target character specified".to_string()
        }
    );
    assert_eq!(tasks[0].status, QueueStatus::Failed);
    assert_eq!(tasks[0].started_at, Some(9));
    assert_eq!(tasks[0].completed_at, Some(9));
    let mut more = vec![task("b", Some("aria"))];
    assert_eq!(
        claim_next_task(&mut more, &characters, 9),
        Claim::Failed {
            task_id: "b".to_string(),
            error: "Character not found: Not found: Record not found".to_string()
        }
    );
    assert_eq!(claim_next_task(&mut more, &characters, 10), Claim::Nothing);
    let mut failing = vec![task("c", Some("aria"))];
    fail_task(&mut failing, "c", "Failed to build context: x", 11);
    assert_eq!(failing[0].status, QueueStatus::Failed);
    assert_eq!(failing[0].error_message, Some("Failed to build context: x".to_string()));
}

#[test]
fn placeholder_with_a_known_id_is_refused() {
    let mut w = after_first_answer();
    let task = w.tasks[0].clone();
    let before = w.msgs.clone();
    let result = create_placeholder(
        &mut w.msgs, &mut w.conv, &task, &aria(), "m-answer".to_string(), 9,
    );
    assert_eq!(result.map_err(|e| e.kind()), Err(ErrorKind::Database));
    assert_eq!(w.msgs, before);
}

#[test]
fn run_filters_tokens_and_flushes_at_the_end() {
    let mut run = GenerationRun::new("Aria");
    assert_eq!(
        run.on_event(GenerationEvent::Token("<thinking>plan</thinking><RESPONSE>Hel".to_string())),
        RunStep::Tokens(vec!["Hel".to_string()])
    );
    assert!(run.received);
    assert_eq!(
        run.on_event(GenerationEvent::Token("lo</RESP".to_string())),
        RunStep::Tokens(vec!["lo".to_string()])
    );
    assert_eq!(run.on_event(GenerationEvent::Token("ONSE>".to_string())), RunStep::Tokens(vec![]));
    assert_eq!(run.on_event(GenerationEvent::Done), RunStep::Finished(vec![]));
    assert_eq!(run.content(), "Hello");
    let mut plain = GenerationRun::new("Aria");
    assert_eq!(plain.on_event(GenerationEvent::Token("Fine.".to_string())), RunStep::Tokens(vec![]));
    assert_eq!(plain.on_event(GenerationEvent::Done), RunStep::Finished(vec!["Fine.".to_string()]));
    assert_eq!(plain.content(), "Fine.");
    let mut failed = GenerationRun::new("Aria");
    assert_eq!(
        failed.on_event(GenerationEvent::Error("boom".to_string())),
        RunStep::Failed("boom".to_string())
    );
}
