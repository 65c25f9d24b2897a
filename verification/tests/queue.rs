use glee::entities::{QueueStatus, QueueTask};
use glee::error::ErrorKind;
use glee::queue::QueueRepo;
use glee::state::AppState;

fn task(id: &str, priority: i32, created_at: i64, status: QueueStatus) -> QueueTask {
    QueueTask {
        id: id.to_string(),
        conversation_id: "conv".to_string(),
        parent_message_id: Some("m".to_string()),
        target_character_id: Some("aria".to_string()),
        status,
        priority,
        created_at,
        started_at: None,
        completed_at: None,
        error_message: None,
    }
}

fn processing(tasks: &[QueueTask]) -> usize {
    tasks.iter().filter(|t| t.status == QueueStatus::Processing).count()
}

#[test]
fn enqueue_stores_the_task_as_pending() {
    let mut tasks = vec![];
    let mut given = task("a", 0, 5, QueueStatus::Completed);
    given.started_at = Some(1);
    given.error_message = Some("old".to_string());
    let stored = QueueRepo::enqueue(&mut tasks, &given).unwrap();
    assert_eq!(stored, task("a", 0, 5, QueueStatus::Pending));
    assert_eq!(tasks, vec![stored]);
    assert_eq!(
        QueueRepo::enqueue(&mut tasks, &task("a", 1, 6, QueueStatus::Pending)).map_err(|e| e.kind()),
        Err(ErrorKind::Database)
    );
    assert_eq!(tasks.len(), 1);
}

#[test]
fn next_pending_is_highest_priority_then_oldest() {
    let tasks = vec![
        task("old-low", 0, 1, QueueStatus::Pending),
        task("done", 9, 0, QueueStatus::Completed),
        task("new-high", 5, 9, QueueStatus::Pending),
        task("old-high", 5, 3, QueueStatus::Pending),
        task("tie", 5, 3, QueueStatus::Pending),
        task("busy", 7, 0, QueueStatus::Processing),
    ];
    assert_eq!(QueueRepo::get_next_pending(&tasks).unwrap().id, "old-high");
    assert_eq!(QueueRepo::next_pending_index(&tasks), Some(3));
    assert_eq!(QueueRepo::get_next_pending(&tasks[..2].to_vec()).unwrap().id, "old-low");
    assert_eq!(QueueRepo::get_next_pending(&vec![task("x", 0, 0, QueueStatus::Failed)]), None);
    assert_eq!(QueueRepo::get_next_pending(&vec![]), None);
}

#[test]
fn transitions_set_what_the_table_says() {
    let mut tasks = vec![task("a", 0, 1, QueueStatus::Pending), task("b", 0, 2, QueueStatus::Pending)];
    QueueRepo::update_status(&mut tasks, "a", QueueStatus::Processing, None, 10);
    assert_eq!(tasks[0].status, QueueStatus::Processing);
    assert_eq!(tasks[0].started_at, Some(10));
    assert_eq!(tasks[0].completed_at, None);
    assert_eq!(tasks[1], task("b", 0, 2, QueueStatus::Pending));
    QueueRepo::update_status(&mut tasks, "a", QueueStatus::Failed, Some("boom"), 20);
    assert_eq!(tasks[0].status, QueueStatus::Failed);
    assert_eq!(tasks[0].started_at, Some(10));
    assert_eq!(tasks[0].completed_at, Some(20));
    assert_eq!(tasks[0].error_message, Some("boom".to_string()));
    QueueRepo::update_status(&mut tasks, "b", QueueStatus::Processing, None, 30);
    QueueRepo::update_status(&mut tasks, "b", QueueStatus::Completed, Some("ignored"), 40);
    assert_eq!(tasks[1].completed_at, Some(40));
    assert_eq!(tasks[1].error_message, None);
    let mut more = vec![task("c", 0, 1, QueueStatus::Processing)];
    QueueRepo::update_status(&mut more, "c", QueueStatus::Cancelled, Some("ignored"), 50);
    assert_eq!(more[0].status, QueueStatus::Cancelled);
    assert_eq!(more[0].completed_at, None);
    assert_eq!(more[0].error_message, None);
    QueueRepo::update_status(&mut more, "missing", QueueStatus::Failed, None, 60);
    assert_eq!(more[0].status, QueueStatus::Cancelled);
}

#[test]
fn cancel_for_conversation_spares_terminal_and_foreign_tasks() {
    let mut other = task("o", 0, 1, QueueStatus::Pending);
    other.conversation_id = "other".to_string();
    let mut tasks = vec![
        task("p", 0, 1, QueueStatus::Pending),
        task("r", 0, 1, QueueStatus::Processing),
        task("c", 0, 1, QueueStatus::Completed),
        task("f", 0, 1, QueueStatus::Failed),
        other.clone(),
    ];
    QueueRepo::cancel_for_conversation(&mut tasks, "conv");
    let statuses: Vec<QueueStatus> = tasks.iter().map(|t| t.status).collect();
    assert_eq!(
        statuses,
        vec![
            QueueStatus::Cancelled,
            QueueStatus::Cancelled,
            QueueStatus::Completed,
            QueueStatus::Failed,
            QueueStatus::Pending
        ]
    );
    assert_eq!(tasks[4], other);
    assert_eq!(processing(&tasks), 0);
}

#[test]
fn slot_is_reserved_by_one_generation_at_a_time() {
    let mut state = AppState::new();
    assert!(!state.is_generating());
    assert!(!state.is_model_loaded());
    assert!(state.try_start_generation("m1".to_string(), "c1".to_string(), 100));
    assert!(!state.try_start_generation("m2".to_string(), "c2".to_string(), 101));
    assert_eq!(state.current_generating_id(), Some("m1".to_string()));
    assert!(state.is_generating_message("m1"));
    assert!(!state.is_generating_message("m2"));
    assert!(state.cancel_conversation_generation("c1"));
    assert!(!state.cancel_conversation_generation("c2"));
    let holder = state.start_generation("m3".to_string(), "c3".to_string(), 102);
    assert_eq!(holder.message_id, "m1");
    state.finish_generation();
    assert_eq!(state.current_generation(), None);
    let fresh = state.start_generation("m3".to_string(), "c3".to_string(), 103);
    assert_eq!(fresh.message_id, "m3");
    assert_eq!(fresh.started_at, 103);
}

#[test]
fn watchdog_frees_the_slot_after_the_timeout() {
    let mut state = AppState::new();
    assert!(!state.check_generation_timeout(300, 1_000));
    state.try_start_generation("m".to_string(), "c".to_string(), 1_000);
    assert!(!state.check_generation_timeout(300, 1_300));
    assert!(state.is_generating());
    assert!(!state.check_generation_timeout(300, 900));
    assert!(state.check_generation_timeout(300, 1_301));
    assert!(!state.is_generating());
}

#[test]
fn sidecar_flag_is_set_and_taken() {
    let mut state = AppState::new();
    state.set_sidecar(true);
    assert!(state.is_model_loaded());
    assert!(state.take_sidecar());
    assert!(!state.is_model_loaded());
    assert!(!state.take_sidecar());
}
