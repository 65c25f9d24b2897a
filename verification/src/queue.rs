//! The generation queue: a log of tasks, of which at most one is being
//! processed. Tasks are taken by falling priority, and among equal priorities
//! the oldest first.

use vstd::prelude::*;
use crate::entities::{QueueStatus, QueueTask};
use crate::error::{AppError, AppResult};
use crate::text::{clone_opt, opt_str_text, opt_text, str_eq};

verus! {

/// The number of tasks that are being processed.
pub open spec fn processing_count(tasks: Seq<QueueTask>) -> nat
    decreases tasks.len(),
{
    if tasks.len() == 0 {
        0
    } else {
        processing_count(tasks.drop_last()) + if tasks.last().status == QueueStatus::Processing {
            1nat
        } else {
            0nat
        }
    }
}

/// A task with the id `id` is in the log.
pub open spec fn has_task(tasks: Seq<QueueTask>, id: Seq<char>) -> bool {
    exists|i: int| 0 <= i < tasks.len() && (#[trigger] tasks[i]).id@ == id
}

/// The task `a` is taken before the task `b`: it has the higher priority,
/// or the same priority and was created earlier.
pub open spec fn taken_before(a: QueueTask, b: QueueTask) -> bool {
    a.priority > b.priority || (a.priority == b.priority && a.created_at < b.created_at)
}

/// The task at `at` is the next to be taken: it is pending, no pending task
/// is taken before it, and of the pending tasks that tie with it, it stands
/// first in the log.
pub open spec fn is_next_pending(tasks: Seq<QueueTask>, at: int) -> bool {
    &&& 0 <= at < tasks.len()
    &&& tasks[at].status == QueueStatus::Pending
    &&& forall|j: int|
        0 <= j < tasks.len() && (#[trigger] tasks[j]).status == QueueStatus::Pending
            ==> !taken_before(tasks[j], tasks[at])
    &&& forall|j: int|
        0 <= j < at && (#[trigger] tasks[j]).status == QueueStatus::Pending ==> taken_before(
            tasks[at],
            tasks[j],
        )
}

/// No task is pending.
pub open spec fn none_pending(tasks: Seq<QueueTask>) -> bool {
    forall|j: int| 0 <= j < tasks.len() ==> (#[trigger] tasks[j]).status != QueueStatus::Pending
}

/// The task `after` is the task `before` moved to `status` at the time
/// `now`: entering processing sets the start time, completing sets the
/// completion time, failing sets the completion time and the error message,
/// and cancelling or returning to pending sets the status alone.
pub open spec fn moved_to(
    before: QueueTask,
    after: QueueTask,
    status: QueueStatus,
    error: Option<Seq<char>>,
    now: i64,
) -> bool {
    &&& after.id == before.id
    &&& after.conversation_id == before.conversation_id
    &&& after.parent_message_id == before.parent_message_id
    &&& after.target_character_id == before.target_character_id
    &&& after.priority == before.priority
    &&& after.created_at == before.created_at
    &&& after.status == status
    &&& after.started_at == (if status == QueueStatus::Processing {
        Some(now)
    } else {
        before.started_at
    })
    &&& after.completed_at == (if status == QueueStatus::Completed || status
        == QueueStatus::Failed {
        Some(now)
    } else {
        before.completed_at
    })
    &&& opt_text(after.error_message) == (if status == QueueStatus::Failed {
        error
    } else {
        opt_text(before.error_message)
    })
}

/// The log `after` is the log `before` with every task of the id `id` moved
/// to `status` at the time `now`.
pub open spec fn moved_by_id(
    before: Seq<QueueTask>,
    after: Seq<QueueTask>,
    id: Seq<char>,
    status: QueueStatus,
    error: Option<Seq<char>>,
    now: i64,
) -> bool {
    &&& after.len() == before.len()
    &&& forall|i: int|
        0 <= i < before.len() ==> if (#[trigger] before[i]).id@ == id {
            moved_to(before[i], after[i], status, error, now)
        } else {
            after[i] == before[i]
        }
}

/// The task is pending or being processed in the conversation `conversation`.
pub open spec fn is_open_in(task: QueueTask, conversation: Seq<char>) -> bool {
    task.conversation_id@ == conversation && (task.status == QueueStatus::Pending || task.status
        == QueueStatus::Processing)
}

/// The task `after` is the task `before`, cancelled.
pub open spec fn cancelled_from(before: QueueTask, after: QueueTask) -> bool {
    &&& after.id == before.id
    &&& after.conversation_id == before.conversation_id
    &&& after.parent_message_id == before.parent_message_id
    &&& after.target_character_id == before.target_character_id
    &&& after.priority == before.priority
    &&& after.created_at == before.created_at
    &&& after.status == QueueStatus::Cancelled
    &&& after.started_at == before.started_at
    &&& after.completed_at == before.completed_at
    &&& after.error_message == before.error_message
}

/// The task as it enters the log: pending, neither started nor completed,
/// without an error.
pub open spec fn enqueued_from(given: QueueTask, stored: QueueTask) -> bool {
    &&& stored.id == given.id
    &&& stored.conversation_id == given.conversation_id
    &&& stored.parent_message_id == given.parent_message_id
    &&& stored.target_character_id == given.target_character_id
    &&& stored.priority == given.priority
    &&& stored.created_at == given.created_at
    &&& stored.status == QueueStatus::Pending
    &&& stored.started_at is None
    &&& stored.completed_at is None
    &&& stored.error_message is None
}

/// A task that is not being processed adds nothing to the count of those
/// that are.
pub proof fn lemma_processing_count_push(tasks: Seq<QueueTask>, task: QueueTask)
    ensures
        processing_count(tasks.push(task)) == processing_count(tasks) + if task.status
            == QueueStatus::Processing {
            1nat
        } else {
            0nat
        },
{
    assert(tasks.push(task).drop_last() =~= tasks);
}

/// Replacing the task at `at` changes the count of the tasks being processed
/// by what that task adds to it.
pub proof fn lemma_processing_count_update(tasks: Seq<QueueTask>, at: int, task: QueueTask)
    requires
        0 <= at < tasks.len(),
    ensures
        processing_count(tasks.update(at, task)) + (if tasks[at].status
            == QueueStatus::Processing {
            1nat
        } else {
            0nat
        }) == processing_count(tasks) + (if task.status == QueueStatus::Processing {
            1nat
        } else {
            0nat
        }),
    decreases tasks.len(),
{
    if at == tasks.len() - 1 {
        assert(tasks.update(at, task).drop_last() =~= tasks.drop_last());
    } else {
        assert(tasks.update(at, task).drop_last() =~= tasks.drop_last().update(at, task));
        lemma_processing_count_update(tasks.drop_last(), at, task);
    }
}

/// A log in which no task has become processing that was not so before has
/// no more processing tasks than before.
pub proof fn lemma_processing_count_falls(before: Seq<QueueTask>, after: Seq<QueueTask>)
    requires
        after.len() == before.len(),
        forall|i: int|
            0 <= i < before.len() && (#[trigger] after[i]).status == QueueStatus::Processing
                ==> before[i].status == QueueStatus::Processing,
    ensures
        processing_count(after) <= processing_count(before),
    decreases before.len(),
{
    if before.len() > 0 {
        assert forall|i: int|
            0 <= i < before.drop_last().len() && (#[trigger] after.drop_last()[i]).status
                == QueueStatus::Processing implies before.drop_last()[i].status
            == QueueStatus::Processing by {
            assert(after[i].status == QueueStatus::Processing);
        }
        lemma_processing_count_falls(before.drop_last(), after.drop_last());
        assert(after.last() == after[after.len() - 1]);
        assert(before.last() == before[before.len() - 1]);
    }
}

/// A log in which no task is being processed counts none.
pub proof fn lemma_processing_count_zero(tasks: Seq<QueueTask>)
    requires
        forall|i: int| 0 <= i < tasks.len() ==> (#[trigger] tasks[i]).status != QueueStatus::Processing,
    ensures
        processing_count(tasks) == 0,
    decreases tasks.len(),
{
    if tasks.len() > 0 {
        assert forall|i: int| 0 <= i < tasks.drop_last().len() implies (#[trigger] tasks.drop_last()[i]).status
            != QueueStatus::Processing by {
            assert(tasks[i].status != QueueStatus::Processing);
        }
        lemma_processing_count_zero(tasks.drop_last());
        assert(tasks.last() == tasks[tasks.len() - 1]);
    }
}

/// At most one task is being processed. Where none is, claiming a task
/// leaves exactly one; and once the claimed task has moved on, to completed,
/// failed, cancelled or back to pending, none is left.
pub proof fn lemma_at_most_one_processing(
    idle: Seq<QueueTask>,
    claimed: Seq<QueueTask>,
    concluded: Seq<QueueTask>,
    at: int,
    task: QueueTask,
    status: QueueStatus,
    error: Option<Seq<char>>,
    now: i64,
)
    requires
        processing_count(idle) == 0,
        0 <= at < idle.len(),
        task.status == QueueStatus::Processing,
        claimed == idle.update(at, task),
        status != QueueStatus::Processing,
        moved_by_id(claimed, concluded, task.id@, status, error, now),
    ensures
        processing_count(claimed) == 1,
        processing_count(concluded) == 0,
{
    lemma_processing_count_update(idle, at, task);
    lemma_none_processing(idle);
    assert forall|i: int| 0 <= i < concluded.len() implies (#[trigger] concluded[i]).status
        != QueueStatus::Processing by {
        if claimed[i].id@ == task.id@ {
            assert(moved_to(claimed[i], concluded[i], status, error, now));
        } else {
            assert(concluded[i] == claimed[i]);
            assert(i != at);
            assert(claimed[i] == idle[i]);
        }
    }
    lemma_processing_count_zero(concluded);
}

/// Where no task is being processed, every task has another status.
pub proof fn lemma_none_processing(tasks: Seq<QueueTask>)
    requires
        processing_count(tasks) == 0,
    ensures
        forall|i: int| 0 <= i < tasks.len() ==> (#[trigger] tasks[i]).status != QueueStatus::Processing,
    decreases tasks.len(),
{
    if tasks.len() > 0 {
        lemma_none_processing(tasks.drop_last());
        assert forall|i: int| 0 <= i < tasks.len() implies (#[trigger] tasks[i]).status
            != QueueStatus::Processing by {
            if i < tasks.len() - 1 {
                assert(tasks[i] == tasks.drop_last()[i]);
            }
        }
    }
}

impl QueueTask {
    /// A copy of the task.
    pub fn copy(&self) -> (copy: QueueTask)
        ensures
            copy == *self,
    {
        QueueTask {
            id: self.id.clone(),
            conversation_id: self.conversation_id.clone(),
            parent_message_id: clone_opt(&self.parent_message_id),
            target_character_id: clone_opt(&self.target_character_id),
            status: self.status,
            priority: self.priority,
            created_at: self.created_at,
            started_at: self.started_at,
            completed_at: self.completed_at,
            error_message: clone_opt(&self.error_message),
        }
    }
}

/// The position of the task with the id `id`.
pub fn find_task(tasks: &Vec<QueueTask>, id: &str) -> (found: Option<usize>)
    ensures
        match found {
            Some(at) => at < tasks@.len() && tasks@[at as int].id@ == id@ && forall|j: int|
                0 <= j < at ==> (#[trigger] tasks@[j]).id@ != id@,
            None => !has_task(tasks@, id@),
        },
{
    let mut i: usize = 0;
    while i < tasks.len()
        invariant
            i <= tasks.len(),
            forall|j: int| 0 <= j < i ==> (#[trigger] tasks@[j]).id@ != id@,
        decreases tasks.len() - i,
    {
        if str_eq(tasks[i].id.as_str(), id) {
            return Some(i);
        }
        i += 1;
    }
    None
}

/// The unit that holds the operations on the queue.
pub struct QueueRepo;

impl QueueRepo {
    /// Enters a task into the log as pending. A task whose id the log
    /// already holds is refused.
    pub fn enqueue(tasks: &mut Vec<QueueTask>, task: &QueueTask) -> (result: AppResult<QueueTask>)
        ensures
            match result {
                Ok(stored) => !has_task(old(tasks)@, task.id@) && enqueued_from(*task, stored)
                    && final(tasks)@ == old(tasks)@.push(stored),
                Err(e) => has_task(old(tasks)@, task.id@) && e is Database && final(tasks)@ == old(tasks)@,
            },
            processing_count(final(tasks)@) == processing_count(old(tasks)@),
    {
        if find_task(tasks, task.id.as_str()).is_some() {
            return Err(AppError::Database("UNIQUE constraint failed: message_queue.id".to_owned()));
        }
        let stored = QueueTask {
            id: task.id.clone(),
            conversation_id: task.conversation_id.clone(),
            parent_message_id: clone_opt(&task.parent_message_id),
            target_character_id: clone_opt(&task.target_character_id),
            status: QueueStatus::Pending,
            priority: task.priority,
            created_at: task.created_at,
            started_at: None,
            completed_at: None,
            error_message: None,
        };
        let copy = stored.copy();
        proof {
            lemma_processing_count_push(tasks@, stored);
        }
        tasks.push(stored);
        Ok(copy)
    }

    /// The position of the task that is taken next.
    pub fn next_pending_index(tasks: &Vec<QueueTask>) -> (found: Option<usize>)
        ensures
            match found {
                Some(at) => is_next_pending(tasks@, at as int),
                None => none_pending(tasks@),
            },
    {
        let mut best: Option<usize> = None;
        let mut i: usize = 0;
        while i < tasks.len()
            invariant
                i <= tasks.len(),
                match best {
                    Some(at) => at < i && is_next_pending(tasks@.take(i as int), at as int),
                    None => none_pending(tasks@.take(i as int)),
                },
            decreases tasks.len() - i,
        {
            let ghost seen = tasks@.take(i as int);
            let ghost more = tasks@.take(i + 1);
            proof {
                assert forall|j: int| 0 <= j < i implies #[trigger] more[j] == seen[j] by {}
                assert(more[i as int] == tasks@[i as int]);
            }
            if tasks[i].status == QueueStatus::Pending {
                match best {
                    Some(at) => {
                        let better = tasks[i].priority > tasks[at].priority || (tasks[i].priority
                            == tasks[at].priority && tasks[i].created_at < tasks[at].created_at);
                        if better {
                            proof {
                                assert forall|j: int|
                                    0 <= j < more.len() && (#[trigger] more[j]).status
                                        == QueueStatus::Pending implies !taken_before(
                                    more[j],
                                    more[i as int],
                                ) by {
                                    if j < i {
                                        assert(seen[j].status == QueueStatus::Pending);
                                        assert(!taken_before(seen[j], seen[at as int]));
                                    }
                                }
                                assert forall|j: int|
                                    0 <= j < i && (#[trigger] more[j]).status
                                        == QueueStatus::Pending implies taken_before(
                                    more[i as int],
                                    more[j],
                                ) by {
                                    assert(seen[j].status == QueueStatus::Pending);
                                    assert(!taken_before(seen[j], seen[at as int]));
                                }
                            }
                            best = Some(i);
                        } else {
                            proof {
                                assert(is_next_pending(more, at as int)) by {
                                    assert forall|j: int|
                                        0 <= j < more.len() && (#[trigger] more[j]).status
                                            == QueueStatus::Pending implies !taken_before(
                                        more[j],
                                        more[at as int],
                                    ) by {
                                        if j < i {
                                            assert(seen[j].status == QueueStatus::Pending);
                                        }
                                    }
                                    assert forall|j: int|
                                        0 <= j < at && (#[trigger] more[j]).status
                                            == QueueStatus::Pending implies taken_before(
                                        more[at as int],
                                        more[j],
                                    ) by {
                                        assert(seen[j].status == QueueStatus::Pending);
                                    }
                                }
                            }
                        }
                    },
                    None => {
                        proof {
                            assert forall|j: int|
                                0 <= j < more.len() && (#[trigger] more[j]).status
                                    == QueueStatus::Pending implies !taken_before(
                                more[j],
                                more[i as int],
                            ) by {
                                if j < i {
                                    assert(seen[j].status != QueueStatus::Pending);
                                }
                            }
                            assert forall|j: int|
                                0 <= j < i && (#[trigger] more[j]).status
                                    == QueueStatus::Pending implies taken_before(
                                more[i as int],
                                more[j],
                            ) by {
                                assert(seen[j].status != QueueStatus::Pending);
                            }
                        }
                        best = Some(i);
                    },
                }
            } else {
                proof {
                    match best {
                        Some(at) => {
                            assert(is_next_pending(more, at as int)) by {
                                assert forall|j: int|
                                    0 <= j < more.len() && (#[trigger] more[j]).status
                                        == QueueStatus::Pending implies !taken_before(
                                    more[j],
                                    more[at as int],
                                ) by {
                                    if j < i {
                                        assert(seen[j].status == QueueStatus::Pending);
                                    }
                                }
                                assert forall|j: int|
                                    0 <= j < at && (#[trigger] more[j]).status
                                        == QueueStatus::Pending implies taken_before(
                                    more[at as int],
                                    more[j],
                                ) by {
                                    assert(seen[j].status == QueueStatus::Pending);
                                }
                            }
                        },
                        None => {
                            assert forall|j: int| 0 <= j < more.len() implies (
                            #[trigger] more[j]).status != QueueStatus::Pending by {
                                if j < i {
                                    assert(seen[j].status != QueueStatus::Pending);
                                }
                            }
                        },
                    }
                }
            }
            i += 1;
        }
        proof {
            assert(tasks@.take(tasks@.len() as int) =~= tasks@);
        }
        best
    }

    /// The task that is taken next: the pending task of the highest
    /// priority, and among those the one created first.
    pub fn get_next_pending(tasks: &Vec<QueueTask>) -> (next: Option<QueueTask>)
        ensures
            match next {
                Some(task) => exists|at: int|
                    is_next_pending(tasks@, at) && task == #[trigger] tasks@[at],
                None => none_pending(tasks@),
            },
    {
        match QueueRepo::next_pending_index(tasks) {
            Some(at) => {
                let task = tasks[at].copy();
                assert(is_next_pending(tasks@, at as int) && task == tasks@[at as int]);
                Some(task)
            },
            None => None,
        }
    }

    /// Moves the task with the id `id` to `status` at the time `now`.
    /// Nothing changes where the log holds no such task.
    pub fn update_status(
        tasks: &mut Vec<QueueTask>,
        id: &str,
        status: QueueStatus,
        error: Option<&str>,
        now: i64,
    )
        ensures
            moved_by_id(old(tasks)@, final(tasks)@, id@, status, opt_str_text(error), now),
            status != QueueStatus::Processing ==> processing_count(final(tasks)@)
                <= processing_count(old(tasks)@),
    {
        let mut i: usize = 0;
        while i < tasks.len()
            invariant
                i <= tasks.len(),
                tasks@.len() == old(tasks)@.len(),
                forall|j: int|
                    0 <= j < i ==> if (#[trigger] old(tasks)@[j]).id@ == id@ {
                        moved_to(old(tasks)@[j], tasks@[j], status, opt_str_text(error), now)
                    } else {
                        tasks@[j] == old(tasks)@[j]
                    },
                forall|j: int| i <= j < tasks@.len() ==> tasks@[j] == old(tasks)@[j],
            decreases tasks.len() - i,
        {
            if str_eq(tasks[i].id.as_str(), id) {
                let before = &tasks[i];
                let ends = match status {
                    QueueStatus::Completed => true,
                    QueueStatus::Failed => true,
                    _ => false,
                };
                let fails = match status {
                    QueueStatus::Failed => true,
                    _ => false,
                };
                let after = QueueTask {
                    id: before.id.clone(),
                    conversation_id: before.conversation_id.clone(),
                    parent_message_id: clone_opt(&before.parent_message_id),
                    target_character_id: clone_opt(&before.target_character_id),
                    status,
                    priority: before.priority,
                    created_at: before.created_at,
                    started_at: match status {
                        QueueStatus::Processing => Some(now),
                        _ => before.started_at,
                    },
                    completed_at: if ends {
                        Some(now)
                    } else {
                        before.completed_at
                    },
                    error_message: if fails {
                        match error {
                            Some(text) => Some(text.to_owned()),
                            None => None,
                        }
                    } else {
                        clone_opt(&before.error_message)
                    },
                };
                tasks.set(i, after);
            }
            i += 1;
        }
        proof {
            if status != QueueStatus::Processing {
                lemma_processing_count_falls(old(tasks)@, tasks@);
            }
        }
    }

    /// Cancels every task of the conversation that is pending or being
    /// processed.
    pub fn cancel_for_conversation(tasks: &mut Vec<QueueTask>, conversation_id: &str)
        ensures
            final(tasks)@.len() == old(tasks)@.len(),
            forall|i: int|
                0 <= i < old(tasks)@.len() ==> if is_open_in(
                    #[trigger] old(tasks)@[i],
                    conversation_id@,
                ) {
                    cancelled_from(old(tasks)@[i], final(tasks)@[i])
                } else {
                    final(tasks)@[i] == old(tasks)@[i]
                },
            processing_count(final(tasks)@) <= processing_count(old(tasks)@),
    {
        let mut i: usize = 0;
        while i < tasks.len()
            invariant
                i <= tasks.len(),
                tasks@.len() == old(tasks)@.len(),
                forall|j: int|
                    0 <= j < i ==> if is_open_in(#[trigger] old(tasks)@[j], conversation_id@) {
                        cancelled_from(old(tasks)@[j], tasks@[j])
                    } else {
                        tasks@[j] == old(tasks)@[j]
                    },
                forall|j: int| i <= j < tasks@.len() ==> tasks@[j] == old(tasks)@[j],
            decreases tasks.len() - i,
        {
            let open = match tasks[i].status {
                QueueStatus::Pending => true,
                QueueStatus::Processing => true,
                _ => false,
            };
            if open && str_eq(tasks[i].conversation_id.as_str(), conversation_id) {
                let before = &tasks[i];
                let after = QueueTask {
                    id: before.id.clone(),
                    conversation_id: before.conversation_id.clone(),
                    parent_message_id: clone_opt(&before.parent_message_id),
                    target_character_id: clone_opt(&before.target_character_id),
                    status: QueueStatus::Cancelled,
                    priority: before.priority,
                    created_at: before.created_at,
                    started_at: before.started_at,
                    completed_at: before.completed_at,
                    error_message: clone_opt(&before.error_message),
                };
                tasks.set(i, after);
            }
            i += 1;
        }
        proof {
            lemma_processing_count_falls(old(tasks)@, tasks@);
        }
    }
}

} // verus!
