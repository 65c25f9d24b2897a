//! The message graph of a conversation, with its branches.
//!
//! A message names its parent by id; a message without a parent is a root.
//! The messages stand in the order in which they were created, so that a
//! parent stands before its children. Edits and regenerations add a sibling
//! under the same parent; one branch is active, and the conversation points
//! at the deepest message of the active chain.

use vstd::prelude::*;
use crate::entities::Message;
use crate::error::{AppError, AppResult};
use crate::text::{clone_opt, opt_is, opt_str_text, opt_text, str_eq};

verus! {

/// The first position from `from` on of a message with the id `id`.
pub open spec fn position_from(msgs: Seq<Message>, id: Seq<char>, from: int) -> Option<int>
    decreases msgs.len() - from + 1,
{
    if from < 0 || from >= msgs.len() {
        None
    } else if msgs[from].id@ == id {
        Some(from)
    } else {
        position_from(msgs, id, from + 1)
    }
}

/// The position of the message with the id `id`.
pub open spec fn position(msgs: Seq<Message>, id: Seq<char>) -> Option<int> {
    position_from(msgs, id, 0)
}

/// The position of the parent of the message at `at`.
pub open spec fn parent_at(msgs: Seq<Message>, at: int) -> Option<int> {
    if 0 <= at < msgs.len() {
        match msgs[at].parent_id {
            Some(id) => position(msgs, id@),
            None => None,
        }
    } else {
        None
    }
}

/// The message at `at` is the message at `root` or one of its descendants.
pub open spec fn in_subtree(msgs: Seq<Message>, root: int, at: int) -> bool
    decreases at,
{
    if at < 0 || at >= msgs.len() {
        false
    } else if at == root {
        true
    } else {
        match parent_at(msgs, at) {
            Some(p) => 0 <= p < at && in_subtree(msgs, root, p),
            None => false,
        }
    }
}

/// No two messages have the same id.
pub open spec fn distinct_ids(msgs: Seq<Message>) -> bool {
    forall|i: int, j: int|
        0 <= i < j < msgs.len() ==> (#[trigger] msgs[i]).id@ != (#[trigger] msgs[j]).id@
}

/// Every message that names a parent has it before itself.
pub open spec fn parents_first(msgs: Seq<Message>) -> bool {
    forall|i: int|
        0 <= i < msgs.len() && (#[trigger] msgs[i]).parent_id is Some ==> parent_at(msgs, i)
            is Some && 0 <= parent_at(msgs, i)->0 < i
}

/// The graph is well formed: ids are distinct and parents stand before
/// their children.
pub open spec fn well_formed(msgs: Seq<Message>) -> bool {
    distinct_ids(msgs) && parents_first(msgs)
}

/// The two messages have the same ids, parents and conversations.
pub open spec fn same_node(a: Message, b: Message) -> bool {
    a.id == b.id && a.parent_id == b.parent_id && a.conversation_id == b.conversation_id
}

/// The two graphs have the same shape: as many messages, each with the
/// same id, parent and conversation.
pub open spec fn same_shape(a: Seq<Message>, b: Seq<Message>) -> bool {
    a.len() == b.len() && forall|i: int| 0 <= i < a.len() ==> same_node(#[trigger] a[i], b[i])
}

/// What `position_from` finds is the first message with the id from `from`
/// on.
pub proof fn lemma_position_from(msgs: Seq<Message>, id: Seq<char>, from: int)
    requires
        0 <= from,
    ensures
        match position_from(msgs, id, from) {
            Some(at) => from <= at < msgs.len() && msgs[at].id@ == id && forall|j: int|
                from <= j < at ==> (#[trigger] msgs[j]).id@ != id,
            None => forall|j: int| from <= j < msgs.len() ==> (#[trigger] msgs[j]).id@ != id,
        },
    decreases msgs.len() - from + 1,
{
    if from < msgs.len() && msgs[from].id@ != id {
        lemma_position_from(msgs, id, from + 1);
    }
}

/// The position of an id is that of the first message with it.
pub proof fn lemma_position(msgs: Seq<Message>, id: Seq<char>)
    ensures
        match position(msgs, id) {
            Some(at) => 0 <= at < msgs.len() && msgs[at].id@ == id && forall|j: int|
                0 <= j < at ==> (#[trigger] msgs[j]).id@ != id,
            None => forall|j: int| 0 <= j < msgs.len() ==> (#[trigger] msgs[j]).id@ != id,
        },
{
    lemma_position_from(msgs, id, 0);
}

/// Positions depend on the ids alone.
pub proof fn lemma_position_same_shape(a: Seq<Message>, b: Seq<Message>, id: Seq<char>, from: int)
    requires
        same_shape(a, b),
        0 <= from,
    ensures
        position_from(a, id, from) == position_from(b, id, from),
    decreases a.len() - from + 1,
{
    if from < a.len() {
        assert(same_node(a[from], b[from]));
        if a[from].id@ != id {
            lemma_position_same_shape(a, b, id, from + 1);
        }
    }
}

/// Parents depend on the shape alone.
pub proof fn lemma_parent_same_shape(a: Seq<Message>, b: Seq<Message>, at: int)
    requires
        same_shape(a, b),
    ensures
        parent_at(a, at) == parent_at(b, at),
{
    if 0 <= at < a.len() {
        assert(same_node(a[at], b[at]));
        match a[at].parent_id {
            Some(id) => {
                lemma_position_same_shape(a, b, id@, 0);
            },
            None => {},
        }
    }
}

/// Subtrees depend on the shape alone.
pub proof fn lemma_subtree_same_shape(a: Seq<Message>, b: Seq<Message>, root: int, at: int)
    requires
        same_shape(a, b),
    ensures
        in_subtree(a, root, at) == in_subtree(b, root, at),
    decreases at,
{
    if 0 <= at < a.len() && at != root {
        lemma_parent_same_shape(a, b, at);
        match parent_at(a, at) {
            Some(p) => {
                if 0 <= p < at {
                    lemma_subtree_same_shape(a, b, root, p);
                }
            },
            None => {},
        }
    }
}

/// A descendant stands at or behind its ancestor.
pub proof fn lemma_subtree_order(msgs: Seq<Message>, root: int, at: int)
    requires
        in_subtree(msgs, root, at),
    ensures
        0 <= root <= at < msgs.len(),
    decreases at,
{
    if at != root {
        let p = parent_at(msgs, at)->0;
        lemma_subtree_order(msgs, root, p);
    }
}

/// The message `m` with its active flag set to `active`.
pub open spec fn flagged(m: Message, active: bool) -> Message {
    Message { is_active_branch: active, ..m }
}

/// A copy of the message with its active flag set to `active`.
pub fn with_active(m: &Message, active: bool) -> (out: Message)
    ensures
        out == flagged(*m, active),
{
    Message {
        id: m.id.clone(),
        conversation_id: m.conversation_id.clone(),
        parent_id: clone_opt(&m.parent_id),
        author_type: m.author_type,
        author_id: clone_opt(&m.author_id),
        content: m.content.clone(),
        is_active_branch: active,
        branch_index: m.branch_index,
        token_count: m.token_count,
        created_at: m.created_at,
        author_name: clone_opt(&m.author_name),
        sibling_count: m.sibling_count,
    }
}

/// The position of the message with the id `id`.
pub fn find_message(msgs: &Vec<Message>, id: &str) -> (found: Option<usize>)
    ensures
        match found {
            Some(at) => position(msgs@, id@) == Some(at as int) && at < msgs@.len(),
            None => position(msgs@, id@) is None,
        },
{
    let mut i: usize = 0;
    while i < msgs.len()
        invariant
            i <= msgs.len(),
            position(msgs@, id@) == position_from(msgs@, id@, i as int),
        decreases msgs.len() - i,
    {
        if str_eq(msgs[i].id.as_str(), id) {
            return Some(i);
        }
        i += 1;
    }
    None
}

/// The position of the parent of the message at `at`.
pub fn find_parent(msgs: &Vec<Message>, at: usize) -> (found: Option<usize>)
    requires
        at < msgs.len(),
    ensures
        match found {
            Some(p) => parent_at(msgs@, at as int) == Some(p as int) && p < msgs@.len(),
            None => parent_at(msgs@, at as int) is None,
        },
{
    match &msgs[at].parent_id {
        Some(id) => find_message(msgs, id.as_str()),
        None => None,
    }
}

/// Tells whether the graph is well formed.
pub fn is_well_formed(msgs: &Vec<Message>) -> (ok: bool)
    ensures
        ok == well_formed(msgs@),
{
    let mut i: usize = 0;
    while i < msgs.len()
        invariant
            i <= msgs.len(),
            forall|a: int, b: int|
                0 <= a < b < msgs@.len() && a < i ==> (#[trigger] msgs@[a]).id@ != (
                #[trigger] msgs@[b]).id@,
            forall|a: int|
                0 <= a < i && (#[trigger] msgs@[a]).parent_id is Some ==> parent_at(msgs@, a)
                    is Some && 0 <= parent_at(msgs@, a)->0 < a,
        decreases msgs.len() - i,
    {
        // The first message with this id must be this one, and none may follow.
        match find_message(msgs, msgs[i].id.as_str()) {
            Some(first) => {
                proof {
                    lemma_position(msgs@, msgs@[i as int].id@);
                }
                if first != i {
                    return false;
                }
            },
            None => {
                proof {
                    lemma_position(msgs@, msgs@[i as int].id@);
                }
                return false;
            },
        }
        let mut j: usize = i + 1;
        while j < msgs.len()
            invariant
                i < j <= msgs.len(),
                forall|b: int| i < b < j ==> msgs@[i as int].id@ != (#[trigger] msgs@[b]).id@,
            decreases msgs.len() - j,
        {
            if str_eq(msgs[i].id.as_str(), msgs[j].id.as_str()) {
                return false;
            }
            j += 1;
        }
        if msgs[i].parent_id.is_some() {
            match find_parent(msgs, i) {
                Some(p) => {
                    if p >= i {
                        return false;
                    }
                },
                None => {
                    return false;
                },
            }
        }
        i += 1;
    }
    true
}

/// The graph with every message of the subtree of `root` made inactive.
pub open spec fn deactivated(msgs: Seq<Message>, root: int) -> Seq<Message> {
    Seq::new(
        msgs.len(),
        |i: int|
            if in_subtree(msgs, root, i) {
                flagged(msgs[i], false)
            } else {
                msgs[i]
            },
    )
}

/// The graph with the message at `leaf` and every ancestor of it made
/// active.
pub open spec fn path_activated(msgs: Seq<Message>, leaf: int) -> Seq<Message> {
    Seq::new(
        msgs.len(),
        |i: int|
            if in_subtree(msgs, i, leaf) {
                flagged(msgs[i], true)
            } else {
                msgs[i]
            },
    )
}

/// The graph without the subtree of `root`.
pub open spec fn without_subtree(msgs: Seq<Message>, root: int, upto: int) -> Seq<Message>
    decreases upto,
{
    if upto <= 0 {
        Seq::empty()
    } else if in_subtree(msgs, root, upto - 1) {
        without_subtree(msgs, root, upto - 1)
    } else {
        without_subtree(msgs, root, upto - 1).push(msgs[upto - 1])
    }
}

/// The message belongs to the group of siblings under `parent` in
/// `conversation`: it has that parent, or, where no parent is given, it is a
/// root of that conversation.
pub open spec fn in_group(m: Message, parent: Option<Seq<char>>, conversation: Seq<char>) -> bool {
    match parent {
        Some(id) => opt_text(m.parent_id) == Some(id),
        None => m.parent_id is None && m.conversation_id@ == conversation,
    }
}

/// The highest branch index among the first `upto` messages of a group, or
/// -1 where the group has none there.
pub open spec fn max_branch_index(
    msgs: Seq<Message>,
    parent: Option<Seq<char>>,
    conversation: Seq<char>,
    upto: int,
) -> int
    decreases upto,
{
    if upto <= 0 {
        -1
    } else {
        let before = max_branch_index(msgs, parent, conversation, upto - 1);
        if in_group(msgs[upto - 1], parent, conversation) && msgs[upto - 1].branch_index > before {
            msgs[upto - 1].branch_index as int
        } else {
            before
        }
    }
}

/// The branch index for a new message of a group: one more than the highest
/// in the group, and 0 for the first; it stays at the largest index once that
/// is reached.
pub open spec fn next_branch_index(
    msgs: Seq<Message>,
    parent: Option<Seq<char>>,
    conversation: Seq<char>,
) -> int {
    let highest = max_branch_index(msgs, parent, conversation, msgs.len() as int);
    if highest >= i32::MAX {
        i32::MAX as int
    } else {
        highest + 1
    }
}

/// The highest branch index of a group is -1, or the index of a message of
/// the group, and no message of the group has a higher one.
pub proof fn lemma_max_branch_index(
    msgs: Seq<Message>,
    parent: Option<Seq<char>>,
    conversation: Seq<char>,
    upto: int,
)
    requires
        0 <= upto <= msgs.len(),
    ensures
        -1 <= max_branch_index(msgs, parent, conversation, upto) <= i32::MAX,
        forall|i: int|
            0 <= i < upto && in_group(#[trigger] msgs[i], parent, conversation)
                ==> msgs[i].branch_index <= max_branch_index(msgs, parent, conversation, upto),
        max_branch_index(msgs, parent, conversation, upto) >= 0 ==> exists|i: int|
            0 <= i < upto && in_group(#[trigger] msgs[i], parent, conversation)
                && msgs[i].branch_index == max_branch_index(msgs, parent, conversation, upto),
    decreases upto,
{
    if upto > 0 {
        lemma_max_branch_index(msgs, parent, conversation, upto - 1);
        let before = max_branch_index(msgs, parent, conversation, upto - 1);
        if in_group(msgs[upto - 1], parent, conversation) && msgs[upto - 1].branch_index > before {
            assert(in_group(msgs[upto - 1], parent, conversation));
        } else if before >= 0 {
            let i = choose|i: int|
                0 <= i < upto - 1 && in_group(#[trigger] msgs[i], parent, conversation)
                    && msgs[i].branch_index == before;
            assert(in_group(msgs[i], parent, conversation));
        }
    }
}

/// The unit that holds the operations on the message graph.
pub struct MessageRepo;

impl MessageRepo {
    /// Tells whether the message belongs to the group of siblings under
    /// `parent_id` in `conversation_id`.
    pub fn belongs_to_group(m: &Message, parent_id: Option<&str>, conversation_id: &str) -> (belongs:
        bool)
        ensures
            belongs == in_group(*m, opt_str_text(parent_id), conversation_id@),
    {
        match parent_id {
            Some(id) => opt_is(&m.parent_id, id),
            None => m.parent_id.is_none() && str_eq(m.conversation_id.as_str(), conversation_id),
        }
    }

    /// The branch index for a new message under `parent_id`, or for a new
    /// root of `conversation_id` where no parent is given.
    pub fn get_next_branch_index(
        msgs: &Vec<Message>,
        parent_id: Option<&str>,
        conversation_id: &str,
    ) -> (index: i32)
        ensures
            index == next_branch_index(msgs@, opt_str_text(parent_id), conversation_id@),
    {
        let mut highest: i32 = -1;
        let mut i: usize = 0;
        while i < msgs.len()
            invariant
                i <= msgs.len(),
                highest == max_branch_index(
                    msgs@,
                    opt_str_text(parent_id),
                    conversation_id@,
                    i as int,
                ),
            decreases msgs.len() - i,
        {
            if MessageRepo::belongs_to_group(&msgs[i], parent_id, conversation_id)
                && msgs[i].branch_index > highest {
                highest = msgs[i].branch_index;
            }
            i += 1;
        }
        if highest == i32::MAX {
            i32::MAX
        } else {
            highest + 1
        }
    }

    /// The message with the id `id`.
    pub fn find_by_id(msgs: &Vec<Message>, id: &str) -> (result: AppResult<Message>)
        ensures
            match result {
                Ok(m) => position(msgs@, id@) is Some && m == msgs@[position(msgs@, id@)->0],
                Err(e) => position(msgs@, id@) is None && e is NotFound,
            },
    {
        match find_message(msgs, id) {
            Some(at) => Ok(msgs[at].copy()),
            None => Err(AppError::NotFound("Record not found".to_owned())),
        }
    }

    /// Enters a message into the graph. A message whose id the graph already
    /// holds is refused.
    pub fn create(msgs: &mut Vec<Message>, message: &Message) -> (result: AppResult<Message>)
        ensures
            match result {
                Ok(m) => position(old(msgs)@, message.id@) is None && m == *message && final(msgs)@ == old(msgs)@.push(*message),
                Err(e) => position(old(msgs)@, message.id@) is Some && e is Database && final(msgs)@ == old(msgs)@,
            },
    {
        if find_message(msgs, message.id.as_str()).is_some() {
            return Err(AppError::Database("UNIQUE constraint failed: messages.id".to_owned()));
        }
        msgs.push(message.copy());
        Ok(message.copy())
    }

    /// Replaces the content and the token count of the message with the id
    /// `id`. Everything else of the message stays: its id, its place in the
    /// graph and its active flag.
    pub fn update_content(msgs: &mut Vec<Message>, id: &str, content: &str, token_count: i32)
        ensures
            final(msgs)@.len() == old(msgs)@.len(),
            same_shape(old(msgs)@, final(msgs)@),
            forall|i: int|
                0 <= i < old(msgs)@.len() ==> if position(old(msgs)@, id@) == Some(i) {
                    (#[trigger] final(msgs)@[i]).content@ == content@ && final(msgs)@[i] == (Message {
                        content: final(msgs)@[i].content,
                        token_count,
                        ..old(msgs)@[i]
                    })
                } else {
                    final(msgs)@[i] == old(msgs)@[i]
                },
    {
        match find_message(msgs, id) {
            Some(at) => {
                let before = &msgs[at];
                let after = Message {
                    id: before.id.clone(),
                    conversation_id: before.conversation_id.clone(),
                    parent_id: clone_opt(&before.parent_id),
                    author_type: before.author_type,
                    author_id: clone_opt(&before.author_id),
                    content: content.to_owned(),
                    is_active_branch: before.is_active_branch,
                    branch_index: before.branch_index,
                    token_count,
                    created_at: before.created_at,
                    author_name: clone_opt(&before.author_name),
                    sibling_count: before.sibling_count,
                };
                msgs.set(at, after);
            },
            None => {},
        }
    }

    /// Sets the active flag of the message with the id `id`.
    pub fn set_branch_active(msgs: &mut Vec<Message>, id: &str, active: bool)
        ensures
            final(msgs)@.len() == old(msgs)@.len(),
            forall|i: int|
                0 <= i < old(msgs)@.len() ==> #[trigger] final(msgs)@[i] == if position(
                    old(msgs)@,
                    id@,
                ) == Some(i) {
                    flagged(old(msgs)@[i], active)
                } else {
                    old(msgs)@[i]
                },
    {
        match find_message(msgs, id) {
            Some(at) => {
                let after = with_active(&msgs[at], active);
                msgs.set(at, after);
            },
            None => {},
        }
    }

    /// Makes the message with the id `root_id` and all its descendants
    /// inactive.
    pub fn deactivate_subtree(msgs: &mut Vec<Message>, root_id: &str)
        ensures
            final(msgs)@ == match position(old(msgs)@, root_id@) {
                Some(root) => deactivated(old(msgs)@, root),
                None => old(msgs)@,
            },
    {
        match find_message(msgs, root_id) {
            Some(root) => MessageRepo::deactivate_at(msgs, root),
            None => {},
        }
    }

    /// Makes the message at `root` and all its descendants inactive.
    pub fn deactivate_at(msgs: &mut Vec<Message>, root: usize)
        requires
            root < old(msgs)@.len(),
        ensures
            final(msgs)@ == deactivated(old(msgs)@, root as int),
    {
        let marks = MessageRepo::mark_subtree(msgs, root);
        let mut i: usize = 0;
        while i < msgs.len()
            invariant
                i <= msgs.len(),
                msgs@.len() == old(msgs)@.len(),
                marks@.len() == msgs@.len(),
                forall|j: int| 0 <= j < marks@.len() ==> marks@[j] == in_subtree(
                    old(msgs)@,
                    root as int,
                    j,
                ),
                forall|j: int| 0 <= j < i ==> #[trigger] msgs@[j] == deactivated(
                    old(msgs)@,
                    root as int,
                )[j],
                forall|j: int| i <= j < msgs@.len() ==> msgs@[j] == old(msgs)@[j],
            decreases msgs.len() - i,
        {
            if marks[i] {
                let after = with_active(&msgs[i], false);
                msgs.set(i, after);
            }
            i += 1;
        }
        assert(msgs@ =~= deactivated(old(msgs)@, root as int));
    }

    /// For each message, whether it belongs to the subtree of `root`.
    pub fn mark_subtree(msgs: &Vec<Message>, root: usize) -> (marks: Vec<bool>)
        ensures
            marks@.len() == msgs@.len(),
            forall|j: int| 0 <= j < marks@.len() ==> marks@[j] == in_subtree(msgs@, root as int, j),
    {
        let mut marks: Vec<bool> = Vec::new();
        let mut i: usize = 0;
        while i < msgs.len()
            invariant
                i <= msgs.len(),
                marks@.len() == i,
                forall|j: int| 0 <= j < i ==> marks@[j] == in_subtree(msgs@, root as int, j),
            decreases msgs.len() - i,
        {
            let inside = if i == root {
                true
            } else {
                match find_parent(msgs, i) {
                    Some(p) => p < i && marks[p],
                    None => false,
                }
            };
            marks.push(inside);
            i += 1;
        }
        marks
    }

    /// Makes the message with the id `message_id` and all its ancestors
    /// active.
    pub fn activate_path_to_root(msgs: &mut Vec<Message>, message_id: &str)
        ensures
            final(msgs)@ == match position(old(msgs)@, message_id@) {
                Some(leaf) => path_activated(old(msgs)@, leaf),
                None => old(msgs)@,
            },
    {
        match find_message(msgs, message_id) {
            Some(leaf) => MessageRepo::activate_path_at(msgs, leaf),
            None => {},
        }
    }

    /// Makes the message at `leaf` and all its ancestors active.
    pub fn activate_path_at(msgs: &mut Vec<Message>, leaf: usize)
        requires
            leaf < old(msgs)@.len(),
        ensures
            final(msgs)@ == path_activated(old(msgs)@, leaf as int),
    {
        let mut cur: usize = leaf;
        proof {
            assert forall|j: int| leaf < j < msgs@.len() implies #[trigger] msgs@[j]
                == path_activated(old(msgs)@, leaf as int)[j] by {
                if in_subtree(old(msgs)@, j, leaf as int) {
                    lemma_subtree_order(old(msgs)@, j, leaf as int);
                }
            }
        }
        loop
            invariant_except_break
                forall|j: int|
                    0 <= j <= cur ==> in_subtree(old(msgs)@, j, leaf as int) == in_subtree(
                        old(msgs)@,
                        j,
                        cur as int,
                    ),
                forall|j: int|
                    cur < j < msgs@.len() ==> #[trigger] msgs@[j] == path_activated(
                        old(msgs)@,
                        leaf as int,
                    )[j],
                forall|j: int| 0 <= j <= cur ==> msgs@[j] == old(msgs)@[j],
            invariant
                cur <= leaf < msgs@.len(),
                msgs@.len() == old(msgs)@.len(),
                same_shape(old(msgs)@, msgs@),
                in_subtree(old(msgs)@, cur as int, leaf as int),
            ensures
                msgs@ == path_activated(old(msgs)@, leaf as int),
            decreases cur,
        {
            let ghost before = msgs@;
            let parent = find_parent(msgs, cur);
            proof {
                lemma_parent_same_shape(old(msgs)@, before, cur as int);
            }
            let after = with_active(&msgs[cur], true);
            msgs.set(cur, after);
            proof {
                assert(same_node(old(msgs)@[cur as int], msgs@[cur as int]));
                assert forall|i: int| 0 <= i < msgs@.len() implies same_node(
                    #[trigger] old(msgs)@[i],
                    msgs@[i],
                ) by {
                    if i != cur {
                        assert(msgs@[i] == before[i]);
                        assert(same_node(old(msgs)@[i], before[i]));
                    }
                }
            }
            let next = match parent {
                Some(p) => if p < cur {
                    Some(p)
                } else {
                    None
                },
                None => None,
            };
            match next {
                Some(p) => {
                    proof {
                        assert forall|j: int| 0 <= j <= p implies in_subtree(
                            old(msgs)@,
                            j,
                            leaf as int,
                        ) == in_subtree(old(msgs)@, j, p as int) by {}
                        assert forall|j: int| p < j < msgs@.len() implies #[trigger] msgs@[j]
                            == path_activated(old(msgs)@, leaf as int)[j] by {
                            if j < cur {
                                if in_subtree(old(msgs)@, j, p as int) {
                                    lemma_subtree_order(old(msgs)@, j, p as int);
                                }
                            }
                        }
                    }
                    cur = p;
                },
                None => {
                    proof {
                        assert forall|j: int| 0 <= j < cur implies !in_subtree(
                            old(msgs)@,
                            j,
                            leaf as int,
                        ) by {}
                        assert(msgs@ =~= path_activated(old(msgs)@, leaf as int));
                    }
                    break;
                },
            }
        }
    }

    /// Removes the message with the id `id` and all its descendants.
    pub fn delete(msgs: &mut Vec<Message>, id: &str)
        ensures
            final(msgs)@ == match position(old(msgs)@, id@) {
                Some(root) => without_subtree(old(msgs)@, root, old(msgs)@.len() as int),
                None => old(msgs)@,
            },
    {
        match find_message(msgs, id) {
            Some(root) => MessageRepo::delete_at(msgs, root),
            None => {},
        }
    }

    /// Removes the message at `root` and all its descendants.
    pub fn delete_at(msgs: &mut Vec<Message>, root: usize)
        requires
            root < old(msgs)@.len(),
        ensures
            final(msgs)@ == without_subtree(old(msgs)@, root as int, old(msgs)@.len() as int),
    {
        let marks = MessageRepo::mark_subtree(msgs, root);
        let mut kept: Vec<Message> = Vec::new();
        let mut i: usize = 0;
        while i < msgs.len()
            invariant
                i <= msgs.len(),
                msgs@ == old(msgs)@,
                marks@.len() == msgs@.len(),
                forall|j: int| 0 <= j < marks@.len() ==> marks@[j] == in_subtree(
                    msgs@,
                    root as int,
                    j,
                ),
                kept@ == without_subtree(msgs@, root as int, i as int),
            decreases msgs.len() - i,
        {
            if !marks[i] {
                kept.push(msgs[i].copy());
            }
            i += 1;
        }
        *msgs = kept;
    }

    /// The active messages of the conversation, in the order of their
    /// creation.
    pub fn find_active_branch(msgs: &Vec<Message>, conversation_id: &str) -> (chain: Vec<Message>)
        ensures
            chain@ == active_branch(msgs@, conversation_id@, msgs@.len() as int),
    {
        let mut chain: Vec<Message> = Vec::new();
        let mut i: usize = 0;
        while i < msgs.len()
            invariant
                i <= msgs.len(),
                chain@ == active_branch(msgs@, conversation_id@, i as int),
            decreases msgs.len() - i,
        {
            if msgs[i].is_active_branch && str_eq(
                msgs[i].conversation_id.as_str(),
                conversation_id,
            ) {
                chain.push(msgs[i].copy());
            }
            i += 1;
        }
        chain
    }
}

/// The active messages of a conversation among the first `upto`, in the
/// order of their creation.
pub open spec fn active_branch(msgs: Seq<Message>, conversation: Seq<char>, upto: int) -> Seq<
    Message,
>
    decreases upto,
{
    if upto <= 0 {
        Seq::empty()
    } else if msgs[upto - 1].is_active_branch && msgs[upto - 1].conversation_id@ == conversation {
        active_branch(msgs, conversation, upto - 1).push(msgs[upto - 1])
    } else {
        active_branch(msgs, conversation, upto - 1)
    }
}

/// Where the message at `at` goes into positions ordered by rising branch
/// index: behind every position whose branch index is not higher.
pub open spec fn branch_slot(msgs: Seq<Message>, sorted: Seq<int>, branch: int) -> int
    decreases sorted.len(),
{
    if sorted.len() == 0 {
        0
    } else if msgs[sorted.last()].branch_index <= branch {
        sorted.len() as int
    } else {
        branch_slot(msgs, sorted.drop_last(), branch)
    }
}

/// The positions of the messages of a group among the first `upto`, by
/// rising branch index; messages of equal branch index keep their order.
pub open spec fn group_positions(
    msgs: Seq<Message>,
    parent: Option<Seq<char>>,
    conversation: Seq<char>,
    upto: int,
) -> Seq<int>
    decreases upto,
{
    if upto <= 0 {
        Seq::empty()
    } else {
        let before = group_positions(msgs, parent, conversation, upto - 1);
        if in_group(msgs[upto - 1], parent, conversation) {
            before.insert(
                branch_slot(msgs, before, msgs[upto - 1].branch_index as int),
                upto - 1,
            )
        } else {
            before
        }
    }
}

/// The positions of a group stand by rising branch index.
pub proof fn lemma_group_positions_rise(
    msgs: Seq<Message>,
    parent: Option<Seq<char>>,
    conversation: Seq<char>,
    upto: int,
)
    requires
        0 <= upto <= msgs.len(),
    ensures
        rising(msgs, group_positions(msgs, parent, conversation, upto)),
    decreases upto,
{
    if upto > 0 {
        lemma_group_positions_rise(msgs, parent, conversation, upto - 1);
        let before = group_positions(msgs, parent, conversation, upto - 1);
        let now = group_positions(msgs, parent, conversation, upto);
        if in_group(msgs[upto - 1], parent, conversation) {
            let branch = msgs[upto - 1].branch_index as int;
            lemma_branch_slot(msgs, before, branch);
            let at = branch_slot(msgs, before, branch);
            assert forall|k: int, l: int| 0 <= k < l < now.len() implies msgs[#[trigger] now[k]].branch_index
                <= msgs[#[trigger] now[l]].branch_index by {
                if k < at {
                    assert(now[k] == before[k]);
                } else if k > at {
                    assert(now[k] == before[k - 1]);
                }
                if l < at {
                    assert(now[l] == before[l]);
                } else if l > at {
                    assert(now[l] == before[l - 1]);
                }
            }
        }
    }
}

/// The positions of a group are those of the messages of the group among
/// the first `upto`.
pub proof fn lemma_group_positions_members(
    msgs: Seq<Message>,
    parent: Option<Seq<char>>,
    conversation: Seq<char>,
    upto: int,
    i: int,
)
    requires
        0 <= upto <= msgs.len(),
    ensures
        group_positions(msgs, parent, conversation, upto).contains(i) <==> 0 <= i < upto
            && in_group(msgs[i], parent, conversation),
    decreases upto,
{
    if upto > 0 {
        lemma_group_positions_members(msgs, parent, conversation, upto - 1, i);
        let before = group_positions(msgs, parent, conversation, upto - 1);
        let now = group_positions(msgs, parent, conversation, upto);
        if in_group(msgs[upto - 1], parent, conversation) {
            let branch = msgs[upto - 1].branch_index as int;
            lemma_group_positions_rise(msgs, parent, conversation, upto - 1);
            lemma_branch_slot(msgs, before, branch);
            let at = branch_slot(msgs, before, branch);
            assert(now[at] == upto - 1);
            if now.contains(i) {
                let k = choose|k: int| 0 <= k < now.len() && now[k] == i;
                if k < at {
                    assert(before[k] == i);
                } else if k > at {
                    assert(before[k - 1] == i);
                }
            }
            if before.contains(i) {
                let k = choose|k: int| 0 <= k < before.len() && before[k] == i;
                if k < at {
                    assert(now[k] == i);
                } else {
                    assert(now[k + 1] == i);
                }
            }
        }
    }
}

/// The positions stand by rising branch index.
pub open spec fn rising(msgs: Seq<Message>, sorted: Seq<int>) -> bool {
    forall|k: int, l: int|
        0 <= k < l < sorted.len() ==> msgs[#[trigger] sorted[k]].branch_index
            <= msgs[#[trigger] sorted[l]].branch_index
}

/// The slot for a branch index lies within the positions; before it no
/// position has a higher branch index, and from it on every position has
/// one, provided that the positions stand by rising branch index.
pub proof fn lemma_branch_slot(msgs: Seq<Message>, sorted: Seq<int>, branch: int)
    requires
        rising(msgs, sorted),
    ensures
        0 <= branch_slot(msgs, sorted, branch) <= sorted.len(),
        forall|k: int|
            0 <= k < branch_slot(msgs, sorted, branch) ==> msgs[#[trigger] sorted[k]].branch_index
                <= branch,
        forall|k: int|
            branch_slot(msgs, sorted, branch) <= k < sorted.len()
                ==> msgs[#[trigger] sorted[k]].branch_index > branch,
    decreases sorted.len(),
{
    if sorted.len() > 0 && msgs[sorted.last()].branch_index > branch {
        let shorter = sorted.drop_last();
        assert forall|k: int, l: int| 0 <= k < l < shorter.len() implies msgs[#[trigger] shorter[k]].branch_index
            <= msgs[#[trigger] shorter[l]].branch_index by {
            assert(shorter[k] == sorted[k]);
            assert(shorter[l] == sorted[l]);
        }
        lemma_branch_slot(msgs, shorter, branch);
        assert forall|k: int| 0 <= k < branch_slot(msgs, sorted, branch) implies msgs[#[trigger] sorted[k]].branch_index
            <= branch by {
            assert(sorted[k] == shorter[k]);
        }
        assert forall|k: int|
            branch_slot(msgs, sorted, branch) <= k < sorted.len() implies msgs[#[trigger] sorted[k]].branch_index
            > branch by {
            if k < shorter.len() {
                assert(sorted[k] == shorter[k]);
            }
        }
    }
}

/// The messages at the given positions.
pub open spec fn messages_at(msgs: Seq<Message>, positions: Seq<int>) -> Seq<Message> {
    positions.map_values(|at: int| msgs[at])
}

/// The positions that a vector of positions holds.
pub open spec fn position_views(positions: Seq<usize>) -> Seq<int> {
    positions.map_values(|at: usize| at as int)
}

/// The first active child of the message with the id `parent`, from `from`
/// on.
pub open spec fn first_active_child_from(msgs: Seq<Message>, parent: Seq<char>, from: int) -> Option<
    int,
>
    decreases msgs.len() - from + 1,
{
    if from < 0 || from >= msgs.len() {
        None
    } else if opt_text(msgs[from].parent_id) == Some(parent) && msgs[from].is_active_branch {
        Some(from)
    } else {
        first_active_child_from(msgs, parent, from + 1)
    }
}

/// The first active child of the message at `at`.
pub open spec fn first_active_child(msgs: Seq<Message>, at: int) -> Option<int> {
    if 0 <= at < msgs.len() {
        first_active_child_from(msgs, msgs[at].id@, 0)
    } else {
        None
    }
}

/// The end of the chain of first active children that begins at `at`.
pub open spec fn deepest_active(msgs: Seq<Message>, at: int) -> int
    decreases msgs.len() - at,
{
    match first_active_child(msgs, at) {
        Some(c) => if at < c < msgs.len() {
            deepest_active(msgs, c)
        } else {
            at
        },
        None => at,
    }
}

/// The child of the message with the id `parent` that stands lowest among
/// the first `upto` messages: of the children, or of the active children
/// where `active` holds, the one with the lowest branch index, and of those
/// the first.
pub open spec fn lowest_child(msgs: Seq<Message>, parent: Seq<char>, upto: int, active: bool) -> Option<
    int,
>
    decreases upto,
{
    if upto <= 0 {
        None
    } else {
        let before = lowest_child(msgs, parent, upto - 1, active);
        let m = msgs[upto - 1];
        if opt_text(m.parent_id) == Some(parent) && (!active || m.is_active_branch) {
            match before {
                Some(b) => if m.branch_index < msgs[b].branch_index {
                    Some(upto - 1)
                } else {
                    before
                },
                None => Some(upto - 1),
            }
        } else {
            before
        }
    }
}

/// The child that the walk down takes from the message at `at`: its lowest
/// active child, or, where none is active, its lowest child.
pub open spec fn preferred_child(msgs: Seq<Message>, at: int) -> Option<int> {
    if 0 <= at < msgs.len() {
        match lowest_child(msgs, msgs[at].id@, msgs.len() as int, true) {
            Some(c) => Some(c),
            None => lowest_child(msgs, msgs[at].id@, msgs.len() as int, false),
        }
    } else {
        None
    }
}

/// The graph after the walk down from the message at `at`: the preferred
/// child is made active, then its preferred child, down to a message without
/// children.
pub open spec fn descended(msgs: Seq<Message>, at: int) -> Seq<Message>
    decreases msgs.len() - at,
{
    match preferred_child(msgs, at) {
        Some(c) => if at < c < msgs.len() {
            descended(msgs.update(c, flagged(msgs[c], true)), c)
        } else {
            msgs
        },
        None => msgs,
    }
}

/// The two messages are siblings: they have the same parent, or both are
/// roots of the same conversation.
pub open spec fn are_siblings(a: Message, b: Message) -> bool {
    in_group(a, opt_text(b.parent_id), b.conversation_id@)
}

/// The message at `at` is the message at `s`, or a descendant of it, for an
/// active sibling `s` of the message at `target` other than `target`
/// itself.
pub open spec fn under_other_branch(msgs: Seq<Message>, target: int, at: int) -> bool {
    exists|s: int|
        0 <= s < msgs.len() && s != target && are_siblings(#[trigger] msgs[s], msgs[target])
            && msgs[s].is_active_branch && in_subtree(msgs, s, at)
}

/// The message at `at` is the message at `s`, or a descendant of it, for
/// one of the first `upto` messages `s` that is an active sibling of the
/// message at `target` other than `target` itself.
pub open spec fn covered_by(msgs: Seq<Message>, target: int, upto: int, at: int) -> bool {
    exists|s: int|
        0 <= s < upto && s != target && are_siblings(#[trigger] msgs[s], msgs[target])
            && msgs[s].is_active_branch && in_subtree(msgs, s, at)
}

/// The walk down changes no id, parent or conversation.
pub proof fn lemma_descended_shape(msgs: Seq<Message>, at: int)
    ensures
        same_shape(msgs, descended(msgs, at)),
    decreases msgs.len() - at,
{
    match preferred_child(msgs, at) {
        Some(c) => {
            if at < c < msgs.len() {
                let next = msgs.update(c, flagged(msgs[c], true));
                lemma_descended_shape(next, c);
                assert forall|i: int| 0 <= i < msgs.len() implies same_node(
                    #[trigger] msgs[i],
                    descended(msgs, at)[i],
                ) by {
                    assert(same_node(next[i], descended(next, c)[i]));
                }
            }
        },
        None => {},
    }
}

/// The graph with the subtrees of the active siblings of `target` made
/// inactive.
pub open spec fn siblings_off(msgs: Seq<Message>, target: int) -> Seq<Message> {
    Seq::new(
        msgs.len(),
        |i: int|
            if under_other_branch(msgs, target, i) {
                flagged(msgs[i], false)
            } else {
                msgs[i]
            },
    )
}

/// The graph after the switch to the branch of the message at `target`: the
/// subtrees of its active siblings are made inactive, the message and its
/// ancestors active, and then the walk down from it makes a chain of
/// preferred children active.
pub open spec fn switched(msgs: Seq<Message>, target: int) -> Seq<Message> {
    descended(path_activated(siblings_off(msgs, target), target), target)
}

impl MessageRepo {
    /// The positions of the messages of a group, by rising branch index.
    pub fn group_indices(msgs: &Vec<Message>, parent_id: Option<&str>, conversation_id: &str) -> (found:
        Vec<usize>)
        ensures
            position_views(found@) == group_positions(
                msgs@,
                opt_str_text(parent_id),
                conversation_id@,
                msgs@.len() as int,
            ),
            forall|k: int| 0 <= k < found@.len() ==> (#[trigger] found@[k]) < msgs@.len(),
    {
        let mut found: Vec<usize> = Vec::new();
        let mut i: usize = 0;
        let ghost parent = opt_str_text(parent_id);
        assert(position_views(found@) =~= group_positions(msgs@, parent, conversation_id@, 0));
        while i < msgs.len()
            invariant
                i <= msgs.len(),
                parent == opt_str_text(parent_id),
                position_views(found@) == group_positions(
                    msgs@,
                    parent,
                    conversation_id@,
                    i as int,
                ),
                forall|k: int| 0 <= k < found@.len() ==> (#[trigger] found@[k]) < i,
            decreases msgs.len() - i,
        {
            if MessageRepo::belongs_to_group(&msgs[i], parent_id, conversation_id) {
                let branch = msgs[i].branch_index;
                let mut at: usize = found.len();
                let ghost sorted = position_views(found@);
                assert(sorted.take(at as int) =~= sorted);
                while at > 0 && msgs[found[at - 1]].branch_index > branch
                    invariant
                        at <= found.len(),
                        sorted == position_views(found@),
                        forall|k: int| 0 <= k < found@.len() ==> (#[trigger] found@[k]) < msgs@.len(),
                        branch_slot(msgs@, sorted, branch as int) == branch_slot(
                            msgs@,
                            sorted.take(at as int),
                            branch as int,
                        ),
                    decreases at,
                {
                    proof {
                        assert(sorted.take(at as int).drop_last() =~= sorted.take(at - 1));
                        assert(sorted.take(at as int).last() == found@[at - 1] as int);
                    }
                    at -= 1;
                }
                proof {
                    if at > 0 {
                        assert(sorted.take(at as int).last() == found@[at - 1] as int);
                    }
                }
                found.insert(at, i);
                assert(position_views(found@) =~= sorted.insert(at as int, i as int));
            }
            i += 1;
        }
        found
    }

    /// Copies of the messages at the given positions.
    pub fn copies_at(msgs: &Vec<Message>, positions: &Vec<usize>) -> (copies: Vec<Message>)
        requires
            forall|k: int| 0 <= k < positions@.len() ==> (#[trigger] positions@[k]) < msgs@.len(),
        ensures
            copies@ == messages_at(msgs@, position_views(positions@)),
    {
        let mut copies: Vec<Message> = Vec::new();
        let mut k: usize = 0;
        while k < positions.len()
            invariant
                k <= positions.len(),
                forall|j: int| 0 <= j < positions@.len() ==> (#[trigger] positions@[j]) < msgs@.len(),
                copies@ == messages_at(msgs@, position_views(positions@).take(k as int)),
            decreases positions.len() - k,
        {
            copies.push(msgs[positions[k]].copy());
            k += 1;
            assert(copies@ =~= messages_at(msgs@, position_views(positions@).take(k as int)));
        }
        assert(position_views(positions@).take(positions@.len() as int) =~= position_views(
            positions@,
        ));
        copies
    }

    /// The children of the message with the id `parent_id`, by rising
    /// branch index.
    pub fn find_children(msgs: &Vec<Message>, parent_id: &str) -> (children: Vec<Message>)
        ensures
            children@ == messages_at(
                msgs@,
                group_positions(msgs@, Some(parent_id@), Seq::empty(), msgs@.len() as int),
            ),
    {
        let positions = MessageRepo::group_indices(msgs, Some(parent_id), "");
        proof {
            reveal_strlit("");
            assert(""@ =~= Seq::<char>::empty());
        }
        MessageRepo::copies_at(msgs, &positions)
    }

    /// The siblings of the message with the id `message_id`, itself among
    /// them, by rising branch index.
    pub fn find_siblings(msgs: &Vec<Message>, message_id: &str) -> (result: AppResult<Vec<Message>>)
        ensures
            match result {
                Ok(siblings) => position(msgs@, message_id@) is Some && siblings@ == messages_at(
                    msgs@,
                    group_positions(
                        msgs@,
                        opt_text(msgs@[position(msgs@, message_id@)->0].parent_id),
                        msgs@[position(msgs@, message_id@)->0].conversation_id@,
                        msgs@.len() as int,
                    ),
                ),
                Err(e) => position(msgs@, message_id@) is None && e is NotFound,
            },
    {
        let at = match find_message(msgs, message_id) {
            Some(at) => at,
            None => {
                return Err(AppError::NotFound("Record not found".to_owned()));
            },
        };
        let parent: Option<&str> = match &msgs[at].parent_id {
            Some(id) => Some(id.as_str()),
            None => None,
        };
        let positions = MessageRepo::group_indices(msgs, parent, msgs[at].conversation_id.as_str());
        Ok(MessageRepo::copies_at(msgs, &positions))
    }

    /// The position of the first active child of the message with the id
    /// `parent_id`.
    pub fn active_child_index(msgs: &Vec<Message>, parent_id: &str) -> (found: Option<usize>)
        ensures
            match found {
                Some(c) => first_active_child_from(msgs@, parent_id@, 0) == Some(c as int) && c
                    < msgs@.len(),
                None => first_active_child_from(msgs@, parent_id@, 0) is None,
            },
    {
        let mut i: usize = 0;
        while i < msgs.len()
            invariant
                i <= msgs.len(),
                first_active_child_from(msgs@, parent_id@, 0) == first_active_child_from(
                    msgs@,
                    parent_id@,
                    i as int,
                ),
            decreases msgs.len() - i,
        {
            if msgs[i].is_active_branch && opt_is(&msgs[i].parent_id, parent_id) {
                return Some(i);
            }
            i += 1;
        }
        None
    }

    /// The first active child of the message with the id `parent_id`.
    pub fn find_active_child(msgs: &Vec<Message>, parent_id: &str) -> (child: Option<Message>)
        ensures
            match child {
                Some(m) => first_active_child_from(msgs@, parent_id@, 0) is Some && m
                    == msgs@[first_active_child_from(msgs@, parent_id@, 0)->0],
                None => first_active_child_from(msgs@, parent_id@, 0) is None,
            },
    {
        match MessageRepo::active_child_index(msgs, parent_id) {
            Some(c) => Some(msgs[c].copy()),
            None => None,
        }
    }

    /// The position of the end of the chain of first active children that
    /// begins at `start`.
    pub fn deepest_active_index(msgs: &Vec<Message>, start: usize) -> (end: usize)
        requires
            start < msgs@.len(),
        ensures
            end == deepest_active(msgs@, start as int),
            start <= end < msgs@.len(),
    {
        let mut cur: usize = start;
        loop
            invariant
                start <= cur < msgs@.len(),
                deepest_active(msgs@, start as int) == deepest_active(msgs@, cur as int),
            decreases msgs@.len() - cur,
        {
            match MessageRepo::active_child_index(msgs, msgs[cur].id.as_str()) {
                Some(c) => {
                    if c > cur {
                        cur = c;
                    } else {
                        return cur;
                    }
                },
                None => {
                    return cur;
                },
            }
        }
    }

    /// The end of the chain of first active children that begins at the
    /// message with the id `start_id`.
    pub fn find_deepest_active(msgs: &Vec<Message>, start_id: &str) -> (result: AppResult<Message>)
        ensures
            match result {
                Ok(m) => position(msgs@, start_id@) is Some && m == msgs@[deepest_active(
                    msgs@,
                    position(msgs@, start_id@)->0,
                )],
                Err(e) => position(msgs@, start_id@) is None && e is NotFound,
            },
    {
        match find_message(msgs, start_id) {
            Some(start) => {
                let end = MessageRepo::deepest_active_index(msgs, start);
                Ok(msgs[end].copy())
            },
            None => Err(AppError::NotFound("Record not found".to_owned())),
        }
    }

    /// The position of the lowest child, or lowest active child, of the
    /// message with the id `parent_id`.
    pub fn lowest_child_index(msgs: &Vec<Message>, parent_id: &str, active: bool) -> (found: Option<
        usize,
    >)
        ensures
            match found {
                Some(c) => lowest_child(msgs@, parent_id@, msgs@.len() as int, active) == Some(
                    c as int,
                ) && c < msgs@.len(),
                None => lowest_child(msgs@, parent_id@, msgs@.len() as int, active) is None,
            },
    {
        let mut best: Option<usize> = None;
        let mut i: usize = 0;
        while i < msgs.len()
            invariant
                i <= msgs.len(),
                match best {
                    Some(c) => lowest_child(msgs@, parent_id@, i as int, active) == Some(c as int)
                        && c < i,
                    None => lowest_child(msgs@, parent_id@, i as int, active) is None,
                },
            decreases msgs.len() - i,
        {
            if opt_is(&msgs[i].parent_id, parent_id) && (!active || msgs[i].is_active_branch) {
                match best {
                    Some(b) => {
                        if msgs[i].branch_index < msgs[b].branch_index {
                            best = Some(i);
                        }
                    },
                    None => {
                        best = Some(i);
                    },
                }
            }
            i += 1;
        }
        best
    }

    /// Walks down from the message with the id `start_id` and makes a chain
    /// of preferred children active: at each message its lowest active
    /// child, or, where none is active, its lowest child.
    pub fn activate_deepest_path(msgs: &mut Vec<Message>, start_id: &str)
        ensures
            final(msgs)@ == match position(old(msgs)@, start_id@) {
                Some(start) => descended(old(msgs)@, start),
                None => old(msgs)@,
            },
    {
        match find_message(msgs, start_id) {
            Some(start) => MessageRepo::descend_at(msgs, start),
            None => {},
        }
    }

    /// Walks down from the message at `start` and makes a chain of
    /// preferred children active.
    pub fn descend_at(msgs: &mut Vec<Message>, start: usize)
        requires
            start < old(msgs)@.len(),
        ensures
            final(msgs)@ == descended(old(msgs)@, start as int),
    {
        let mut cur: usize = start;
        loop
            invariant
                cur < msgs@.len(),
                descended(old(msgs)@, start as int) == descended(msgs@, cur as int),
            ensures
                msgs@ == descended(old(msgs)@, start as int),
            decreases msgs@.len() - cur,
        {
            let active = MessageRepo::lowest_child_index(msgs, msgs[cur].id.as_str(), true);
            let next = match active {
                Some(c) => Some(c),
                None => MessageRepo::lowest_child_index(msgs, msgs[cur].id.as_str(), false),
            };
            match next {
                Some(c) => {
                    if c > cur {
                        let after = with_active(&msgs[c], true);
                        msgs.set(c, after);
                        cur = c;
                    } else {
                        break;
                    }
                },
                None => {
                    break;
                },
            }
        }
    }

    /// Makes the subtrees of the active siblings of the message at `target`
    /// inactive.
    pub fn deactivate_other_branches(msgs: &mut Vec<Message>, target: usize)
        requires
            target < old(msgs)@.len(),
        ensures
            final(msgs)@ == siblings_off(old(msgs)@, target as int),
    {
        let mut covered: Vec<bool> = Vec::new();
        let mut i: usize = 0;
        while i < msgs.len()
            invariant
                i <= msgs.len(),
                covered@.len() == i,
                forall|j: int| 0 <= j < i ==> !covered@[j],
            decreases msgs.len() - i,
        {
            covered.push(false);
            i += 1;
        }
        let parent: Option<&str> = match &msgs[target].parent_id {
            Some(id) => Some(id.as_str()),
            None => None,
        };
        let mut s: usize = 0;
        while s < msgs.len()
            invariant
                s <= msgs.len(),
                target < msgs@.len(),
                msgs@ == old(msgs)@,
                opt_str_text(parent) == opt_text(msgs@[target as int].parent_id),
                covered@.len() == msgs@.len(),
                forall|j: int|
                    0 <= j < covered@.len() ==> (#[trigger] covered@[j] <==> covered_by(
                        msgs@,
                        target as int,
                        s as int,
                        j,
                    )),
            decreases msgs.len() - s,
        {
            let ghost before = covered@;
            let sibling = s != target && msgs[s].is_active_branch && MessageRepo::belongs_to_group(
                &msgs[s],
                parent,
                msgs[target].conversation_id.as_str(),
            );
            if sibling {
                let marks = MessageRepo::mark_subtree(msgs, s);
                let mut j: usize = 0;
                while j < covered.len()
                    invariant
                        j <= covered.len(),
                        covered@.len() == msgs@.len(),
                        marks@.len() == msgs@.len(),
                        before.len() == covered@.len(),
                        forall|k: int|
                            0 <= k < j ==> #[trigger] covered@[k] == (before[k] || marks@[k]),
                        forall|k: int| j <= k < covered@.len() ==> #[trigger] covered@[k] == before[k],
                    decreases covered.len() - j,
                {
                    if marks[j] {
                        covered.set(j, true);
                    }
                    j += 1;
                }
                proof {
                    assert forall|j: int| 0 <= j < covered@.len() implies (#[trigger] covered@[j]
                        <==> covered_by(msgs@, target as int, s + 1, j)) by {
                        assert(before[j] <==> covered_by(msgs@, target as int, s as int, j));
                        assert(covered@[j] == (before[j] || marks@[j]));
                        if covered_by(msgs@, target as int, s + 1, j) {
                            let k = choose|k: int|
                                0 <= k < s + 1 && k != target && are_siblings(
                                    #[trigger] msgs@[k],
                                    msgs@[target as int],
                                ) && msgs@[k].is_active_branch && in_subtree(msgs@, k, j);
                            if k < s {
                                assert(covered_by(msgs@, target as int, s as int, j));
                            }
                        }
                        if before[j] {
                            let k = choose|k: int|
                                0 <= k < s && k != target && are_siblings(
                                    #[trigger] msgs@[k],
                                    msgs@[target as int],
                                ) && msgs@[k].is_active_branch && in_subtree(msgs@, k, j);
                            assert(are_siblings(msgs@[k], msgs@[target as int]));
                        }
                        if marks@[j] {
                            assert(are_siblings(msgs@[s as int], msgs@[target as int]));
                        }
                    }
                }
            } else {
                proof {
                    assert forall|j: int| 0 <= j < covered@.len() implies (#[trigger] covered@[j]
                        <==> covered_by(msgs@, target as int, s + 1, j)) by {
                        assert(covered@[j] <==> covered_by(msgs@, target as int, s as int, j));
                        if covered_by(msgs@, target as int, s + 1, j) {
                            let k = choose|k: int|
                                0 <= k < s + 1 && k != target && are_siblings(
                                    #[trigger] msgs@[k],
                                    msgs@[target as int],
                                ) && msgs@[k].is_active_branch && in_subtree(msgs@, k, j);
                            assert(k < s);
                            assert(covered_by(msgs@, target as int, s as int, j));
                        }
                        if covered@[j] {
                            let k = choose|k: int|
                                0 <= k < s && k != target && are_siblings(
                                    #[trigger] msgs@[k],
                                    msgs@[target as int],
                                ) && msgs@[k].is_active_branch && in_subtree(msgs@, k, j);
                            assert(are_siblings(msgs@[k], msgs@[target as int]));
                        }
                    }
                }
            }
            s += 1;
        }
        let mut i: usize = 0;
        while i < msgs.len()
            invariant
                i <= msgs.len(),
                target < msgs@.len(),
                msgs@.len() == old(msgs)@.len(),
                covered@.len() == msgs@.len(),
                forall|j: int|
                    0 <= j < covered@.len() ==> #[trigger] covered@[j] == under_other_branch(
                        old(msgs)@,
                        target as int,
                        j,
                    ),
                forall|j: int| 0 <= j < i ==> #[trigger] msgs@[j] == siblings_off(
                    old(msgs)@,
                    target as int,
                )[j],
                forall|j: int| i <= j < msgs@.len() ==> msgs@[j] == old(msgs)@[j],
            decreases msgs.len() - i,
        {
            if covered[i] {
                let after = with_active(&msgs[i], false);
                msgs.set(i, after);
            }
            i += 1;
        }
        assert(msgs@ =~= siblings_off(old(msgs)@, target as int));
    }

    /// Switches to the branch of the message with the id `message_id`: the
    /// subtrees of its active siblings become inactive, the message and its
    /// ancestors active, a chain of preferred children below it active, and
    /// the conversation points at the end of that chain. The result is the
    /// refreshed active chain.
    pub fn switch_to_branch(
        msgs: &mut Vec<Message>,
        active_message_id: &mut Option<String>,
        message_id: &str,
    ) -> (result: AppResult<Vec<Message>>)
        ensures
            match result {
                Ok(chain) => position(old(msgs)@, message_id@) is Some && final(msgs)@ == switched(
                    old(msgs)@,
                    position(old(msgs)@, message_id@)->0,
                ) && opt_text(*final(active_message_id)) == Some(
                    final(msgs)@[deepest_active(
                        final(msgs)@,
                        position(old(msgs)@, message_id@)->0,
                    )].id@,
                ) && chain@ == active_branch(
                    final(msgs)@,
                    old(msgs)@[position(old(msgs)@, message_id@)->0].conversation_id@,
                    final(msgs)@.len() as int,
                ),
                Err(e) => position(old(msgs)@, message_id@) is None && e is NotFound && final(msgs)@
                    == old(msgs)@ && *final(active_message_id) == *old(active_message_id),
            },
    {
        match find_message(msgs, message_id) {
            Some(target) => {
                let conversation = msgs[target].conversation_id.clone();
                let leaf = MessageRepo::switch_at(msgs, target);
                *active_message_id = Some(leaf);
                Ok(MessageRepo::find_active_branch(msgs, conversation.as_str()))
            },
            None => Err(AppError::NotFound("Record not found".to_owned())),
        }
    }

    /// Switches to the branch of the message at `target`. The result is the
    /// id of the end of the active chain below it.
    pub fn switch_at(msgs: &mut Vec<Message>, target: usize) -> (leaf: String)
        requires
            target < old(msgs)@.len(),
        ensures
            final(msgs)@ == switched(old(msgs)@, target as int),
            final(msgs)@.len() == old(msgs)@.len(),
            same_shape(old(msgs)@, final(msgs)@),
            leaf@ == final(msgs)@[deepest_active(final(msgs)@, target as int)].id@,
    {
        MessageRepo::deactivate_other_branches(msgs, target);
        let ghost off = msgs@;
        MessageRepo::activate_path_at(msgs, target);
        let ghost up = msgs@;
        MessageRepo::descend_at(msgs, target);
        proof {
            lemma_descended_shape(up, target as int);
            assert forall|i: int| 0 <= i < old(msgs)@.len() implies same_node(
                #[trigger] old(msgs)@[i],
                msgs@[i],
            ) by {
                assert(same_node(old(msgs)@[i], off[i]));
                assert(same_node(off[i], up[i]));
                assert(same_node(up[i], msgs@[i]));
            }
        }
        let end = MessageRepo::deepest_active_index(msgs, target);
        msgs[end].id.clone()
    }
}

} // verus!
