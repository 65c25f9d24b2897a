//! What holds of the message graph when a message is deleted with its
//! descendants.

use vstd::prelude::*;
use crate::branch_laws::{
    active_is_path_to, chain_holds, lemma_deactivate_keeps_chain, lemma_deactivated_shape,
    lemma_position_of, lemma_siblings_not_nested, lemma_subtree_transitive,
    lemma_switch_keeps_chain, one_conversation, lemma_ancestors_in_line,
};
use crate::entities::Message;
use crate::message_service::MessageService;
use crate::messages::{
    are_siblings, deactivated, deepest_active, distinct_ids, in_subtree, lemma_position,
    lemma_subtree_order, lemma_subtree_same_shape, parent_at, position, switched, well_formed,
    without_subtree, group_positions, lemma_group_positions_members,
};
use crate::text::opt_text;

verus! {

/// Where the message at `at` stands once the subtree of `root` is removed:
/// behind the messages before it that stay.
pub open spec fn moved_to(msgs: Seq<Message>, root: int, at: int) -> int {
    without_subtree(msgs, root, at).len() as int
}

/// A message that stays is found where it has moved to.
pub proof fn lemma_kept_at(msgs: Seq<Message>, root: int, n: int, i: int)
    requires
        0 <= i < n <= msgs.len(),
        !in_subtree(msgs, root, i),
    ensures
        0 <= moved_to(msgs, root, i) < without_subtree(msgs, root, n).len(),
        without_subtree(msgs, root, n)[moved_to(msgs, root, i)] == msgs[i],
    decreases n,
{
    if i < n - 1 {
        lemma_kept_at(msgs, root, n - 1, i);
    }
}

/// Every message of the graph without the subtree is a message that stayed.
pub proof fn lemma_origin(msgs: Seq<Message>, root: int, n: int, k: int) -> (i: int)
    requires
        0 <= n <= msgs.len(),
        0 <= k < without_subtree(msgs, root, n).len(),
    ensures
        0 <= i < n,
        !in_subtree(msgs, root, i),
        moved_to(msgs, root, i) == k,
        without_subtree(msgs, root, n)[k] == msgs[i],
    decreases n,
{
    if in_subtree(msgs, root, n - 1) {
        lemma_origin(msgs, root, n - 1, k)
    } else if k < without_subtree(msgs, root, n - 1).len() {
        lemma_origin(msgs, root, n - 1, k)
    } else {
        n - 1
    }
}

/// Messages that stay keep their order.
pub proof fn lemma_moved_order(msgs: Seq<Message>, root: int, a: int, b: int)
    requires
        0 <= a <= b <= msgs.len(),
    ensures
        moved_to(msgs, root, a) <= moved_to(msgs, root, b),
        a < b && !in_subtree(msgs, root, a) ==> moved_to(msgs, root, a) < moved_to(msgs, root, b),
    decreases b,
{
    if a < b {
        lemma_moved_order(msgs, root, a, b - 1);
    }
}

/// The parent of a message that stays stays.
pub proof fn lemma_parent_stays(msgs: Seq<Message>, root: int, at: int)
    requires
        0 <= at < msgs.len(),
        !in_subtree(msgs, root, at),
        parent_at(msgs, at) is Some,
        0 <= parent_at(msgs, at)->0 < at,
    ensures
        !in_subtree(msgs, root, parent_at(msgs, at)->0),
{
}

/// In the graph without the subtree of `root`, an id that stays is found
/// where its message has moved to, and an id that is removed is not found.
pub proof fn lemma_position_after_delete(msgs: Seq<Message>, root: int, id: Seq<char>)
    requires
        distinct_ids(msgs),
    ensures
        position(without_subtree(msgs, root, msgs.len() as int), id) == match position(msgs, id) {
            Some(at) => if in_subtree(msgs, root, at) {
                None
            } else {
                Some(moved_to(msgs, root, at))
            },
            None => None,
        },
{
    let n = msgs.len() as int;
    let after = without_subtree(msgs, root, n);
    lemma_position(msgs, id);
    lemma_position(after, id);
    match position(after, id) {
        Some(k) => {
            let i = lemma_origin(msgs, root, n, k);
            // The message with this id in the old graph is the one that moved here.
            assert(msgs[i].id@ == id);
            let at = position(msgs, id)->0;
            assert(position(msgs, id) is Some);
            if at != i {
                if at < i {
                    assert(msgs[at].id@ != msgs[i].id@);
                } else {
                    assert(msgs[i].id@ != msgs[at].id@);
                }
            }
        },
        None => {
            match position(msgs, id) {
                Some(at) => {
                    if !in_subtree(msgs, root, at) {
                        lemma_kept_at(msgs, root, n, at);
                        assert(after[moved_to(msgs, root, at)] == msgs[at]);
                    }
                },
                None => {},
            }
        },
    }
}

/// In the graph without the subtree of `root`, the messages that stay have
/// the parents and the ancestors that they had.
pub proof fn lemma_subtree_after_delete(msgs: Seq<Message>, root: int, a: int, b: int)
    requires
        well_formed(msgs),
        0 <= a < msgs.len(),
        0 <= b < msgs.len(),
        !in_subtree(msgs, root, a),
        !in_subtree(msgs, root, b),
    ensures
        parent_at(without_subtree(msgs, root, msgs.len() as int), moved_to(msgs, root, b))
            == match parent_at(msgs, b) {
            Some(p) => Some(moved_to(msgs, root, p)),
            None => None,
        },
        in_subtree(
            without_subtree(msgs, root, msgs.len() as int),
            moved_to(msgs, root, a),
            moved_to(msgs, root, b),
        ) == in_subtree(msgs, a, b),
    decreases b,
{
    let n = msgs.len() as int;
    let after = without_subtree(msgs, root, n);
    lemma_kept_at(msgs, root, n, b);
    lemma_kept_at(msgs, root, n, a);
    assert(after[moved_to(msgs, root, b)] == msgs[b]);
    match msgs[b].parent_id {
        Some(pid) => {
            lemma_position_after_delete(msgs, root, pid@);
            let p = parent_at(msgs, b)->0;
            assert(parent_at(msgs, b) is Some && 0 <= p < b);
            lemma_parent_stays(msgs, root, b);
            lemma_moved_order(msgs, root, p, b);
            if a != b {
                lemma_subtree_after_delete(msgs, root, a, p);
                if a < b {
                    lemma_moved_order(msgs, root, a, b);
                } else {
                    lemma_moved_order(msgs, root, b, a);
                }
            }
        },
        None => {
            if a != b {
                if a < b {
                    lemma_moved_order(msgs, root, a, b);
                } else {
                    lemma_moved_order(msgs, root, b, a);
                }
            }
        },
    }
}

/// Deleting a subtree keeps the graph well formed.
pub proof fn lemma_delete_well_formed(msgs: Seq<Message>, root: int)
    requires
        well_formed(msgs),
    ensures
        well_formed(without_subtree(msgs, root, msgs.len() as int)),
{
    let n = msgs.len() as int;
    let after = without_subtree(msgs, root, n);
    assert forall|k: int, l: int| 0 <= k < l < after.len() implies (#[trigger] after[k]).id@ != (
    #[trigger] after[l]).id@ by {
        let i = lemma_origin(msgs, root, n, k);
        let j = lemma_origin(msgs, root, n, l);
        if i < j {
            assert(msgs[i].id@ != msgs[j].id@);
        } else if j < i {
            assert(msgs[j].id@ != msgs[i].id@);
        }
    }
    assert forall|k: int|
        0 <= k < after.len() && (#[trigger] after[k]).parent_id is Some implies parent_at(after, k)
        is Some && 0 <= parent_at(after, k)->0 < k by {
        let i = lemma_origin(msgs, root, n, k);
        assert(msgs[i].parent_id is Some);
        let p = parent_at(msgs, i)->0;
        lemma_parent_stays(msgs, root, i);
        lemma_subtree_after_delete(msgs, root, i, i);
        lemma_moved_order(msgs, root, p, i);
    }
}

/// Deleting off the active chain keeps it: where the active messages make
/// a path to a message that stays, they still do in the graph without the
/// subtree, and the id of that message is still found.
pub proof fn lemma_delete_keeps_path(msgs: Seq<Message>, root: int, leaf: int)
    requires
        well_formed(msgs),
        active_is_path_to(msgs, leaf),
        !in_subtree(msgs, root, leaf),
    ensures
        well_formed(without_subtree(msgs, root, msgs.len() as int)),
        chain_holds(without_subtree(msgs, root, msgs.len() as int), Some(msgs[leaf].id@)),
{
    let n = msgs.len() as int;
    let after = without_subtree(msgs, root, n);
    lemma_delete_well_formed(msgs, root);
    lemma_position_of(msgs, leaf);
    lemma_position_after_delete(msgs, root, msgs[leaf].id@);
    let end = moved_to(msgs, root, leaf);
    assert forall|k: int| 0 <= k < after.len() implies (#[trigger] after[k]).is_active_branch
        == in_subtree(after, k, end) by {
        let i = lemma_origin(msgs, root, n, k);
        lemma_subtree_order(msgs, leaf, leaf);
        lemma_subtree_after_delete(msgs, root, i, leaf);
    }
}

/// Deleting a message of the active chain that has no alternative sibling
/// keeps the chain: the conversation then points at the parent of the
/// message, or at nothing where the message is a root, and the active
/// messages of the graph without the subtree are exactly the parent and its
/// ancestors.
pub proof fn lemma_delete_on_chain_keeps_chain(
    msgs: Seq<Message>,
    active: Option<Seq<char>>,
    at: int,
)
    requires
        well_formed(msgs),
        chain_holds(msgs, active),
        0 <= at < msgs.len(),
        msgs[at].is_active_branch,
    ensures
        well_formed(without_subtree(msgs, at, msgs.len() as int)),
        chain_holds(without_subtree(msgs, at, msgs.len() as int), opt_text(msgs[at].parent_id)),
{
    let n = msgs.len() as int;
    let off = deactivated(msgs, at);
    lemma_deactivate_keeps_chain(msgs, active, at);
    lemma_deactivated_shape(msgs, at);
    lemma_same_without(msgs, at, n);
    match msgs[at].parent_id {
        Some(pid) => {
            let p = position(off, pid@)->0;
            crate::messages::lemma_position_same_shape(msgs, off, pid@, 0);
            assert(parent_at(msgs, at) == Some(p));
            assert(0 <= p < at);
            if in_subtree(off, at, p) {
                lemma_subtree_order(off, at, p);
            }
            lemma_delete_keeps_path(off, at, p);
            assert(off[p].id@ == pid@) by {
                lemma_position(off, pid@);
            }
        },
        None => {
            lemma_delete_well_formed(off, at);
            let after = without_subtree(off, at, n);
            assert forall|k: int| 0 <= k < after.len() implies !(#[trigger] after[k]).is_active_branch by {
                let i = lemma_origin(off, at, n, k);
            }
        },
    }
}

/// Removing a subtree gives the same graph whether or not the subtree was
/// made inactive before.
pub proof fn lemma_same_without(msgs: Seq<Message>, root: int, n: int)
    requires
        0 <= n <= msgs.len(),
    ensures
        without_subtree(deactivated(msgs, root), root, n) == without_subtree(msgs, root, n),
    decreases n,
{
    lemma_deactivated_shape(msgs, root);
    if n > 0 {
        lemma_same_without(msgs, root, n - 1);
        lemma_subtree_same_shape(msgs, deactivated(msgs, root), root, n - 1);
    }
}

/// Deleting keeps the branch indices of siblings distinct. It may leave a
/// gap among them: when the first of two siblings is deleted, the index 1 is
/// left without the index 0.
pub proof fn lemma_delete_keeps_branches_distinct(msgs: Seq<Message>, root: int)
    requires
        crate::branch_laws::distinct_branches(msgs),
    ensures
        crate::branch_laws::distinct_branches(without_subtree(msgs, root, msgs.len() as int)),
{
    let n = msgs.len() as int;
    let after = without_subtree(msgs, root, n);
    assert forall|k: int, l: int|
        0 <= k < l < after.len() && are_siblings(#[trigger] after[k], #[trigger] after[l]) implies after[k].branch_index
        != after[l].branch_index by {
        let i = lemma_origin(msgs, root, n, k);
        let j = lemma_origin(msgs, root, n, l);
        if j <= i {
            lemma_moved_order(msgs, root, j, i);
        }
        assert(are_siblings(msgs[i], msgs[j]));
    }
}

/// What `first_other` finds is one of the positions and not `at`; it finds
/// nothing only where every position from `from` on is `at`.
pub proof fn lemma_first_other(group: Seq<int>, at: int, from: int)
    requires
        0 <= from,
    ensures
        match MessageService::first_other(group, at, from) {
            Some(x) => x != at && group.contains(x),
            None => forall|k: int| from <= k < group.len() ==> group[k] == at,
        },
    decreases group.len() - from + 1,
{
    if from < group.len() {
        if group[from] == at {
            lemma_first_other(group, at, from + 1);
        }
    }
}

/// Deleting a message keeps the active chain. Where the active chain holds
/// in a well-formed graph of one conversation, it holds again once a message
/// is deleted with its descendants and the conversation points where the
/// deletion leaves it: at the end of the branch of an alternative sibling,
/// else at the parent, else at nothing, for a message of the active chain;
/// and where it pointed, for any other message.
pub proof fn lemma_delete_keeps_chain(msgs: Seq<Message>, active: Option<Seq<char>>, at: int)
    requires
        well_formed(msgs),
        one_conversation(msgs),
        chain_holds(msgs, active),
        0 <= at < msgs.len(),
    ensures
        well_formed(
            without_subtree(
                MessageService::after_repointing(msgs, active, at).0,
                at,
                msgs.len() as int,
            ),
        ),
        chain_holds(
            without_subtree(
                MessageService::after_repointing(msgs, active, at).0,
                at,
                msgs.len() as int,
            ),
            MessageService::after_repointing(msgs, active, at).1,
        ),
{
    let n = msgs.len() as int;
    if !msgs[at].is_active_branch {
        match active {
            Some(a) => {
                let ia = position(msgs, a)->0;
                lemma_position(msgs, a);
                lemma_delete_keeps_path(msgs, at, ia);
            },
            None => {
                lemma_delete_well_formed(msgs, at);
                let after = without_subtree(msgs, at, n);
                assert forall|k: int| 0 <= k < after.len() implies !(#[trigger] after[k]).is_active_branch by {
                    let i = lemma_origin(msgs, at, n, k);
                }
            },
        }
    } else {
        let parent = opt_text(msgs[at].parent_id);
        let conversation = msgs[at].conversation_id@;
        let group = group_positions(msgs, parent, conversation, n);
        lemma_first_other(group, at, 0);
        match MessageService::alternative_sibling(msgs, at) {
            Some(alt) => {
                lemma_group_positions_members(msgs, parent, conversation, n, alt);
                assert(are_siblings(msgs[alt], msgs[at]));
                let ia = position(msgs, active->0)->0;
                assert(active is Some);
                if msgs[alt].parent_id is Some {
                    // The parent of the siblings is above the deleted
                    // message, which is on the chain.
                    let p = parent_at(msgs, at)->0;
                    assert(parent_at(msgs, alt) == parent_at(msgs, at));
                    assert(in_subtree(msgs, p, p));
                    assert(in_subtree(msgs, p, at));
                    lemma_subtree_transitive(msgs, p, at, ia);
                }
                lemma_switch_keeps_chain(msgs, active, alt);
                let after = switched(msgs, alt);
                let end = deepest_active(after, alt);
                lemma_position(after, after[end].id@);
                lemma_subtree_order(msgs, alt, end);
                lemma_position_of(after, end);
                if in_subtree(msgs, at, end) {
                    lemma_ancestors_in_line(msgs, at, alt, end);
                    lemma_siblings_not_nested(msgs, alt, at);
                    crate::branch_laws::lemma_siblings_symmetric(msgs[alt], msgs[at]);
                    lemma_siblings_not_nested(msgs, at, alt);
                }
                lemma_subtree_same_shape(msgs, after, at, end);
                lemma_delete_keeps_path(after, at, end);
            },
            None => {
                lemma_delete_on_chain_keeps_chain(msgs, active, at);
            },
        }
    }
}

} // verus!
