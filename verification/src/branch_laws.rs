//! What holds of the message graph across its operations: the branch indices
//! of siblings, and the active chain.

use vstd::prelude::*;
use crate::entities::Message;
use crate::messages::{
    are_siblings, in_group, in_subtree, lemma_max_branch_index, lemma_position, max_branch_index,
    next_branch_index, parent_at, parents_first, position, position_from, same_node, same_shape,
    distinct_ids, well_formed, lemma_subtree_order, deactivated, flagged, lemma_parent_same_shape,
    lemma_subtree_same_shape, lemma_position_same_shape,
};
use crate::text::opt_text;

verus! {

/// Siblings have distinct branch indices.
pub open spec fn distinct_branches(msgs: Seq<Message>) -> bool {
    forall|i: int, j: int|
        0 <= i < j < msgs.len() && are_siblings(#[trigger] msgs[i], #[trigger] msgs[j])
            ==> msgs[i].branch_index != msgs[j].branch_index
}

/// The branch indices of siblings run from 0 without a gap: no index is
/// negative, and below the index of a message each index belongs to one of
/// its siblings.
pub open spec fn gapless_branches(msgs: Seq<Message>) -> bool {
    &&& forall|i: int| 0 <= i < msgs.len() ==> (#[trigger] msgs[i]).branch_index >= 0
    &&& forall|i: int, k: int|
        0 <= i < msgs.len() && 0 <= k < msgs[i].branch_index ==> #[trigger] has_branch(msgs, i, k)
}

/// A sibling of the message at `i`, or the message itself, has the branch
/// index `k`.
pub open spec fn has_branch(msgs: Seq<Message>, i: int, k: int) -> bool {
    exists|j: int|
        0 <= j < msgs.len() && are_siblings(#[trigger] msgs[j], msgs[i]) && msgs[j].branch_index
            == k
}

/// In every group of siblings the branch indices are distinct and run from
/// 0 without a gap.
pub open spec fn branches_in_order(msgs: Seq<Message>) -> bool {
    distinct_branches(msgs) && gapless_branches(msgs)
}

/// Being siblings goes both ways.
pub proof fn lemma_siblings_symmetric(a: Message, b: Message)
    ensures
        are_siblings(a, b) == are_siblings(b, a),
{
}

/// A new message that takes the next branch index of its group keeps the
/// branch indices in order: they stay distinct, and they still run from 0
/// without a gap.
pub proof fn lemma_next_index_keeps_order(msgs: Seq<Message>, m: Message)
    requires
        branches_in_order(msgs),
        m.branch_index == next_branch_index(msgs, opt_text(m.parent_id), m.conversation_id@),
        m.branch_index < i32::MAX,
    ensures
        branches_in_order(msgs.push(m)),
{
    let parent = opt_text(m.parent_id);
    let conversation = m.conversation_id@;
    let after = msgs.push(m);
    let n = msgs.len() as int;
    lemma_max_branch_index(msgs, parent, conversation, n);
    let highest = max_branch_index(msgs, parent, conversation, n);
    assert(m.branch_index == highest + 1);
    assert forall|i: int, j: int|
        0 <= i < j < after.len() && are_siblings(
            #[trigger] after[i],
            #[trigger] after[j],
        ) implies after[i].branch_index != after[j].branch_index by {
        if j == n {
            assert(in_group(msgs[i], parent, conversation));
        } else {
            assert(after[i] == msgs[i] && after[j] == msgs[j]);
        }
    }
    assert forall|i: int| 0 <= i < after.len() implies (#[trigger] after[i]).branch_index >= 0 by {
        if i < n {
            assert(after[i] == msgs[i]);
        }
    }
    assert forall|i: int, k: int|
        0 <= i < after.len() && 0 <= k < after[i].branch_index implies #[trigger] has_branch(
        after,
        i,
        k,
    ) by {
        if i < n {
            assert(after[i] == msgs[i]);
            assert(has_branch(msgs, i, k));
            let j = choose|j: int|
                0 <= j < msgs.len() && are_siblings(#[trigger] msgs[j], msgs[i])
                    && msgs[j].branch_index == k;
            assert(after[j] == msgs[j]);
            assert(are_siblings(after[j], after[i]));
        } else {
            // The new message: every index below its own belongs to a sibling.
            let top = choose|t: int|
                0 <= t < n && in_group(#[trigger] msgs[t], parent, conversation)
                    && msgs[t].branch_index == highest;
            assert(are_siblings(msgs[top], m));
            if k == highest {
                assert(after[top] == msgs[top]);
                assert(are_siblings(after[top], after[i]));
            } else {
                assert(has_branch(msgs, top, k));
                let j = choose|j: int|
                    0 <= j < msgs.len() && are_siblings(#[trigger] msgs[j], msgs[top])
                        && msgs[j].branch_index == k;
                assert(after[j] == msgs[j]);
                assert(are_siblings(after[j], after[i]));
            }
        }
    }
}

/// The two graphs have the same messages but for their active flags.
pub open spec fn same_but_flags(a: Seq<Message>, b: Seq<Message>) -> bool {
    a.len() == b.len() && forall|i: int|
        0 <= i < a.len() ==> flagged(#[trigger] a[i], true) == flagged(b[i], true)
}

/// Changing active flags keeps the branch indices in order.
pub proof fn lemma_flags_keep_order(a: Seq<Message>, b: Seq<Message>)
    requires
        branches_in_order(a),
        same_but_flags(a, b),
    ensures
        branches_in_order(b),
{
    assert forall|i: int| 0 <= i < a.len() implies (#[trigger] b[i]).branch_index
        == a[i].branch_index && b[i].parent_id == a[i].parent_id && b[i].conversation_id
        == a[i].conversation_id by {
        assert(flagged(a[i], true) == flagged(b[i], true));
    }
    assert forall|i: int, j: int|
        0 <= i < j < b.len() && are_siblings(#[trigger] b[i], #[trigger] b[j]) implies b[i].branch_index
        != b[j].branch_index by {
        assert(are_siblings(a[i], a[j]));
    }
    assert forall|i: int, k: int|
        0 <= i < b.len() && 0 <= k < b[i].branch_index implies #[trigger] has_branch(b, i, k) by {
        assert(has_branch(a, i, k));
        let j = choose|j: int|
            0 <= j < a.len() && are_siblings(#[trigger] a[j], a[i]) && a[j].branch_index == k;
        assert(are_siblings(b[j], b[i]));
    }
}

/// The active chain: with an active message, the active messages are
/// exactly that message and its ancestors, so that they make one path from a
/// root to it and no other message is active; without one, no message is
/// active.
pub open spec fn chain_holds(msgs: Seq<Message>, active: Option<Seq<char>>) -> bool {
    match active {
        Some(id) => position(msgs, id) is Some && forall|i: int|
            0 <= i < msgs.len() ==> (#[trigger] msgs[i]).is_active_branch == in_subtree(
                msgs,
                i,
                position(msgs, id)->0,
            ),
        None => forall|i: int| 0 <= i < msgs.len() ==> !(#[trigger] msgs[i]).is_active_branch,
    }
}

/// An ancestor of an ancestor is an ancestor.
pub proof fn lemma_subtree_transitive(msgs: Seq<Message>, a: int, b: int, c: int)
    requires
        in_subtree(msgs, a, b),
        in_subtree(msgs, b, c),
    ensures
        in_subtree(msgs, a, c),
    decreases c,
{
    if c != b {
        let p = parent_at(msgs, c)->0;
        lemma_subtree_transitive(msgs, a, b, p);
    }
}

/// The ancestors of a message make a chain: of two of them, one is an
/// ancestor of the other.
pub proof fn lemma_ancestors_in_line(msgs: Seq<Message>, a: int, b: int, leaf: int)
    requires
        in_subtree(msgs, a, leaf),
        in_subtree(msgs, b, leaf),
    ensures
        in_subtree(msgs, a, b) || in_subtree(msgs, b, a),
    decreases leaf,
{
    if leaf == a {
    } else if leaf == b {
    } else {
        let p = parent_at(msgs, leaf)->0;
        lemma_ancestors_in_line(msgs, a, b, p);
    }
}

/// In a longer graph the first messages keep their positions.
pub proof fn lemma_position_push(msgs: Seq<Message>, m: Message, id: Seq<char>, from: int)
    requires
        0 <= from,
    ensures
        position_from(msgs.push(m), id, from) == match position_from(msgs, id, from) {
            Some(at) => Some(at),
            None => if m.id@ == id && from <= msgs.len() {
                Some(msgs.len() as int)
            } else {
                None
            },
        },
    decreases msgs.len() - from + 1,
{
    let after = msgs.push(m);
    if from < msgs.len() {
        assert(after[from] == msgs[from]);
        if msgs[from].id@ != id {
            lemma_position_push(msgs, m, id, from + 1);
        }
    } else if from == msgs.len() {
        assert(after[from] == m);
        assert(position_from(after, id, from + 1) is None);
    }
}

/// In a longer graph the first messages keep their parents, and their
/// subtrees among the first messages are the same.
pub proof fn lemma_subtree_push(msgs: Seq<Message>, m: Message, root: int, at: int)
    requires
        parents_first(msgs),
        0 <= at < msgs.len(),
    ensures
        parent_at(msgs.push(m), at) == parent_at(msgs, at),
        in_subtree(msgs.push(m), root, at) == in_subtree(msgs, root, at),
    decreases at,
{
    let after = msgs.push(m);
    assert(after[at] == msgs[at]);
    match msgs[at].parent_id {
        Some(id) => {
            lemma_position_push(msgs, m, id@, 0);
            assert(parent_at(msgs, at) is Some);
            let p = parent_at(msgs, at)->0;
            lemma_position(msgs, id@);
            if at != root {
                lemma_subtree_push(msgs, m, root, p);
            }
        },
        None => {},
    }
}

/// A new message with a new id, whose parent is in the graph where it names
/// one, keeps the graph well formed.
pub proof fn lemma_push_well_formed(msgs: Seq<Message>, m: Message)
    requires
        well_formed(msgs),
        position(msgs, m.id@) is None,
        m.parent_id is Some ==> position(msgs, m.parent_id->0@) is Some,
    ensures
        well_formed(msgs.push(m)),
{
    let after = msgs.push(m);
    let n = msgs.len() as int;
    lemma_position(msgs, m.id@);
    assert forall|i: int, j: int| 0 <= i < j < after.len() implies (#[trigger] after[i]).id@ != (
    #[trigger] after[j]).id@ by {
        assert(after[i] == msgs[i]);
        if j < n {
            assert(after[j] == msgs[j]);
        }
    }
    assert forall|i: int|
        0 <= i < after.len() && (#[trigger] after[i]).parent_id is Some implies parent_at(after, i)
        is Some && 0 <= parent_at(after, i)->0 < i by {
        if i < n {
            lemma_subtree_push(msgs, m, 0, i);
            assert(msgs[i].parent_id is Some);
        } else {
            lemma_position_push(msgs, m, m.parent_id->0@, 0);
            lemma_position(msgs, m.parent_id->0@);
        }
    }
}

/// Appending to the active chain keeps it: where the active chain holds
/// and a new active message is put under the active message, or as a root
/// where there is none, the active chain holds with the new message as the
/// active one.
pub proof fn lemma_append_keeps_chain(msgs: Seq<Message>, active: Option<Seq<char>>, m: Message)
    requires
        well_formed(msgs),
        chain_holds(msgs, active),
        position(msgs, m.id@) is None,
        opt_text(m.parent_id) == active,
        m.is_active_branch,
    ensures
        well_formed(msgs.push(m)),
        chain_holds(msgs.push(m), Some(m.id@)),
{
    let after = msgs.push(m);
    let n = msgs.len() as int;
    lemma_push_well_formed(msgs, m);
    lemma_position_push(msgs, m, m.id@, 0);
    assert(position(after, m.id@) == Some(n));
    assert(after[n] == m);
    match m.parent_id {
        Some(pid) => {
            let ia = position(msgs, pid@)->0;
            lemma_position_push(msgs, m, pid@, 0);
            lemma_position(msgs, pid@);
            assert(parent_at(after, n) == Some(ia));
            assert forall|i: int| 0 <= i < after.len() implies (#[trigger] after[i]).is_active_branch
                == in_subtree(after, i, n) by {
                if i < n {
                    assert(after[i] == msgs[i]);
                    lemma_subtree_push(msgs, m, i, ia);
                }
            }
        },
        None => {
            assert(parent_at(after, n) is None);
            assert forall|i: int| 0 <= i < after.len() implies (#[trigger] after[i]).is_active_branch
                == in_subtree(after, i, n) by {
                if i < n {
                    assert(after[i] == msgs[i]);
                }
            }
        },
    }
}

/// Making the subtree of a message inactive changes no id, parent or
/// conversation.
pub proof fn lemma_deactivated_shape(msgs: Seq<Message>, root: int)
    ensures
        same_shape(msgs, deactivated(msgs, root)),
        same_but_flags(msgs, deactivated(msgs, root)),
{
    let after = deactivated(msgs, root);
    assert forall|i: int| 0 <= i < msgs.len() implies same_node(#[trigger] msgs[i], after[i]) by {}
    assert forall|i: int| 0 <= i < msgs.len() implies flagged(#[trigger] msgs[i], true) == flagged(
        after[i],
        true,
    ) by {}
}

/// Regenerating on the active chain keeps it: where the active chain holds
/// and the subtree of one of its messages is made inactive, the active chain
/// holds with the parent of that message as the active one, and with no
/// active message where that message is a root.
pub proof fn lemma_deactivate_keeps_chain(msgs: Seq<Message>, active: Option<Seq<char>>, at: int)
    requires
        well_formed(msgs),
        chain_holds(msgs, active),
        0 <= at < msgs.len(),
        msgs[at].is_active_branch,
    ensures
        well_formed(deactivated(msgs, at)),
        chain_holds(deactivated(msgs, at), opt_text(msgs[at].parent_id)),
{
    let after = deactivated(msgs, at);
    lemma_deactivated_shape(msgs, at);
    lemma_well_formed_same_shape(msgs, after);
    let ia = position(msgs, active->0)->0;
    assert(active is Some);
    assert(in_subtree(msgs, at, ia));
    match msgs[at].parent_id {
        Some(pid) => {
            let p = parent_at(msgs, at)->0;
            assert(parent_at(msgs, at) is Some && p < at);
            lemma_position(msgs, pid@);
            lemma_position_same_shape(msgs, after, pid@, 0);
            assert forall|i: int| 0 <= i < after.len() implies (#[trigger] after[i]).is_active_branch
                == in_subtree(after, i, p) by {
                lemma_subtree_same_shape(msgs, after, i, p);
                if in_subtree(msgs, at, i) {
                    // Below the message: inactive now, and no ancestor of the parent.
                    if in_subtree(msgs, i, p) {
                        lemma_subtree_order(msgs, i, p);
                        lemma_subtree_order(msgs, at, i);
                    }
                } else if in_subtree(msgs, i, ia) {
                    // Above the message on the chain: an ancestor of the parent.
                    lemma_ancestors_in_line(msgs, i, at, ia);
                    assert(in_subtree(msgs, i, at));
                    assert(in_subtree(msgs, i, p));
                } else {
                    // Off the chain: inactive, and no ancestor of the parent.
                    if in_subtree(msgs, i, p) {
                        assert(0 <= p < at);
                        assert(in_subtree(msgs, p, p));
                        assert(in_subtree(msgs, p, at));
                        lemma_subtree_transitive(msgs, i, p, at);
                        lemma_subtree_transitive(msgs, i, at, ia);
                    }
                }
            }
        },
        None => {
            assert forall|i: int| 0 <= i < after.len() implies !(#[trigger] after[i]).is_active_branch by {
                if msgs[i].is_active_branch && !in_subtree(msgs, at, i) {
                    // An active message is an ancestor of the active one, as
                    // the root is; so it stands below the root.
                    lemma_ancestors_in_line(msgs, i, at, ia);
                    assert(in_subtree(msgs, i, at));
                    assert(parent_at(msgs, at) is None);
                }
            }
        },
    }
}

/// A graph of the same shape as a well-formed one is well formed.
pub proof fn lemma_well_formed_same_shape(a: Seq<Message>, b: Seq<Message>)
    requires
        well_formed(a),
        same_shape(a, b),
    ensures
        well_formed(b),
{
    assert forall|i: int, j: int| 0 <= i < j < b.len() implies (#[trigger] b[i]).id@ != (
    #[trigger] b[j]).id@ by {
        assert(same_node(a[i], b[i]));
        assert(same_node(a[j], b[j]));
    }
    assert forall|i: int|
        0 <= i < b.len() && (#[trigger] b[i]).parent_id is Some implies parent_at(b, i) is Some
        && 0 <= parent_at(b, i)->0 < i by {
        assert(same_node(a[i], b[i]));
        lemma_parent_same_shape(a, b, i);
    }
}

/// The active messages of the graph are exactly the message at `leaf`
/// and its ancestors.
pub open spec fn active_is_path_to(msgs: Seq<Message>, leaf: int) -> bool {
    0 <= leaf < msgs.len() && forall|i: int|
        0 <= i < msgs.len() ==> (#[trigger] msgs[i]).is_active_branch == in_subtree(msgs, i, leaf)
}

/// All messages belong to one conversation.
pub open spec fn one_conversation(msgs: Seq<Message>) -> bool {
    forall|i: int, j: int|
        0 <= i < msgs.len() && 0 <= j < msgs.len() ==> (#[trigger] msgs[i]).conversation_id@ == (
        #[trigger] msgs[j]).conversation_id@
}

/// Siblings have the same parent.
pub proof fn lemma_siblings_share_parent(msgs: Seq<Message>, a: int, b: int)
    requires
        0 <= a < msgs.len(),
        0 <= b < msgs.len(),
        are_siblings(msgs[a], msgs[b]),
    ensures
        parent_at(msgs, a) == parent_at(msgs, b),
        msgs[a].parent_id is None <==> msgs[b].parent_id is None,
{
}

/// Of two different siblings neither is an ancestor of the other.
pub proof fn lemma_siblings_not_nested(msgs: Seq<Message>, a: int, b: int)
    requires
        well_formed(msgs),
        0 <= a < msgs.len(),
        0 <= b < msgs.len(),
        a != b,
        are_siblings(msgs[a], msgs[b]),
    ensures
        !in_subtree(msgs, a, b),
{
    lemma_siblings_share_parent(msgs, a, b);
    if in_subtree(msgs, a, b) {
        // `a` would be an ancestor of the parent of `b`, which is its own parent.
        let p = parent_at(msgs, b)->0;
        assert(in_subtree(msgs, a, p));
        lemma_subtree_order(msgs, a, p);
        assert(msgs[a].parent_id is Some);
        assert(parent_at(msgs, a)->0 < a);
    }
}

/// A descendant of a message, other than the message itself, stands under
/// one of its children.
pub proof fn lemma_child_towards(msgs: Seq<Message>, top: int, at: int) -> (child: int)
    requires
        in_subtree(msgs, top, at),
        at != top,
    ensures
        0 <= child < msgs.len(),
        parent_at(msgs, child) == Some(top),
        top < child,
        in_subtree(msgs, child, at),
    decreases at,
{
    let p = parent_at(msgs, at)->0;
    if p == top {
        at
    } else {
        let child = lemma_child_towards(msgs, top, p);
        assert(in_subtree(msgs, child, at));
        child
    }
}

/// Every message stands under a root.
pub proof fn lemma_root_above(msgs: Seq<Message>, at: int) -> (root: int)
    requires
        parents_first(msgs),
        0 <= at < msgs.len(),
    ensures
        0 <= root < msgs.len(),
        msgs[root].parent_id is None,
        in_subtree(msgs, root, at),
    decreases at,
{
    if msgs[at].parent_id is None {
        at
    } else {
        let p = parent_at(msgs, at)->0;
        let root = lemma_root_above(msgs, p);
        assert(in_subtree(msgs, root, at));
        root
    }
}

/// Children of one parent are siblings.
pub proof fn lemma_children_are_siblings(msgs: Seq<Message>, a: int, b: int)
    requires
        distinct_ids(msgs),
        0 <= a < msgs.len(),
        0 <= b < msgs.len(),
        parent_at(msgs, a) is Some,
        parent_at(msgs, a) == parent_at(msgs, b),
    ensures
        are_siblings(msgs[a], msgs[b]),
{
    let pa = msgs[a].parent_id->0@;
    let pb = msgs[b].parent_id->0@;
    lemma_position(msgs, pa);
    lemma_position(msgs, pb);
}

/// The graph after the first two steps of a switch: the subtrees of the
/// active siblings of the target inactive, the target and its ancestors
/// active.
pub open spec fn branch_chosen(msgs: Seq<Message>, target: int) -> Seq<Message> {
    crate::messages::path_activated(crate::messages::siblings_off(msgs, target), target)
}

/// The first two steps of a switch change no id, parent or conversation.
pub proof fn lemma_branch_chosen_shape(msgs: Seq<Message>, target: int)
    ensures
        same_shape(msgs, branch_chosen(msgs, target)),
        same_shape(msgs, crate::messages::siblings_off(msgs, target)),
{
    let off = crate::messages::siblings_off(msgs, target);
    let up = branch_chosen(msgs, target);
    assert forall|i: int| 0 <= i < msgs.len() implies same_node(#[trigger] msgs[i], off[i]) by {}
    assert forall|i: int| 0 <= i < msgs.len() implies same_node(#[trigger] msgs[i], up[i]) by {
        assert(same_node(msgs[i], off[i]));
    }
}

/// The target of a switch lies so that one active path is left: it is a
/// root, or its parent is on the active chain, or the active chain ends
/// above it, or no message is active. With any other target the switch
/// leaves the old branch active beside the new one.
pub open spec fn switch_leaves_one_path(msgs: Seq<Message>, active: Option<Seq<char>>, target: int) -> bool {
    msgs[target].parent_id is Some ==> (msgs[parent_at(msgs, target)->0].is_active_branch || (
    match active {
        Some(id) => position(msgs, id) is Some && in_subtree(msgs, position(msgs, id)->0, target),
        None => true,
    }))
}

/// After the first two steps of a switch the active messages make one path:
/// to the old active message where the target was on the active chain, and
/// to the target otherwise.
pub proof fn lemma_branch_chosen_is_path(msgs: Seq<Message>, active: Option<Seq<char>>, target: int) -> (leaf:
    int)
    requires
        well_formed(msgs),
        one_conversation(msgs),
        chain_holds(msgs, active),
        0 <= target < msgs.len(),
        switch_leaves_one_path(msgs, active, target),
    ensures
        active_is_path_to(branch_chosen(msgs, target), leaf),
        in_subtree(msgs, target, leaf),
{
    let off = crate::messages::siblings_off(msgs, target);
    let up = branch_chosen(msgs, target);
    lemma_branch_chosen_shape(msgs, target);
    if msgs[target].parent_id is Some && !msgs[parent_at(msgs, target)->0].is_active_branch {
        // The chain ends above the target, or nothing is active: what was
        // active is an ancestor of the target, and stays so.
        assert forall|i: int| 0 <= i < up.len() implies (#[trigger] up[i]).is_active_branch
            == in_subtree(up, i, target) by {
            lemma_subtree_same_shape(msgs, off, i, target);
            lemma_subtree_same_shape(msgs, up, i, target);
            let was = msgs[i].is_active_branch;
            let other = crate::messages::under_other_branch(msgs, target, i);
            assert(up[i].is_active_branch == (in_subtree(msgs, i, target) || (was && !other)));
            if was && !in_subtree(msgs, i, target) {
                let ia = position(msgs, active->0)->0;
                assert(in_subtree(msgs, i, ia));
                lemma_subtree_transitive(msgs, i, ia, target);
            }
        }
        return target;
    }
    let leaf = if msgs[target].is_active_branch {
        position(msgs, active->0)->0
    } else {
        target
    };
    if msgs[target].is_active_branch {
        assert(active is Some);
    }
    assert forall|i: int| 0 <= i < up.len() implies (#[trigger] up[i]).is_active_branch
        == in_subtree(up, i, leaf) by {
        lemma_subtree_same_shape(msgs, off, i, target);
        lemma_subtree_same_shape(msgs, up, i, leaf);
        let was = msgs[i].is_active_branch;
        let other = crate::messages::under_other_branch(msgs, target, i);
        assert(up[i].is_active_branch == (in_subtree(msgs, i, target) || (was && !other)));
        if in_subtree(msgs, i, target) {
            if msgs[target].is_active_branch {
                lemma_subtree_transitive(msgs, i, target, leaf);
            }
        } else if was && !other {
            // An old active message that stands under no other branch
            // stands under the target.
            let ia = position(msgs, active->0)->0;
            assert(in_subtree(msgs, i, ia));
            lemma_active_under_target(msgs, ia, target, i);
            assert(in_subtree(msgs, target, i));
            lemma_subtree_order(msgs, target, i);
            // The target is then on the old chain itself.
            lemma_subtree_transitive(msgs, target, i, ia);
            assert(msgs[target].is_active_branch);
        } else {
            if in_subtree(msgs, i, leaf) {
                if msgs[target].is_active_branch {
                    // On the old chain, so it was active, and it is under
                    // another branch: but it is comparable with the target.
                    assert(was);
                    assert(other);
                    let s = choose|s: int|
                        0 <= s < msgs.len() && s != target && are_siblings(
                            #[trigger] msgs[s],
                            msgs[target],
                        ) && msgs[s].is_active_branch && in_subtree(msgs, s, i);
                    lemma_ancestors_in_line(msgs, i, target, leaf);
                    assert(in_subtree(msgs, target, i));
                    lemma_ancestors_in_line(msgs, s, target, i);
                    lemma_siblings_not_nested(msgs, s, target);
                    lemma_siblings_symmetric(msgs[s], msgs[target]);
                    lemma_siblings_not_nested(msgs, target, s);
                }
            }
        }
    }
    leaf
}

/// An active message that is no ancestor of the target and stands under no
/// active sibling of the target stands under the target.
pub proof fn lemma_active_under_target(msgs: Seq<Message>, ia: int, target: int, i: int)
    requires
        well_formed(msgs),
        one_conversation(msgs),
        active_is_path_to(msgs, ia),
        0 <= target < msgs.len(),
        msgs[target].parent_id is Some ==> msgs[parent_at(msgs, target)->0].is_active_branch,
        in_subtree(msgs, i, ia),
        !in_subtree(msgs, i, target),
        !crate::messages::under_other_branch(msgs, target, i),
    ensures
        in_subtree(msgs, target, i),
{
    lemma_subtree_order(msgs, i, ia);
    if msgs[target].parent_id is Some {
        let p = parent_at(msgs, target)->0;
        assert(parent_at(msgs, target) is Some && 0 <= p < target);
        assert(in_subtree(msgs, p, ia));
        lemma_ancestors_in_line(msgs, i, p, ia);
        if in_subtree(msgs, i, p) {
            assert(in_subtree(msgs, i, target));
        }
        assert(in_subtree(msgs, p, i));
        assert(i != p) by {
            if i == p {
                assert(in_subtree(msgs, p, p));
                assert(in_subtree(msgs, i, target));
            }
        }
        let c = lemma_child_towards(msgs, p, i);
        lemma_subtree_transitive(msgs, c, i, ia);
        assert(msgs[c].is_active_branch);
        lemma_children_are_siblings(msgs, c, target);
        if c != target {
            assert(crate::messages::under_other_branch(msgs, target, i));
        }
    } else {
        let r = lemma_root_above(msgs, i);
        lemma_subtree_transitive(msgs, r, i, ia);
        assert(msgs[r].is_active_branch);
        assert(msgs[r].conversation_id@ == msgs[target].conversation_id@);
        assert(are_siblings(msgs[r], msgs[target]));
        if r != target {
            assert(crate::messages::under_other_branch(msgs, target, i));
        }
    }
}

/// What `lowest_child` finds is a child of the parent, active where only
/// active children are asked for; it finds nothing only where there is none.
pub proof fn lemma_lowest_child(msgs: Seq<Message>, parent: Seq<char>, upto: int, active: bool)
    requires
        0 <= upto <= msgs.len(),
    ensures
        match crate::messages::lowest_child(msgs, parent, upto, active) {
            Some(x) => 0 <= x < upto && opt_text(msgs[x].parent_id) == Some(parent) && (active
                ==> msgs[x].is_active_branch),
            None => forall|j: int|
                0 <= j < upto ==> !(opt_text((#[trigger] msgs[j]).parent_id) == Some(parent) && (
                !active || msgs[j].is_active_branch)),
        },
    decreases upto,
{
    if upto > 0 {
        lemma_lowest_child(msgs, parent, upto - 1, active);
    }
}

/// What `first_active_child_from` finds is an active child of the parent;
/// it finds nothing only where there is none from `from` on.
pub proof fn lemma_first_active_child(msgs: Seq<Message>, parent: Seq<char>, from: int)
    requires
        0 <= from,
    ensures
        match crate::messages::first_active_child_from(msgs, parent, from) {
            Some(x) => from <= x < msgs.len() && opt_text(msgs[x].parent_id) == Some(parent)
                && msgs[x].is_active_branch,
            None => forall|j: int|
                from <= j < msgs.len() ==> !(opt_text((#[trigger] msgs[j]).parent_id) == Some(
                    parent,
                ) && msgs[j].is_active_branch),
        },
    decreases msgs.len() - from + 1,
{
    if from < msgs.len() && !(opt_text(msgs[from].parent_id) == Some(parent)
        && msgs[from].is_active_branch) {
        lemma_first_active_child(msgs, parent, from + 1);
    }
}

/// A message that names the id of the message at `parent` as its parent has
/// it as its parent.
pub proof fn lemma_parent_of_child(msgs: Seq<Message>, parent: int, child: int)
    requires
        distinct_ids(msgs),
        0 <= parent < msgs.len(),
        0 <= child < msgs.len(),
        opt_text(msgs[child].parent_id) == Some(msgs[parent].id@),
    ensures
        parent_at(msgs, child) == Some(parent),
{
    lemma_position(msgs, msgs[parent].id@);
}

/// The id of a message is found at its position.
pub proof fn lemma_position_of(msgs: Seq<Message>, at: int)
    requires
        distinct_ids(msgs),
        0 <= at < msgs.len(),
    ensures
        position(msgs, msgs[at].id@) == Some(at),
{
    lemma_position(msgs, msgs[at].id@);
}

/// The walk down ends in one path. Where the active messages make a path
/// to a message below the start, the graph after the walk down has its
/// active messages on one path again, to a message below the start.
pub proof fn lemma_descended_is_path(msgs: Seq<Message>, start: int, leaf: int) -> (end: int)
    requires
        well_formed(msgs),
        active_is_path_to(msgs, leaf),
        in_subtree(msgs, start, leaf),
    ensures
        active_is_path_to(crate::messages::descended(msgs, start), end),
        in_subtree(msgs, start, end),
        same_shape(msgs, crate::messages::descended(msgs, start)),
    decreases msgs.len() - start,
{
    crate::messages::lemma_descended_shape(msgs, start);
    lemma_subtree_order(msgs, start, leaf);
    let id = msgs[start].id@;
    let n = msgs.len() as int;
    lemma_lowest_child(msgs, id, n, true);
    lemma_lowest_child(msgs, id, n, false);
    if start == leaf {
        match crate::messages::lowest_child(msgs, id, n, true) {
            Some(x) => {
                // An active child would be an ancestor of its own parent.
                lemma_parent_of_child(msgs, start, x);
                assert(in_subtree(msgs, x, leaf));
                lemma_subtree_order(msgs, x, leaf);
                assert(false);
                start
            },
            None => {
                match crate::messages::lowest_child(msgs, id, n, false) {
                    Some(x) => {
                        lemma_parent_of_child(msgs, start, x);
                        let next = msgs.update(x, flagged(msgs[x], true));
                        assert(same_shape(msgs, next)) by {
                            assert forall|i: int| 0 <= i < msgs.len() implies same_node(
                                #[trigger] msgs[i],
                                next[i],
                            ) by {}
                        }
                        lemma_well_formed_same_shape(msgs, next);
                        assert forall|i: int| 0 <= i < next.len() implies (
                        #[trigger] next[i]).is_active_branch == in_subtree(next, i, x) by {
                            lemma_subtree_same_shape(msgs, next, i, x);
                        }
                        assert(in_subtree(next, x, x));
                        let end = lemma_descended_is_path(next, x, x);
                        lemma_subtree_same_shape(msgs, next, x, end);
                        assert(in_subtree(msgs, start, x)) by {
                            assert(in_subtree(msgs, start, start));
                        }
                        lemma_subtree_transitive(msgs, start, x, end);
                        assert forall|i: int| 0 <= i < msgs.len() implies same_node(
                            #[trigger] msgs[i],
                            crate::messages::descended(next, x)[i],
                        ) by {
                            assert(same_node(msgs[i], next[i]));
                            assert(same_node(next[i], crate::messages::descended(next, x)[i]));
                        }
                        end
                    },
                    None => start,
                }
            },
        }
    } else {
        let y = lemma_child_towards(msgs, start, leaf);
        assert(msgs[y].is_active_branch);
        assert(opt_text(msgs[y].parent_id) == Some(id)) by {
            lemma_position(msgs, msgs[y].parent_id->0@);
            assert(msgs[y].parent_id is Some);
        }
        match crate::messages::lowest_child(msgs, id, n, true) {
            Some(x) => {
                lemma_parent_of_child(msgs, start, x);
                assert(in_subtree(msgs, x, leaf));
                let next = msgs.update(x, flagged(msgs[x], true));
                assert(next =~= msgs);
                let end = lemma_descended_is_path(msgs, x, leaf);
                assert(in_subtree(msgs, start, x)) by {
                    assert(in_subtree(msgs, start, start));
                }
                lemma_subtree_transitive(msgs, start, x, end);
                end
            },
            None => {
                assert(false);
                start
            },
        }
    }
}

/// On a path the chain of first active children leads to its end: where
/// the active messages make a path to a message below the start, the deepest
/// active message below the start is the end of the path.
pub proof fn lemma_deepest_on_path(msgs: Seq<Message>, start: int, leaf: int)
    requires
        well_formed(msgs),
        active_is_path_to(msgs, leaf),
        in_subtree(msgs, start, leaf),
    ensures
        crate::messages::deepest_active(msgs, start) == leaf,
    decreases msgs.len() - start,
{
    lemma_subtree_order(msgs, start, leaf);
    let id = msgs[start].id@;
    lemma_first_active_child(msgs, id, 0);
    match crate::messages::first_active_child(msgs, start) {
        Some(x) => {
            lemma_parent_of_child(msgs, start, x);
            assert(in_subtree(msgs, x, leaf));
            lemma_subtree_order(msgs, x, leaf);
            lemma_deepest_on_path(msgs, x, leaf);
        },
        None => {
            if start != leaf {
                let y = lemma_child_towards(msgs, start, leaf);
                assert(msgs[y].is_active_branch);
                lemma_position(msgs, msgs[y].parent_id->0@);
                assert(opt_text(msgs[y].parent_id) == Some(id));
            }
        },
    }
}

/// The walk down makes messages active and none inactive.
pub proof fn lemma_descended_keeps_active(msgs: Seq<Message>, at: int, i: int)
    requires
        0 <= i < msgs.len(),
        msgs[i].is_active_branch,
    ensures
        crate::messages::descended(msgs, at).len() == msgs.len(),
        crate::messages::descended(msgs, at)[i].is_active_branch,
    decreases msgs.len() - at,
{
    match crate::messages::preferred_child(msgs, at) {
        Some(c) => {
            if at < c < msgs.len() {
                let next = msgs.update(c, flagged(msgs[c], true));
                lemma_descended_keeps_active(next, c, i);
            }
        },
        None => {},
    }
}

/// A switch to any other target leaves two branches active. Where the
/// active chain holds and ends at a message that is not above the target, and
/// the parent of the target is off the chain, the end of the old chain and
/// the target are both active after the switch, though neither is above the
/// other: the active messages make no single path.
pub proof fn lemma_switch_elsewhere_leaves_two_branches(msgs: Seq<Message>, active: Seq<char>, target: int)
    requires
        well_formed(msgs),
        one_conversation(msgs),
        chain_holds(msgs, Some(active)),
        0 <= target < msgs.len(),
        !switch_leaves_one_path(msgs, Some(active), target),
    ensures
        crate::messages::switched(msgs, target)[position(msgs, active)->0].is_active_branch,
        crate::messages::switched(msgs, target)[target].is_active_branch,
        !in_subtree(msgs, position(msgs, active)->0, target),
        !in_subtree(msgs, target, position(msgs, active)->0),
        forall|leaf: int| !active_is_path_to(crate::messages::switched(msgs, target), leaf),
{
    let ia = position(msgs, active)->0;
    let p = parent_at(msgs, target)->0;
    let off = crate::messages::siblings_off(msgs, target);
    let up = branch_chosen(msgs, target);
    let after = crate::messages::switched(msgs, target);
    lemma_branch_chosen_shape(msgs, target);
    crate::messages::lemma_descended_shape(up, target);
    lemma_position(msgs, active);
    assert(parent_at(msgs, target) is Some && 0 <= p < target);
    assert(in_subtree(msgs, p, p));
    assert(in_subtree(msgs, p, target));
    // The target is off the chain, for its parent is.
    if in_subtree(msgs, target, ia) {
        lemma_subtree_transitive(msgs, p, target, ia);
        assert(msgs[p].is_active_branch);
    }
    // No sibling of the target is active, so nothing is made inactive.
    if crate::messages::under_other_branch(msgs, target, ia) {
        let s = choose|s: int|
            0 <= s < msgs.len() && s != target && are_siblings(#[trigger] msgs[s], msgs[target])
                && msgs[s].is_active_branch && in_subtree(msgs, s, ia);
        lemma_subtree_order(msgs, s, ia);
        assert(opt_text(msgs[s].parent_id) == opt_text(msgs[target].parent_id));
        lemma_position(msgs, msgs[target].parent_id->0@);
        assert(parent_at(msgs, s) == Some(p));
        assert(in_subtree(msgs, p, s));
        lemma_subtree_transitive(msgs, p, s, ia);
        assert(msgs[p].is_active_branch);
    }
    assert(msgs[ia].is_active_branch);
    assert(off[ia].is_active_branch);
    assert(up[ia].is_active_branch);
    assert(up[target].is_active_branch);
    lemma_descended_keeps_active(up, target, ia);
    lemma_descended_keeps_active(up, target, target);
    assert forall|leaf: int| !active_is_path_to(after, leaf) by {
        if active_is_path_to(after, leaf) {
            assert(in_subtree(after, ia, leaf));
            assert(in_subtree(after, target, leaf));
            assert forall|i: int| 0 <= i < msgs.len() implies same_node(
                #[trigger] msgs[i],
                after[i],
            ) by {
                assert(same_node(msgs[i], up[i]));
                assert(same_node(up[i], after[i]));
            }
            lemma_subtree_same_shape(msgs, after, ia, leaf);
            lemma_subtree_same_shape(msgs, after, target, leaf);
            lemma_ancestors_in_line(msgs, ia, target, leaf);
        }
    }
}

/// Switching branches keeps the active chain. Where the active chain holds
/// and the target of the switch is a root, or has its parent on the active
/// chain, or lies below the end of the active chain, or no message is
/// active, the graph after the switch is well formed, and its active messages
/// are exactly the message at which the conversation then points and its
/// ancestors: one path from a root through the target. With any other
/// target the old branch stays active beside the new one.
pub proof fn lemma_switch_keeps_chain(msgs: Seq<Message>, active: Option<Seq<char>>, target: int)
    requires
        well_formed(msgs),
        one_conversation(msgs),
        chain_holds(msgs, active),
        0 <= target < msgs.len(),
        switch_leaves_one_path(msgs, active, target),
    ensures
        well_formed(crate::messages::switched(msgs, target)),
        same_shape(msgs, crate::messages::switched(msgs, target)),
        in_subtree(
            msgs,
            target,
            crate::messages::deepest_active(crate::messages::switched(msgs, target), target),
        ),
        chain_holds(
            crate::messages::switched(msgs, target),
            Some(
                crate::messages::switched(msgs, target)[crate::messages::deepest_active(
                    crate::messages::switched(msgs, target),
                    target,
                )].id@,
            ),
        ),
{
    let chosen = branch_chosen(msgs, target);
    let after = crate::messages::switched(msgs, target);
    lemma_branch_chosen_shape(msgs, target);
    lemma_well_formed_same_shape(msgs, chosen);
    let leaf = lemma_branch_chosen_is_path(msgs, active, target);
    lemma_subtree_same_shape(msgs, chosen, target, leaf);
    let end = lemma_descended_is_path(chosen, target, leaf);
    lemma_well_formed_same_shape(chosen, after);
    lemma_subtree_same_shape(chosen, after, target, end);
    lemma_deepest_on_path(after, target, end);
    lemma_position_of(after, end);
    lemma_subtree_same_shape(msgs, chosen, target, end);
    assert forall|i: int| 0 <= i < msgs.len() implies same_node(#[trigger] msgs[i], after[i]) by {
        assert(same_node(msgs[i], chosen[i]));
        assert(same_node(chosen[i], after[i]));
    }
}

} // verus!
