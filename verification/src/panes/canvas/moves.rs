//! What a move of a layer keeps: every node, once.

use crate::lists::first_from_found;
use crate::panes::canvas::edits::{
    container_edited, deeper, edited_in, holds, list_edited, moved_beside, moved_into,
    node_edited, row_list, without, ListEditView, NodeEditView,
};
use crate::panes::canvas::layers::{layers_of, row_dropped};
use crate::panes::canvas::pane::{row_of, PaneView};
use crate::panes::canvas::tree::{
    find_in, group_of, has_id, place_of, slot_below, slot_in, BodyView, NodeView,
};
use vstd::prelude::*;

verus! {

/// How many nodes have an identity, at any depth.
pub open spec fn times(nodes: Seq<NodeView>, id: u64) -> nat
    decreases nodes,
{
    if nodes.len() == 0 {
        0
    } else {
        (if nodes[0].id == id {
            1nat
        } else {
            0nat
        }) + (match nodes[0].body {
            BodyView::Group(children) => times(children, id),
            _ => 0,
        }) + times(nodes.subrange(1, nodes.len() as int), id)
    }
}

/// No two nodes have the same identity.
pub open spec fn is_distinct(nodes: Seq<NodeView>) -> bool {
    forall|id: u64| #[trigger] times(nodes, id) <= 1
}

pub(crate) proof fn times_joined(a: Seq<NodeView>, b: Seq<NodeView>, id: u64)
    ensures
        times(a + b, id) == times(a, id) + times(b, id),
    decreases a.len(),
{
    if a.len() == 0 {
        assert(a + b =~= b);
    } else {
        let tail = a.subrange(1, a.len() as int);
        assert((a + b).subrange(1, (a + b).len() as int) =~= tail + b);
        times_joined(tail, b, id);
    }
}

pub(crate) proof fn times_of_one(node: NodeView, id: u64)
    ensures
        times(seq![node], id) == (if node.id == id {
            1nat
        } else {
            0nat
        }) + (match node.body {
            BodyView::Group(children) => times(children, id),
            _ => 0,
        }),
{
    assert(times(seq![node].subrange(1, 1), id) == 0);
}

proof fn times_of_head(nodes: Seq<NodeView>, id: u64)
    requires
        nodes.len() > 0,
    ensures
        times(nodes, id) == times(seq![nodes[0]], id) + times(
            nodes.subrange(1, nodes.len() as int),
            id,
        ),
{
    times_of_one(nodes[0], id);
}

pub(crate) proof fn times_without(nodes: Seq<NodeView>, at: int, id: u64)
    requires
        0 <= at < nodes.len(),
    ensures
        times(nodes, id) == times(nodes.remove(at), id) + times(seq![nodes[at]], id),
{
    let (head, tail) = (nodes.take(at), nodes.subrange(at + 1, nodes.len() as int));
    assert(nodes =~= (head + seq![nodes[at]]) + tail);
    assert(nodes.remove(at) =~= head + tail);
    times_joined(head + seq![nodes[at]], tail, id);
    times_joined(head, seq![nodes[at]], id);
    times_joined(head, tail, id);
}

pub(crate) proof fn times_with(nodes: Seq<NodeView>, at: int, node: NodeView, id: u64)
    requires
        0 <= at <= nodes.len(),
    ensures
        times(nodes.insert(at, node), id) == times(nodes, id) + times(seq![node], id),
{
    times_without(nodes.insert(at, node), at, id);
    assert(nodes.insert(at, node).remove(at) =~= nodes);
}

/// What is found is there.
pub(crate) proof fn found_is_there(nodes: Seq<NodeView>, id: u64)
    requires
        find_in(nodes, id) is Some,
    ensures
        times(nodes, id) >= 1,
        find_in(nodes, id)->0.id == id,
    decreases nodes,
{
    let tail = nodes.subrange(1, nodes.len() as int);
    if nodes[0].id != id {
        match nodes[0].body {
            BodyView::Group(children) => {
                if find_in(children, id) is Some {
                    found_is_there(children, id);
                } else {
                    found_is_there(tail, id);
                }
            },
            _ => {
                found_is_there(tail, id);
            },
        }
    }
}

/// Where nothing is found, there is no place of it either.
pub(crate) proof fn missing_has_no_slot(nodes: Seq<NodeView>, id: u64, container: Option<u64>)
    requires
        find_in(nodes, id) is None,
    ensures
        place_of(nodes, id) is None,
        slot_below(nodes, id) is None,
        slot_in(nodes, id, container) is None,
    decreases nodes,
{
    if nodes.len() > 0 {
        let tail = nodes.subrange(1, nodes.len() as int);
        missing_has_no_slot(tail, id, container);
        if let BodyView::Group(children) = nodes[0].body {
            missing_has_no_slot(children, id, Some(nodes[0].id));
        }
        first_from_found(tail, has_id(id), 0);
        first_from_found(nodes, has_id(id), 0);
        if let Some(i) = place_of(nodes, id) {
            assert(has_id(id)(nodes[i]));
            if i > 0 {
                assert(tail[i - 1] == nodes[i]);
                assert(has_id(id)(tail[i - 1]));
            }
        }
    }
}

/// A node of a list without doubles is what is found under its identity.
proof fn only_one_is_found(nodes: Seq<NodeView>, at: int)
    requires
        0 <= at < nodes.len(),
        is_distinct(nodes),
    ensures
        find_in(nodes, nodes[at].id) == Some(nodes[at]),
    decreases nodes,
{
    if at > 0 {
        let id = nodes[at].id;
        let tail = nodes.subrange(1, nodes.len() as int);
        assert(tail[at - 1] == nodes[at]);
        parts_are_distinct(nodes);
        only_one_is_found(tail, at - 1);
        found_is_there(tail, id);
        assert(times(nodes, id) <= 1);
        if let BodyView::Group(children) = nodes[0].body {
            if find_in(children, id) is Some {
                found_is_there(children, id);
            }
        }
    }
}

/// The parts of a list without doubles have none either.
proof fn parts_are_distinct(nodes: Seq<NodeView>)
    requires
        nodes.len() > 0,
        is_distinct(nodes),
    ensures
        is_distinct(nodes.subrange(1, nodes.len() as int)),
        nodes[0].body matches BodyView::Group(children) ==> is_distinct(children),
{
    let tail = nodes.subrange(1, nodes.len() as int);
    assert forall|x: u64| #[trigger] times(tail, x) <= 1 by {
        assert(times(nodes, x) <= 1);
    }
    if let BodyView::Group(children) = nodes[0].body {
        assert forall|x: u64| #[trigger] times(children, x) <= 1 by {
            assert(times(nodes, x) <= 1);
        }
    }
}

/// A node stands at its place: in the list itself, or in a group that is found.
pub open spec fn stands(nodes: Seq<NodeView>, slot: (Option<u64>, int), node: NodeView) -> bool {
    match slot.0 {
        None => 0 <= slot.1 < nodes.len() && nodes[slot.1] == node,
        Some(group) => find_in(nodes, group) matches Some(found) && group_of(found) matches Some(
            children,
        ) && 0 <= slot.1 < children.len() && children[slot.1] == node,
    }
}

proof fn slot_below_stands(nodes: Seq<NodeView>, id: u64)
    requires
        is_distinct(nodes),
        place_of(nodes, id) is None,
        find_in(nodes, id) is Some,
    ensures
        slot_below(nodes, id) matches Some(slot) && slot.0 is Some && stands(
            nodes,
            slot,
            find_in(nodes, id)->0,
        ),
    decreases nodes,
{
    let tail = nodes.subrange(1, nodes.len() as int);
    let node = find_in(nodes, id)->0;
    parts_are_distinct(nodes);
    first_from_found(nodes, has_id(id), 0);
    first_from_found(tail, has_id(id), 0);
    assert(!has_id(id)(nodes[0]));
    if let Some(i) = place_of(tail, id) {
        assert(has_id(id)(nodes[i + 1]));
    }
    let below = match nodes[0].body {
        BodyView::Group(children) => find_in(children, id),
        _ => None,
    };
    if below is Some {
        let children = nodes[0].body->Group_0;
        match place_of(children, id) {
            Some(i) => {
                first_from_found(children, has_id(id), 0);
                assert(has_id(id)(children[i]));
                only_one_is_found(children, i);
                assert(find_in(nodes, nodes[0].id) == Some(nodes[0]));
                assert(slot_in(children, id, Some(nodes[0].id)) == Some((Some(nodes[0].id), i)));
            },
            None => {
                slot_below_stands(children, id);
                let (container, _) = slot_below(children, id)->0;
                let group = container->0;
                found_is_there(children, group);
                assert(times(nodes, group) <= 1);
                assert(nodes[0].id != group);
                assert(find_in(nodes, group) == find_in(children, group));
                assert(slot_in(children, id, Some(nodes[0].id)) == slot_below(children, id));
            },
        }
    } else {
        if let BodyView::Group(children) = nodes[0].body {
            missing_has_no_slot(children, id, Some(nodes[0].id));
        }
        slot_below_stands(tail, id);
        let (container, _) = slot_below(tail, id)->0;
        let group = container->0;
        found_is_there(tail, group);
        assert(times(nodes, group) <= 1);
        assert(nodes[0].id != group);
        if let BodyView::Group(children) = nodes[0].body {
            if find_in(children, group) is Some {
                found_is_there(children, group);
            }
        }
        assert(find_in(nodes, group) == find_in(tail, group));
    }
}

/// What is found stands at its place.
proof fn slot_stands(nodes: Seq<NodeView>, id: u64)
    requires
        is_distinct(nodes),
        find_in(nodes, id) is Some,
    ensures
        slot_in(nodes, id, None) matches Some(slot) && stands(nodes, slot, find_in(nodes, id)->0),
{
    match place_of(nodes, id) {
        Some(i) => {
            first_from_found(nodes, has_id(id), 0);
            assert(has_id(id)(nodes[i]));
            only_one_is_found(nodes, i);
        },
        None => {
            slot_below_stands(nodes, id);
        },
    }
}

/// What is found under an identity, if anything, stands at its place.
pub open spec fn is_placed(nodes: Seq<NodeView>, id: u64) -> bool {
    find_in(nodes, id) matches Some(node) ==> (slot_in(nodes, id, None) matches Some(slot)
        && stands(nodes, slot, node))
}

/// Where no two nodes have the same identity, every node stands at its place,
/// also after another was taken out.
pub proof fn distinct_nodes_are_placed(nodes: Seq<NodeView>, id: u64, other: u64)
    requires
        is_distinct(nodes),
    ensures
        is_placed(nodes, id),
        is_placed(without(nodes, id), other),
{
    if find_in(nodes, id) is Some {
        slot_stands(nodes, id);
        rest_is_distinct(nodes, id);
        if find_in(without(nodes, id), other) is Some {
            slot_stands(without(nodes, id), other);
        }
    } else {
        missing_has_no_slot(nodes, id, None);
        if find_in(nodes, other) is Some {
            slot_stands(nodes, other);
        }
    }
}

/// A change of the node that is found changes nothing else.
pub(crate) proof fn times_edited(nodes: Seq<NodeView>, group: u64, edit: NodeEditView, id: u64)
    requires
        find_in(nodes, group) is Some,
    ensures
        times(edited_in(nodes, group, edit), id) + times(seq![find_in(nodes, group)->0], id)
            == times(nodes, id) + times(
            seq![node_edited(find_in(nodes, group)->0, edit)],
            id,
        ),
    decreases nodes,
{
    let tail = nodes.subrange(1, nodes.len() as int);
    let after = edited_in(nodes, group, edit);
    times_of_head(nodes, id);
    if nodes[0].id == group {
        assert(after.subrange(1, after.len() as int) =~= tail);
        times_of_head(after, id);
    } else {
        let deeper = match nodes[0].body {
            BodyView::Group(children) => find_in(children, group),
            _ => None,
        };
        if deeper is Some {
            let children = nodes[0].body->Group_0;
            times_edited(children, group, edit, id);
            assert(after.subrange(1, after.len() as int) =~= tail);
            times_of_head(after, id);
            times_of_one(nodes[0], id);
            times_of_one(after[0], id);
        } else {
            times_edited(tail, group, edit, id);
            assert(after.subrange(1, after.len() as int) =~= edited_in(tail, group, edit));
            times_of_head(after, id);
        }
    }
}

/// A change of the children of a container that is found, counted there.
pub(crate) proof fn times_in_container(
    nodes: Seq<NodeView>,
    container: Option<u64>,
    edit: ListEditView,
    id: u64,
)
    requires
        container matches Some(group) ==> find_in(nodes, group) matches Some(found) && group_of(
            found,
        ) is Some,
    ensures
        ({
            let children = match container {
                None => nodes,
                Some(group) => group_of(find_in(nodes, group)->0)->0,
            };
            times(container_edited(nodes, container, edit), id) + times(children, id) == times(
                nodes,
                id,
            ) + times(list_edited(children, edit), id)
        }),
{
    if let Some(group) = container {
        let found = find_in(nodes, group)->0;
        times_edited(nodes, group, NodeEditView::Children(edit), id);
        times_of_one(found, id);
        times_of_one(node_edited(found, NodeEditView::Children(edit)), id);
    }
}

/// A deletion takes a node and what is below it, and nothing else.
pub proof fn deletions_take_one_branch(nodes: Seq<NodeView>, id: u64, other: u64)
    requires
        is_placed(nodes, id),
        find_in(nodes, id) is Some,
    ensures
        times(without(nodes, id), other) + times(seq![find_in(nodes, id)->0], other) == times(
            nodes,
            other,
        ),
{
    let (container, at) = slot_in(nodes, id, None)->0;
    times_in_container(nodes, container, ListEditView::Remove(at), other);
    let children = match container {
        None => nodes,
        Some(group) => group_of(find_in(nodes, group)->0)->0,
    };
    times_without(children, at, other);
}

/// What is left has no doubles either.
proof fn rest_is_distinct(nodes: Seq<NodeView>, id: u64)
    requires
        is_distinct(nodes),
        find_in(nodes, id) is Some,
    ensures
        is_distinct(without(nodes, id)),
{
    slot_stands(nodes, id);
    assert forall|x: u64| #[trigger] times(without(nodes, id), x) <= 1 by {
        deletions_take_one_branch(nodes, id, x);
        assert(times(nodes, x) <= 1);
    }
}

/// A node that goes into a group, or out of one, takes what is below it along:
/// no node is lost, and none is there twice.
pub proof fn adoptions_keep_every_node(
    nodes: Seq<NodeView>,
    id: u64,
    container: Option<u64>,
    other: u64,
)
    requires
        is_placed(nodes, id),
    ensures
        times(moved_into(nodes, id, container), other) == times(nodes, other),
{
    if find_in(nodes, id) is Some && moved_into(nodes, id, container) != nodes {
        let node = find_in(nodes, id)->0;
        let left = without(nodes, id);
        deletions_take_one_branch(nodes, id, other);
        let at = usize::MAX as int;
        match container {
            None => {
                let place = if at < left.len() {
                    at
                } else {
                    left.len() as int
                };
                times_with(left, place, node, other);
            },
            Some(group) => {
                let found = find_in(left, group);
                if found is Some && group_of(found->0) is Some {
                    let children = group_of(found->0)->0;
                    times_in_container(left, container, ListEditView::Insert(at, node), other);
                    let place = if at < children.len() {
                        at
                    } else {
                        children.len() as int
                    };
                    times_with(children, place, node, other);
                } else {
                    times_with(left, left.len() as int, node, other);
                    assert(left.insert(left.len() as int, node) =~= left.push(node));
                }
            },
        }
    }
}

/// A node that goes beside another takes what is below it along: no node is
/// lost, and none is there twice.
pub proof fn drops_keep_every_node(
    nodes: Seq<NodeView>,
    id: u64,
    target: u64,
    below: bool,
    other: u64,
)
    requires
        is_placed(nodes, id),
        is_placed(without(nodes, id), target),
    ensures
        times(moved_beside(nodes, id, target, below), other) == times(nodes, other),
{
    if find_in(nodes, id) is Some {
        let node = find_in(nodes, id)->0;
        let left = without(nodes, id);
        deletions_take_one_branch(nodes, id, other);
        if find_in(left, target) is Some {
            let (container, at) = slot_in(left, target, None)->0;
            let to = if below {
                at
            } else if at < usize::MAX {
                at + 1
            } else {
                at
            };
            let children = match container {
                None => left,
                Some(group) => group_of(find_in(left, group)->0)->0,
            };
            let place = if to < children.len() {
                to
            } else {
                children.len() as int
            };
            times_in_container(left, container, ListEditView::Insert(to, node), other);
            times_with(children, place, node, other);
        } else {
            missing_has_no_slot(left, target, None);
            times_with(left, left.len() as int, node, other);
            assert(left.insert(left.len() as int, node) =~= left.push(node));
        }
    }
}

/// What is found under the identities of a row and of one that it is dropped
/// onto stands at its place: that of the other once the row is taken out.
pub open spec fn can_be_dropped(nodes: Seq<NodeView>, moving: NodeView, onto: NodeView) -> bool {
    is_placed(nodes, moving.id) && is_placed(without(nodes, moving.id), onto.id)
}

/// A row that is dropped onto another keeps its place in the count: whatever
/// the rows are, no layer is lost and none is there more often. The tree is as
/// it was where a row is missing, where the row is the one that it is dropped
/// onto, and where it holds that one.
pub proof fn dropped_rows_keep_every_layer(
    p: PaneView,
    source: i32,
    target: i32,
    below: bool,
    other: u64,
)
    requires
        (row_of(p, source), row_of(p, target)) matches (Some(moving), Some(onto)) ==> can_be_dropped(
            layers_of(p),
            moving,
            onto,
        ),
    ensures
        times(layers_of(row_dropped(p, source, target, below)), other) == times(
            layers_of(p),
            other,
        ),
        match (row_of(p, source), row_of(p, target)) {
            (Some(moving), Some(onto)) => (moving.id == onto.id || (find_in(
                layers_of(p),
                moving.id,
            ) matches Some(node) && holds(node, onto.id))) ==> layers_of(
                row_dropped(p, source, target, below),
            ) == layers_of(p),
            _ => layers_of(row_dropped(p, source, target, below)) == layers_of(p),
        },
{
    if let (Some(moving), Some(onto)) = (row_of(p, source), row_of(p, target)) {
        adoptions_keep_every_node(layers_of(p), moving.id, Some(onto.id), other);
        drops_keep_every_node(layers_of(p), moving.id, onto.id, below, other);
    }
}

/// What is taken out leaves the rest to be found.
proof fn found_without(nodes: Seq<NodeView>, at: int, id: u64)
    requires
        0 <= at < nodes.len(),
        !holds(nodes[at], id),
    ensures
        find_in(nodes.remove(at), id) == find_in(nodes, id),
    decreases nodes.len(),
{
    let tail = nodes.subrange(1, nodes.len() as int);
    let left = nodes.remove(at);
    if at == 0 {
        assert(left =~= tail);
    } else {
        assert(tail[at - 1] == nodes[at]);
        found_without(tail, at - 1, id);
        assert(left.subrange(1, left.len() as int) =~= tail.remove(at - 1));
    }
}

/// A group is still found, and no longer, once a child is taken out of one of
/// the groups, as long as the child does not hold it.
proof fn group_stays(nodes: Seq<NodeView>, container: u64, at: int, group: u64)
    requires
        find_in(nodes, container) matches Some(found) && group_of(found) matches Some(children) && 0
            <= at < children.len() && !holds(children[at], group),
    ensures
        ({
            let left = edited_in(
                nodes,
                container,
                NodeEditView::Children(ListEditView::Remove(at)),
            );
            match find_in(nodes, group) {
                None => find_in(left, group) is None,
                Some(found) => find_in(left, group) matches Some(kept) && match group_of(found) {
                    None => true,
                    Some(children) => group_of(kept) matches Some(rest) && rest.len()
                        <= children.len(),
                },
            }
        }),
    decreases nodes,
{
    let edit = NodeEditView::Children(ListEditView::Remove(at));
    let tail = nodes.subrange(1, nodes.len() as int);
    let left = edited_in(nodes, container, edit);
    if nodes[0].id == container {
        assert(left.subrange(1, left.len() as int) =~= tail);
        let children = nodes[0].body->Group_0;
        found_without(children, at, group);
    } else {
        let deeper = match nodes[0].body {
            BodyView::Group(children) => find_in(children, container),
            _ => None,
        };
        if deeper is Some {
            let children = nodes[0].body->Group_0;
            assert(left.subrange(1, left.len() as int) =~= tail);
            group_stays(children, container, at, group);
            edits_keep_length(children, container, edit);
        } else {
            assert(left.subrange(1, left.len() as int) =~= edited_in(tail, container, edit));
            group_stays(tail, container, at, group);
        }
    }
}

proof fn edits_keep_length(nodes: Seq<NodeView>, id: u64, edit: NodeEditView)
    ensures
        edited_in(nodes, id, edit).len() == nodes.len(),
    decreases nodes,
{
    if nodes.len() > 0 && nodes[0].id != id {
        edits_keep_length(nodes.subrange(1, nodes.len() as int), id, edit);
    }
}

/// A node that is changed is found as it was changed.
pub(crate) proof fn found_edited(nodes: Seq<NodeView>, id: u64, edit: NodeEditView)
    requires
        find_in(nodes, id) is Some,
    ensures
        find_in(edited_in(nodes, id, edit), id) == Some(
            node_edited(find_in(nodes, id)->0, edit),
        ),
    decreases nodes,
{
    let tail = nodes.subrange(1, nodes.len() as int);
    let after = edited_in(nodes, id, edit);
    if nodes[0].id != id {
        let deeper = match nodes[0].body {
            BodyView::Group(children) => find_in(children, id),
            _ => None,
        };
        if deeper is Some {
            found_edited(nodes[0].body->Group_0, id, edit);
        } else {
            found_edited(tail, id, edit);
            assert(after.subrange(1, after.len() as int) =~= edited_in(tail, id, edit));
        }
    }
}

/// A node that goes into a group becomes its last child, which the panel shows
/// in front, with all that is below it.
pub proof fn adopted_nodes_come_last(nodes: Seq<NodeView>, id: u64, group: u64)
    requires
        is_placed(nodes, id),
        find_in(nodes, id) matches Some(node) && !holds(node, group),
        find_in(nodes, group) matches Some(found) && group_of(found) matches Some(children)
            && children.len() <= usize::MAX,
    ensures
        find_in(moved_into(nodes, id, Some(group)), group) matches Some(found) && group_of(
            found,
        ) matches Some(children) && children.len() > 0 && Some(children.last()) == find_in(
            nodes,
            id,
        ),
{
    let node = find_in(nodes, id)->0;
    let (container, at) = slot_in(nodes, id, None)->0;
    let left = without(nodes, id);
    match container {
        None => found_without(nodes, at, group),
        Some(parent) => group_stays(nodes, parent, at, group),
    }
    let children = group_of(find_in(left, group)->0)->0;
    let edit = NodeEditView::Children(ListEditView::Insert(usize::MAX as int, node));
    found_edited(left, group, edit);
    assert(list_edited(
        children,
        ListEditView::Insert(usize::MAX as int, node),
    ) =~= children.push(node));
}

proof fn found_in_front(a: Seq<NodeView>, b: Seq<NodeView>, id: u64)
    requires
        find_in(a, id) is Some,
    ensures
        find_in(a + b, id) == find_in(a, id),
    decreases a.len(),
{
    let tail = a.subrange(1, a.len() as int);
    assert((a + b).subrange(1, (a + b).len() as int) =~= tail + b);
    if a[0].id != id {
        let deeper = match a[0].body {
            BodyView::Group(children) => find_in(children, id),
            _ => None,
        };
        if deeper is None {
            found_in_front(tail, b, id);
        }
    }
}

proof fn found_below(nodes: Seq<NodeView>, at: int, id: u64)
    requires
        is_distinct(nodes),
        0 <= at < nodes.len(),
        group_of(nodes[at]) matches Some(children) && find_in(children, id) is Some,
    ensures
        find_in(nodes, id) == find_in(group_of(nodes[at])->0, id),
    decreases nodes.len(),
{
    let tail = nodes.subrange(1, nodes.len() as int);
    let children = group_of(nodes[at])->0;
    parts_are_distinct(nodes);
    found_is_there(children, id);
    assert(times(nodes, id) <= 1);
    if at == 0 {
        assert(nodes[0].id != id);
    } else {
        assert(tail[at - 1] == nodes[at]);
        found_below(tail, at - 1, id);
        found_is_there(tail, id);
        if let BodyView::Group(other) = nodes[0].body {
            if find_in(other, id) is Some {
                found_is_there(other, id);
            }
        }
    }
}

/// The rows of nodes without doubles are what is found under their identities.
proof fn rows_are_found(nodes: Seq<NodeView>, folded: Set<u64>, depth: u64, at: int)
    requires
        is_distinct(nodes),
        0 <= at < row_list(nodes, folded, depth).len(),
    ensures
        ({
            let row = row_list(nodes, folded, depth)[at].0;
            find_in(nodes, row.id) == Some(row)
        }),
    decreases nodes,
{
    let end = nodes.len() - 1;
    let last = nodes[end];
    let head = nodes.subrange(0, end);
    let below = match last.body {
        BodyView::Group(children) => if folded.contains(last.id) {
            Seq::empty()
        } else {
            row_list(children, folded, deeper(depth))
        },
        _ => Seq::empty(),
    };
    assert(nodes =~= head + seq![last]);
    assert forall|x: u64| #[trigger] times(head, x) <= 1 by {
        times_joined(head, seq![last], x);
        assert(times(nodes, x) <= 1);
    }
    if at == 0 {
        only_one_is_found(nodes, end);
    } else if at < 1 + below.len() {
        let children = last.body->Group_0;
        assert forall|x: u64| #[trigger] times(children, x) <= 1 by {
            times_joined(head, seq![last], x);
            times_of_one(last, x);
            assert(times(nodes, x) <= 1);
        }
        rows_are_found(children, folded, deeper(depth), at - 1);
        found_below(nodes, end, below[at - 1].0.id);
    } else {
        rows_are_found(head, folded, depth, at - 1 - below.len());
        found_in_front(
            head,
            seq![last],
            row_list(head, folded, depth)[at - 1 - below.len()].0.id,
        );
    }
}

/// Where no two layers have the same identity, every row is found under its
/// own, and any row can be dropped onto any other.
pub proof fn distinct_rows_can_be_dropped(p: PaneView, source: i32, target: i32)
    requires
        is_distinct(layers_of(p)),
    ensures
        row_of(p, source) matches Some(moving) ==> find_in(layers_of(p), moving.id) == Some(moving),
        (row_of(p, source), row_of(p, target)) matches (Some(moving), Some(onto)) ==> can_be_dropped(
            layers_of(p),
            moving,
            onto,
        ),
{
    if let Some(moving) = row_of(p, source) {
        let at: int = if source < 0 {
            0
        } else {
            source as int
        };
        rows_are_found(layers_of(p), p.collapsed, 0, at);
        if let Some(onto) = row_of(p, target) {
            distinct_nodes_are_placed(layers_of(p), moving.id, onto.id);
        }
    }
}

/// What is found has the identity that was looked for.
pub(crate) proof fn found_has_its_id(nodes: Seq<NodeView>, id: u64)
    ensures
        find_in(nodes, id) matches Some(node) ==> node.id == id,
    decreases nodes,
{
    if nodes.len() > 0 {
        if let BodyView::Group(children) = nodes[0].body {
            found_has_its_id(children, id);
        }
        found_has_its_id(nodes.subrange(1, nodes.len() as int), id);
    }
}

/// A node that another does not hold is still found once that one is gone.
pub(crate) proof fn found_stays(nodes: Seq<NodeView>, id: u64, other: u64)
    requires
        is_placed(nodes, id),
        find_in(nodes, id) matches Some(node) && !holds(node, other),
        find_in(nodes, other) is Some,
    ensures
        find_in(without(nodes, id), other) is Some,
{
    let (container, at) = slot_in(nodes, id, None)->0;
    match container {
        None => found_without(nodes, at, other),
        Some(parent) => group_stays(nodes, parent, at, other),
    }
}

/// A row that is dropped into a group becomes the last child of the group,
/// which the panel shows in front, with all that is below it.
pub proof fn dropped_rows_become_last_children(p: PaneView, source: i32, target: i32)
    requires
        row_of(p, source) matches Some(moving) && (row_of(p, target) matches Some(onto) && !holds(
            moving,
            onto.id,
        ) && find_in(layers_of(p), moving.id) == Some(moving) && find_in(layers_of(p), onto.id)
            == Some(onto) && is_placed(layers_of(p), moving.id) && (group_of(onto) matches Some(
            children,
        ) && children.len() <= usize::MAX)),
    ensures
        find_in(layers_of(row_dropped(p, source, target, true)), row_of(p, target)->0.id) matches Some(
            group,
        ) && group_of(group) matches Some(children) && children.len() > 0 && Some(
            children.last(),
        ) == row_of(p, source),
{
    let moving = row_of(p, source)->0;
    let onto = row_of(p, target)->0;
    adopted_nodes_come_last(layers_of(p), moving.id, onto.id);
}

} // verus!
