//! What the panel of layers does to the layers, seen from outside.

use crate::panes::canvas::adjustments::{between, place_for, place_for_bounds, AdjustmentEdit};
use crate::panes::canvas::apart::{is_apart, layers_apart_are_distinct};
use crate::panes::canvas::edits::{
    children_of, container_edited, edited_in, holds, list_edited, row_list, without, ListEditView,
    NodeEditView,
};
use crate::panes::canvas::layers::{layers_of, row_changed};
use crate::panes::canvas::messages::{updated, CanvasMsg};
use crate::panes::canvas::moves::{
    deletions_take_one_branch, distinct_nodes_are_placed, distinct_rows_can_be_dropped,
    found_edited, found_is_there, found_stays, stands, times,
};
use crate::panes::canvas::pane::{row_of, rows_of, PaneView};
use crate::panes::canvas::store::stored_pixels_are_found;
use crate::panes::canvas::frame::{transparent_view, white_view};
use crate::panes::canvas::tree::{
    find_in, fresh_node, group_of, slot_in, AdjustmentKind, AdjustmentView, BodyView, LayerMask,
    NodeView, Rgb,
};
use vstd::prelude::*;

verus! {

/// Two nodes that agree in all but the children of a group.
pub open spec fn alike(a: NodeView, b: NodeView) -> bool {
    &&& a.id == b.id
    &&& a.name == b.name
    &&& a.hidden == b.hidden
    &&& a.opacity == b.opacity
    &&& a.mask == b.mask
    &&& group_of(a) is Some == group_of(b) is Some
    &&& group_of(a) is None ==> a.body == b.body
}

/// A change of one node leaves every other one as it was, but for what is
/// inside of it.
proof fn others_stay(nodes: Seq<NodeView>, id: u64, edit: NodeEditView, other: u64)
    requires
        other != id,
        !(edit is Children),
    ensures
        match find_in(nodes, other) {
            Some(node) => find_in(edited_in(nodes, id, edit), other) matches Some(now) && alike(
                node,
                now,
            ),
            None => find_in(edited_in(nodes, id, edit), other) is None,
        },
    decreases nodes,
{
    if nodes.len() > 0 {
        let tail = nodes.subrange(1, nodes.len() as int);
        let now = edited_in(nodes, id, edit);
        if nodes[0].id == id {
            assert(now.subrange(1, now.len() as int) =~= tail);
        } else {
            let inside = match nodes[0].body {
                BodyView::Group(children) => find_in(children, id),
                _ => None,
            };
            if inside is Some {
                assert(now.subrange(1, now.len() as int) =~= tail);
                others_stay(nodes[0].body->Group_0, id, edit, other);
            } else {
                assert(now.subrange(1, now.len() as int) =~= edited_in(tail, id, edit));
                others_stay(tail, id, edit, other);
            }
        }
    }
}

/// The row that is named is found among the layers.
proof fn row_is_found(p: PaneView, index: i32)
    requires
        is_apart(p),
    ensures
        row_of(p, index) matches Some(row) ==> find_in(layers_of(p), row.id) == Some(row),
{
    layers_apart_are_distinct(p);
    distinct_rows_can_be_dropped(p, index, index);
}

/// A layer gets the opacity that is set: the number itself where it lies
/// between nothing and a million, and the nearer of the two otherwise. Nothing
/// else of the layer changes, and no other layer does.
pub proof fn layers_get_the_opacity_that_is_set(p: PaneView, index: i32, n: i64, other: u64)
    requires
        is_apart(p),
        row_of(p, index) is Some,
    ensures
        ({
            let row = row_of(p, index)->0;
            let now = find_in(layers_of(updated(p, CanvasMsg::LayerOpacity(index, n)).0), row.id);
            let set = find_in(
                layers_of(row_changed(p, index, NodeEditView::Opacity(n))),
                row.id,
            );
            &&& now is Some
            &&& now == set
            &&& 0 <= n <= 1_000_000 ==> now->0.opacity == n
            &&& n <= 0 ==> now->0.opacity == 0
            &&& n >= 1_000_000 ==> now->0.opacity == 1_000_000
            &&& now->0 == (NodeView { opacity: now->0.opacity, ..row })
        }),
        other != row_of(p, index)->0.id ==> stays(
            p,
            updated(p, CanvasMsg::LayerOpacity(index, n)).0,
            other,
        ),
{
    row_is_found(p, index);
    let row = row_of(p, index)->0;
    found_edited(layers_of(p), row.id, NodeEditView::Opacity(n));
    if other != row.id {
        others_stay(layers_of(p), row.id, NodeEditView::Opacity(n), other);
    }
}

/// A node is there before and after, with the same name, look and content,
/// but for what is inside of it; or it is there neither before nor after.
pub open spec fn stays(before: PaneView, now: PaneView, id: u64) -> bool {
    match find_in(layers_of(before), id) {
        Some(node) => find_in(layers_of(now), id) matches Some(kept) && alike(node, kept),
        None => find_in(layers_of(now), id) is None,
    }
}

/// A higher opacity is never set as a lower one.
pub proof fn opacities_are_monotone(p: PaneView, index: i32, n: i64, m: i64)
    requires
        is_apart(p),
        row_of(p, index) is Some,
        n <= m,
    ensures
        ({
            let id = row_of(p, index)->0.id;
            let low = find_in(layers_of(updated(p, CanvasMsg::LayerOpacity(index, n)).0), id);
            let high = find_in(layers_of(updated(p, CanvasMsg::LayerOpacity(index, m)).0), id);
            low is Some && high is Some && low->0.opacity <= high->0.opacity
        }),
{
    layers_get_the_opacity_that_is_set(p, index, n, 0);
    layers_get_the_opacity_that_is_set(p, index, m, 0);
}

/// The eye of a row hides a layer that is shown and shows one that is hidden,
/// and changes nothing else of it, nor any other layer.
pub proof fn eyes_hide_and_show(p: PaneView, index: i32, other: u64)
    requires
        is_apart(p),
        row_of(p, index) is Some,
    ensures
        ({
            let row = row_of(p, index)->0;
            let now = updated(p, CanvasMsg::LayerToggleVisibility(index)).0;
            &&& find_in(layers_of(now), row.id) == Some(NodeView { hidden: !row.hidden, ..row })
            &&& other != row.id ==> stays(p, now, other)
        }),
{
    row_is_found(p, index);
    let row = row_of(p, index)->0;
    found_edited(layers_of(p), row.id, NodeEditView::Toggle);
    if other != row.id {
        others_stay(layers_of(p), row.id, NodeEditView::Toggle, other);
    }
}

/// A click on a row makes its node the active one, and its pixels, where it
/// has any, the ones that are painted on. The layers stay as they are.
pub proof fn clicks_pick_the_row(p: PaneView, index: i32)
    ensures
        ({
            let now = updated(p, CanvasMsg::LayerPick(index)).0;
            &&& now.document == p.document
            &&& row_of(p, index) matches Some(row) ==> now.active == Some(row.id) && now.layer == (
            match row.body {
                BodyView::Image(pixels) => Some(pixels),
                _ => None,
            })
            &&& row_of(p, index) is None ==> now == p
        }),
{
}

/// A new layer lies in front of all the others, which stay as they are. It is
/// shown, opaque, has no mask, holds pixels of its own and is the one that is
/// painted on.
pub proof fn new_layers_lie_in_front(p: PaneView)
    requires
        p.document is Some,
        crate::panes::canvas::layers::is_addressable(p.document->0),
    ensures
        ({
            let now = updated(p, CanvasMsg::LayerAdd).0;
            let top = layers_of(now).last();
            &&& layers_of(now).len() == layers_of(p).len() + 1
            &&& layers_of(now).drop_last() == layers_of(p)
            &&& top.id == p.document->0.next
            &&& !top.hidden && top.opacity == 1_000_000 && top.mask is None
            &&& top.body == BodyView::Image(p.store.next)
            &&& now.active == Some(top.id)
            &&& now.layer == Some(p.store.next)
            &&& now.document->0.width == p.document->0.width && now.document->0.height
                == p.document->0.height
            &&& p.store.at(p.store.next) is None ==> (now.store.frame(p.store.next) matches Some(
                frame,
            ) && frame.width == p.document->0.width && frame.height == p.document->0.height
                && forall|i: int|
                0 <= i < frame.pixels.len() ==> #[trigger] frame.pixels[i] == 0)
        }),
{
    if p.store.at(p.store.next) is None {
        let d = p.document->0;
        stored_pixels_are_found(p.store, transparent_view(d.width, d.height), p.versions, 0);
    }
    assert(layers_of(updated(p, CanvasMsg::LayerAdd).0).drop_last() =~= layers_of(p));
}

/// The list that holds the nodes of a container changes as the container is
/// told to.
proof fn lists_change(nodes: Seq<NodeView>, container: Option<u64>, edit: ListEditView)
    requires
        container matches Some(group) ==> (find_in(nodes, group) matches Some(found) && group_of(
            found,
        ) is Some),
    ensures
        children_of(container_edited(nodes, container, edit), container) == list_edited(
            children_of(nodes, container),
            edit,
        ),
{
    if let Some(group) = container {
        found_edited(nodes, group, NodeEditView::Children(edit));
    }
}

/// Where the active node stands: the list that holds it and its place there.
proof fn node_stands(p: PaneView, id: u64)
    requires
        is_apart(p),
        find_in(layers_of(p), id) is Some,
    ensures
        slot_in(layers_of(p), id, None) matches Some(slot) && stands(
            layers_of(p),
            slot,
            find_in(layers_of(p), id)->0,
        ) && 0 <= slot.1 < children_of(layers_of(p), slot.0).len() && children_of(
            layers_of(p),
            slot.0,
        )[slot.1] == find_in(layers_of(p), id)->0,
{
    layers_apart_are_distinct(p);
    distinct_nodes_are_placed(layers_of(p), id, id);
}

/// A new group, and a new adjustment, comes right in front of the active node,
/// in the same group as it. Everything else of that group stays as it is. It
/// is shown, opaque and without a mask; a group is empty.
pub proof fn new_nodes_come_before_the_active_one(p: PaneView, id: u64, number: i32)
    requires
        is_apart(p),
        p.active == Some(id),
        find_in(layers_of(p), id) is Some,
        slot_in(layers_of(p), id, None) matches Some(slot) ==> slot.1 < usize::MAX,
    ensures
        ({
            let (container, at) = slot_in(layers_of(p), id, None)->0;
            let list = children_of(layers_of(p), container);
            let with_group = updated(p, CanvasMsg::LayerAddGroup).0;
            let grouped = children_of(layers_of(with_group), container);
            let with_adjustment = updated(p, CanvasMsg::AdjustmentAdd(number)).0;
            let toned = children_of(layers_of(with_adjustment), container);
            &&& 0 <= at < list.len() && list[at].id == id
            &&& grouped.len() == list.len() + 1
            &&& grouped.remove(at + 1) == list
            &&& grouped[at + 1].id == p.document->0.next && !grouped[at + 1].hidden && grouped[at
                + 1].opacity == 1_000_000 && grouped[at + 1].mask is None && grouped[at + 1].body
                == BodyView::Group(Seq::empty())
            &&& with_group.active == Some(p.document->0.next)
            &&& 1 <= number <= 7 ==> {
                &&& toned.len() == list.len() + 1
                &&& toned.remove(at + 1) == list
                &&& toned[at + 1].id == p.document->0.next && !toned[at + 1].hidden && toned[at
                    + 1].opacity == 1_000_000 && toned[at + 1].mask is None && toned[at
                    + 1].body is Adjustment
                &&& with_adjustment.active == Some(p.document->0.next)
            }
            &&& !(1 <= number <= 7) ==> layers_of(with_adjustment) == layers_of(p)
        }),
{
    node_stands(p, id);
    let (container, at) = slot_in(layers_of(p), id, None)->0;
    let list = children_of(layers_of(p), container);
    let d = p.document->0;
    crate::panes::canvas::moves::found_has_its_id(layers_of(p), id);
    let name = crate::panes::canvas::layers::numbered("Group "@, layers_of(p));
    let group = fresh_node(d.next, name, BodyView::Group(Seq::empty()));
    lists_change(layers_of(p), container, ListEditView::Insert(at + 1, group));
    assert(list.insert(at + 1, group).remove(at + 1) =~= list);
    if let Some(kind) = crate::panes::canvas::adjustments::kind_of_number(number) {
        let toned = fresh_node(
            d.next,
            crate::panes::canvas::adjustments::kind_name(number),
            BodyView::Adjustment(crate::panes::canvas::adjustments::neutral(kind)),
        );
        lists_change(layers_of(p), container, ListEditView::Insert(at + 1, toned));
        assert(list.insert(at + 1, toned).remove(at + 1) =~= list);
    }
}

/// A row that is moved changes places in the list that holds it and nowhere
/// else. A move by one goes one place further back, a move by minus one comes
/// one place forward; the others keep their order. A move past an end of the
/// list stops where it began, but that none goes further back than the first.
pub proof fn rows_move_one_place(p: PaneView, index: i32, direction: i32)
    requires
        is_apart(p),
        row_of(p, index) is Some,
        direction == 1 || direction == -1,
        slot_in(layers_of(p), row_of(p, index)->0.id, None) matches Some(slot) ==> slot.1
            < usize::MAX,
    ensures
        ({
            let row = row_of(p, index)->0;
            let (container, from) = slot_in(layers_of(p), row.id, None)->0;
            let list = children_of(layers_of(p), container);
            let now = children_of(
                layers_of(updated(p, CanvasMsg::LayerMove(index, direction)).0),
                container,
            );
            let to = from - direction;
            &&& 0 <= from < list.len() && list[from] == row
            &&& now.len() == list.len()
            &&& 0 <= to < list.len() ==> now[to] == row && now.remove(to) == list.remove(from)
            &&& !(0 <= to < list.len()) ==> now == list
        }),
{
    row_is_found(p, index);
    let row = row_of(p, index)->0;
    node_stands(p, row.id);
    let (container, from) = slot_in(layers_of(p), row.id, None)->0;
    let list = children_of(layers_of(p), container);
    let to = from - direction;
    let held: int = if to < 0 {
        0
    } else {
        to
    };
    lists_change(layers_of(p), container, ListEditView::Shift(from, held));
    if 0 <= to < list.len() {
        let now = list.remove(from).insert(to, list[from]);
        assert(now.remove(to) =~= list.remove(from));
    } else if to < 0 {
        assert(list.remove(0).insert(0, list[0]) =~= list);
    }
}

/// A row that is deleted is gone, with all that it holds; every other layer is
/// still there.
pub proof fn deleted_rows_are_gone(p: PaneView, index: i32, other: u64)
    requires
        is_apart(p),
        row_of(p, index) is Some,
    ensures
        ({
            let row = row_of(p, index)->0;
            let now = layers_of(updated(p, CanvasMsg::LayerDelete(index)).0);
            &&& find_in(now, row.id) is None
            &&& holds(row, other) ==> times(now, other) == 0
            &&& !holds(row, other) ==> times(now, other) == times(layers_of(p), other)
        }),
{
    row_is_found(p, index);
    let row = row_of(p, index)->0;
    let nodes = layers_of(p);
    layers_apart_are_distinct(p);
    distinct_nodes_are_placed(nodes, row.id, row.id);
    deletions_take_one_branch(nodes, row.id, row.id);
    deletions_take_one_branch(nodes, row.id, other);
    let one = seq![row];
    let none = one.subrange(1, 1);
    assert(one[0] == row && one.len() == 1);
    assert(none.len() == 0);
    assert(times(none, row.id) == 0 && times(none, other) == 0);
    assert(times(nodes, row.id) <= 1 && times(nodes, other) <= 1);
    let left = without(nodes, row.id);
    if find_in(left, row.id) is Some {
        found_is_there(left, row.id);
    }
    if let BodyView::Group(children) = row.body {
        if find_in(children, other) is Some {
            found_is_there(children, other);
        } else {
            missing_is_not_there(children, other);
        }
    }
}

/// What is not found is not there.
proof fn missing_is_not_there(nodes: Seq<NodeView>, id: u64)
    requires
        find_in(nodes, id) is None,
    ensures
        times(nodes, id) == 0,
    decreases nodes,
{
    if nodes.len() > 0 {
        if let BodyView::Group(children) = nodes[0].body {
            missing_is_not_there(children, id);
        }
        missing_is_not_there(nodes.subrange(1, nodes.len() as int), id);
    }
}

/// A row that is dropped onto the upper half of another comes right in front
/// of it; one that is dropped onto the lower half of a layer comes right
/// behind it. Both are then in the same list, neighbours of each other.
#[verifier::rlimit(50)]
pub proof fn dropped_rows_become_neighbours(p: PaneView, source: i32, target: i32, below: bool) -> (
    place: (Option<u64>, int))
    requires
        is_apart(p),
        row_of(p, source) is Some,
        row_of(p, target) is Some,
        !holds(row_of(p, source)->0, row_of(p, target)->0.id),
        below ==> group_of(row_of(p, target)->0) is None,
        slot_in(
            without(layers_of(p), row_of(p, source)->0.id),
            row_of(p, target)->0.id,
            None,
        ) matches Some(slot) ==> slot.1 < usize::MAX,
    ensures
        ({
            let moving = row_of(p, source)->0;
            let onto = row_of(p, target)->0;
            let list = children_of(
                layers_of(updated(p, CanvasMsg::LayerDrop(source, target, below)).0),
                place.0,
            );
            &&& 0 <= place.1 && place.1 + 1 < list.len()
            &&& !below ==> list[place.1].id == onto.id && list[place.1 + 1] == moving
            &&& below ==> list[place.1] == moving && list[place.1 + 1].id == onto.id
        }),
{
    row_is_found(p, source);
    row_is_found(p, target);
    layers_apart_are_distinct(p);
    let nodes = layers_of(p);
    let moving = row_of(p, source)->0;
    let onto = row_of(p, target)->0;
    let left = without(nodes, moving.id);
    distinct_nodes_are_placed(nodes, moving.id, onto.id);
    found_stays(nodes, moving.id, onto.id);
    let (container, at) = slot_in(left, onto.id, None)->0;
    let to = if below {
        at
    } else {
        at + 1
    };
    lists_change(left, container, ListEditView::Insert(to, moving));
    crate::panes::canvas::moves::found_has_its_id(left, onto.id);
    (container, at)
}

/// A mask that is added hides nothing: it is as large as the canvas, white,
/// in force, and on the active node alone. The brush then paints on it.
pub proof fn new_masks_hide_nothing(p: PaneView, id: u64, other: u64)
    requires
        is_apart(p),
        p.active == Some(id),
        p.document is Some,
        find_in(layers_of(p), id) matches Some(node) && node.mask is None,
        crate::panes::canvas::layers::is_addressable(p.document->0),
        p.store.next < u64::MAX,
        p.store.at(p.store.next) is None,
    ensures
        ({
            let d = p.document->0;
            let now = updated(p, CanvasMsg::LayerMaskAdd).0;
            let node = find_in(layers_of(p), id)->0;
            let kept = find_in(layers_of(now), id);
            &&& kept == Some(
                NodeView {
                    mask: Some(LayerMask { pixels: p.store.next, enabled: true }),
                    ..node
                },
            )
            &&& now.store.frame(p.store.next) matches Some(frame) && frame.width == d.width
                && frame.height == d.height && forall|i: int|
                0 <= i < frame.pixels.len() ==> #[trigger] frame.pixels[i] == 255
            &&& now.paint_mask
            &&& now.tool == 3 && !now.brush.erasing
            &&& other != id ==> stays(p, now, other)
        }),
{
    let edit = NodeEditView::Mask(Some(LayerMask { pixels: p.store.next, enabled: true }));
    found_edited(layers_of(p), id, edit);
    if other != id {
        others_stay(layers_of(p), id, edit, other);
    }
    let d = p.document->0;
    stored_pixels_are_found(p.store, white_view(d.width, d.height), p.versions, 0);
}

/// A mask that is removed is gone; one that is switched is in force where it
/// was not, and the other way round. Nothing else of the layers changes.
pub proof fn masks_go_and_come_back(p: PaneView, id: u64, other: u64)
    requires
        p.active == Some(id),
        p.document is Some,
        find_in(layers_of(p), id) is Some,
    ensures
        ({
            let node = find_in(layers_of(p), id)->0;
            let bare = updated(p, CanvasMsg::LayerMaskRemove).0;
            let switched = updated(p, CanvasMsg::LayerMaskToggle).0;
            &&& find_in(layers_of(bare), id) == Some(NodeView { mask: None, ..node })
            &&& !bare.paint_mask
            &&& node.mask is None ==> find_in(layers_of(switched), id) == Some(node)
            &&& node.mask matches Some(mask) ==> find_in(layers_of(switched), id) == Some(
                NodeView {
                    mask: Some(LayerMask { pixels: mask.pixels, enabled: !mask.enabled }),
                    ..node
                },
            )
            &&& other != id ==> stays(p, bare, other) && stays(p, switched, other)
        }),
{
    found_edited(layers_of(p), id, NodeEditView::Mask(None));
    found_edited(layers_of(p), id, NodeEditView::ToggleMask);
    if other != id {
        others_stay(layers_of(p), id, NodeEditView::Mask(None), other);
        others_stay(layers_of(p), id, NodeEditView::ToggleMask, other);
    }
}

/// A click on the chip of a mask makes its node the active one and has the
/// brush paint on the mask; a second click goes back to the pixels. A row
/// without a mask has nothing to click on.
pub proof fn mask_chips_switch_what_is_painted(p: PaneView, index: i32)
    requires
        row_of(p, index) is Some,
    ensures
        ({
            let row = row_of(p, index)->0;
            let now = updated(p, CanvasMsg::LayerMaskPaint(index)).0;
            &&& now.document == p.document
            &&& row.mask is None ==> now == p
            &&& row.mask is Some && p.paint_mask && p.active == Some(row.id) ==> !now.paint_mask
                && now.active == p.active && now.tool == p.tool
            &&& row.mask is Some && !(p.paint_mask && p.active == Some(row.id))
                ==> now.paint_mask && now.active == Some(row.id) && now.tool == 3
                && !now.brush.erasing
        }),
{
}

/// Folding a group hides what it holds and unfolding it shows it again; no
/// layer changes, and a row that is no group does not fold.
pub proof fn folds_hide_what_groups_hold(p: PaneView, index: i32)
    requires
        row_of(p, index) is Some,
    ensures
        ({
            let row = row_of(p, index)->0;
            let now = updated(p, CanvasMsg::LayerFold(index)).0;
            &&& now.document == p.document
            &&& group_of(row) is None ==> now == p
            &&& group_of(row) is Some ==> now.collapsed.contains(row.id) == !p.collapsed.contains(
                row.id,
            ) && forall|id: u64|
                id != row.id ==> #[trigger] now.collapsed.contains(id) == p.collapsed.contains(id)
        }),
{
}

/// The panel lists the layers from the front to the back: the last of a list
/// comes first, right below it what it holds where it is an open group, one
/// step deeper, and then what lies behind it.
pub proof fn rows_go_from_front_to_back(nodes: Seq<NodeView>, folded: Set<u64>, depth: u64)
    requires
        nodes.len() > 0,
        depth < u64::MAX,
    ensures
        ({
            let rows = row_list(nodes, folded, depth);
            let front = nodes.last();
            let behind = row_list(nodes.drop_last(), folded, depth);
            &&& rows[0] == (front, depth)
            &&& group_of(front) is None || folded.contains(front.id) ==> rows.skip(1) == behind
            &&& group_of(front) is Some && !folded.contains(front.id) ==> rows.skip(1) == row_list(
                group_of(front)->0,
                folded,
                (depth + 1) as u64,
            ) + behind
        }),
{
    assert(nodes.drop_last() =~= nodes.subrange(0, nodes.len() - 1));
    let rows = row_list(nodes, folded, depth);
    let behind = row_list(nodes.drop_last(), folded, depth);
    if group_of(nodes.last()) is Some && !folded.contains(nodes.last().id) {
        let held = row_list(group_of(nodes.last())->0, folded, (depth + 1) as u64);
        assert(rows.skip(1) =~= held + behind);
    } else {
        assert(rows.skip(1) =~= behind);
    }
}

/// Layers without groups have a row each, the last layer in the first row.
pub proof fn flat_layers_have_a_row_each(p: PaneView, i: int)
    requires
        p.document is Some,
        forall|k: int| 0 <= k < layers_of(p).len() ==> group_of(#[trigger] layers_of(p)[k]) is None,
        0 <= i < layers_of(p).len(),
    ensures
        rows_of(p).len() == layers_of(p).len(),
        rows_of(p)[i] == (layers_of(p)[layers_of(p).len() - 1 - i], 0u64),
{
    flat_rows(layers_of(p), p.collapsed, i);
}

proof fn flat_rows(nodes: Seq<NodeView>, folded: Set<u64>, i: int)
    requires
        forall|k: int| 0 <= k < nodes.len() ==> group_of(#[trigger] nodes[k]) is None,
    ensures
        row_list(nodes, folded, 0).len() == nodes.len(),
        0 <= i < nodes.len() ==> row_list(nodes, folded, 0)[i] == (
            nodes[nodes.len() - 1 - i],
            0u64,
        ),
    decreases nodes.len(),
{
    if nodes.len() > 0 {
        let head = nodes.subrange(0, nodes.len() - 1);
        assert forall|k: int| 0 <= k < head.len() implies group_of(#[trigger] head[k]) is None by {
            assert(head[k] == nodes[k]);
        }
        flat_rows(head, folded, i - 1);
    }
}

/// A parameter of the active adjustment gets the value that is set, held to
/// its range; the others, and the rest of the adjustment, stay.
pub proof fn adjustments_get_what_is_set(p: PaneView, id: u64, index: i32, value: i64)
    requires
        p.active == Some(id),
        p.document is Some,
        find_in(layers_of(p), id) matches Some(node) && node.body is Adjustment,
    ensures
        ({
            let node = find_in(layers_of(p), id)->0;
            let a = node.body->Adjustment_0;
            let now = find_in(
                layers_of(updated(p, CanvasMsg::AdjustmentParam(index, value)).0),
                id,
            );
            let b = now->0.body->Adjustment_0;
            &&& now is Some && now->0.body is Adjustment
            &&& now->0 == (NodeView { body: now->0.body, ..node })
            &&& !(0 <= index < a.values.len()) ==> b == a
            &&& 0 <= index < a.values.len() ==> {
                let set = b.values[index as int];
                &&& b == (AdjustmentView { values: b.values, ..a })
                &&& b.values == a.values.update(index as int, set)
                &&& a.kind == AdjustmentKind::Exposure ==> set == clamped(
                    value as int,
                    -4_000_000,
                    4_000_000,
                )
                &&& a.kind == AdjustmentKind::Levels && index == 2 ==> set == clamped(
                    value as int,
                    100_000,
                    3_000_000,
                )
                &&& a.kind == AdjustmentKind::Levels && index != 2 ==> set == clamped(
                    value as int,
                    0,
                    1_000_000,
                )
                &&& a.kind == AdjustmentKind::HueSaturation && index == 0 ==> set == clamped(
                    value as int,
                    -180_000_000,
                    180_000_000,
                )
                &&& a.kind == AdjustmentKind::HueSaturation && index != 0 ==> set == clamped(
                    value as int,
                    -1_000_000,
                    1_000_000,
                )
                &&& a.kind == AdjustmentKind::Grain ==> set == clamped(value as int, 0, 1_000_000)
            }
        }),
{
    found_edited(layers_of(p), id, NodeEditView::Adjust(AdjustmentEdit::Param(index, value)));
}

/// The number of a range that lies nearest to `n`.
pub open spec fn clamped(n: int, least: int, most: int) -> int {
    if n <= least {
        least
    } else if n >= most {
        most
    } else {
        n
    }
}

/// A colour of the palette goes to the end of the gradient that is named, the
/// dark one first, and to no other.
pub proof fn gradients_get_the_colour_that_is_chosen(p: PaneView, id: u64, slot: i32, index: i32)
    requires
        p.active == Some(id),
        p.document is Some,
        find_in(layers_of(p), id) matches Some(node) && node.body is Adjustment,
        0 <= index < 8,
    ensures
        ({
            let a = find_in(layers_of(p), id)->0.body->Adjustment_0;
            let now = find_in(
                layers_of(updated(p, CanvasMsg::GradientColor(slot, index)).0),
                id,
            );
            let brushed = updated(p, CanvasMsg::BrushColor(index as usize)).0.brush.color;
            let b = now->0.body->Adjustment_0;
            &&& now is Some && now->0.body is Adjustment
            &&& a.kind == AdjustmentKind::GradientMap && slot == 0 ==> b.low == brushed && b.high
                == a.high
            &&& a.kind == AdjustmentKind::GradientMap && slot == 1 ==> b.high == brushed && b.low
                == a.low
            &&& a.kind != AdjustmentKind::GradientMap ==> b == a
            &&& b.kind == a.kind && b.values == a.values && b.channels == a.channels
        }),
{
    let colour = crate::panes::canvas::pane::palette_color(index as int);
    found_edited(
        layers_of(p),
        id,
        NodeEditView::Adjust(AdjustmentEdit::Gradient(slot, colour)),
    );
}

/// The points of a curve are set, added and removed on the channel that is
/// named: red, green and blue in this order.
#[verifier::rlimit(50)]
pub proof fn curves_change_on_their_channel(
    p: PaneView,
    id: u64,
    channel: i32,
    index: i32,
    x: i64,
    y: i64,
    k: int,
)
    requires
        p.active == Some(id),
        p.document is Some,
        find_in(layers_of(p), id) matches Some(node) && (node.body matches BodyView::Adjustment(a)
            && a.channels.len() == 3),
        0 <= channel < 3,
        0 <= k < 3,
    ensures
        ({
            let a = find_in(layers_of(p), id)->0.body->Adjustment_0;
            let points = a.channels[channel as int];
            let set = find_in(
                layers_of(updated(p, CanvasMsg::CurveSet(channel, index, x, y)).0),
                id,
            )->0.body->Adjustment_0;
            let more = find_in(
                layers_of(updated(p, CanvasMsg::CurveAdd(channel, x, y)).0),
                id,
            )->0.body->Adjustment_0;
            let fewer = find_in(
                layers_of(updated(p, CanvasMsg::CurveRemove(channel, index)).0),
                id,
            )->0.body->Adjustment_0;
            &&& k != channel ==> set.channels[k] == a.channels[k] && more.channels[k]
                == a.channels[k] && fewer.channels[k] == a.channels[k]
            &&& 0 <= index < points.len() ==> set.channels[channel as int].len() == points.len()
                && set.channels[channel as int][index as int].1 == clamped(
                y as int,
                0,
                1_000_000,
            )
            &&& 0 < index < points.len() - 1 && points[index - 1].0 + 1_000 <= clamped(
                x as int,
                0,
                1_000_000,
            ) <= points[index + 1].0 - 1_000 ==> set.channels[channel as int][index as int].0
                == clamped(x as int, 0, 1_000_000)
            &&& points.len() < 16 ==> more.channels[channel as int].len() == points.len() + 1
                && more.channels[channel as int].contains(
                (clamped(x as int, 0, 1_000_000) as i64, clamped(y as int, 0, 1_000_000) as i64),
            )
            &&& points.len() >= 16 ==> more.channels[channel as int] == points
            &&& 0 < index < points.len() - 1 ==> fewer.channels[channel as int] == points.remove(
                index as int,
            )
            &&& index == 0 || index == points.len() - 1 ==> fewer.channels[channel as int]
                == points
            &&& set.values == a.values && more.values == a.values && fewer.values == a.values
        }),
{
    let a = find_in(layers_of(p), id)->0.body->Adjustment_0;
    let points = a.channels[channel as int];
    found_edited(
        layers_of(p),
        id,
        NodeEditView::Adjust(AdjustmentEdit::CurveSet(channel, index, x, y)),
    );
    found_edited(layers_of(p), id, NodeEditView::Adjust(AdjustmentEdit::CurveAdd(channel, x, y)));
    found_edited(
        layers_of(p),
        id,
        NodeEditView::Adjust(AdjustmentEdit::CurveRemove(channel, index)),
    );
    let input = between(x, 0, 1_000_000);
    let output = between(y, 0, 1_000_000);
    place_for_bounds(points, input, 0);
    let place = place_for(points, input, 0);
    if points.len() < 16 {
        assert(points.insert(place, (input, output))[place] == (input, output));
    }
}

/// A new adjustment is of the kind that its number names, and changes nothing
/// yet: its parameters are neutral and its curves straight.
#[verifier::rlimit(50)]
pub proof fn new_adjustments_are_neutral(p: PaneView, id: u64, number: i32)
    requires
        is_apart(p),
        p.active == Some(id),
        find_in(layers_of(p), id) is Some,
        slot_in(layers_of(p), id, None) matches Some(slot) ==> slot.1 < usize::MAX,
        1 <= number <= 7,
    ensures
        ({
            let (container, at) = slot_in(layers_of(p), id, None)->0;
            let node = children_of(
                layers_of(updated(p, CanvasMsg::AdjustmentAdd(number)).0),
                container,
            )[at + 1];
            let a = node.body->Adjustment_0;
            &&& node.body is Adjustment
            &&& number == 1 ==> a.kind == AdjustmentKind::Invert && node.name == "Invert"@
            &&& number == 2 ==> a.kind == AdjustmentKind::Exposure && node.name == "Exposure"@
                && a.values == seq![0i64]
            &&& number == 3 ==> a.kind == AdjustmentKind::Levels && node.name == "Levels"@
                && a.values == seq![0i64, 1_000_000i64, 1_000_000i64, 0i64, 1_000_000i64]
            &&& number == 4 ==> a.kind == AdjustmentKind::HueSaturation && node.name
                == "Hue & Saturation"@ && a.values == seq![0i64, 0i64, 0i64]
            &&& number == 5 ==> a.kind == AdjustmentKind::GradientMap && node.name
                == "Gradient map"@ && a.low == (Rgb { red: 0, green: 0, blue: 0 }) && a.high == (
            Rgb { red: 255, green: 255, blue: 255 })
            &&& number == 6 ==> a.kind == AdjustmentKind::Grain && node.name == "Grain"@
                && a.values == seq![0i64]
            &&& number == 7 ==> a.kind == AdjustmentKind::Curves && node.name == "Curves"@
                && a.channels.len() == 3 && forall|k: int|
                0 <= k < 3 ==> #[trigger] a.channels[k] == seq![
                    (0i64, 0i64),
                    (1_000_000i64, 1_000_000i64),
                ]
            &&& crate::panes::canvas::adjustments::kind_number(a.kind) == number
        }),
{
    node_stands(p, id);
    let (container, at) = slot_in(layers_of(p), id, None)->0;
    let kind = crate::panes::canvas::adjustments::kind_of_number(number)->0;
    let toned = fresh_node(
        p.document->0.next,
        crate::panes::canvas::adjustments::kind_name(number),
        BodyView::Adjustment(crate::panes::canvas::adjustments::neutral(kind)),
    );
    lists_change(layers_of(p), container, ListEditView::Insert(at + 1, toned));
}

} // verus!
