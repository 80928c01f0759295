//! Changes to the tree of layers, and the rows that a panel shows of it.

use crate::panes::canvas::adjustments::{adjusted, AdjustmentEdit};
use crate::panes::canvas::tree::{
    find, find_in, find_slot, forest, group_model, group_of, image_of, node_count,
    node_image_pixels, slot_in,
    Adjustment, Body, BodyView, LayerMask, LayerNode, NodeView,
};
use std::collections::HashSet;
use vstd::prelude::*;
use vstd::string::*;

verus! {

/// Fully opaque, in millionths.
pub const OPAQUE: u32 = 1_000_000;

/// A change of a list of children.
pub enum ListEdit {
    /// A node comes in at a place, or at the end where the place is beyond it.
    Insert(usize, LayerNode),
    /// The node at a place goes.
    Remove(usize),
    /// The node at a place goes to another place.
    Shift(usize, usize),
}

#[verifier::ext_equal]
pub enum ListEditView {
    Insert(int, NodeView),
    Remove(int),
    Shift(int, int),
}

impl View for ListEdit {
    type V = ListEditView;

    open spec fn view(&self) -> ListEditView {
        match *self {
            ListEdit::Insert(at, node) => ListEditView::Insert(at as int, node@),
            ListEdit::Remove(at) => ListEditView::Remove(at as int),
            ListEdit::Shift(from, to) => ListEditView::Shift(from as int, to as int),
        }
    }
}

/// A list of children after a change.
pub open spec fn list_edited(children: Seq<NodeView>, edit: ListEditView) -> Seq<NodeView> {
    match edit {
        ListEditView::Insert(at, node) => children.insert(
            if at < children.len() {
                at
            } else {
                children.len() as int
            },
            node,
        ),
        ListEditView::Remove(at) => if 0 <= at < children.len() {
            children.remove(at)
        } else {
            children
        },
        ListEditView::Shift(from, to) => if 0 <= from < children.len() && 0 <= to
            < children.len() {
            children.remove(from).insert(to, children[from])
        } else {
            children
        },
    }
}

fn copy_nodes(v: &Vec<LayerNode>) -> (r: Vec<LayerNode>)
    ensures
        forest(r@) == forest(v@),
        r@.len() == v@.len(),
{
    let mut out: Vec<LayerNode> = Vec::new();
    let mut i: usize = 0;
    while i < v.len()
        invariant
            i <= v.len(),
            out@.len() == i,
            forall|j: int| 0 <= j < i ==> (#[trigger] out@[j])@ == v@[j]@,
        decreases v.len() - i,
    {
        out.push(v[i].copy());
        i = i + 1;
    }
    proof {
        assert(forest(out@) =~= forest(v@));
    }
    out
}

fn edit_list(children: &Vec<LayerNode>, edit: &ListEdit) -> (r: Vec<LayerNode>)
    ensures
        forest(r@) == list_edited(forest(children@), edit@),
{
    let mut out: Vec<LayerNode> = copy_nodes(children);
    let ghost before = out@;
    match edit {
        ListEdit::Insert(at, node) => {
            let place: usize = if *at < out.len() {
                *at
            } else {
                out.len()
            };
            out.insert(place, node.copy());
            proof {
                assert(forest(out@) =~= forest(before).insert(place as int, node@));
            }
        },
        ListEdit::Remove(at) => {
            if *at < out.len() {
                out.remove(*at);
                proof {
                    assert(forest(out@) =~= forest(before).remove(*at as int));
                }
            }
        },
        ListEdit::Shift(from, to) => {
            if *from < out.len() && *to < out.len() {
                let node: LayerNode = out.remove(*from);
                out.insert(*to, node);
                proof {
                    assert(forest(out@) =~= forest(before).remove(*from as int).insert(
                        *to as int,
                        forest(before)[*from as int],
                    ));
                }
            }
        },
    }
    out
}

/// A change of a node.
pub enum NodeEdit {
    /// The node is shown or hidden.
    Toggle,
    /// The opacity is set, in millionths.
    Opacity(i64),
    /// The node gets a mask, or loses the one it has.
    Mask(Option<LayerMask>),
    /// The mask is applied or set aside.
    ToggleMask,
    /// The adjustment is changed.
    Adjust(AdjustmentEdit),
    /// The children are changed.
    Children(ListEdit),
}

#[verifier::ext_equal]
pub enum NodeEditView {
    Toggle,
    Opacity(i64),
    Mask(Option<LayerMask>),
    ToggleMask,
    Adjust(AdjustmentEdit),
    Children(ListEditView),
}

impl View for NodeEdit {
    type V = NodeEditView;

    open spec fn view(&self) -> NodeEditView {
        match *self {
            NodeEdit::Toggle => NodeEditView::Toggle,
            NodeEdit::Opacity(n) => NodeEditView::Opacity(n),
            NodeEdit::Mask(mask) => NodeEditView::Mask(mask),
            NodeEdit::ToggleMask => NodeEditView::ToggleMask,
            NodeEdit::Adjust(edit) => NodeEditView::Adjust(edit),
            NodeEdit::Children(edit) => NodeEditView::Children(edit@),
        }
    }
}

/// An opacity held between nothing and fully opaque.
pub open spec fn held_opacity(n: i64) -> u32 {
    if n < 0 {
        0
    } else if n > OPAQUE {
        OPAQUE
    } else {
        n as u32
    }
}

/// A node after a change. A change that is not for its kind changes nothing.
pub open spec fn node_edited(node: NodeView, edit: NodeEditView) -> NodeView {
    match edit {
        NodeEditView::Toggle => NodeView { hidden: !node.hidden, ..node },
        NodeEditView::Opacity(n) => NodeView { opacity: held_opacity(n), ..node },
        NodeEditView::Mask(mask) => NodeView { mask, ..node },
        NodeEditView::ToggleMask => match node.mask {
            Some(mask) => NodeView {
                mask: Some(LayerMask { enabled: !mask.enabled, ..mask }),
                ..node
            },
            None => node,
        },
        NodeEditView::Adjust(edit) => match node.body {
            BodyView::Adjustment(a) => NodeView {
                body: BodyView::Adjustment(adjusted(a, edit)),
                ..node
            },
            _ => node,
        },
        NodeEditView::Children(edit) => match node.body {
            BodyView::Group(children) => NodeView {
                body: BodyView::Group(list_edited(children, edit)),
                ..node
            },
            _ => node,
        },
    }
}

fn edit_one(node: &LayerNode, edit: &NodeEdit) -> (r: LayerNode)
    ensures
        r@ == node_edited(node@, edit@),
{
    let mut out: LayerNode = node.copy();
    match edit {
        NodeEdit::Toggle => {
            out.hidden = !out.hidden;
            out
        },
        NodeEdit::Opacity(n) => {
            out.opacity = if *n < 0 {
                0
            } else if *n > OPAQUE as i64 {
                OPAQUE
            } else {
                *n as u32
            };
            out
        },
        NodeEdit::Mask(mask) => {
            out.mask = *mask;
            out
        },
        NodeEdit::ToggleMask => {
            if let Some(mask) = out.mask {
                out.mask = Some(LayerMask { enabled: !mask.enabled, pixels: mask.pixels });
            }
            out
        },
        NodeEdit::Adjust(change) => {
            match &node.body {
                Body::Adjustment(a) => {
                    let mut next: Adjustment = a.copy();
                    next.edit(*change);
                    out.body = Body::Adjustment(next);
                },
                _ => {},
            }
            out
        },
        NodeEdit::Children(change) => {
            match &node.body {
                Body::Group(children) => {
                    let next: Vec<LayerNode> = edit_list(children, change);
                    out.body = Body::Group(next);
                    proof {
                        group_model(*node);
                        group_model(out);
                    }
                },
                _ => {},
            }
            out
        },
    }
}

/// The nodes after a change of the one of an identity.
pub open spec fn edited_in(nodes: Seq<NodeView>, id: u64, edit: NodeEditView) -> Seq<NodeView>
    decreases nodes,
{
    if nodes.len() == 0 {
        nodes
    } else if nodes[0].id == id {
        nodes.update(0, node_edited(nodes[0], edit))
    } else {
        match nodes[0].body {
            BodyView::Group(children) => if find_in(children, id) is Some {
                nodes.update(
                    0,
                    NodeView { body: BodyView::Group(edited_in(children, id, edit)), ..nodes[0] },
                )
            } else {
                seq![nodes[0]] + edited_in(nodes.subrange(1, nodes.len() as int), id, edit)
            },
            _ => seq![nodes[0]] + edited_in(nodes.subrange(1, nodes.len() as int), id, edit),
        }
    }
}

/// Changes the node of an identity.
pub fn edit_node(nodes: &Vec<LayerNode>, id: u64, edit: &NodeEdit) -> (r: Vec<LayerNode>)
    ensures
        forest(r@) == edited_in(forest(nodes@), id, edit@),
    decreases nodes,
{
    let ghost all = forest(nodes@);
    let ghost end = all.len() as int;
    let mut out: Vec<LayerNode> = Vec::new();
    let mut done: bool = false;
    let mut i: usize = 0;
    proof {
        assert(all.subrange(0, end) =~= all);
        assert(forest(out@) + edited_in(all, id, edit@) =~= edited_in(all, id, edit@));
    }
    while i < nodes.len()
        invariant
            i <= nodes.len(),
            all == forest(nodes@),
            end == all.len(),
            edited_in(all, id, edit@) == forest(out@) + if done {
                all.subrange(i as int, end)
            } else {
                edited_in(all.subrange(i as int, end), id, edit@)
            },
        decreases nodes.len() - i,
    {
        let ghost rest = all.subrange(i as int, end);
        let ghost tail = all.subrange(i + 1, end);
        let ghost before = out@;
        proof {
            assert(rest[0] == nodes@[i as int]@);
            assert(rest.subrange(1, rest.len() as int) =~= tail);
            assert(rest =~= seq![rest[0]] + tail);
            group_model(nodes@[i as int]);
            assert(decreases_to!(nodes@ => nodes@[i as int]));
        }
        let mut next: LayerNode = nodes[i].copy();
        let ghost mut after = done;
        if !done {
            if nodes[i].id == id {
                next = edit_one(&nodes[i], edit);
                done = true;
                proof {
                    assert(rest.update(0, next@) =~= seq![next@] + tail);
                }
            } else if let Body::Group(children) = &nodes[i].body {
                if find(children, id).is_some() {
                    proof {
                        assert(decreases_to!(
                            nodes@[i as int].body => nodes@[i as int].body->Group_0
                        ));
                    }
                    let changed: Vec<LayerNode> = edit_node(children, id, edit);
                    next.body = Body::Group(changed);
                    done = true;
                    proof {
                        group_model(next);
                        assert(rest.update(0, next@) =~= seq![next@] + tail);
                    }
                }
            }
        }
        proof {
            let left = if done {
                tail
            } else {
                edited_in(tail, id, edit@)
            };
            assert((if after {
                rest
            } else {
                edited_in(rest, id, edit@)
            }) =~= seq![next@] + left);
            assert(forest(before) + (seq![next@] + left) =~= forest(before.push(next)) + left);
        }
        out.push(next);
        i = i + 1;
    }
    proof {
        assert(all.subrange(end, end) =~= Seq::empty());
        assert(forest(out@) =~= forest(out@) + Seq::<NodeView>::empty());
    }
    out
}

/// The nodes after a change of the children of a container; no container
/// stands for the root.
pub open spec fn container_edited(
    nodes: Seq<NodeView>,
    container: Option<u64>,
    edit: ListEditView,
) -> Seq<NodeView> {
    match container {
        None => list_edited(nodes, edit),
        Some(id) => edited_in(nodes, id, NodeEditView::Children(edit)),
    }
}

fn edit_container(nodes: &Vec<LayerNode>, container: Option<u64>, edit: ListEdit) -> (r: Vec<
    LayerNode,
>)
    ensures
        forest(r@) == container_edited(forest(nodes@), container, edit@),
{
    match container {
        None => edit_list(nodes, &edit),
        Some(id) => edit_node(nodes, id, &NodeEdit::Children(edit)),
    }
}

/// The nodes without the one of an identity and what is below it.
pub open spec fn without(nodes: Seq<NodeView>, id: u64) -> Seq<NodeView> {
    match slot_in(nodes, id, None) {
        Some((container, at)) => container_edited(nodes, container, ListEditView::Remove(at)),
        None => nodes,
    }
}

/// Takes the node of an identity out.
pub fn remove_node(nodes: &Vec<LayerNode>, id: u64) -> (r: Vec<LayerNode>)
    ensures
        forest(r@) == without(forest(nodes@), id),
{
    match find_slot(nodes, id, None) {
        Some((container, at)) => edit_container(nodes, container, ListEdit::Remove(at)),
        None => copy_nodes(nodes),
    }
}

/// The nodes with one more in a container, at a place or at its end; where
/// there is no such container, at the end of the root.
pub open spec fn inserted(
    nodes: Seq<NodeView>,
    container: Option<u64>,
    at: int,
    node: NodeView,
) -> Seq<NodeView> {
    match container {
        None => list_edited(nodes, ListEditView::Insert(at, node)),
        Some(id) => match find_in(nodes, id) {
            Some(found) => if group_of(found) is Some {
                edited_in(nodes, id, NodeEditView::Children(ListEditView::Insert(at, node)))
            } else {
                nodes.push(node)
            },
            None => nodes.push(node),
        },
    }
}

fn push_node(nodes: &Vec<LayerNode>, node: LayerNode) -> (r: Vec<LayerNode>)
    ensures
        forest(r@) == forest(nodes@).push(node@),
{
    let mut out: Vec<LayerNode> = copy_nodes(nodes);
    let ghost before = out@;
    out.push(node);
    proof {
        assert(forest(out@) =~= forest(before).push(node@));
    }
    out
}

/// Puts a node into a container.
pub fn insert_node(nodes: &Vec<LayerNode>, container: Option<u64>, at: usize, node: LayerNode) -> (r:
    Vec<LayerNode>)
    ensures
        forest(r@) == inserted(forest(nodes@), container, at as int, node@),
{
    match container {
        None => edit_list(nodes, &ListEdit::Insert(at, node)),
        Some(id) => match find(nodes, id) {
            Some(found) => match &found.body {
                Body::Group(_) => edit_node(
                    nodes,
                    id,
                    &NodeEdit::Children(ListEdit::Insert(at, node)),
                ),
                _ => push_node(nodes, node),
            },
            None => push_node(nodes, node),
        },
    }
}

/// The nodes after one of them went in its container, against the direction,
/// and not beyond an end.
pub open spec fn shifted(nodes: Seq<NodeView>, id: u64, direction: i32) -> Seq<NodeView> {
    match slot_in(nodes, id, None) {
        Some((container, from)) => {
            let to = from - direction;
            container_edited(
                nodes,
                container,
                ListEditView::Shift(
                    from,
                    if to < 0 {
                        0
                    } else if to > usize::MAX {
                        usize::MAX as int
                    } else {
                        to
                    },
                ),
            )
        },
        None => nodes,
    }
}

/// Moves the node of an identity within its container.
pub fn shift_node(nodes: &Vec<LayerNode>, id: u64, direction: i32) -> (r: Vec<LayerNode>)
    ensures
        forest(r@) == shifted(forest(nodes@), id, direction),
{
    match find_slot(nodes, id, None) {
        Some((container, from)) => {
            let to: i128 = from as i128 - direction as i128;
            let place: usize = if to < 0 {
                0
            } else if to > usize::MAX as i128 {
                usize::MAX
            } else {
                to as usize
            };
            edit_container(nodes, container, ListEdit::Shift(from, place))
        },
        None => copy_nodes(nodes),
    }
}

/// The nodes after one of them went into a group, behind its other children,
/// or to the end of the root. A group does not go into itself.
pub open spec fn moved_into(nodes: Seq<NodeView>, id: u64, container: Option<u64>) -> Seq<NodeView> {
    match find_in(nodes, id) {
        Some(node) => if container matches Some(group) && holds(node, group) {
            nodes
        } else {
            let left = without(nodes, id);
            inserted(left, container, usize::MAX as int, node)
        },
        None => nodes,
    }
}

/// Whether an identity is that of a node or of one below it.
pub open spec fn holds(node: NodeView, id: u64) -> bool {
    node.id == id || match node.body {
        BodyView::Group(children) => find_in(children, id) is Some,
        _ => false,
    }
}

/// Whether an identity is that of a node or of one below it.
pub fn is_held(node: &LayerNode, id: u64) -> (r: bool)
    ensures
        r == holds(node@, id),
{
    proof {
        group_model(*node);
    }
    node.id == id || match &node.body {
        Body::Group(children) => find(children, id).is_some(),
        _ => false,
    }
}

/// Moves the node of an identity into a group.
pub fn move_into(nodes: &Vec<LayerNode>, id: u64, container: Option<u64>) -> (r: Vec<LayerNode>)
    ensures
        forest(r@) == moved_into(forest(nodes@), id, container),
{
    match find(nodes, id) {
        Some(node) => {
            if let Some(group) = container {
                if is_held(node, group) {
                    return copy_nodes(nodes);
                }
            }
            let left: Vec<LayerNode> = remove_node(nodes, id);
            insert_node(&left, container, usize::MAX, node.copy())
        },
        None => copy_nodes(nodes),
    }
}

/// The nodes after one of them went beside another: behind it, or before it.
pub open spec fn moved_beside(nodes: Seq<NodeView>, id: u64, target: u64, below: bool) -> Seq<
    NodeView,
> {
    match find_in(nodes, id) {
        Some(node) => {
            let left = without(nodes, id);
            match slot_in(left, target, None) {
                Some((container, at)) => container_edited(
                    left,
                    container,
                    ListEditView::Insert(
                        if below {
                            at
                        } else if at < usize::MAX {
                            at + 1
                        } else {
                            at
                        },
                        node,
                    ),
                ),
                None => left.push(node),
            }
        },
        None => nodes,
    }
}

/// Moves the node of an identity beside another.
pub fn move_beside(nodes: &Vec<LayerNode>, id: u64, target: u64, below: bool) -> (r: Vec<LayerNode>)
    ensures
        forest(r@) == moved_beside(forest(nodes@), id, target, below),
{
    match find(nodes, id) {
        Some(node) => {
            let left: Vec<LayerNode> = remove_node(nodes, id);
            match find_slot(&left, target, None) {
                Some((container, at)) => edit_container(
                    &left,
                    container,
                    ListEdit::Insert(
                        if below || at == usize::MAX {
                            at
                        } else {
                            at + 1
                        },
                        node.copy(),
                    ),
                ),
                None => push_node(&left, node.copy()),
            }
        },
        None => copy_nodes(nodes),
    }
}

/// The next depth.
pub open spec fn deeper(depth: u64) -> u64 {
    if depth == u64::MAX {
        depth
    } else {
        (depth + 1) as u64
    }
}

/// The rows that a panel shows of nodes, from front to back, each with its
/// depth; the children of folded groups are left out.
pub open spec fn row_list(nodes: Seq<NodeView>, folded: Set<u64>, depth: u64) -> Seq<(NodeView, u64)>
    decreases nodes,
{
    if nodes.len() == 0 {
        Seq::empty()
    } else {
        let last = nodes[nodes.len() - 1];
        let below = match last.body {
            BodyView::Group(children) => if folded.contains(last.id) {
                Seq::empty()
            } else {
                row_list(children, folded, deeper(depth))
            },
            _ => Seq::empty(),
        };
        seq![(last, depth)] + below + row_list(nodes.subrange(0, nodes.len() - 1), folded, depth)
    }
}

/// The views of rows.
pub open spec fn rows_view(rows: Seq<(&LayerNode, u64)>) -> Seq<(NodeView, u64)> {
    Seq::new(rows.len(), |i: int| (rows[i].0@, rows[i].1))
}

/// The rows that a panel shows of nodes.
pub fn list_rows<'a>(nodes: &'a Vec<LayerNode>, folded: &HashSet<u64>, depth: u64) -> (r: Vec<
    (&'a LayerNode, u64),
>)
    ensures
        rows_view(r@) == row_list(forest(nodes@), folded@, depth),
    decreases nodes,
{
    broadcast use vstd::std_specs::hash::group_hash_axioms;

    let ghost all = forest(nodes@);
    let mut out: Vec<(&'a LayerNode, u64)> = Vec::new();
    let mut i: usize = nodes.len();
    proof {
        assert(all.take(all.len() as int) =~= all);
        assert(rows_view(out@) + row_list(all, folded@, depth) =~= row_list(all, folded@, depth));
    }
    while i > 0
        invariant
            i <= nodes.len(),
            all == forest(nodes@),
            row_list(all, folded@, depth) == rows_view(out@) + row_list(
                all.take(i as int),
                folded@,
                depth,
            ),
        decreases i,
    {
        let ghost head = all.take(i as int);
        let ghost before = rows_view(out@);
        i = i - 1;
        proof {
            assert(head[head.len() - 1] == nodes@[i as int]@);
            assert(head.subrange(0, head.len() - 1) =~= all.take(i as int));
            group_model(nodes@[i as int]);
            assert(decreases_to!(nodes@ => nodes@[i as int]));
        }
        let node: &'a LayerNode = &nodes[i];
        out.push((node, depth));
        let ghost own = seq![(node@, depth)];
        proof {
            assert(rows_view(out@) =~= before + own);
        }
        let ghost mut below: Seq<(NodeView, u64)> = Seq::empty();
        if let Body::Group(children) = &node.body {
            if !folded.contains(&node.id) {
                proof {
                    assert(decreases_to!(
                        nodes@[i as int].body => nodes@[i as int].body->Group_0
                    ));
                }
                let next: u64 = if depth == u64::MAX {
                    depth
                } else {
                    depth + 1
                };
                let mut inner: Vec<(&'a LayerNode, u64)> = list_rows(children, folded, next);
                proof {
                    below = rows_view(inner@);
                }
                let ghost held = out@;
                let ghost added = inner@;
                out.append(&mut inner);
                proof {
                    assert(rows_view(out@) =~= rows_view(held) + rows_view(added));
                }
            }
        }
        proof {
            let rest = row_list(all.take(i as int), folded@, depth);
            assert(rows_view(out@) =~= before + own + below);
            assert(row_list(head, folded@, depth) =~= own + below + rest);
            assert(before + (own + below + rest) =~= (before + own + below) + rest);
        }
    }
    proof {
        assert(all.take(0) =~= Seq::empty());
        assert(rows_view(out@) + Seq::<(NodeView, u64)>::empty() =~= rows_view(out@));
    }
    out
}

/// The children of a container; those of the root where there is no such
/// group.
pub open spec fn children_of(nodes: Seq<NodeView>, container: Option<u64>) -> Seq<NodeView> {
    match container {
        Some(id) => match find_in(nodes, id) {
            Some(node) => match node.body {
                BodyView::Group(children) => children,
                _ => nodes,
            },
            None => nodes,
        },
        None => nodes,
    }
}

/// The children of a container.
pub fn find_children<'a>(nodes: &'a Vec<LayerNode>, container: Option<u64>) -> (r: &'a Vec<LayerNode>)
    ensures
        forest(r@) == children_of(forest(nodes@), container),
{
    if let Some(id) = container {
        if let Some(node) = find(nodes, id) {
            proof {
                group_model(*node);
            }
            if let Body::Group(children) = &node.body {
                return children;
            }
        }
    }
    nodes
}

/// A layer of pixels: its identity and its pixels.
pub open spec fn layer_of(node: NodeView) -> Option<(u64, u64)> {
    match image_of(node) {
        Some(pixels) => Some((node.id, pixels)),
        None => None,
    }
}

/// The place of the frontmost layer of pixels before a place.
pub open spec fn last_layer_place(nodes: Seq<NodeView>, before: int) -> Option<int>
    decreases before,
{
    if before <= 0 || before > nodes.len() {
        None
    } else if layer_of(nodes[before - 1]) is Some {
        Some(before - 1)
    } else {
        last_layer_place(nodes, before - 1)
    }
}

/// The frontmost layer of pixels before a place.
pub open spec fn last_layer(nodes: Seq<NodeView>, before: int) -> Option<(u64, u64)> {
    match last_layer_place(nodes, before) {
        Some(i) => layer_of(nodes[i]),
        None => None,
    }
}

fn find_last_layer(nodes: &Vec<LayerNode>, before: usize) -> (r: Option<usize>)
    requires
        before <= nodes.len(),
    ensures
        match r {
            Some(i) => last_layer_place(forest(nodes@), before as int) == Some(i as int) && i
                < before,
            None => last_layer_place(forest(nodes@), before as int) is None,
        },
{
    let mut i: usize = before;
    while i > 0
        invariant
            i <= before <= nodes.len(),
            last_layer_place(forest(nodes@), before as int) == last_layer_place(
                forest(nodes@),
                i as int,
            ),
        decreases i,
    {
        i = i - 1;
        proof {
            assert(forest(nodes@)[i as int] == nodes@[i as int]@);
        }
        if node_image_pixels(&nodes[i]).is_some() {
            return Some(i);
        }
    }
    None
}

/// The place of the backmost layer of pixels from a place on.
pub open spec fn next_layer_place(nodes: Seq<NodeView>, from: int) -> Option<int>
    decreases nodes.len() - from,
{
    if from < 0 || from >= nodes.len() {
        None
    } else if layer_of(nodes[from]) is Some {
        Some(from)
    } else {
        next_layer_place(nodes, from + 1)
    }
}

fn find_next_layer(nodes: &Vec<LayerNode>, from: usize) -> (r: Option<usize>)
    ensures
        match r {
            Some(i) => next_layer_place(forest(nodes@), from as int) == Some(i as int) && from <= i
                && i < nodes.len(),
            None => next_layer_place(forest(nodes@), from as int) is None,
        },
{
    let mut i: usize = from;
    while i < nodes.len()
        invariant
            from <= i,
            next_layer_place(forest(nodes@), from as int) == next_layer_place(
                forest(nodes@),
                i as int,
            ),
        decreases nodes.len() - i,
    {
        proof {
            assert(forest(nodes@)[i as int] == nodes@[i as int]@);
        }
        if node_image_pixels(&nodes[i]).is_some() {
            return Some(i);
        }
        i = i + 1;
    }
    None
}

fn layer_at(nodes: &Vec<LayerNode>, at: usize) -> (r: Option<(u64, u64)>)
    requires
        at < nodes.len(),
    ensures
        r == layer_of(forest(nodes@)[at as int]),
{
    match node_image_pixels(&nodes[at]) {
        Some(pixels) => Some((nodes[at].id, pixels)),
        None => None,
    }
}

/// The pixels of a layer.
pub open spec fn pixels_of(layer: Option<(u64, u64)>) -> Option<u64> {
    match layer {
        Some((_, pixels)) => Some(pixels),
        None => None,
    }
}

/// The identity of a layer.
pub open spec fn id_of(layer: Option<(u64, u64)>) -> Option<u64> {
    match layer {
        Some((id, _)) => Some(id),
        None => None,
    }
}

/// The pixels of the frontmost layer directly in a container.
pub open spec fn topmost_pixels(nodes: Seq<NodeView>, container: Option<u64>) -> Option<u64> {
    let children = children_of(nodes, container);
    pixels_of(last_layer(children, children.len() as int))
}

/// The pixels of the frontmost layer directly in a container.
pub fn topmost_image_in_parent(nodes: &Vec<LayerNode>, container: Option<u64>) -> (r: Option<u64>)
    ensures
        r == topmost_pixels(forest(nodes@), container),
{
    let children: &Vec<LayerNode> = find_children(nodes, container);
    match find_last_layer(children, children.len()) {
        Some(i) => node_image_pixels(&children[i]),
        None => None,
    }
}

/// The frontmost layer of pixels directly in the root.
pub fn topmost_layer(nodes: &Vec<LayerNode>) -> (r: Option<(u64, u64)>)
    ensures
        r == last_layer(forest(nodes@), forest(nodes@).len() as int),
{
    match find_last_layer(nodes, nodes.len()) {
        Some(i) => layer_at(nodes, i),
        None => None,
    }
}

/// How far a node is from one that was taken out at a place: the node that has
/// moved up to the place was its neighbour.
pub open spec fn distance(at: int, place: int) -> int {
    if at >= place {
        at - place + 1
    } else {
        place - at
    }
}

/// The place of the layer of pixels nearest to a node that was taken out at a
/// place; of two that are equally near, the one in front.
pub open spec fn nearest_place(children: Seq<NodeView>, place: int) -> Option<int> {
    match (next_layer_place(children, place), last_layer_place(children, place)) {
        (Some(ahead), Some(behind)) => if distance(ahead, place) <= distance(behind, place) {
            Some(ahead)
        } else {
            Some(behind)
        },
        (Some(ahead), None) => Some(ahead),
        (None, behind) => behind,
    }
}

/// The layer of pixels of a container that is nearest to a node that was taken
/// out at a place.
pub open spec fn nearest_layer(nodes: Seq<NodeView>, container: Option<u64>, place: int) -> Option<
    (u64, u64),
> {
    let children = children_of(nodes, container);
    let start = if place < children.len() {
        place
    } else {
        children.len() as int
    };
    match nearest_place(children, start) {
        Some(i) => layer_of(children[i]),
        None => None,
    }
}

/// The layer of pixels of a container that is nearest to a node that was taken
/// out at a place.
pub fn sibling_image(nodes: &Vec<LayerNode>, container: Option<u64>, place: usize) -> (r: Option<
    (u64, u64),
>)
    ensures
        r == nearest_layer(forest(nodes@), container, place as int),
{
    let children: &Vec<LayerNode> = find_children(nodes, container);
    let start: usize = if place < children.len() {
        place
    } else {
        children.len()
    };
    match (find_next_layer(children, start), find_last_layer(children, start)) {
        (Some(ahead), Some(behind)) => {
            if ahead - start < start - behind {
                layer_at(children, ahead)
            } else {
                layer_at(children, behind)
            }
        },
        (Some(ahead), None) => layer_at(children, ahead),
        (None, Some(behind)) => layer_at(children, behind),
        (None, None) => None,
    }
}

proof fn layer_places(children: Seq<NodeView>, place: int, at: int)
    requires
        0 <= place <= children.len(),
        0 <= at < children.len(),
        layer_of(children[at]) is Some,
    ensures
        at >= place ==> (next_layer_place(children, place) matches Some(i) && place <= i <= at),
        at < place ==> (last_layer_place(children, place) matches Some(i) && at <= i < place),
    decreases
        if at >= place {
            at - place
        } else {
            place - at
        },
{
    if at > place && layer_of(children[place]) is None {
        layer_places(children, place + 1, at);
    }
    if at < place && layer_of(children[place - 1]) is None {
        layer_places(children, place - 1, at);
    }
}

/// Where a container has a layer of pixels, the one that is chosen for a node
/// that was taken out is a layer of pixels, and none is nearer.
pub proof fn nearest_layers_are_nearest(children: Seq<NodeView>, place: int, at: int)
    requires
        0 <= place <= children.len(),
        0 <= at < children.len(),
        layer_of(children[at]) is Some,
    ensures
        nearest_place(children, place) matches Some(i) && 0 <= i < children.len() && layer_of(
            children[i],
        ) is Some && distance(i, place) <= distance(at, place),
{
    layer_places(children, place, at);
    if let Some(ahead) = next_layer_place(children, place) {
        next_is_layer(children, place);
    }
    if let Some(behind) = last_layer_place(children, place) {
        last_is_layer(children, place);
    }
}

proof fn next_is_layer(children: Seq<NodeView>, from: int)
    requires
        next_layer_place(children, from) is Some,
    ensures
        next_layer_place(children, from) matches Some(i) && from <= i < children.len() && 0 <= i
            && layer_of(children[i]) is Some,
    decreases children.len() - from,
{
    if layer_of(children[from]) is None {
        next_is_layer(children, from + 1);
    }
}

proof fn last_is_layer(children: Seq<NodeView>, before: int)
    requires
        last_layer_place(children, before) is Some,
    ensures
        last_layer_place(children, before) matches Some(i) && 0 <= i < before <= children.len()
            && layer_of(children[i]) is Some,
    decreases before,
{
    if layer_of(children[before - 1]) is None {
        last_is_layer(children, before - 1);
    }
}

/// Whether the pixels of an identity are those of a mask, at any depth.
pub open spec fn masks(nodes: Seq<NodeView>, pixels: u64) -> bool
    decreases nodes,
{
    if nodes.len() == 0 {
        false
    } else {
        (nodes[0].mask matches Some(mask) && mask.pixels == pixels) || (match nodes[0].body {
            BodyView::Group(children) => masks(children, pixels),
            _ => false,
        }) || masks(nodes.subrange(1, nodes.len() as int), pixels)
    }
}

/// Whether the pixels of an identity are those of a mask.
pub fn is_mask_pixels(nodes: &Vec<LayerNode>, pixels: u64) -> (r: bool)
    ensures
        r == masks(forest(nodes@), pixels),
    decreases nodes,
{
    let ghost all = forest(nodes@);
    let ghost end = all.len() as int;
    let mut i: usize = 0;
    proof {
        assert(all.subrange(0, end) =~= all);
    }
    while i < nodes.len()
        invariant
            i <= nodes.len(),
            all == forest(nodes@),
            end == all.len(),
            masks(all, pixels) == masks(all.subrange(i as int, end), pixels),
        decreases nodes.len() - i,
    {
        let ghost rest = all.subrange(i as int, end);
        proof {
            assert(rest[0] == nodes@[i as int]@);
            assert(rest.subrange(1, rest.len() as int) =~= all.subrange(i + 1, end));
            group_model(nodes@[i as int]);
            assert(decreases_to!(nodes@ => nodes@[i as int]));
        }
        if let Some(mask) = nodes[i].mask {
            if mask.pixels == pixels {
                return true;
            }
        }
        if let Body::Group(children) = &nodes[i].body {
            proof {
                assert(decreases_to!(nodes@[i as int].body => nodes@[i as int].body->Group_0));
            }
            if is_mask_pixels(children, pixels) {
                return true;
            }
        }
        i = i + 1;
    }
    false
}

proof fn still_found(nodes: Seq<NodeView>, id: u64)
    ensures
        find_in(edited_in(nodes, id, NodeEditView::Toggle), id) is Some == find_in(
            nodes,
            id,
        ) is Some,
    decreases nodes,
{
    if nodes.len() > 0 && nodes[0].id != id {
        let tail = nodes.subrange(1, nodes.len() as int);
        let after = edited_in(nodes, id, NodeEditView::Toggle);
        still_found(tail, id);
        match nodes[0].body {
            BodyView::Group(children) => {
                still_found(children, id);
                if find_in(children, id) is None {
                    assert(after.subrange(1, after.len() as int) =~= edited_in(
                        tail,
                        id,
                        NodeEditView::Toggle,
                    ));
                }
            },
            _ => {
                assert(after.subrange(1, after.len() as int) =~= edited_in(
                    tail,
                    id,
                    NodeEditView::Toggle,
                ));
            },
        }
    }
}

/// Hiding a node and showing it again gives back the document.
pub proof fn toggles_undo_themselves(nodes: Seq<NodeView>, id: u64)
    ensures
        edited_in(edited_in(nodes, id, NodeEditView::Toggle), id, NodeEditView::Toggle) == nodes,
    decreases nodes,
{
    let edit = NodeEditView::Toggle;
    let after = edited_in(nodes, id, edit);
    if nodes.len() > 0 {
        let tail = nodes.subrange(1, nodes.len() as int);
        if nodes[0].id == id {
            assert(edited_in(after, id, edit) =~= nodes);
        } else {
            toggles_undo_themselves(tail, id);
            let plain = seq![nodes[0]] + edited_in(tail, id, edit);
            match nodes[0].body {
                BodyView::Group(children) => {
                    toggles_undo_themselves(children, id);
                    still_found(children, id);
                    if find_in(children, id) is Some {
                        assert(edited_in(after, id, edit) =~= nodes);
                    } else {
                        assert(plain.subrange(1, plain.len() as int) =~= edited_in(tail, id, edit));
                        assert(edited_in(after, id, edit) =~= nodes);
                    }
                },
                _ => {
                    assert(plain.subrange(1, plain.len() as int) =~= edited_in(tail, id, edit));
                    assert(edited_in(after, id, edit) =~= nodes);
                },
            }
        }
    }
}

proof fn count_joined(a: Seq<NodeView>, b: Seq<NodeView>)
    ensures
        node_count(a + b) == node_count(a) + node_count(b),
    decreases b.len(),
{
    if b.len() == 0 {
        assert(a + b =~= a);
    } else {
        let all = a + b;
        assert(all.subrange(0, all.len() - 1) =~= a + b.subrange(0, b.len() - 1));
        assert(all[all.len() - 1] == b[b.len() - 1]);
        count_joined(a, b.subrange(0, b.len() - 1));
    }
}

proof fn count_without(nodes: Seq<NodeView>, at: int)
    requires
        0 <= at < nodes.len(),
    ensures
        node_count(nodes) == node_count(nodes.remove(at)) + node_count(seq![nodes[at]]),
{
    let (head, tail) = (nodes.take(at), nodes.subrange(at + 1, nodes.len() as int));
    assert(nodes =~= (head + seq![nodes[at]]) + tail);
    assert(nodes.remove(at) =~= head + tail);
    count_joined(head + seq![nodes[at]], tail);
    count_joined(head, seq![nodes[at]]);
    count_joined(head, tail);
}

proof fn count_with(nodes: Seq<NodeView>, at: int, node: NodeView)
    requires
        0 <= at <= nodes.len(),
    ensures
        node_count(nodes.insert(at, node)) == node_count(nodes) + node_count(seq![node]),
{
    count_without(nodes.insert(at, node), at);
    assert(nodes.insert(at, node).remove(at) =~= nodes);
}

proof fn count_shifted(children: Seq<NodeView>, from: int, to: int)
    ensures
        node_count(list_edited(children, ListEditView::Shift(from, to))) == node_count(children),
{
    if 0 <= from < children.len() && 0 <= to < children.len() {
        count_without(children, from);
        count_with(children.remove(from), to, children[from]);
    }
}

proof fn count_of_one(node: NodeView)
    ensures
        node_count(seq![node]) == 1 + match node.body {
            BodyView::Group(children) => node_count(children),
            _ => 0,
        },
{
    assert(node_count(seq![node].subrange(0, 0)) == 0);
}

proof fn count_edited(nodes: Seq<NodeView>, id: u64, from: int, to: int)
    ensures
        node_count(edited_in(nodes, id, NodeEditView::Children(ListEditView::Shift(from, to))))
            == node_count(nodes),
    decreases nodes,
{
    let edit = NodeEditView::Children(ListEditView::Shift(from, to));
    if nodes.len() > 0 {
        let tail = nodes.subrange(1, nodes.len() as int);
        let after = edited_in(nodes, id, edit);
        assert(nodes =~= seq![nodes[0]] + tail);
        count_joined(seq![nodes[0]], tail);
        count_of_one(nodes[0]);
        count_edited(tail, id, from, to);
        if nodes[0].id == id {
            assert(after =~= seq![after[0]] + tail);
            count_joined(seq![after[0]], tail);
            count_of_one(after[0]);
            if let BodyView::Group(children) = nodes[0].body {
                count_shifted(children, from, to);
            }
        } else {
            count_joined(seq![nodes[0]], edited_in(tail, id, edit));
            if let BodyView::Group(children) = nodes[0].body {
                count_edited(children, id, from, to);
                if find_in(children, id) is Some {
                    assert(after =~= seq![after[0]] + tail);
                    count_joined(seq![after[0]], tail);
                    count_of_one(after[0]);
                }
            }
        }
    }
}

/// Moving a node within its container loses none and adds none.
pub proof fn shifts_keep_every_node(nodes: Seq<NodeView>, id: u64, direction: i32)
    ensures
        node_count(shifted(nodes, id, direction)) == node_count(nodes),
{
    if let Some((container, from)) = slot_in(nodes, id, None) {
        let to = from - direction;
        let place = if to < 0 {
            0
        } else if to > usize::MAX {
            usize::MAX as int
        } else {
            to
        };
        match container {
            None => count_shifted(nodes, from, place),
            Some(group) => count_edited(nodes, group, from, place),
        }
    }
}

} // verus!
