//! What the panel of layers does to a document.

use crate::panes::canvas::adjustments::{
    adjustment_kind, adjustment_label, adjustment_parameters, default_adjustment, kind_name,
    kind_number, kind_of_number, knob_name, knob_range, neutral, AdjustmentEdit, Knob,
};
use crate::panes::canvas::edits::{
    edit_node, edited_in, holds, id_of, insert_node, inserted, is_held, is_mask_pixels, layer_of,
    masks, move_beside, move_into, moved_beside, moved_into, nearest_layer, pixels_of, remove_node,
    rows_view, shift_node, shifted, sibling_image, topmost_image_in_parent, topmost_pixels,
    without, NodeEdit, NodeEditView,
};
use crate::panes::canvas::frame::{
    checked_frame_bytes, frame_bytes, transparent_view, white_view, Frame,
};
use crate::panes::canvas::pane::{
    active_node, palette, palette_color, row_of, rows_of, Brush, CanvasPane, PaneView, PALETTE_LEN,
};
use crate::panes::canvas::store::{after, fitted, next_number};
use crate::panes::canvas::tree::{
    channel_views, collect_pixels, copy_channels, count_nodes, find, find_in, find_slot, forest,
    fresh_node, group_model, group_of, image_of, node_count, node_image_pixels, pixel_ids, slot_in,
    Adjustment, AdjustmentKind, AdjustmentView, Body, BodyView, Document, DocumentView, LayerMask,
    LayerNode, NodeView, Rgb,
};
use crate::text::{cat, decimal, to_decimal};
use vstd::prelude::*;
use vstd::string::*;

verus! {

/// The canvas with other layers in its document.
pub open spec fn layers_set(p: PaneView, children: Seq<NodeView>) -> PaneView {
    match p.document {
        Some(d) => PaneView { document: Some(DocumentView { children, ..d }), ..p },
        None => p,
    }
}

/// The layers of the document.
pub open spec fn layers_of(p: PaneView) -> Seq<NodeView> {
    match p.document {
        Some(d) => d.children,
        None => Seq::empty(),
    }
}

/// The canvas with a change of one node.
pub open spec fn node_changed(p: PaneView, id: u64, edit: NodeEditView) -> PaneView {
    layers_set(p, edited_in(layers_of(p), id, edit))
}

/// The canvas with the bitmaps that its document names only.
pub open spec fn store_swept(p: PaneView) -> PaneView {
    PaneView { store: p.store.retained(pixel_ids(layers_of(p))), ..p }
}

impl CanvasPane {
    /// Gives the document other layers.
    pub fn set_layers(&mut self, children: Vec<LayerNode>)
        ensures
            final(self)@ == layers_set(old(self)@, forest(children@)),
    {
        let mut document: Option<Document> = None;
        std::mem::swap(&mut document, &mut self.document);
        self.document = match document {
            Some(d) => Some(
                Document { width: d.width, height: d.height, next: d.next, children },
            ),
            None => None,
        };
    }

    fn change_node(&mut self, id: u64, edit: &NodeEdit)
        ensures
            final(self)@ == node_changed(old(self)@, id, edit@),
    {
        let next: Vec<LayerNode> = match &self.document {
            Some(d) => edit_node(&d.children, id, edit),
            None => {
                return ;
            },
        };
        self.set_layers(next);
    }

    fn sweep_store(&mut self)
        ensures
            final(self)@ == store_swept(old(self)@),
    {
        let ids: Vec<u64> = match &self.document {
            Some(d) => collect_pixels(&d.children),
            None => {
                let none: Vec<u64> = Vec::new();
                proof {
                    assert(pixel_ids(Seq::empty()) =~= Seq::empty());
                    assert(none@ =~= Seq::empty());
                }
                none
            },
        };
        self.store.retain(&ids);
    }
}

/// The canvas with a row picked.
pub open spec fn row_picked(p: PaneView, index: i32) -> PaneView {
    match row_of(p, index) {
        Some(node) => PaneView { active: Some(node.id), layer: image_of(node), ..p },
        None => p,
    }
}

/// The canvas with a change of the node of a row.
pub open spec fn row_changed(p: PaneView, index: i32, edit: NodeEditView) -> PaneView {
    match row_of(p, index) {
        Some(node) => node_changed(p, node.id, edit),
        None => p,
    }
}

/// Whether the machine can address a picture of the size of the canvas.
pub open spec fn is_addressable(d: DocumentView) -> bool {
    frame_bytes(d.width, d.height) <= usize::MAX
}

/// The name of a new layer or group among the nodes that there are.
pub open spec fn numbered(kind: Seq<char>, children: Seq<NodeView>) -> Seq<char> {
    kind + decimal(fitted(node_count(children)) as nat)
}

/// The canvas with a transparent layer in front.
pub open spec fn layer_added(p: PaneView) -> PaneView {
    match p.document {
        Some(d) => if is_addressable(d) {
            PaneView {
                document: Some(d.with_layer(numbered("Layer "@, d.children), p.store.next)),
                store: p.store.with(transparent_view(d.width, d.height), p.versions),
                versions: after(p.versions),
                active: Some(d.next),
                layer: Some(p.store.next),
                ..p
            }
        } else {
            p
        },
        None => p,
    }
}

/// Where a new node goes: before the active node in its container, or to the
/// front of the root.
pub open spec fn new_place(p: PaneView) -> (Option<u64>, int) {
    let children = layers_of(p);
    let slot = match p.active {
        Some(id) => slot_in(children, id, None),
        None => None,
    };
    match slot {
        Some((container, at)) => (
            container,
            if at < usize::MAX {
                at + 1
            } else {
                at
            },
        ),
        None => (None, children.len() as int),
    }
}

/// The canvas with a node that holds no pixels put where a new one goes; the
/// tools go on with the frontmost layer around it.
pub open spec fn node_placed(p: PaneView, name: Seq<char>, body: BodyView) -> PaneView {
    match p.document {
        Some(d) => {
            let (container, at) = new_place(p);
            let children = inserted(d.children, container, at, fresh_node(d.next, name, body));
            PaneView {
                document: Some(DocumentView { next: after(d.next), children, ..d }),
                active: Some(d.next),
                layer: match topmost_pixels(children, container) {
                    Some(pixels) => Some(pixels),
                    None => topmost_pixels(children, None),
                },
                ..p
            }
        },
        None => p,
    }
}

/// The canvas with a new group.
pub open spec fn group_added(p: PaneView) -> PaneView {
    node_placed(p, numbered("Group "@, layers_of(p)), BodyView::Group(Seq::empty()))
}

/// The canvas with a new adjustment of the kind of a number.
pub open spec fn adjustment_added(p: PaneView, number: i32) -> PaneView {
    match kind_of_number(number) {
        Some(kind) => node_placed(p, kind_name(number), BodyView::Adjustment(neutral(kind))),
        None => p,
    }
}

/// The canvas with the group of a row folded or unfolded.
pub open spec fn row_folded(p: PaneView, index: i32) -> PaneView {
    match row_of(p, index) {
        Some(node) => if group_of(node) is Some {
            PaneView {
                collapsed: if p.collapsed.contains(node.id) {
                    p.collapsed.remove(node.id)
                } else {
                    p.collapsed.insert(node.id)
                },
                ..p
            }
        } else {
            p
        },
        None => p,
    }
}

/// The first row that is a layer of pixels.
pub open spec fn first_layer(rows: Seq<(NodeView, u64)>, from: int) -> Option<(u64, u64)>
    decreases rows.len() - from,
{
    if from < 0 || from >= rows.len() {
        None
    } else if layer_of(rows[from].0) is Some {
        layer_of(rows[from].0)
    } else {
        first_layer(rows, from + 1)
    }
}

/// The canvas with the pixels of the tools found anew for the active node: its
/// own, or those of the frontmost layer around it, or of the root.
pub open spec fn layer_refreshed(p: PaneView) -> PaneView {
    match p.document {
        Some(d) => {
            let slot = match p.active {
                Some(id) => slot_in(d.children, id, None),
                None => None,
            };
            let container = match slot {
                Some((container, _)) => container,
                None => None,
            };
            let own = match active_node(p) {
                Some(node) => image_of(node),
                None => None,
            };
            PaneView {
                layer: match own {
                    Some(pixels) => Some(pixels),
                    None => match topmost_pixels(d.children, container) {
                        Some(pixels) => Some(pixels),
                        None => topmost_pixels(d.children, None),
                    },
                },
                paint_mask: p.paint_mask && active_node(p) is Some && active_node(p)->0.mask is Some,
                ..p
            }
        },
        None => PaneView { layer: None, paint_mask: false, ..p },
    }
}

/// The canvas without the node of a row. The active node stays where it is
/// not gone; else the nearest layer is picked.
pub open spec fn row_deleted(p: PaneView, index: i32) -> PaneView {
    match (row_of(p, index), p.document) {
        (Some(target), Some(d)) => {
            let slot = slot_in(d.children, target.id, None);
            let gone = match p.active {
                Some(id) => id == target.id || (match find_in(d.children, target.id) {
                    Some(node) => holds(node, id),
                    None => false,
                }),
                None => false,
            };
            let left = store_swept(
                PaneView {
                    collapsed: p.collapsed.remove(target.id),
                    ..layers_set(p, without(d.children, target.id))
                },
            );
            if !gone && p.active is Some {
                layer_refreshed(left)
            } else {
                let near = match slot {
                    Some((container, at)) => nearest_layer(layers_of(left), container, at),
                    None => None,
                };
                let picked = match near {
                    Some(layer) => Some(layer),
                    None => first_layer(rows_of(left), 0),
                };
                PaneView {
                    active: id_of(picked),
                    layer: pixels_of(picked),
                    paint_mask: false,
                    ..left
                }
            }
        },
        _ => p,
    }
}

/// The canvas with the node of a row moved within its container.
pub open spec fn row_moved(p: PaneView, index: i32, direction: i32) -> PaneView {
    match row_of(p, index) {
        Some(node) => layers_set(p, shifted(layers_of(p), node.id, direction)),
        None => p,
    }
}

/// The canvas after a row was dropped onto another: into it where it is a
/// group and the drop is below its middle, beside it otherwise. A group does
/// not go into itself.
pub open spec fn row_dropped(p: PaneView, source: i32, target: i32, below: bool) -> PaneView {
    match (row_of(p, source), row_of(p, target)) {
        (Some(moving), Some(onto)) => {
            let children = layers_of(p);
            if onto.id == moving.id || (find_in(children, moving.id) matches Some(node) && holds(
                node,
                onto.id,
            )) {
                p
            } else if below && group_of(onto) is Some {
                layers_set(p, moved_into(children, moving.id, Some(onto.id)))
            } else {
                layers_set(p, moved_beside(children, moving.id, onto.id, below))
            }
        },
        _ => p,
    }
}

/// The canvas with a white mask over the active node, and the tools on it.
pub open spec fn mask_added(p: PaneView) -> PaneView {
    match (p.active, p.document) {
        (Some(id), Some(d)) => {
            let node = find_in(d.children, id);
            if (node matches Some(found) && found.mask is Some) || !is_addressable(d) {
                p
            } else {
                let stored = PaneView {
                    store: p.store.with(white_view(d.width, d.height), p.versions),
                    versions: after(p.versions),
                    ..p
                };
                let masked = if node is Some {
                    node_changed(
                        stored,
                        id,
                        NodeEditView::Mask(
                            Some(LayerMask { pixels: p.store.next, enabled: true }),
                        ),
                    )
                } else {
                    store_swept(stored)
                };
                PaneView {
                    paint_mask: true,
                    tool: 3,
                    brush: Brush { erasing: false, ..masked.brush },
                    ..masked
                }
            }
        },
        _ => p,
    }
}

/// The canvas without the mask of the active node.
pub open spec fn mask_removed(p: PaneView) -> PaneView {
    match (p.active, active_node(p)) {
        (Some(id), Some(_)) => store_swept(
            PaneView { paint_mask: false, ..node_changed(p, id, NodeEditView::Mask(None)) },
        ),
        _ => p,
    }
}

/// The canvas with the mask of the active node applied or set aside.
pub open spec fn mask_toggled(p: PaneView) -> PaneView {
    match p.active {
        Some(id) => node_changed(p, id, NodeEditView::ToggleMask),
        None => p,
    }
}

/// The canvas after the mark of the mask of a row was clicked: the tools go
/// onto that mask, or off it where they were on it.
pub open spec fn mask_clicked(p: PaneView, index: i32) -> PaneView {
    match row_of(p, index) {
        Some(node) => if node.mask is None {
            p
        } else if p.paint_mask && p.active == Some(node.id) {
            PaneView { paint_mask: false, ..p }
        } else {
            PaneView {
                active: Some(node.id),
                layer: image_of(node),
                paint_mask: true,
                tool: 3,
                brush: Brush { erasing: false, ..p.brush },
                ..p
            }
        },
        None => p,
    }
}

/// The canvas with a change of the active adjustment.
pub open spec fn active_adjusted(p: PaneView, edit: AdjustmentEdit) -> PaneView {
    match p.active {
        Some(id) => node_changed(p, id, NodeEditView::Adjust(edit)),
        None => p,
    }
}

/// The canvas with a colour of the palette at an end of the active gradient
/// map.
pub open spec fn gradient_set(p: PaneView, slot: i32, index: i32) -> PaneView {
    let i = if index < 0 {
        0
    } else {
        index as int
    };
    if i < PALETTE_LEN {
        active_adjusted(p, AdjustmentEdit::Gradient(slot, palette_color(i)))
    } else {
        p
    }
}

impl CanvasPane {
    /// Picks a row: painting lands on its pixels.
    pub fn pick_row(&mut self, index: i32)
        ensures
            final(self)@ == row_picked(old(self)@, index),
    {
        let picked: Option<(u64, Option<u64>)> = match self.row(index) {
            Some(node) => Some((node.id, node_image_pixels(node))),
            None => None,
        };
        if let Some((id, pixels)) = picked {
            self.active = Some(id);
            self.layer = pixels;
        }
    }

    fn row_id(&self, index: i32) -> (r: Option<u64>)
        ensures
            r == match row_of(self@, index) {
                Some(node) => Some(node.id),
                None => None,
            },
    {
        match self.row(index) {
            Some(node) => Some(node.id),
            None => None,
        }
    }

    /// Shows or hides the node of a row.
    pub fn toggle_row(&mut self, index: i32)
        ensures
            final(self)@ == row_changed(old(self)@, index, NodeEditView::Toggle),
    {
        if let Some(id) = self.row_id(index) {
            self.change_node(id, &NodeEdit::Toggle);
        }
    }

    /// Sets the opacity of the node of a row, in millionths.
    pub fn set_row_opacity(&mut self, index: i32, opacity: i64)
        ensures
            final(self)@ == row_changed(old(self)@, index, NodeEditView::Opacity(opacity)),
    {
        if let Some(id) = self.row_id(index) {
            self.change_node(id, &NodeEdit::Opacity(opacity));
        }
    }

    /// Adds a transparent layer in front.
    pub fn add_layer(&mut self)
        ensures
            final(self)@ == layer_added(old(self)@),
    {
        let mut document: Option<Document> = None;
        std::mem::swap(&mut document, &mut self.document);
        if let Some(mut d) = document {
            if checked_frame_bytes(d.width, d.height).is_some() {
                let name: String = cat("Layer ", to_decimal(count_nodes(&d.children)).as_str());
                let pixels: u64 = self.store.put(
                    Frame::transparent(d.width, d.height),
                    self.versions,
                );
                self.versions = next_number(self.versions);
                let id: u64 = d.new_layer(name, pixels);
                self.active = Some(id);
                self.layer = Some(pixels);
            }
            self.document = Some(d);
        }
    }

    fn place_node(&mut self, name: String, body: Body)
        ensures
            ({
                let node = LayerNode {
                    id: 0,
                    name,
                    hidden: false,
                    opacity: 0,
                    mask: None,
                    body,
                };
                final(self)@ == node_placed(old(self)@, name@, node@.body)
            }),
    {
        let mut document: Option<Document> = None;
        std::mem::swap(&mut document, &mut self.document);
        if let Some(d) = document {
            let (container, at): (Option<u64>, usize) = match self.active {
                Some(id) => match find_slot(&d.children, id, None) {
                    Some((container, at)) => (
                        container,
                        if at < usize::MAX {
                            at + 1
                        } else {
                            at
                        },
                    ),
                    None => (None, d.children.len()),
                },
                None => (None, d.children.len()),
            };
            let id: u64 = d.next;
            let node: LayerNode = LayerNode {
                id,
                name,
                hidden: false,
                opacity: 1_000_000,
                mask: None,
                body,
            };
            let children: Vec<LayerNode> = insert_node(&d.children, container, at, node);
            let around: Option<u64> = topmost_image_in_parent(&children, container);
            self.layer = if around.is_some() {
                around
            } else {
                topmost_image_in_parent(&children, None)
            };
            self.active = Some(id);
            self.document = Some(
                Document { width: d.width, height: d.height, next: next_number(id), children },
            );
        }
    }

    /// Adds a group before the active node.
    pub fn add_group(&mut self)
        ensures
            final(self)@ == group_added(old(self)@),
    {
        let count: u64 = match &self.document {
            Some(d) => count_nodes(&d.children),
            None => {
                return ;
            },
        };
        let none: Vec<LayerNode> = Vec::new();
        proof {
            assert(forest(none@) =~= Seq::empty());
            let node = LayerNode {
                id: 0,
                name: arbitrary(),
                hidden: false,
                opacity: 0,
                mask: None,
                body: Body::Group(none),
            };
            group_model(node);
        }
        self.place_node(cat("Group ", to_decimal(count).as_str()), Body::Group(none));
    }

    /// Adds an adjustment of the kind of a number before the active node.
    pub fn add_adjustment(&mut self, kind: i32)
        ensures
            final(self)@ == adjustment_added(old(self)@, kind),
    {
        if let Some(adjustment) = default_adjustment(kind) {
            self.place_node(adjustment_label(kind), Body::Adjustment(adjustment));
        }
    }

    /// Folds or unfolds the group of a row.
    pub fn fold_row(&mut self, index: i32)
        ensures
            final(self)@ == row_folded(old(self)@, index),
    {
        broadcast use vstd::std_specs::hash::group_hash_axioms;

        let id: u64 = match self.row(index) {
            Some(node) => match &node.body {
                Body::Group(_) => node.id,
                _ => {
                    return ;
                },
            },
            None => {
                return ;
            },
        };
        if !self.collapsed.remove(&id) {
            self.collapsed.insert(id);
        }
    }

    /// Finds the pixels of the tools anew for the active node.
    pub fn refresh_active_layer(&mut self)
        ensures
            final(self)@ == layer_refreshed(old(self)@),
    {
        let (layer, masked): (Option<u64>, bool) = match &self.document {
            Some(d) => {
                let container: Option<u64> = match self.active {
                    Some(id) => match find_slot(&d.children, id, None) {
                        Some((container, _)) => container,
                        None => None,
                    },
                    None => None,
                };
                let (own, masked): (Option<u64>, bool) = match self.active_row() {
                    Some(node) => (node_image_pixels(node), node.mask.is_some()),
                    None => (None, false),
                };
                let around: Option<u64> = topmost_image_in_parent(&d.children, container);
                (
                    if own.is_some() {
                        own
                    } else if around.is_some() {
                        around
                    } else {
                        topmost_image_in_parent(&d.children, None)
                    },
                    masked,
                )
            },
            None => (None, false),
        };
        self.layer = layer;
        self.paint_mask = self.paint_mask && masked;
    }

    fn first_row_layer(&self) -> (r: Option<(u64, u64)>)
        ensures
            r == first_layer(rows_of(self@), 0),
    {
        let rows: Vec<(&LayerNode, u64)> = self.rows();
        let ghost all = rows_of(self@);
        let mut i: usize = 0;
        proof {
            assert(rows_view(rows@).len() == rows@.len());
        }
        while i < rows.len()
            invariant
                i <= rows.len(),
                all == rows_view(rows@),
                all == rows_of(self@),
                first_layer(all, 0) == first_layer(all, i as int),
            decreases rows.len() - i,
        {
            proof {
                assert(all[i as int].0 == rows@[i as int].0@);
            }
            if let Some(pixels) = node_image_pixels(rows[i].0) {
                return Some((rows[i].0.id, pixels));
            }
            i = i + 1;
        }
        None
    }

    /// Deletes the node of a row.
    pub fn delete_row(&mut self, index: i32)
        ensures
            final(self)@ == row_deleted(old(self)@, index),
    {
        broadcast use vstd::std_specs::hash::group_hash_axioms;

        let target: u64 = match self.row_id(index) {
            Some(id) => id,
            None => {
                return ;
            },
        };
        let (slot, gone, left): (Option<(Option<u64>, usize)>, bool, Vec<LayerNode>) =
            match &self.document {
            Some(d) => {
                let slot: Option<(Option<u64>, usize)> = find_slot(&d.children, target, None);
                let gone: bool = match self.active {
                    Some(id) => id == target || match find(&d.children, target) {
                        Some(node) => is_held(node, id),
                        None => false,
                    },
                    None => false,
                };
                (slot, gone, remove_node(&d.children, target))
            },
            None => {
                return ;
            },
        };
        self.set_layers(left);
        self.collapsed.remove(&target);
        self.sweep_store();
        if !gone && self.active.is_some() {
            self.refresh_active_layer();
            return ;
        }
        let near: Option<(u64, u64)> = match (slot, &self.document) {
            (Some((container, at)), Some(d)) => sibling_image(&d.children, container, at),
            _ => None,
        };
        let picked: Option<(u64, u64)> = if near.is_some() {
            near
        } else {
            self.first_row_layer()
        };
        match picked {
            Some((id, pixels)) => {
                self.active = Some(id);
                self.layer = Some(pixels);
            },
            None => {
                self.active = None;
                self.layer = None;
            },
        }
        self.paint_mask = false;
    }

    /// Moves the node of a row within its container.
    pub fn move_row(&mut self, index: i32, direction: i32)
        ensures
            final(self)@ == row_moved(old(self)@, index, direction),
    {
        let id: u64 = match self.row_id(index) {
            Some(id) => id,
            None => {
                return ;
            },
        };
        let next: Vec<LayerNode> = match &self.document {
            Some(d) => shift_node(&d.children, id, direction),
            None => {
                return ;
            },
        };
        self.set_layers(next);
    }

    /// Drops a row onto another.
    pub fn move_row_onto(&mut self, source: i32, target: i32, below: bool)
        ensures
            final(self)@ == row_dropped(old(self)@, source, target, below),
    {
        let moving: u64 = match self.row_id(source) {
            Some(id) => id,
            None => {
                return ;
            },
        };
        let (onto, grouped): (u64, bool) = match self.row(target) {
            Some(node) => (
                node.id,
                match &node.body {
                    Body::Group(_) => true,
                    _ => false,
                },
            ),
            None => {
                return ;
            },
        };
        if onto == moving {
            return ;
        }
        let next: Vec<LayerNode> = match &self.document {
            Some(d) => {
                if let Some(node) = find(&d.children, moving) {
                    if is_held(node, onto) {
                        return ;
                    }
                }
                if below && grouped {
                    move_into(&d.children, moving, Some(onto))
                } else {
                    move_beside(&d.children, moving, onto, below)
                }
            },
            None => {
                return ;
            },
        };
        self.set_layers(next);
    }

    /// Lays a white mask over the active node.
    pub fn add_mask(&mut self)
        ensures
            final(self)@ == mask_added(old(self)@),
    {
        let id: u64 = match self.active {
            Some(id) => id,
            None => {
                return ;
            },
        };
        let (width, height, found): (u32, u32, bool) = match &self.document {
            Some(d) => match find(&d.children, id) {
                Some(node) => {
                    if node.mask.is_some() {
                        return ;
                    }
                    (d.width, d.height, true)
                },
                None => (d.width, d.height, false),
            },
            None => {
                return ;
            },
        };
        if checked_frame_bytes(width, height).is_none() {
            return ;
        }
        let pixels: u64 = self.store.put(Frame::white(width, height), self.versions);
        self.versions = next_number(self.versions);
        if found {
            self.change_node(id, &NodeEdit::Mask(Some(LayerMask { pixels, enabled: true })));
        } else {
            self.sweep_store();
        }
        self.paint_mask = true;
        self.tool = 3;
        self.brush.erasing = false;
    }

    /// Takes the mask off the active node.
    pub fn remove_mask(&mut self)
        ensures
            final(self)@ == mask_removed(old(self)@),
    {
        let id: u64 = match self.active_row() {
            Some(_) => match self.active {
                Some(id) => id,
                None => {
                    return ;
                },
            },
            None => {
                return ;
            },
        };
        self.change_node(id, &NodeEdit::Mask(None));
        self.paint_mask = false;
        self.sweep_store();
    }

    /// Applies the mask of the active node, or sets it aside.
    pub fn toggle_mask(&mut self)
        ensures
            final(self)@ == mask_toggled(old(self)@),
    {
        if let Some(id) = self.active {
            self.change_node(id, &NodeEdit::ToggleMask);
        }
    }

    /// The mark of the mask of a row was clicked.
    pub fn mask_chip_click(&mut self, index: i32)
        ensures
            final(self)@ == mask_clicked(old(self)@, index),
    {
        let (id, pixels): (u64, Option<u64>) = match self.row(index) {
            Some(node) => {
                if node.mask.is_none() {
                    return ;
                }
                (node.id, node_image_pixels(node))
            },
            None => {
                return ;
            },
        };
        if self.paint_mask {
            if let Some(active) = self.active {
                if active == id {
                    self.paint_mask = false;
                    return ;
                }
            }
        }
        self.active = Some(id);
        self.layer = pixels;
        self.paint_mask = true;
        self.tool = 3;
        self.brush.erasing = false;
    }

    /// Changes the active adjustment.
    pub fn adjust(&mut self, edit: AdjustmentEdit)
        ensures
            final(self)@ == active_adjusted(old(self)@, edit),
    {
        if let Some(id) = self.active {
            self.change_node(id, &NodeEdit::Adjust(edit));
        }
    }

    /// Gives the low or the high end of the active gradient map a colour of
    /// the palette.
    pub fn set_gradient_color(&mut self, slot: i32, index: i32)
        ensures
            final(self)@ == gradient_set(old(self)@, slot, index),
    {
        let i: usize = if index < 0 {
            0
        } else {
            index as usize
        };
        if let Some(color) = palette(i) {
            self.adjust(AdjustmentEdit::Gradient(slot, color));
        }
    }

    /// Whether the pixels of an identity are those of a mask.
    pub fn is_mask(&self, pixels: u64) -> (r: bool)
        ensures
            r == masks(layers_of(self@), pixels),
    {
        match &self.document {
            Some(d) => is_mask_pixels(&d.children, pixels),
            None => false,
        }
    }
}

/// A row of the panel.
pub struct LayerRow {
    pub id: u64,
    pub name: String,
    pub hidden: bool,
    /// In millionths.
    pub opacity: u32,
    pub active: bool,
    pub depth: u64,
    /// The children of the group are shown.
    pub expanded: bool,
    pub group: bool,
    pub masked: bool,
    /// The tools are on the mask.
    pub painting: bool,
    pub enabled: bool,
}

pub struct LayerRowView {
    pub id: u64,
    pub name: Seq<char>,
    pub hidden: bool,
    pub opacity: u32,
    pub active: bool,
    pub depth: u64,
    pub expanded: bool,
    pub group: bool,
    pub masked: bool,
    pub painting: bool,
    pub enabled: bool,
}

impl View for LayerRow {
    type V = LayerRowView;

    open spec fn view(&self) -> LayerRowView {
        LayerRowView {
            id: self.id,
            name: self.name@,
            hidden: self.hidden,
            opacity: self.opacity,
            active: self.active,
            depth: self.depth,
            expanded: self.expanded,
            group: self.group,
            masked: self.masked,
            painting: self.painting,
            enabled: self.enabled,
        }
    }
}

/// What the panel shows of a row.
pub open spec fn row_shown(p: PaneView, row: (NodeView, u64)) -> LayerRowView {
    let node = row.0;
    let active = p.active == Some(node.id);
    LayerRowView {
        id: node.id,
        name: node.name,
        hidden: node.hidden,
        opacity: node.opacity,
        active,
        depth: row.1,
        expanded: group_of(node) is Some && !p.collapsed.contains(node.id),
        group: group_of(node) is Some,
        masked: node.mask is Some,
        painting: p.paint_mask && active,
        enabled: match node.mask {
            Some(mask) => mask.enabled,
            None => true,
        },
    }
}

/// The pixels that the previews of a row are drawn of: those of its picture,
/// and those of its mask.
pub open spec fn previewed(node: NodeView) -> (Option<u64>, Option<u64>) {
    (
        image_of(node),
        match node.mask {
            Some(mask) => Some(mask.pixels),
            None => None,
        },
    )
}

impl CanvasPane {
    /// The pixels that the previews of the rows are drawn of, row by row: those
    /// of a picture and those of a mask. A row without one has no preview there.
    pub fn layer_thumbnails(&self) -> (r: Vec<(Option<u64>, Option<u64>)>)
        ensures
            r@ == Seq::new(rows_of(self@).len(), |i: int| previewed(rows_of(self@)[i].0)),
    {
        let rows: Vec<(&LayerNode, u64)> = self.rows();
        let ghost all = rows_of(self@);
        let mut out: Vec<(Option<u64>, Option<u64>)> = Vec::new();
        let mut i: usize = 0;
        proof {
            assert(rows_view(rows@).len() == rows@.len());
        }
        while i < rows.len()
            invariant
                i <= rows.len(),
                all == rows_view(rows@),
                out@.len() == i,
                forall|j: int| 0 <= j < i ==> #[trigger] out@[j] == previewed(all[j].0),
            decreases rows.len() - i,
        {
            let node: &LayerNode = rows[i].0;
            proof {
                assert(all[i as int] == (node@, rows@[i as int].1));
            }
            let mask: Option<u64> = match &node.mask {
                Some(mask) => Some(mask.pixels),
                None => None,
            };
            out.push((node_image_pixels(node), mask));
            i = i + 1;
        }
        out
    }

    /// Whether the preview of some pixels is kept: a row still shows them.
    pub fn keeps_thumbnail(&self, id: u64) -> (r: bool)
        ensures
            r == exists|i: int|
                0 <= i < rows_of(self@).len() && ({
                    let shown = previewed((#[trigger] rows_of(self@)[i]).0);
                    shown.0 == Some(id) || shown.1 == Some(id)
                }),
    {
        let shown: Vec<(Option<u64>, Option<u64>)> = self.layer_thumbnails();
        let ghost all = rows_of(self@);
        let mut i: usize = 0;
        while i < shown.len()
            invariant
                i <= shown.len(),
                all == rows_of(self@),
                shown@ == Seq::new(all.len(), |k: int| previewed(all[k].0)),
                forall|j: int|
                    0 <= j < i ==> ({
                        let row = previewed((#[trigger] all[j]).0);
                        row.0 != Some(id) && row.1 != Some(id)
                    }),
            decreases shown.len() - i,
        {
            let picture: bool = match shown[i].0 {
                Some(pixels) => pixels == id,
                None => false,
            };
            let mask: bool = match shown[i].1 {
                Some(pixels) => pixels == id,
                None => false,
            };
            proof {
                assert(shown@[i as int] == previewed(rows_of(self@)[i as int].0));
            }
            if picture || mask {
                return true;
            }
            i = i + 1;
        }
        false
    }
}

impl CanvasPane {
    /// What the panel shows, from front to back.
    pub fn layers_data(&self) -> (r: Vec<LayerRow>)
        ensures
            r@.len() == rows_of(self@).len(),
            forall|i: int|
                0 <= i < r@.len() ==> (#[trigger] r@[i])@ == row_shown(self@, rows_of(self@)[i]),
    {
        broadcast use vstd::std_specs::hash::group_hash_axioms;

        let rows: Vec<(&LayerNode, u64)> = self.rows();
        let ghost all = rows_of(self@);
        let mut out: Vec<LayerRow> = Vec::new();
        let mut i: usize = 0;
        proof {
            assert(rows_view(rows@).len() == rows@.len());
        }
        while i < rows.len()
            invariant
                i <= rows.len(),
                all == rows_view(rows@),
                out@.len() == i,
                forall|j: int| 0 <= j < i ==> (#[trigger] out@[j])@ == row_shown(self@, all[j]),
            decreases rows.len() - i,
        {
            let node: &LayerNode = rows[i].0;
            proof {
                assert(all[i as int] == (node@, rows@[i as int].1));
            }
            let group: bool = match &node.body {
                Body::Group(_) => true,
                _ => false,
            };
            let active: bool = match self.active {
                Some(id) => id == node.id,
                None => false,
            };
            out.push(
                LayerRow {
                    id: node.id,
                    name: node.name.clone(),
                    hidden: node.hidden,
                    opacity: node.opacity,
                    active,
                    depth: rows[i].1,
                    expanded: group && !self.collapsed.contains(&node.id),
                    group,
                    masked: node.mask.is_some(),
                    painting: self.paint_mask && active,
                    enabled: match node.mask {
                        Some(mask) => mask.enabled,
                        None => true,
                    },
                },
            );
            i = i + 1;
        }
        out
    }

    fn active_adjustment(&self) -> (r: Option<&Adjustment>)
        ensures
            match r {
                Some(a) => adjustment_of(self@) == Some(a@),
                None => adjustment_of(self@) is None,
            },
    {
        match self.active_row() {
            Some(node) => match &node.body {
                Body::Adjustment(a) => Some(a),
                _ => None,
            },
            None => None,
        }
    }

    /// The number of the kind of the active adjustment, 0 where the active
    /// node is none, and its knobs.
    pub fn adjustment_state(&self) -> (r: (i32, Vec<(Knob, i64)>))
        ensures
            match adjustment_of(self@) {
                Some(a) => r.0 == kind_number(a.kind) && r.1@.len() == a.values.len() && forall|
                    i: int,
                |
                    0 <= i < r.1@.len() ==> (#[trigger] r.1@[i]).1 == a.values[i]
                        && r.1@[i].0.label@ == knob_name(a.kind, i) && (
                    r.1@[i].0.least,
                    r.1@[i].0.most,
                    ) == knob_range(a.kind, i),
                None => r.0 == 0 && r.1@.len() == 0,
            },
    {
        match self.active_adjustment() {
            Some(a) => (adjustment_kind(a), adjustment_parameters(a)),
            None => (0, Vec::new()),
        }
    }

    /// The ends of the active gradient map.
    pub fn gradient_colors(&self) -> (r: Option<(Rgb, Rgb)>)
        ensures
            r == match adjustment_of(self@) {
                Some(a) => if a.kind == AdjustmentKind::GradientMap {
                    Some((a.low, a.high))
                } else {
                    None
                },
                None => None,
            },
    {
        match self.active_adjustment() {
            Some(a) => match a.kind {
                AdjustmentKind::GradientMap => Some((a.low, a.high)),
                _ => None,
            },
            None => None,
        }
    }

    /// The points of the active curves: those of red, green and blue.
    pub fn curve_channels(&self) -> (r: Vec<Vec<(i64, i64)>>)
        ensures
            channel_views(r@) == match adjustment_of(self@) {
                Some(a) => if a.kind == AdjustmentKind::Curves {
                    a.channels
                } else {
                    Seq::empty()
                },
                None => Seq::empty(),
            },
    {
        let none: Vec<Vec<(i64, i64)>> = Vec::new();
        proof {
            assert(channel_views(none@) =~= Seq::empty());
        }
        match self.active_adjustment() {
            Some(a) => match a.kind {
                AdjustmentKind::Curves => copy_channels(&a.channels),
                _ => none,
            },
            None => none,
        }
    }
}

/// The active adjustment.
pub open spec fn adjustment_of(p: PaneView) -> Option<AdjustmentView> {
    match active_node(p) {
        Some(node) => match node.body {
            BodyView::Adjustment(a) => Some(a),
            _ => None,
        },
        None => None,
    }
}

} // verus!
