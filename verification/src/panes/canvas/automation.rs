//! The canvas driven from a program: what a hand can do to it, without the
//! window.

use crate::panes::canvas::adjustments::{
    adjustment_label, kind_name, kind_number, knob_name, knob_range, AdjustmentEdit, Knob,
};
use crate::panes::canvas::edits::{move_into, moved_into, NodeEditView};
use crate::panes::canvas::frame::{size_fault, validate_canvas_dimensions, Frame, Selection};
use crate::panes::canvas::layers::{
    active_adjusted, adjustment_added, adjustment_of, gradient_set, group_added, layer_added,
    layers_of, layers_set, mask_added, mask_removed, mask_toggled, row_changed, row_deleted,
    row_dropped, row_folded, row_moved, row_picked, row_shown, LayerRow,
};
use crate::panes::canvas::messages::all_selected;
use crate::panes::canvas::messages::{updated, CanvasMsg};
use crate::panes::canvas::opening::{image_opened, pane_saved, project_opened, Project, SaveReport};
use crate::panes::canvas::painting::{
    run_selected, selection_edited, shape_selected, stroke_released,
};
use crate::panes::canvas::pane::{
    color_set, hardness_set, has_changes, hex_color, opacity_set, palette_set, pane_begun,
    pane_committed, pane_redone, pane_undone, row_of, rows_of, size_set, tool_set, Brush,
    CanvasPane, PaneView,
};
use crate::panes::canvas::tree::{channel_views, group_of, AdjustmentKind, Body, LayerNode, Rgb};
use crate::text::verdict;
use vstd::prelude::*;
use vstd::string::*;

verus! {

/// A row moved into the group of another row, or to the end of the root; none
/// where there is no such row or it is no group.
pub open spec fn row_adopted(p: PaneView, row: i32, into: Option<i32>) -> Option<PaneView> {
    let group = match into {
        Some(index) => match row_of(p, index) {
            Some(node) => if group_of(node) is Some {
                Some(node.id)
            } else {
                None
            },
            None => None,
        },
        None => None,
    };
    if into is Some && group is None {
        None
    } else {
        match (row_of(p, row), p.document) {
            (Some(node), Some(_)) => Some(layers_set(p, moved_into(layers_of(p), node.id, group))),
            _ => None,
        }
    }
}

/// The canvas after a row was moved into the group of another row.
pub open spec fn adopted(p: PaneView, row: i32, into: Option<i32>) -> PaneView {
    let open = pane_begun(p, 0);
    match row_adopted(open, row, into) {
        Some(after) => pane_committed(after),
        None => PaneView {
            history: crate::panes::canvas::history::HistoryView { pending: None, ..open.history },
            ..open
        },
    }
}

/// The canvas after the node of a row was picked and its mask changed.
pub open spec fn mask_laid(p: PaneView, row: i32) -> PaneView {
    match row_of(p, row) {
        Some(_) => mask_added(row_picked(p, row)),
        None => p,
    }
}

/// The canvas with the node of a row active.
pub open spec fn row_active(p: PaneView, row: i32) -> PaneView {
    match row_of(p, row) {
        Some(node) => PaneView { active: Some(node.id), ..p },
        None => p,
    }
}

/// What was read of a path: a picture, or a project.
pub enum Opened {
    Image(Result<Frame, String>),
    Project(Result<Project, String>),
}

/// The canvas after a path was opened, and what came of it. Changes come
/// first; what is opened counts as saved.
pub open spec fn opened(p: PaneView, path: Seq<char>, read: Opened) -> (PaneView, Result<
    (),
    Seq<char>,
>) {
    let over = stroke_released(p);
    if has_changes(over) {
        (
            PaneView { pending_open: Some(path), open_confirm: true, ..over },
            Err("open: current canvas has unsaved changes"@),
        )
    } else {
        match read {
            Opened::Image(Ok(frame)) => {
                let open = image_opened(over, path, frame@);
                (PaneView { saved_revision: open.revision, stroke: None, ..open }, Ok(()))
            },
            Opened::Image(Err(e)) => (over, Err(e@)),
            Opened::Project(Ok(project)) => (project_opened(over, path, project@), Ok(())),
            Opened::Project(Err(e)) => (over, Err(e@)),
        }
    }
}

/// The kinds of adjustments that there are, with their names.
pub fn adjustment_kinds() -> (r: Vec<(i32, String)>)
    ensures
        r@.len() == 7,
        forall|i: int|
            0 <= i < 7 ==> (#[trigger] r@[i]).0 == i + 1 && r@[i].1@ == kind_name((i + 1) as i32),
{
    let mut out: Vec<(i32, String)> = Vec::new();
    let mut i: i32 = 1;
    while i <= 7
        invariant
            1 <= i <= 8,
            out@.len() == i - 1,
            forall|j: int|
                0 <= j < i - 1 ==> (#[trigger] out@[j]).0 == j + 1 && out@[j].1@ == kind_name(
                    (j + 1) as i32,
                ),
        decreases 8 - i,
    {
        out.push((i, adjustment_label(i)));
        i = i + 1;
    }
    out
}

impl CanvasPane {
    /// Picks the tool.
    pub fn agent_select_tool(&mut self, tool: i32)
        ensures
            final(self)@ == tool_set(old(self)@, tool),
            final(self)@ == updated(old(self)@, CanvasMsg::Tool(tool)).0,
    {
        self.set_tool(tool);
    }

    /// Sets the brush: its diameter, opacity and hardness in millionths, and a
    /// colour of the palette.
    pub fn agent_set_brush(&mut self, diameter: i64, opacity: i64, hardness: i64, palette: usize)
        ensures
            final(self)@ == palette_set(
                hardness_set(opacity_set(size_set(old(self)@, diameter), opacity), hardness),
                palette as int,
            ),
            final(self)@ == updated(
                updated(
                    updated(
                        updated(old(self)@, CanvasMsg::BrushSize(diameter)).0,
                        CanvasMsg::BrushOpacity(opacity),
                    ).0,
                    CanvasMsg::BrushHardness(hardness),
                ).0,
                CanvasMsg::BrushColor(palette),
            ).0,
    {
        self.set_brush_size(diameter);
        self.set_brush_opacity(opacity);
        self.set_brush_hardness(hardness);
        self.set_brush_palette(palette);
    }

    /// Gives the brush a colour.
    pub fn agent_set_brush_rgb(&mut self, red: u8, green: u8, blue: u8)
        ensures
            final(self)@ == color_set(old(self)@, Rgb { red, green, blue }),
    {
        self.set_brush_rgb(
            red as i64 * 1_000_000,
            green as i64 * 1_000_000,
            blue as i64 * 1_000_000,
        );
    }

    /// Gives the brush a colour in hexadecimal digits.
    pub fn agent_set_brush_hex(&mut self, text: &str)
        ensures
            final(self)@ == match hex_color(text@) {
                Some(color) => color_set(old(self)@, color),
                None => old(self)@,
            },
    {
        self.set_brush_hex(text);
    }

    /// Gives the brush the colour of a pixel of the composed document.
    pub fn agent_pick_color(&mut self, sampled: Option<[u8; 4]>)
        ensures
            final(self)@ == match sampled {
                Some(rgba) => color_set(
                    old(self)@,
                    Rgb { red: rgba[0], green: rgba[1], blue: rgba[2] },
                ),
                None => old(self)@,
            },
            final(self)@ == updated(old(self)@, CanvasMsg::PickColor(sampled)).0,
    {
        self.sample_color(sampled);
    }

    /// Selects a box; `shape` is what it selects, alone and together with what
    /// was selected.
    pub fn agent_select_rect(&mut self, shape: Option<(Selection, Selection)>)
        ensures
            final(self)@ == match (old(self)@.document, shape) {
                (Some(_), Some((alone, joined))) => shape_selected(old(self)@, alone@, joined@),
                _ => old(self)@,
            },
    {
        if self.document.is_some() {
            if let Some((alone, joined)) = shape {
                self.select(&alone, joined);
            }
        }
    }

    /// Selects the run of a colour that the wand finds.
    pub fn agent_wand(&mut self, run: Option<Selection>)
        ensures
            final(self)@ == match run {
                Some(run) => run_selected(old(self)@, run@),
                None => old(self)@,
            },
            final(self)@ == updated(old(self)@, CanvasMsg::WandClick(run)).0,
    {
        if let Some(run) = run {
            self.select_run(run);
        }
    }

    /// Selects everything.
    pub fn agent_select_all(&mut self)
        ensures
            final(self)@ == all_selected(old(self)@),
            final(self)@ == updated(old(self)@, CanvasMsg::SelectAll).0,
    {
        self.select_all();
    }

    /// Selects nothing.
    pub fn agent_deselect(&mut self)
        ensures
            final(self)@ == (PaneView { selection: None, ..old(self)@ }),
            final(self)@ == updated(old(self)@, CanvasMsg::Deselect).0,
    {
        self.selection = None;
    }

    /// Fills what is selected; `painted` is what the painter made of the pixels.
    pub fn agent_fill_selection(&mut self, painted: Frame)
        ensures
            final(self)@ == pane_committed(selection_edited(pane_begun(old(self)@, 0), painted@)),
            final(self)@.document == updated(old(self)@, CanvasMsg::FillSelection(painted)).0.document,
            final(self)@.store == updated(old(self)@, CanvasMsg::FillSelection(painted)).0.store,
            final(self)@.active == updated(old(self)@, CanvasMsg::FillSelection(painted)).0.active,
    {
        self.begin_history_mode(0);
        self.edit_selection(painted);
        self.commit_history();
    }

    /// Clears what is selected; `painted` is what the painter made of the pixels.
    pub fn agent_delete_selection(&mut self, painted: Frame)
        ensures
            final(self)@ == pane_committed(selection_edited(pane_begun(old(self)@, 0), painted@)),
            final(self)@.document == updated(old(self)@, CanvasMsg::DeleteSelection(painted)).0.document,
            final(self)@.store == updated(old(self)@, CanvasMsg::DeleteSelection(painted)).0.store,
            final(self)@.active == updated(old(self)@, CanvasMsg::DeleteSelection(painted)).0.active,
    {
        self.begin_history_mode(0);
        self.edit_selection(painted);
        self.commit_history();
    }

    /// Undoes the newest change.
    pub fn agent_undo(&mut self)
        ensures
            final(self)@ == pane_undone(old(self)@),
            final(self)@ == updated(old(self)@, CanvasMsg::Undo).0,
    {
        self.undo();
    }

    /// Makes the change again that was undone last.
    pub fn agent_redo(&mut self)
        ensures
            final(self)@ == pane_redone(old(self)@),
            final(self)@ == updated(old(self)@, CanvasMsg::Redo).0,
    {
        self.redo();
    }

    /// Picks a row.
    pub fn agent_layer_pick(&mut self, row: i32)
        ensures
            final(self)@ == row_picked(old(self)@, row),
            final(self)@ == updated(old(self)@, CanvasMsg::LayerPick(row)).0,
    {
        self.pick_row(row);
    }

    /// Shows or hides the node of a row.
    pub fn agent_layer_toggle_visibility(&mut self, row: i32)
        ensures
            final(self)@ == pane_committed(row_changed(pane_begun(old(self)@, 0), row, NodeEditView::Toggle)),
            final(self)@.document == updated(old(self)@, CanvasMsg::LayerToggleVisibility(row)).0.document,
            final(self)@.store == updated(old(self)@, CanvasMsg::LayerToggleVisibility(row)).0.store,
            final(self)@.active == updated(old(self)@, CanvasMsg::LayerToggleVisibility(row)).0.active,
    {
        self.begin_history_mode(0);
        self.toggle_row(row);
        self.commit_history();
    }

    /// Sets the opacity of the node of a row, in millionths.
    pub fn agent_layer_opacity(&mut self, row: i32, opacity: i64)
        ensures
            final(self)@ == pane_committed(
                row_changed(pane_begun(old(self)@, 0), row, NodeEditView::Opacity(opacity)),
            ),
            final(self)@.document == updated(old(self)@, CanvasMsg::LayerOpacity(row, opacity)).0.document,
            final(self)@.store == updated(old(self)@, CanvasMsg::LayerOpacity(row, opacity)).0.store,
            final(self)@.active == updated(old(self)@, CanvasMsg::LayerOpacity(row, opacity)).0.active,
    {
        self.begin_history_mode(0);
        self.set_row_opacity(row, opacity);
        self.commit_history();
    }

    /// Adds a transparent layer in front.
    pub fn agent_layer_add(&mut self)
        ensures
            final(self)@ == pane_committed(layer_added(pane_begun(old(self)@, 0))),
            final(self)@.document == updated(old(self)@, CanvasMsg::LayerAdd).0.document,
            final(self)@.store == updated(old(self)@, CanvasMsg::LayerAdd).0.store,
            final(self)@.active == updated(old(self)@, CanvasMsg::LayerAdd).0.active,
    {
        self.begin_history_mode(0);
        self.add_layer();
        self.commit_history();
    }

    /// Deletes the node of a row.
    pub fn agent_layer_delete(&mut self, row: i32)
        ensures
            final(self)@ == pane_committed(row_deleted(pane_begun(old(self)@, 0), row)),
            final(self)@.document == updated(old(self)@, CanvasMsg::LayerDelete(row)).0.document,
            final(self)@.store == updated(old(self)@, CanvasMsg::LayerDelete(row)).0.store,
            final(self)@.active == updated(old(self)@, CanvasMsg::LayerDelete(row)).0.active,
    {
        self.begin_history_mode(0);
        self.delete_row(row);
        self.commit_history();
    }

    /// Moves the node of a row within its container.
    pub fn agent_layer_move(&mut self, row: i32, direction: i32)
        ensures
            final(self)@ == pane_committed(row_moved(pane_begun(old(self)@, 0), row, direction)),
            final(self)@.document == updated(old(self)@, CanvasMsg::LayerMove(row, direction)).0.document,
            final(self)@.store == updated(old(self)@, CanvasMsg::LayerMove(row, direction)).0.store,
            final(self)@.active == updated(old(self)@, CanvasMsg::LayerMove(row, direction)).0.active,
    {
        self.begin_history_mode(0);
        self.move_row(row, direction);
        self.commit_history();
    }

    /// Adds a group before the active node.
    pub fn agent_layer_group(&mut self)
        ensures
            final(self)@ == pane_committed(group_added(pane_begun(old(self)@, 0))),
            final(self)@.document == updated(old(self)@, CanvasMsg::LayerAddGroup).0.document,
            final(self)@.store == updated(old(self)@, CanvasMsg::LayerAddGroup).0.store,
            final(self)@.active == updated(old(self)@, CanvasMsg::LayerAddGroup).0.active,
    {
        self.begin_history_mode(0);
        self.add_group();
        self.commit_history();
    }

    /// Drops a row onto another.
    pub fn agent_layer_drop(&mut self, source: i32, target: i32, below: bool)
        ensures
            final(self)@ == pane_committed(row_dropped(pane_begun(old(self)@, 0), source, target, below)),
            final(self)@.document == updated(old(self)@, CanvasMsg::LayerDrop(source, target, below)).0.document,
            final(self)@.store == updated(old(self)@, CanvasMsg::LayerDrop(source, target, below)).0.store,
            final(self)@.active == updated(old(self)@, CanvasMsg::LayerDrop(source, target, below)).0.active,
    {
        self.begin_history_mode(0);
        self.move_row_onto(source, target, below);
        self.commit_history();
    }

    /// Gives an end of the active gradient map a colour of the palette.
    pub fn agent_gradient_color(&mut self, slot: i32, index: i32)
        ensures
            final(self)@ == pane_committed(gradient_set(pane_begun(old(self)@, 0), slot, index)),
            final(self)@.document == updated(old(self)@, CanvasMsg::GradientColor(slot, index)).0.document,
            final(self)@.store == updated(old(self)@, CanvasMsg::GradientColor(slot, index)).0.store,
            final(self)@.active == updated(old(self)@, CanvasMsg::GradientColor(slot, index)).0.active,
    {
        self.begin_history_mode(0);
        self.set_gradient_color(slot, index);
        self.commit_history();
    }

    /// Folds or unfolds the group of a row.
    pub fn agent_layer_fold(&mut self, row: i32)
        ensures
            final(self)@ == row_folded(old(self)@, row),
            final(self)@ == updated(old(self)@, CanvasMsg::LayerFold(row)).0,
    {
        self.fold_row(row);
    }

    /// Moves a point of a curve.
    pub fn agent_curve_set(&mut self, channel: i32, index: i32, x: i64, y: i64)
        ensures
            final(self)@ == pane_committed(
                active_adjusted(
                    pane_begun(old(self)@, 0),
                    AdjustmentEdit::CurveSet(channel, index, x, y),
                ),
            ),
            final(self)@.document == updated(old(self)@, CanvasMsg::CurveSet(channel, index, x, y)).0.document,
            final(self)@.store == updated(old(self)@, CanvasMsg::CurveSet(channel, index, x, y)).0.store,
            final(self)@.active == updated(old(self)@, CanvasMsg::CurveSet(channel, index, x, y)).0.active,
    {
        self.begin_history_mode(0);
        self.adjust(AdjustmentEdit::CurveSet(channel, index, x, y));
        self.commit_history();
    }

    /// Puts a point on a curve.
    pub fn agent_curve_add(&mut self, channel: i32, x: i64, y: i64)
        ensures
            final(self)@ == pane_committed(
                active_adjusted(
                    pane_begun(old(self)@, 0),
                    AdjustmentEdit::CurveAdd(channel, x, y),
                ),
            ),
            final(self)@.document == updated(old(self)@, CanvasMsg::CurveAdd(channel, x, y)).0.document,
            final(self)@.store == updated(old(self)@, CanvasMsg::CurveAdd(channel, x, y)).0.store,
            final(self)@.active == updated(old(self)@, CanvasMsg::CurveAdd(channel, x, y)).0.active,
    {
        self.begin_history_mode(0);
        self.adjust(AdjustmentEdit::CurveAdd(channel, x, y));
        self.commit_history();
    }

    /// Takes a point off a curve.
    pub fn agent_curve_remove(&mut self, channel: i32, index: i32)
        ensures
            final(self)@ == pane_committed(
                active_adjusted(
                    pane_begun(old(self)@, 0),
                    AdjustmentEdit::CurveRemove(channel, index),
                ),
            ),
            final(self)@.document == updated(old(self)@, CanvasMsg::CurveRemove(channel, index)).0.document,
            final(self)@.store == updated(old(self)@, CanvasMsg::CurveRemove(channel, index)).0.store,
            final(self)@.active == updated(old(self)@, CanvasMsg::CurveRemove(channel, index)).0.active,
    {
        self.begin_history_mode(0);
        self.adjust(AdjustmentEdit::CurveRemove(channel, index));
        self.commit_history();
    }

    /// Adds an adjustment of the kind of a number before the active node.
    pub fn agent_adjustment_add(&mut self, kind: i32)
        ensures
            final(self)@ == pane_committed(adjustment_added(pane_begun(old(self)@, 0), kind)),
            final(self)@.document == updated(old(self)@, CanvasMsg::AdjustmentAdd(kind)).0.document,
            final(self)@.store == updated(old(self)@, CanvasMsg::AdjustmentAdd(kind)).0.store,
            final(self)@.active == updated(old(self)@, CanvasMsg::AdjustmentAdd(kind)).0.active,
    {
        self.begin_history_mode(0);
        self.add_adjustment(kind);
        self.commit_history();
    }

    /// Sets a knob of the active adjustment, in millionths.
    pub fn agent_adjustment_param(&mut self, index: i32, value: i64)
        ensures
            final(self)@ == pane_committed(
                active_adjusted(
                    pane_begun(old(self)@, 0),
                    AdjustmentEdit::Param(index, value),
                ),
            ),
            final(self)@.document == updated(old(self)@, CanvasMsg::AdjustmentParam(index, value)).0.document,
            final(self)@.store == updated(old(self)@, CanvasMsg::AdjustmentParam(index, value)).0.store,
            final(self)@.active == updated(old(self)@, CanvasMsg::AdjustmentParam(index, value)).0.active,
    {
        self.begin_history_mode(0);
        self.adjust(AdjustmentEdit::Param(index, value));
        self.commit_history();
    }

    /// Moves the node of a row into the group of another row, or to the end of
    /// the root.
    pub fn agent_layer_move_into(&mut self, row: i32, into: Option<i32>)
        ensures
            final(self)@ == adopted(old(self)@, row, into),
    {
        self.begin_history_mode(0);
        let group: Option<u64> = match into {
            Some(index) => match self.row(index) {
                Some(node) => match &node.body {
                    Body::Group(_) => Some(node.id),
                    _ => None,
                },
                None => None,
            },
            None => None,
        };
        if into.is_some() && group.is_none() {
            self.history.pending = None;
            return ;
        }
        let moving: u64 = match self.row(row) {
            Some(node) => node.id,
            None => {
                self.history.pending = None;
                return ;
            },
        };
        let next: Vec<LayerNode> = match &self.document {
            Some(d) => move_into(&d.children, moving, group),
            None => {
                self.history.pending = None;
                return ;
            },
        };
        self.set_layers(next);
        self.commit_history();
    }

    /// Lays a white mask over the node of a row.
    pub fn agent_layer_mask_add(&mut self, row: i32)
        ensures
            final(self)@ == pane_committed(mask_laid(pane_begun(old(self)@, 0), row)),
    {
        self.begin_history_mode(0);
        if self.row(row).is_some() {
            self.pick_row(row);
            self.add_mask();
        }
        self.commit_history();
    }

    fn activate_row(&mut self, row: i32) -> (r: bool)
        ensures
            final(self)@ == row_active(old(self)@, row),
            r == (row_of(old(self)@, row) is Some),
    {
        let id: u64 = match self.row(row) {
            Some(node) => node.id,
            None => {
                return false;
            },
        };
        self.active = Some(id);
        true
    }

    /// Takes the mask off the node of a row.
    pub fn agent_layer_mask_remove(&mut self, row: i32)
        ensures
            ({
                let open = pane_begun(old(self)@, 0);
                final(self)@ == pane_committed(
                    if row_of(open, row) is Some {
                        mask_removed(row_active(open, row))
                    } else {
                        open
                    },
                )
            }),
    {
        self.begin_history_mode(0);
        if self.activate_row(row) {
            self.remove_mask();
        }
        self.commit_history();
    }

    /// Applies the mask of the node of a row, or sets it aside.
    pub fn agent_layer_mask_toggle(&mut self, row: i32)
        ensures
            ({
                let open = pane_begun(old(self)@, 0);
                final(self)@ == pane_committed(
                    if row_of(open, row) is Some {
                        mask_toggled(row_active(open, row))
                    } else {
                        open
                    },
                )
            }),
    {
        self.begin_history_mode(0);
        if self.activate_row(row) {
            self.toggle_mask();
        }
        self.commit_history();
    }

    /// Whether the tools are on the mask of the active node.
    pub fn agent_paint_mask(&self) -> (r: bool)
        ensures
            r == self.paint_mask,
    {
        self.paint_mask
    }

    /// The size of the document.
    pub fn agent_document_size(&self) -> (r: Option<(u32, u32)>)
        ensures
            r == match self@.document {
                Some(d) => Some((d.width, d.height)),
                None => None,
            },
    {
        self.document_size()
    }

    /// What the panel shows, from front to back.
    pub fn agent_layers(&self) -> (r: Vec<LayerRow>)
        ensures
            r@.len() == rows_of(self@).len(),
            forall|i: int|
                0 <= i < r@.len() ==> (#[trigger] r@[i])@ == row_shown(self@, rows_of(self@)[i]),
    {
        self.layers_data()
    }

    /// The points of the active curves.
    pub fn agent_curve_channels(&self) -> (r: Vec<Vec<(i64, i64)>>)
        ensures
            channel_views(r@) == match adjustment_of(self@) {
                Some(a) => if a.kind == AdjustmentKind::Curves {
                    a.channels
                } else {
                    Seq::empty()
                },
                None => Seq::empty(),
            },
    {
        self.curve_channels()
    }

    /// The brush as it is set.
    pub fn agent_brush(&self) -> (r: Brush)
        ensures
            r == self.brush,
    {
        self.brush
    }

    /// The number of the kind of the active adjustment, and its knobs.
    pub fn agent_adjustment_state(&self) -> (r: (i32, Vec<(Knob, i64)>))
        ensures
            match adjustment_of(self@) {
                Some(a) => r.0 == kind_number(a.kind) && r.1@.len() == a.values.len() && forall|
                    i: int,
                |
                    0 <= i < r.1@.len() ==> (#[trigger] r.1@[i]).1 == a.values[i]
                        && r.1@[i].0.label@ == knob_name(a.kind, i) && (
                    r.1@[i].0.least,
                    r.1@[i].0.most,
                    ) == knob_range(a.kind, i),
                None => r.0 == 0 && r.1@.len() == 0,
            },
    {
        self.adjustment_state()
    }

    /// The kinds of adjustments that there are.
    pub fn agent_adjustment_kinds(&self) -> (r: Vec<(i32, String)>)
        ensures
            r@.len() == 7,
            forall|i: int|
                0 <= i < 7 ==> (#[trigger] r@[i]).0 == i + 1 && r@[i].1@ == kind_name(
                    (i + 1) as i32,
                ),
    {
        adjustment_kinds()
    }

    /// Whether the document can be exported, or why not.
    pub fn agent_export_png(&self, limit: Option<u32>) -> (r: Result<(), String>)
        ensures
            verdict(r) == match self@.document {
                None => Err::<(), Seq<char>>("No image open"@),
                Some(d) => match size_fault(d.width, d.height, limit) {
                    Some(e) => Err(e),
                    None => Ok(()),
                },
            },
    {
        match self.document_size() {
            None => Err("No image open".to_owned()),
            Some((width, height)) => validate_canvas_dimensions(width, height, limit),
        }
    }

    /// The canvas was written to a path as a project.
    pub fn agent_save_comp(&mut self, report: SaveReport) -> (r: Result<(), String>)
        ensures
            (final(self)@, verdict(r)) == pane_saved(old(self)@, report@),
    {
        self.save_to_path(report)
    }

    /// Opens a path that was read.
    pub fn agent_open(&mut self, path: &str, read: Opened) -> (r: Result<(), String>)
        ensures
            (final(self)@, verdict(r)) == opened(old(self)@, path@, read),
    {
        self.brush_release();
        if self.is_modified() {
            self.pending_open = Some(path.to_owned());
            self.open_confirm = true;
            return Err("open: current canvas has unsaved changes".to_owned());
        }
        match read {
            Opened::Image(Ok(frame)) => {
                self.open_image(path, frame);
                self.saved_revision = self.revision;
                self.stroke = None;
                Ok(())
            },
            Opened::Image(Err(e)) => Err(e),
            Opened::Project(Ok(project)) => {
                self.open_project(path, project);
                Ok(())
            },
            Opened::Project(Err(e)) => Err(e),
        }
    }
}

/// A canvas with changes keeps its document when something is opened: the path
/// waits.
pub proof fn changes_hold_back_what_is_opened(p: PaneView, path: Seq<char>, read: Opened)
    requires
        has_changes(stroke_released(p)),
    ensures
        opened(p, path, read).1 is Err,
        opened(p, path, read).0.document == stroke_released(p).document,
        opened(p, path, read).0.pending_open == Some(path),
{
}

} // verus!
