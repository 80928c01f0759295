//! Everything that can happen to the canvas, and what it does then.

use crate::panes::canvas::adjustments::AdjustmentEdit;
use crate::panes::canvas::edits::{masks, NodeEditView};
use crate::panes::canvas::frame::{checked_frame_bytes, Frame, Selection, SelectionCover};
use crate::panes::canvas::history::{
    bumped, histories_stay_small, last_changes_can_be_undone, no_history, redone, retained_between,
    retained_sum, same_moment, undone, HistoryView, HISTORY_BYTE_LIMIT, HISTORY_ENTRY_LIMIT,
};
use crate::panes::canvas::layers::{
    active_adjusted, adjustment_added, gradient_set, group_added, is_addressable, layer_added,
    layers_of, mask_added, mask_clicked, mask_removed, mask_toggled, row_changed, row_deleted,
    row_dropped, row_folded, row_moved, row_picked,
};
use crate::panes::canvas::opening::{
    blank_asked, export_steps, files_imported, handoff_detail, import_checked, incoming_views,
    layers_imported,
    no_steps, one_step, open_requested, save_as_steps, save_ended, save_steps, steps_view,
    then_step, then_steps, validate_import_paths, CanvasStep, CanvasStepView, Incoming,
    IncomingView, SaveReport, SaveView,
};
use crate::panes::canvas::painting::{
    begins, in_reach, marquee_moved, marquee_pressed, marquee_released, selection_edited,
    run_selected, stroke_pressed, stroke_released, target_of_edit,
};
use crate::panes::canvas::pane::{
    channel, color_set, hardness_set, has_changes, hex_color, opacity_set, palette_set, moment_of,
    pane_begun, pane_committed, pane_redone, pane_undone, row_of, size_set, tool_set, CanvasPane,
    PaneView, Point,
};
use crate::panes::canvas::tree::{group_of, Rgb};
use crate::text::views;
use vstd::prelude::*;
use vstd::string::*;

verus! {

/// Everything that can happen to the canvas. Places are in millionths of a
/// pixel, other numbers in millionths.
pub enum CanvasMsg {
    /// Files were picked; the first is opened.
    Picked(Vec<String>),
    /// Pictures become layers of the document.
    ImportLayers(Vec<Incoming>),
    HandoffImport(Vec<Incoming>),
    /// A new canvas is made; the report is that of the save before it.
    New(Option<SaveReport>),
    NewAndImport(Vec<Incoming>, Option<SaveReport>),
    OpenAndImport(String, Vec<Incoming>),
    /// The view was moved or scaled.
    Navigated,
    Tool(i32),
    /// A stroke goes down at a place; the flag says that the brush is ready.
    BrushPress(Point, bool),
    BrushMove(Point),
    BrushRelease,
    BrushSize(i64),
    BrushOpacity(i64),
    BrushHardness(i64),
    /// A colour of the palette.
    BrushColor(usize),
    BrushRgb(i64, i64, i64),
    BrushHex(String),
    /// The pixel of the composed document under the pointer.
    PickColor(Option<[u8; 4]>),
    Undo,
    Redo,
    /// A drag of the marquee: a place on the canvas, and one of the view.
    MarqueePress(Point, Point),
    MarqueeMove(Point),
    /// What the box selects, alone and together with what was selected.
    MarqueeRelease(Option<(Selection, Selection)>),
    /// The run of a colour that the wand finds.
    WandClick(Option<Selection>),
    SelectAll,
    Deselect,
    /// What the painter made of the pixels under the selection.
    FillSelection(Frame),
    DeleteSelection(Frame),
    LayerPick(i32),
    LayerToggleVisibility(i32),
    LayerOpacity(i32, i64),
    LayerAdd,
    LayerAddGroup,
    LayerFold(i32),
    LayerDelete(i32),
    LayerMove(i32, i32),
    LayerDrop(i32, i32, bool),
    LayerMaskAdd,
    LayerMaskRemove,
    LayerMaskToggle,
    LayerMaskPaint(i32),
    GradientColor(i32, i32),
    AdjustmentAdd(i32),
    AdjustmentParam(i32, i64),
    CurveSet(i32, i32, i64, i64),
    CurveAdd(i32, i64, i64),
    CurveRemove(i32, i32),
    /// The document is exported; the limit is that of the device.
    ExportPng(Option<u32>),
    ExportLibrary(Option<u32>),
    SaveComp,
    SaveCompAs,
    /// A save is over; the flag says that something waits to be opened.
    Saved(SaveReport, bool),
    OpenDiscard,
    OpenCancel,
    OpenSave,
}

/// How a message is kept in the history: not at all, on its own, or joined
/// with others of its kind.
pub open spec fn history_kind(msg: CanvasMsg) -> Option<u8> {
    match msg {
        CanvasMsg::FillSelection(_) => Some(0u8),
        CanvasMsg::DeleteSelection(_) => Some(0u8),
        CanvasMsg::LayerToggleVisibility(_) => Some(0u8),
        CanvasMsg::LayerOpacity(_, _) => Some(1u8),
        CanvasMsg::LayerAdd => Some(0u8),
        CanvasMsg::ImportLayers(_) => Some(0u8),
        CanvasMsg::HandoffImport(_) => Some(0u8),
        CanvasMsg::LayerAddGroup => Some(0u8),
        CanvasMsg::LayerDelete(_) => Some(0u8),
        CanvasMsg::LayerMove(_, _) => Some(0u8),
        CanvasMsg::LayerDrop(_, _, _) => Some(0u8),
        CanvasMsg::LayerMaskAdd => Some(0u8),
        CanvasMsg::LayerMaskRemove => Some(0u8),
        CanvasMsg::LayerMaskToggle => Some(0u8),
        CanvasMsg::GradientColor(_, _) => Some(0u8),
        CanvasMsg::AdjustmentAdd(_) => Some(0u8),
        CanvasMsg::AdjustmentParam(_, _) => Some(2u8),
        CanvasMsg::CurveSet(_, _, _, _) => Some(3u8),
        CanvasMsg::CurveAdd(_, _, _) => Some(0u8),
        CanvasMsg::CurveRemove(_, _) => Some(0u8),
        _ => None,
    }
}

fn kind_of(msg: &CanvasMsg) -> (r: Option<u8>)
    ensures
        r == history_kind(*msg),
{
    match msg {
        CanvasMsg::FillSelection(_) => Some(0),
        CanvasMsg::DeleteSelection(_) => Some(0),
        CanvasMsg::LayerToggleVisibility(_) => Some(0),
        CanvasMsg::LayerOpacity(_, _) => Some(1),
        CanvasMsg::LayerAdd => Some(0),
        CanvasMsg::ImportLayers(_) => Some(0),
        CanvasMsg::HandoffImport(_) => Some(0),
        CanvasMsg::LayerAddGroup => Some(0),
        CanvasMsg::LayerDelete(_) => Some(0),
        CanvasMsg::LayerMove(_, _) => Some(0),
        CanvasMsg::LayerDrop(_, _, _) => Some(0),
        CanvasMsg::LayerMaskAdd => Some(0),
        CanvasMsg::LayerMaskRemove => Some(0),
        CanvasMsg::LayerMaskToggle => Some(0),
        CanvasMsg::GradientColor(_, _) => Some(0),
        CanvasMsg::AdjustmentAdd(_) => Some(0),
        CanvasMsg::AdjustmentParam(_, _) => Some(2),
        CanvasMsg::CurveSet(_, _, _, _) => Some(3),
        CanvasMsg::CurveAdd(_, _, _) => Some(0),
        CanvasMsg::CurveRemove(_, _) => Some(0),
        _ => None,
    }
}

/// The paths of files that are imported.
pub open spec fn paths_of(list: Seq<IncomingView>) -> Seq<Seq<char>> {
    Seq::new(list.len(), |i: int| list[i].path)
}

fn list_paths(list: &Vec<Incoming>) -> (r: Vec<String>)
    ensures
        views(r@) == paths_of(incoming_views(list@)),
{
    let mut out: Vec<String> = Vec::new();
    let mut i: usize = 0;
    while i < list.len()
        invariant
            i <= list.len(),
            out@.len() == i,
            forall|j: int| 0 <= j < i ==> (#[trigger] out@[j])@ == list@[j].path@,
        decreases list.len() - i,
    {
        out.push(list[i].path.clone());
        i = i + 1;
    }
    proof {
        assert(views(out@) =~= paths_of(incoming_views(list@)));
    }
    out
}

/// The canvas after a handoff was imported.
pub open spec fn handoff_imported(p: PaneView, list: Seq<IncomingView>) -> (
    PaneView,
    Seq<CanvasStepView>,
) {
    let (after, steps, success) = files_imported(p, list);
    (after, steps.push(CanvasStepView::Report(success, handoff_detail(success))))
}

/// The canvas after pictures were asked to be imported into a new one.
pub open spec fn new_with_imports(p: PaneView, list: Seq<IncomingView>, report: Option<SaveView>) -> (
    PaneView,
    Seq<CanvasStepView>,
) {
    let (fit, told) = import_checked(list);
    if !fit {
        (p, told.push(CanvasStepView::Report(false, handoff_detail(false))))
    } else {
        let (blank, steps, made) = blank_asked(p, report);
        if made {
            let (after, more) = handoff_imported(pane_begun(blank, 0), list);
            (pane_committed(after), steps + more)
        } else if has_changes(p) && report is None {
            (blank, steps)
        } else {
            (
                blank,
                steps.push(CanvasStepView::Report(false, "画布项目未能创建，请重试"@)),
            )
        }
    }
}

/// The canvas after pictures were asked to be imported into a project that is
/// opened.
pub open spec fn open_with_imports(p: PaneView, path: Seq<char>, list: Seq<IncomingView>) -> (
    PaneView,
    Seq<CanvasStepView>,
) {
    let (fit, told) = import_checked(list);
    if !fit {
        (p, told.push(CanvasStepView::Report(false, handoff_detail(false))))
    } else {
        open_requested(PaneView { pending_handoff_paths: Some(paths_of(list)), ..p }, path)
    }
}

/// The canvas once changes are let go for what waits to be opened.
pub open spec fn open_discarded(p: PaneView) -> (PaneView, Seq<CanvasStepView>) {
    (
        PaneView { open_confirm: false, pending_open: None, ..p },
        match p.pending_open {
            Some(path) => seq![CanvasStepView::Open(path)],
            None => Seq::empty(),
        },
    )
}

/// The canvas once what waits to be opened is given up.
pub open spec fn open_cancelled(p: PaneView) -> (PaneView, Seq<CanvasStepView>) {
    (
        PaneView { pending_open: None, open_confirm: false, pending_handoff_paths: None, ..p },
        if p.pending_handoff_paths is Some {
            seq![CanvasStepView::Report(false, ""@)]
        } else {
            Seq::empty()
        },
    )
}

/// Everything is selected.
pub open spec fn full_cover(width: u32, height: u32) -> SelectionCover {
    SelectionCover {
        width,
        height,
        coverage: Seq::new((width as nat * height as nat), |i: int| 255u8),
    }
}

/// The canvas with everything selected.
pub open spec fn all_selected(p: PaneView) -> PaneView {
    match p.document {
        Some(d) => if is_addressable(d) {
            PaneView { selection: Some(full_cover(d.width, d.height)), ..p }
        } else {
            p
        },
        None => p,
    }
}

/// The steps that publish the view and show the document.
pub open spec fn shown() -> Seq<CanvasStepView> {
    seq![CanvasStepView::SyncView, CanvasStepView::Render]
}

/// The pixels that go to the device after a stroke or a fill.
pub open spec fn uploaded(p: PaneView, target: Option<u64>) -> Seq<CanvasStepView> {
    match target {
        Some(id) => seq![CanvasStepView::Upload(id, masks(layers_of(p), id))],
        None => Seq::empty(),
    }
}

/// Some steps where a condition holds.
pub open spec fn only_if(condition: bool, steps: Seq<CanvasStepView>) -> Seq<CanvasStepView> {
    if condition {
        steps
    } else {
        Seq::empty()
    }
}

/// What a message about files does.
pub open spec fn files_told(p: PaneView, msg: CanvasMsg) -> (PaneView, Seq<CanvasStepView>) {
    match msg {
        CanvasMsg::Picked(paths) => if paths@.len() > 0 {
            open_requested(p, paths@[0]@)
        } else {
            (p, Seq::empty())
        },
        CanvasMsg::ImportLayers(list) => {
            let (after, steps, success) = files_imported(p, incoming_views(list@));
            (after, steps)
        },
        CanvasMsg::HandoffImport(list) => handoff_imported(p, incoming_views(list@)),
        CanvasMsg::New(report) => {
            let (after, steps, made) = blank_asked(p, opt_report(report));
            (after, steps)
        },
        CanvasMsg::NewAndImport(list, report) => new_with_imports(
            p,
            incoming_views(list@),
            opt_report(report),
        ),
        CanvasMsg::OpenAndImport(path, list) => open_with_imports(
            p,
            path@,
            incoming_views(list@),
        ),
        CanvasMsg::ExportPng(limit) => (p, export_steps(p, limit, false)),
        CanvasMsg::ExportLibrary(limit) => (p, export_steps(p, limit, true)),
        CanvasMsg::SaveComp => (p, save_steps(p)),
        CanvasMsg::SaveCompAs => (p, save_as_steps(p)),
        CanvasMsg::Saved(report, opening) => save_ended(p, report@, opening),
        CanvasMsg::OpenDiscard => open_discarded(p),
        CanvasMsg::OpenCancel => open_cancelled(p),
        CanvasMsg::OpenSave => (p, save_steps(p)),
        _ => (p, Seq::empty()),
    }
}

pub open spec fn opt_report(report: Option<SaveReport>) -> Option<SaveView> {
    match report {
        Some(s) => Some(s@),
        None => None,
    }
}

/// What a message about the tools and the selection does.
pub open spec fn tools_told(p: PaneView, msg: CanvasMsg) -> (PaneView, Seq<CanvasStepView>) {
    match msg {
        CanvasMsg::Navigated => (p, seq![CanvasStepView::SyncView]),
        CanvasMsg::Tool(tool) => (tool_set(p, tool), Seq::empty()),
        CanvasMsg::BrushPress(at, ready) => (
            stroke_pressed(p, at, ready),
            only_if(begins(p, at, ready), seq![CanvasStepView::Paint(at)]).push(
                CanvasStepView::Render,
            ),
        ),
        CanvasMsg::BrushMove(at) => (
            p,
            only_if(
                p.document matches Some(d) && in_reach(d, p.brush.diameter, at),
                seq![CanvasStepView::Paint(at), CanvasStepView::Render],
            ),
        ),
        CanvasMsg::BrushRelease => (
            stroke_released(p),
            (match p.stroke {
                Some(stroke) => seq![CanvasStepView::Upload(stroke.target, stroke.on_mask)],
                None => Seq::empty(),
            }).push(CanvasStepView::Render),
        ),
        CanvasMsg::BrushSize(n) => (size_set(p, n), Seq::empty()),
        CanvasMsg::BrushOpacity(n) => (opacity_set(p, n), Seq::empty()),
        CanvasMsg::BrushHardness(n) => (hardness_set(p, n), Seq::empty()),
        CanvasMsg::BrushColor(index) => (palette_set(p, index as int), Seq::empty()),
        CanvasMsg::BrushRgb(red, green, blue) => (
            color_set(p, Rgb { red: channel(red), green: channel(green), blue: channel(blue) }),
            Seq::empty(),
        ),
        CanvasMsg::BrushHex(text) => (
            match hex_color(text@) {
                Some(color) => color_set(p, color),
                None => p,
            },
            Seq::empty(),
        ),
        CanvasMsg::PickColor(sampled) => (
            match sampled {
                Some(rgba) => color_set(p, Rgb { red: rgba[0], green: rgba[1], blue: rgba[2] }),
                None => p,
            },
            Seq::empty(),
        ),
        CanvasMsg::Undo => (pane_undone(p), seq![CanvasStepView::Render]),
        CanvasMsg::Redo => (pane_redone(p), seq![CanvasStepView::Render]),
        CanvasMsg::MarqueePress(at, shown) => (
            marquee_pressed(p, at, shown),
            only_if(p.document is Some, seq![CanvasStepView::SyncView]),
        ),
        CanvasMsg::MarqueeMove(at) => (
            marquee_moved(p, at),
            only_if(p.marquee_start is Some, seq![CanvasStepView::SyncView]),
        ),
        CanvasMsg::MarqueeRelease(shape) => (
            marquee_released(p, opt_shape(shape)),
            only_if(
                !(p.marquee is Some && p.document is None),
                seq![CanvasStepView::SyncView],
            ),
        ),
        CanvasMsg::WandClick(run) => match run {
            Some(run) => (run_selected(p, run@), seq![CanvasStepView::SyncView]),
            None => (p, Seq::empty()),
        },
        CanvasMsg::SelectAll => (
            all_selected(p),
            only_if(p.document is Some, seq![CanvasStepView::SyncView]),
        ),
        CanvasMsg::Deselect => (
            PaneView { selection: None, ..p },
            seq![CanvasStepView::SyncView],
        ),
        CanvasMsg::FillSelection(painted) => (
            selection_edited(p, painted@),
            uploaded(p, target_of_edit(p)).push(CanvasStepView::Render),
        ),
        CanvasMsg::DeleteSelection(painted) => (
            selection_edited(p, painted@),
            uploaded(p, target_of_edit(p)).push(CanvasStepView::Render),
        ),
        _ => (p, Seq::empty()),
    }
}

pub open spec fn opt_shape(shape: Option<(Selection, Selection)>) -> Option<
    (SelectionCover, SelectionCover),
> {
    match shape {
        Some((alone, joined)) => Some((alone@, joined@)),
        None => None,
    }
}

/// What a message about the layers does.
pub open spec fn layers_told(p: PaneView, msg: CanvasMsg) -> (PaneView, Seq<CanvasStepView>) {
    let render = seq![CanvasStepView::Render];
    match msg {
        CanvasMsg::LayerPick(index) => (
            row_picked(p, index),
            only_if(row_of(p, index) is Some, seq![CanvasStepView::SyncView]),
        ),
        CanvasMsg::LayerToggleVisibility(index) => (
            row_changed(p, index, NodeEditView::Toggle),
            only_if(row_of(p, index) is Some, shown()),
        ),
        CanvasMsg::LayerOpacity(index, opacity) => (
            row_changed(p, index, NodeEditView::Opacity(opacity)),
            only_if(row_of(p, index) is Some, render),
        ),
        CanvasMsg::LayerAdd => (layer_added(p), only_if(p.document is Some, shown())),
        CanvasMsg::LayerAddGroup => (group_added(p), render),
        CanvasMsg::LayerFold(index) => (
            row_folded(p, index),
            only_if(
                row_of(p, index) matches Some(node) && group_of(node) is Some,
                shown(),
            ),
        ),
        CanvasMsg::LayerDelete(index) => (row_deleted(p, index), shown()),
        CanvasMsg::LayerMove(index, direction) => (
            row_moved(p, index, direction),
            only_if(row_of(p, index) is Some, shown()),
        ),
        CanvasMsg::LayerDrop(source, target, below) => (
            row_dropped(p, source, target, below),
            render,
        ),
        CanvasMsg::LayerMaskAdd => (mask_added(p), render),
        CanvasMsg::LayerMaskRemove => (mask_removed(p), render),
        CanvasMsg::LayerMaskToggle => (mask_toggled(p), render),
        CanvasMsg::LayerMaskPaint(index) => (
            mask_clicked(p, index),
            seq![CanvasStepView::SyncView],
        ),
        CanvasMsg::GradientColor(slot, index) => (gradient_set(p, slot, index), render),
        CanvasMsg::AdjustmentAdd(kind) => (adjustment_added(p, kind), render),
        CanvasMsg::AdjustmentParam(index, value) => (
            active_adjusted(p, AdjustmentEdit::Param(index, value)),
            render,
        ),
        CanvasMsg::CurveSet(channel, index, x, y) => (
            active_adjusted(p, AdjustmentEdit::CurveSet(channel, index, x, y)),
            render,
        ),
        CanvasMsg::CurveAdd(channel, x, y) => (
            active_adjusted(p, AdjustmentEdit::CurveAdd(channel, x, y)),
            render,
        ),
        CanvasMsg::CurveRemove(channel, index) => (
            active_adjusted(p, AdjustmentEdit::CurveRemove(channel, index)),
            render,
        ),
        _ => (p, Seq::empty()),
    }
}

/// Whether a message is about files.
pub open spec fn is_about_files(msg: CanvasMsg) -> bool {
    match msg {
        CanvasMsg::Picked(_) => true,
        CanvasMsg::ImportLayers(_) => true,
        CanvasMsg::HandoffImport(_) => true,
        CanvasMsg::New(_) => true,
        CanvasMsg::NewAndImport(_, _) => true,
        CanvasMsg::OpenAndImport(_, _) => true,
        CanvasMsg::ExportPng(_) => true,
        CanvasMsg::ExportLibrary(_) => true,
        CanvasMsg::SaveComp => true,
        CanvasMsg::SaveCompAs => true,
        CanvasMsg::Saved(_, _) => true,
        CanvasMsg::OpenDiscard => true,
        CanvasMsg::OpenCancel => true,
        CanvasMsg::OpenSave => true,
        _ => false,
    }
}

/// Whether a message is about the layers.
pub open spec fn is_about_layers(msg: CanvasMsg) -> bool {
    match msg {
        CanvasMsg::LayerPick(_) => true,
        CanvasMsg::LayerToggleVisibility(_) => true,
        CanvasMsg::LayerOpacity(_, _) => true,
        CanvasMsg::LayerAdd => true,
        CanvasMsg::LayerAddGroup => true,
        CanvasMsg::LayerFold(_) => true,
        CanvasMsg::LayerDelete(_) => true,
        CanvasMsg::LayerMove(_, _) => true,
        CanvasMsg::LayerDrop(_, _, _) => true,
        CanvasMsg::LayerMaskAdd => true,
        CanvasMsg::LayerMaskRemove => true,
        CanvasMsg::LayerMaskToggle => true,
        CanvasMsg::LayerMaskPaint(_) => true,
        CanvasMsg::GradientColor(_, _) => true,
        CanvasMsg::AdjustmentAdd(_) => true,
        CanvasMsg::AdjustmentParam(_, _) => true,
        CanvasMsg::CurveSet(_, _, _, _) => true,
        CanvasMsg::CurveAdd(_, _, _) => true,
        CanvasMsg::CurveRemove(_, _) => true,
        _ => false,
    }
}

/// What a message does, apart from the history.
pub open spec fn told(p: PaneView, msg: CanvasMsg) -> (PaneView, Seq<CanvasStepView>) {
    if is_about_files(msg) {
        files_told(p, msg)
    } else if is_about_layers(msg) {
        layers_told(p, msg)
    } else {
        tools_told(p, msg)
    }
}

/// What a message does: a change is kept in the history, and saved in the
/// background after a while.
pub open spec fn updated(p: PaneView, msg: CanvasMsg) -> (PaneView, Seq<CanvasStepView>) {
    let kind = history_kind(msg);
    let open = match kind {
        Some(k) => pane_begun(p, k),
        None => p,
    };
    let (done, steps) = told(open, msg);
    let after = match kind {
        Some(_) => pane_committed(done),
        None => done,
    };
    (
        after,
        steps + only_if(
            after.revision != p.revision && has_changes(after),
            seq![CanvasStepView::AutoSave(900)],
        ),
    )
}

fn steps_if(condition: bool, steps: Vec<CanvasStep>) -> (r: Vec<CanvasStep>)
    ensures
        steps_view(r@) == only_if(condition, steps_view(steps@)),
{
    if condition {
        steps
    } else {
        no_steps()
    }
}

fn sync_and_render() -> (r: Vec<CanvasStep>)
    ensures
        steps_view(r@) == shown(),
{
    let r: Vec<CanvasStep> = then_step(one_step(CanvasStep::SyncView), CanvasStep::Render);
    proof {
        assert(steps_view(r@) =~= shown());
    }
    r
}

impl CanvasPane {
    fn import_handoff(&mut self, list: &Vec<Incoming>) -> (r: Vec<CanvasStep>)
        ensures
            (final(self)@, steps_view(r@)) == handoff_imported(old(self)@, incoming_views(list@)),
    {
        let (steps, success): (Vec<CanvasStep>, bool) = self.import_layers(list);
        let detail: &str = if success {
            ""
        } else {
            "画布素材导入失败，请重试"
        };
        then_step(steps, CanvasStep::Report(success, detail.to_owned()))
    }

    fn new_and_import(&mut self, list: &Vec<Incoming>, report: Option<SaveReport>) -> (r: Vec<
        CanvasStep,
    >)
        ensures
            (final(self)@, steps_view(r@)) == new_with_imports(
                old(self)@,
                incoming_views(list@),
                opt_report(report),
            ),
    {
        let (fit, told): (bool, Vec<CanvasStep>) = validate_import_paths(list);
        if !fit {
            return then_step(
                told,
                CanvasStep::Report(false, "画布素材导入失败，请重试".to_owned()),
            );
        }
        let waits: bool = self.is_modified() && report.is_none();
        let (steps, made): (Vec<CanvasStep>, bool) = self.new_blank(report);
        if made {
            self.begin_history_mode(0);
            let more: Vec<CanvasStep> = self.import_handoff(list);
            self.commit_history();
            then_steps(steps, more)
        } else if waits {
            steps
        } else {
            then_step(
                steps,
                CanvasStep::Report(false, "画布项目未能创建，请重试".to_owned()),
            )
        }
    }

    fn open_and_import(&mut self, path: &str, list: &Vec<Incoming>) -> (r: Vec<CanvasStep>)
        ensures
            (final(self)@, steps_view(r@)) == open_with_imports(
                old(self)@,
                path@,
                incoming_views(list@),
            ),
    {
        let (fit, told): (bool, Vec<CanvasStep>) = validate_import_paths(list);
        if !fit {
            return then_step(
                told,
                CanvasStep::Report(false, "画布素材导入失败，请重试".to_owned()),
            );
        }
        self.pending_handoff_paths = Some(list_paths(list));
        self.request_open(path)
    }

    fn discard_for_open(&mut self) -> (r: Vec<CanvasStep>)
        ensures
            (final(self)@, steps_view(r@)) == open_discarded(old(self)@),
    {
        self.open_confirm = false;
        let mut waiting: Option<String> = None;
        std::mem::swap(&mut waiting, &mut self.pending_open);
        match waiting {
            Some(path) => one_step(CanvasStep::Open(path)),
            None => no_steps(),
        }
    }

    fn cancel_open(&mut self) -> (r: Vec<CanvasStep>)
        ensures
            (final(self)@, steps_view(r@)) == open_cancelled(old(self)@),
    {
        self.pending_open = None;
        self.open_confirm = false;
        let mut waiting: Option<Vec<String>> = None;
        std::mem::swap(&mut waiting, &mut self.pending_handoff_paths);
        if waiting.is_some() {
            one_step(CanvasStep::Report(false, "".to_owned()))
        } else {
            no_steps()
        }
    }

    fn tell_files(&mut self, msg: CanvasMsg) -> (r: Vec<CanvasStep>)
        ensures
            (final(self)@, steps_view(r@)) == files_told(old(self)@, msg),
    {
        match msg {
            CanvasMsg::Picked(paths) => {
                if paths.len() > 0 {
                    self.request_open(paths[0].as_str())
                } else {
                    no_steps()
                }
            },
            CanvasMsg::ImportLayers(list) => {
                let (steps, _): (Vec<CanvasStep>, bool) = self.import_layers(&list);
                steps
            },
            CanvasMsg::HandoffImport(list) => self.import_handoff(&list),
            CanvasMsg::New(report) => {
                let (steps, _): (Vec<CanvasStep>, bool) = self.new_blank(report);
                steps
            },
            CanvasMsg::NewAndImport(list, report) => self.new_and_import(&list, report),
            CanvasMsg::OpenAndImport(path, list) => self.open_and_import(path.as_str(), &list),
            CanvasMsg::ExportPng(limit) => self.export_png(limit, false),
            CanvasMsg::ExportLibrary(limit) => self.export_png(limit, true),
            CanvasMsg::SaveComp => self.save_current(),
            CanvasMsg::SaveCompAs => self.save_as(),
            CanvasMsg::Saved(report, opening) => self.finish_save(report, opening),
            CanvasMsg::OpenDiscard => self.discard_for_open(),
            CanvasMsg::OpenCancel => self.cancel_open(),
            CanvasMsg::OpenSave => self.save_current(),
            _ => no_steps(),
        }
    }

    /// Selects everything.
    pub fn select_all(&mut self)
        ensures
            final(self)@ == all_selected(old(self)@),
    {
        if let Some((width, height)) = self.document_size() {
            if let Some(bytes) = checked_frame_bytes(width, height) {
                let count: usize = bytes / 4;
                let mut coverage: Vec<u8> = Vec::new();
                let mut i: usize = 0;
                while i < count
                    invariant
                        i <= count,
                        coverage@ == Seq::new(i as nat, |j: int| 255u8),
                    decreases count - i,
                {
                    coverage.push(255);
                    proof {
                        assert(coverage@ =~= Seq::new((i + 1) as nat, |j: int| 255u8));
                    }
                    i = i + 1;
                }
                proof {
                    assert(count as nat == width as nat * height as nat);
                }
                self.selection = Some(Selection { width, height, coverage });
            }
        }
    }

    fn upload_steps(&self, target: Option<u64>) -> (r: Vec<CanvasStep>)
        ensures
            steps_view(r@) == uploaded(self@, target),
    {
        match target {
            Some(id) => one_step(CanvasStep::Upload(id, self.is_mask(id))),
            None => no_steps(),
        }
    }

    fn tell_tools(&mut self, msg: CanvasMsg) -> (r: Vec<CanvasStep>)
        ensures
            (final(self)@, steps_view(r@)) == tools_told(old(self)@, msg),
    {
        match msg {
            CanvasMsg::Navigated => one_step(CanvasStep::SyncView),
            CanvasMsg::Tool(tool) => {
                self.set_tool(tool);
                no_steps()
            },
            CanvasMsg::BrushPress(at, ready) => {
                let began: bool = self.brush_press(at, ready);
                then_step(
                    steps_if(began, one_step(CanvasStep::Paint(at))),
                    CanvasStep::Render,
                )
            },
            CanvasMsg::BrushMove(at) => {
                let steps: Vec<CanvasStep> = then_step(
                    one_step(CanvasStep::Paint(at)),
                    CanvasStep::Render,
                );
                proof {
                    assert(steps_view(steps@) =~= seq![
                        CanvasStepView::Paint(at),
                        CanvasStepView::Render,
                    ]);
                }
                steps_if(self.reaches(at), steps)
            },
            CanvasMsg::BrushRelease => {
                let steps: Vec<CanvasStep> = match &self.stroke {
                    Some(s) => one_step(CanvasStep::Upload(s.target, s.on_mask)),
                    None => no_steps(),
                };
                self.brush_release();
                then_step(steps, CanvasStep::Render)
            },
            CanvasMsg::BrushSize(n) => {
                self.set_brush_size(n);
                no_steps()
            },
            CanvasMsg::BrushOpacity(n) => {
                self.set_brush_opacity(n);
                no_steps()
            },
            CanvasMsg::BrushHardness(n) => {
                self.set_brush_hardness(n);
                no_steps()
            },
            CanvasMsg::BrushColor(index) => {
                self.set_brush_palette(index);
                no_steps()
            },
            CanvasMsg::BrushRgb(red, green, blue) => {
                self.set_brush_rgb(red, green, blue);
                no_steps()
            },
            CanvasMsg::BrushHex(text) => {
                self.set_brush_hex(text.as_str());
                no_steps()
            },
            CanvasMsg::PickColor(sampled) => {
                self.sample_color(sampled);
                no_steps()
            },
            CanvasMsg::Undo => {
                self.undo();
                one_step(CanvasStep::Render)
            },
            CanvasMsg::Redo => {
                self.redo();
                one_step(CanvasStep::Render)
            },
            CanvasMsg::MarqueePress(at, shown) => {
                self.marquee_press(at, shown);
                steps_if(self.document.is_some(), one_step(CanvasStep::SyncView))
            },
            CanvasMsg::MarqueeMove(at) => {
                self.marquee_move(at);
                steps_if(self.marquee_start.is_some(), one_step(CanvasStep::SyncView))
            },
            CanvasMsg::MarqueeRelease(shape) => {
                let ends: bool = !(self.marquee.is_some() && self.document.is_none());
                self.marquee_release(shape);
                steps_if(ends, one_step(CanvasStep::SyncView))
            },
            CanvasMsg::WandClick(run) => match run {
                Some(run) => {
                    self.select_run(run);
                    one_step(CanvasStep::SyncView)
                },
                None => no_steps(),
            },
            CanvasMsg::SelectAll => {
                self.select_all();
                steps_if(self.document.is_some(), one_step(CanvasStep::SyncView))
            },
            CanvasMsg::Deselect => {
                self.selection = None;
                one_step(CanvasStep::SyncView)
            },
            CanvasMsg::FillSelection(painted) => {
                let steps: Vec<CanvasStep> = self.upload_steps(self.selection_target());
                self.edit_selection(painted);
                then_step(steps, CanvasStep::Render)
            },
            CanvasMsg::DeleteSelection(painted) => {
                let steps: Vec<CanvasStep> = self.upload_steps(self.selection_target());
                self.edit_selection(painted);
                then_step(steps, CanvasStep::Render)
            },
            _ => no_steps(),
        }
    }

    fn has_row(&self, index: i32) -> (r: bool)
        ensures
            r == (row_of(self@, index) is Some),
    {
        self.row(index).is_some()
    }

    fn has_group_row(&self, index: i32) -> (r: bool)
        ensures
            r == (row_of(self@, index) matches Some(node) && group_of(node) is Some),
    {
        match self.row(index) {
            Some(node) => match &node.body {
                crate::panes::canvas::tree::Body::Group(_) => true,
                _ => false,
            },
            None => false,
        }
    }

    fn tell_layers(&mut self, msg: CanvasMsg) -> (r: Vec<CanvasStep>)
        ensures
            (final(self)@, steps_view(r@)) == layers_told(old(self)@, msg),
    {
        match msg {
            CanvasMsg::LayerPick(index) => {
                let found: bool = self.has_row(index);
                self.pick_row(index);
                steps_if(found, one_step(CanvasStep::SyncView))
            },
            CanvasMsg::LayerToggleVisibility(index) => {
                let found: bool = self.has_row(index);
                self.toggle_row(index);
                steps_if(found, sync_and_render())
            },
            CanvasMsg::LayerOpacity(index, opacity) => {
                let found: bool = self.has_row(index);
                self.set_row_opacity(index, opacity);
                steps_if(found, one_step(CanvasStep::Render))
            },
            CanvasMsg::LayerAdd => {
                let open: bool = self.document.is_some();
                self.add_layer();
                steps_if(open, sync_and_render())
            },
            CanvasMsg::LayerAddGroup => {
                self.add_group();
                one_step(CanvasStep::Render)
            },
            CanvasMsg::LayerFold(index) => {
                let found: bool = self.has_group_row(index);
                self.fold_row(index);
                steps_if(found, sync_and_render())
            },
            CanvasMsg::LayerDelete(index) => {
                self.delete_row(index);
                sync_and_render()
            },
            CanvasMsg::LayerMove(index, direction) => {
                let found: bool = self.has_row(index);
                self.move_row(index, direction);
                steps_if(found, sync_and_render())
            },
            CanvasMsg::LayerDrop(source, target, below) => {
                self.move_row_onto(source, target, below);
                one_step(CanvasStep::Render)
            },
            CanvasMsg::LayerMaskAdd => {
                self.add_mask();
                one_step(CanvasStep::Render)
            },
            CanvasMsg::LayerMaskRemove => {
                self.remove_mask();
                one_step(CanvasStep::Render)
            },
            CanvasMsg::LayerMaskToggle => {
                self.toggle_mask();
                one_step(CanvasStep::Render)
            },
            CanvasMsg::LayerMaskPaint(index) => {
                self.mask_chip_click(index);
                one_step(CanvasStep::SyncView)
            },
            CanvasMsg::GradientColor(slot, index) => {
                self.set_gradient_color(slot, index);
                one_step(CanvasStep::Render)
            },
            CanvasMsg::AdjustmentAdd(kind) => {
                self.add_adjustment(kind);
                one_step(CanvasStep::Render)
            },
            CanvasMsg::AdjustmentParam(index, value) => {
                self.adjust(AdjustmentEdit::Param(index, value));
                one_step(CanvasStep::Render)
            },
            CanvasMsg::CurveSet(channel, index, x, y) => {
                self.adjust(AdjustmentEdit::CurveSet(channel, index, x, y));
                one_step(CanvasStep::Render)
            },
            CanvasMsg::CurveAdd(channel, x, y) => {
                self.adjust(AdjustmentEdit::CurveAdd(channel, x, y));
                one_step(CanvasStep::Render)
            },
            CanvasMsg::CurveRemove(channel, index) => {
                self.adjust(AdjustmentEdit::CurveRemove(channel, index));
                one_step(CanvasStep::Render)
            },
            _ => no_steps(),
        }
    }

    /// Applies a message, apart from the history.
    pub fn update_inner(&mut self, msg: CanvasMsg) -> (r: Vec<CanvasStep>)
        ensures
            (final(self)@, steps_view(r@)) == told(old(self)@, msg),
    {
        match &msg {
            CanvasMsg::Picked(_) | CanvasMsg::ImportLayers(_) | CanvasMsg::HandoffImport(_)
            | CanvasMsg::New(_) | CanvasMsg::NewAndImport(_, _) | CanvasMsg::OpenAndImport(_, _)
            | CanvasMsg::ExportPng(_) | CanvasMsg::ExportLibrary(_) | CanvasMsg::SaveComp
            | CanvasMsg::SaveCompAs | CanvasMsg::Saved(_, _) | CanvasMsg::OpenDiscard
            | CanvasMsg::OpenCancel | CanvasMsg::OpenSave => self.tell_files(msg),
            CanvasMsg::LayerPick(_) | CanvasMsg::LayerToggleVisibility(_)
            | CanvasMsg::LayerOpacity(_, _) | CanvasMsg::LayerAdd | CanvasMsg::LayerAddGroup
            | CanvasMsg::LayerFold(_) | CanvasMsg::LayerDelete(_) | CanvasMsg::LayerMove(_, _)
            | CanvasMsg::LayerDrop(_, _, _) | CanvasMsg::LayerMaskAdd
            | CanvasMsg::LayerMaskRemove | CanvasMsg::LayerMaskToggle
            | CanvasMsg::LayerMaskPaint(_) | CanvasMsg::GradientColor(_, _)
            | CanvasMsg::AdjustmentAdd(_) | CanvasMsg::AdjustmentParam(_, _)
            | CanvasMsg::CurveSet(_, _, _, _) | CanvasMsg::CurveAdd(_, _, _)
            | CanvasMsg::CurveRemove(_, _) => self.tell_layers(msg),
            _ => self.tell_tools(msg),
        }
    }

    /// Applies a message, and keeps every change in one history.
    pub fn update(&mut self, msg: CanvasMsg) -> (r: Vec<CanvasStep>)
        ensures
            (final(self)@, steps_view(r@)) == updated(old(self)@, msg),
    {
        let before: u64 = self.revision;
        let kind: Option<u8> = kind_of(&msg);
        if let Some(k) = kind {
            self.begin_history_mode(k);
        }
        let steps: Vec<CanvasStep> = self.update_inner(msg);
        if kind.is_some() {
            self.commit_history();
        }
        let more: Vec<CanvasStep> = steps_if(
            self.revision != before && self.is_modified(),
            one_step(CanvasStep::AutoSave(900)),
        );
        then_steps(steps, more)
    }
}

/// Whether a history is few and small enough to keep, what was undone with it,
/// and the change under way stands on its own.
pub open spec fn is_small(h: HistoryView) -> bool {
    &&& h.undo.len() + h.redo.len() <= HISTORY_ENTRY_LIMIT
    &&& retained_sum(h.undo) + retained_sum(h.redo) <= HISTORY_BYTE_LIMIT
    &&& h.pending matches Some((_, kind)) ==> kind == 0
}

proof fn committing_keeps_small(p: PaneView)
    requires
        p.history.undo.len() + p.history.redo.len() <= HISTORY_ENTRY_LIMIT,
        retained_sum(p.history.undo) + retained_sum(p.history.redo) <= HISTORY_BYTE_LIMIT,
        p.history.pending matches Some((before, kind)) ==> kind == 0 || before.store == p.store,
    ensures
        is_small(pane_committed(p).history),
{
    if let Some((before, kind)) = p.history.pending {
        if before.store == p.store {
            assert(before.store.same_versions(p.store)) by {
                assert(before.store.within(before.store)) by {
                    let s = before.store;
                    assert forall|i: int| 0 <= i < s.bitmaps.len() implies s.has_version(
                        (#[trigger] s.bitmaps[i]).id,
                        s.bitmaps[i].version,
                    ) by {}
                }
            }
        }
    }
    histories_stay_small(p.history, moment_of(p), p.revision);
    assert(retained_sum(Seq::empty()) == 0);
}

proof fn imports_keep_history(p: PaneView, list: Seq<IncomingView>, from: int, to: int)
    ensures
        layers_imported(p, list, from, to).history == p.history,
        layers_imported(p, list, from, to).revision == p.revision,
        layers_imported(p, list, from, to).stroke == p.stroke,
        layers_imported(p, list, from, to).document is Some == p.document is Some,
    decreases to - from,
{
    if from < to {
        imports_keep_history(p, list, from, to - 1);
    }
}

proof fn imported_history(p: PaneView, list: Seq<IncomingView>)
    ensures
        files_imported(p, list).0.history == p.history || files_imported(p, list).0.history
            == no_history(),
        p.document is Some ==> files_imported(p, list).0.history == p.history,
{
    imports_keep_history(p, list, 0, list.len() as int);
    if list.len() > 0 {
        match list[0].picture {
            Ok((whole, _)) => imports_keep_history(
                crate::panes::canvas::opening::image_opened(p, list[0].path, whole),
                list,
                1,
                list.len() as int,
            ),
            Err(_) => imports_keep_history(p, list, 1, list.len() as int),
        }
    }
}

proof fn empty_is_small()
    ensures
        is_small(no_history()),
{
    assert(retained_sum(Seq::empty()) == 0);
}

proof fn stepping_keeps_small(h: HistoryView)
    requires
        is_small(h),
    ensures
        undone(h) matches Some((after, _)) ==> is_small(after),
        redone(h) matches Some((after, _)) ==> is_small(after),
{
    if h.undo.len() > 0 {
        let grown = h.redo.push(h.undo.last());
        assert(grown.drop_last() =~= h.redo);
        assert(grown.last() == h.undo.last());
    }
    if h.redo.len() > 0 {
        let grown = h.undo.push(h.redo.last());
        assert(grown.drop_last() =~= h.undo);
        assert(grown.last() == h.redo.last());
    }
}

proof fn layers_keep_history(p: PaneView, msg: CanvasMsg)
    requires
        is_about_layers(msg),
    ensures
        layers_told(p, msg).0.history == p.history,
        layers_told(p, msg).0.stroke == p.stroke,
        layers_told(p, msg).0.document is Some == p.document is Some,
        history_kind(msg) matches Some(k) && k != 0 ==> layers_told(p, msg).0.store == p.store,
{
}

proof fn releasing_keeps_small(p: PaneView)
    requires
        is_small(p.history),
    ensures
        is_small(stroke_released(p).history),
{
    committing_keeps_small(PaneView { stroke: None, ..p });
    match p.stroke {
        Some(stroke) => match stroke.scratch {
            Some(frame) => committing_keeps_small(
                crate::panes::canvas::pane::pixels_replaced(
                    PaneView { stroke: None, ..p },
                    stroke.target,
                    frame,
                ),
            ),
            None => {},
        },
        None => {},
    }
}

proof fn tools_keep_small(p: PaneView, msg: CanvasMsg)
    requires
        is_small(p.history),
        !is_about_files(msg),
        !is_about_layers(msg),
    ensures
        history_kind(msg) is None ==> is_small(tools_told(p, msg).0.history),
        history_kind(msg) is Some ==> tools_told(p, msg).0.history == p.history && history_kind(msg)
            == Some(0u8),
{
    match msg {
        CanvasMsg::BrushPress(at, ready) => releasing_keeps_small(p),
        CanvasMsg::BrushRelease => releasing_keeps_small(p),
        CanvasMsg::Undo => stepping_keeps_small(p.history),
        CanvasMsg::Redo => stepping_keeps_small(p.history),
        _ => {},
    }
}

proof fn files_keep_small(p: PaneView, msg: CanvasMsg)
    requires
        is_small(p.history),
        is_about_files(msg),
    ensures
        history_kind(msg) is None ==> is_small(files_told(p, msg).0.history),
        history_kind(msg) is Some ==> history_kind(msg) == Some(0u8) && (files_told(
            p,
            msg,
        ).0.history == p.history || files_told(p, msg).0.history == no_history()),
{
    empty_is_small();
    match msg {
        CanvasMsg::Picked(paths) => releasing_keeps_small(p),
        CanvasMsg::OpenAndImport(path, list) => releasing_keeps_small(
            PaneView { pending_handoff_paths: Some(paths_of(incoming_views(list@))), ..p },
        ),
        CanvasMsg::ImportLayers(list) => imported_history(p, incoming_views(list@)),
        CanvasMsg::HandoffImport(list) => imported_history(p, incoming_views(list@)),
        CanvasMsg::NewAndImport(list, report) => {
            let (blank, steps, made) = blank_asked(p, opt_report(report));
            if made {
                let open = pane_begun(blank, 0);
                imported_history(open, incoming_views(list@));
                committing_keeps_small(files_imported(open, incoming_views(list@)).0);
            }
        },
        _ => {},
    }
}

/// Whatever happens to the canvas, its history stays few and small enough.
pub proof fn messages_keep_histories_small(p: PaneView, msg: CanvasMsg)
    requires
        is_small(p.history),
    ensures
        is_small(updated(p, msg).0.history),
{
    empty_is_small();
    match history_kind(msg) {
        Some(k) => {
            let open = pane_begun(p, k);
            let done = told(open, msg).0;
            if is_about_layers(msg) {
                layers_keep_history(open, msg);
                assert(!is_about_files(msg));
            } else if is_about_files(msg) {
                files_keep_small(open, msg);
            } else {
                tools_keep_small(open, msg);
            }
            committing_keeps_small(done);
        },
        None => {
            if is_about_layers(msg) {
                layers_keep_history(p, msg);
                assert(!is_about_files(msg));
            } else if is_about_files(msg) {
                files_keep_small(p, msg);
            } else {
                tools_keep_small(p, msg);
            }
        },
    }
}

/// An edit that changed something can be taken back: the document, its pixels
/// and the picked layer are then what they were.
#[verifier::rlimit(60)]
pub proof fn edits_are_taken_back(p: PaneView, msg: CanvasMsg)
    requires
        history_kind(msg) == Some(0u8),
        p.document is Some,
        p.stroke is None,
        p.history.pending is None,
        ({
            let done = told(pane_begun(p, 0), msg).0;
            moment_of(done) is Some && !same_moment(moment_of(p)->0, moment_of(done)->0)
                && retained_between(p.store, done.store) <= HISTORY_BYTE_LIMIT
        }),
    ensures
        moment_of(pane_undone(updated(p, msg).0)) == moment_of(p),
        moment_of(pane_redone(pane_undone(updated(p, msg).0))) == moment_of(updated(p, msg).0),
{
    let open = pane_begun(p, 0);
    let done = told(open, msg).0;
    match msg {
        CanvasMsg::ImportLayers(list) => {
            imports_keep_history(open, incoming_views(list@), 0, list@.len() as int);
        },
        CanvasMsg::HandoffImport(list) => {
            imports_keep_history(open, incoming_views(list@), 0, list@.len() as int);
        },
        _ => {},
    }
    assert(done.history == open.history);
    assert(done.stroke is None);
    last_changes_can_be_undone(done.history, moment_of(done)->0, done.revision);
    let after = updated(p, msg).0;
    let entry = after.history.undo.last();
    assert(entry.before == moment_of(p)->0);
    last_entry(done);
    crate::panes::canvas::history::changes_are_undone_and_redone(after.history);
}

proof fn last_entry(p: PaneView)
    requires
        moment_of(p) is Some,
        p.history.pending matches Some((before, kind)) && kind == 0 && !same_moment(
            before,
            moment_of(p)->0,
        ) && retained_between(before.store, p.store) <= HISTORY_BYTE_LIMIT,
    ensures
        pane_committed(p).history.undo.len() > 0,
        Some(pane_committed(p).history.undo.last().after) == moment_of(pane_committed(p)),
{
    let (before, kind) = p.history.pending->0;
    let now = moment_of(p)->0;
    let made = crate::panes::canvas::history::EntryView {
        before,
        after: crate::panes::canvas::history::SnapshotView {
            revision: bumped(p.revision),
            ..now
        },
        retained_bytes: retained_between(before.store, now.store),
        coalesce_kind: kind,
    };
    crate::panes::canvas::history::trimmed_keeps_the_last(p.history.undo.push(made));
}

/// A drop of no row or onto no row, a layer that is dropped onto itself, and a
/// group that is dropped onto what is inside it, change nothing.
pub proof fn groups_stay_out_of_themselves(p: PaneView, source: i32, target: i32, below: bool)
    requires
        match (row_of(p, source), row_of(p, target)) {
            (Some(moving), Some(onto)) => moving.id == onto.id || (
            crate::panes::canvas::tree::find_in(layers_of(p), moving.id) matches Some(node)
                && crate::panes::canvas::edits::holds(node, onto.id)),
            _ => true,
        },
    ensures
        row_dropped(p, source, target, below) == p,
{
}

/// Once a row is deleted the store holds only bitmaps that the document names.
pub proof fn deleted_layers_leave_no_pixels(p: PaneView, index: i32)
    requires
        row_of(p, index) is Some,
    ensures
        ({
            let after = row_deleted(p, index);
            forall|i: int|
                0 <= i < after.store.bitmaps.len()
                    ==> crate::panes::canvas::tree::pixel_ids(layers_of(after)).contains(
                    (#[trigger] after.store.bitmaps[i]).id,
                )
        }),
{
    let after = row_deleted(p, index);
    let ids = crate::panes::canvas::tree::pixel_ids(layers_of(after));
    crate::lists::kept_satisfies(p.store.bitmaps, crate::panes::canvas::store::is_named(ids));
    assert(after.store.bitmaps == crate::lists::kept(
        p.store.bitmaps,
        crate::panes::canvas::store::is_named(ids),
    ));
}

/// Folding a row twice gives back what was folded, as long as the row stays
/// that of the group.
pub proof fn folds_come_undone(p: PaneView, index: i32)
    requires
        row_of(p, index) matches Some(node) && row_of(row_folded(p, index), index) == Some(node),
    ensures
        row_folded(row_folded(p, index), index) == p,
{
    let node = row_of(p, index)->0;
    assert(p.collapsed.insert(node.id).remove(node.id) =~= p.collapsed
        || p.collapsed.contains(node.id));
    assert(p.collapsed.remove(node.id).insert(node.id) =~= p.collapsed
        || !p.collapsed.contains(node.id));
}

} // verus!
