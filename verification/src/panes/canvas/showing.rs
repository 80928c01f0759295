//! What the panel shows of a canvas, what is made of the files that it reads
//! and writes, and what the automation does to its rows, seen from outside.

use crate::panes::canvas::adjustments::{knob_name, knob_range};
use crate::panes::canvas::apart::{is_apart, layers_apart_are_distinct};
use crate::panes::canvas::automation::{adopted, mask_laid, row_active};
use crate::panes::canvas::codec::{framed, longest_side, png_decoded, PngColour, PngView};
use crate::panes::canvas::edits::{holds, NodeEditView};
use crate::panes::canvas::frame::{frame_bytes, FrameView};
use crate::panes::canvas::layers::{
    layers_of, mask_added, mask_removed, mask_toggled, previewed, row_shown,
};
use crate::panes::canvas::messages::{updated, CanvasMsg};
use crate::panes::canvas::moves::{
    adopted_nodes_come_last, distinct_rows_can_be_dropped, found_edited, is_placed,
};
use crate::panes::canvas::opening::{
    export_ended, image_read, project_read, show_checked, CanvasStepView, ProjectView,
};
use crate::panes::canvas::package::{
    bitmaps_fault, document_fault, safe_text, sibling_of, trim_end_text,
};
use crate::panes::canvas::pane::{pane_begun, preview_stays, row_of, PaneView};
use crate::panes::canvas::tree::{
    find_in, group_of, AdjustmentKind, BodyView, DocumentView, LayerMask, NodeView,
};
use crate::paths::{file_name_of, parent_of, stem_of};
use crate::text::control;
use vstd::prelude::*;

verus! {

/// The panel shows a row as its node is: its name, whether it is hidden, its
/// opacity, whether it is the active one, and how its mask stands.
pub proof fn rows_show_their_nodes(p: PaneView, node: NodeView, depth: u64)
    ensures
        ({
            let row = row_shown(p, (node, depth));
            &&& row.id == node.id && row.name == node.name && row.depth == depth
            &&& row.hidden == node.hidden
            &&& row.opacity == node.opacity
            &&& row.active <==> p.active == Some(node.id)
            &&& row.group <==> node.body is Group
            &&& row.expanded <==> node.body is Group && !p.collapsed.contains(node.id)
            &&& row.masked <==> node.mask is Some
            &&& node.mask matches Some(mask) ==> row.enabled == mask.enabled
            &&& row.painting <==> p.paint_mask && p.active == Some(node.id)
        }),
{
}

/// The previews of a row are drawn of its own pixels, first those of its
/// picture and then those of its mask.
pub proof fn previews_are_of_the_row(node: NodeView, pixels: u64)
    ensures
        node.body == BodyView::Image(pixels) ==> previewed(node).0 == Some(pixels),
        node.body is Group || node.body is Adjustment ==> previewed(node).0 is None,
        node.mask matches Some(mask) ==> previewed(node).1 == Some(mask.pixels),
        node.mask is None ==> previewed(node).1 is None,
{
}

/// The knobs of an adjustment are named after what they turn, and go as far as
/// that makes sense: four stops either way, half a turn of hue either way, a
/// gamma from a tenth to three, and all else between nothing and the whole, or
/// between the whole taken away and the whole added.
pub proof fn knobs_are_named_after_what_they_turn()
    ensures
        knob_name(AdjustmentKind::Exposure, 0) == "Stops"@,
        knob_range(AdjustmentKind::Exposure, 0) == (-4_000_000i64, 4_000_000i64),
        knob_name(AdjustmentKind::Levels, 0) == "In black"@,
        knob_name(AdjustmentKind::Levels, 1) == "In white"@,
        knob_name(AdjustmentKind::Levels, 2) == "Gamma"@,
        knob_name(AdjustmentKind::Levels, 3) == "Out black"@,
        knob_name(AdjustmentKind::Levels, 4) == "Out white"@,
        knob_range(AdjustmentKind::Levels, 2) == (100_000i64, 3_000_000i64),
        forall|i: int|
            i != 2 ==> #[trigger] knob_range(AdjustmentKind::Levels, i) == (0i64, 1_000_000i64),
        knob_name(AdjustmentKind::HueSaturation, 0) == "Hue"@,
        knob_name(AdjustmentKind::HueSaturation, 1) == "Saturation"@,
        knob_name(AdjustmentKind::HueSaturation, 2) == "Lightness"@,
        knob_range(AdjustmentKind::HueSaturation, 0) == (-180_000_000i64, 180_000_000i64),
        forall|i: int|
            i != 0 ==> #[trigger] knob_range(AdjustmentKind::HueSaturation, i) == (
                -1_000_000i64,
                1_000_000i64,
            ),
{
}

/// The row that is named is found among the layers.
proof fn row_is_there(p: PaneView, index: i32)
    requires
        is_apart(p),
    ensures
        row_of(p, index) matches Some(row) ==> find_in(layers_of(p), row.id) == Some(row)
            && is_placed(layers_of(p), row.id),
{
    layers_apart_are_distinct(p);
    distinct_rows_can_be_dropped(p, index, index);
    if let Some(row) = row_of(p, index) {
        crate::panes::canvas::moves::distinct_nodes_are_placed(layers_of(p), row.id, row.id);
    }
}

/// A row that is moved into a group by its number becomes the last child of
/// the group, with all that is below it. A row that is no group takes nothing
/// in, and the layers stay.
pub proof fn rows_are_taken_into_groups(p: PaneView, row: i32, into: i32)
    requires
        is_apart(p),
        p.document is Some,
        row_of(p, row) is Some,
        row_of(p, into) is Some,
    ensures
        ({
            let moving = row_of(p, row)->0;
            let onto = row_of(p, into)->0;
            let now = adopted(p, row, Some(into));
            &&& group_of(onto) is None ==> now.document == p.document
            &&& group_of(onto) is Some && !holds(moving, onto.id) && group_of(onto)->0.len()
                <= usize::MAX ==> (find_in(layers_of(now), onto.id) matches Some(found)
                && group_of(found) is Some && group_of(found)->0.len() > 0
                && group_of(found)->0.last() == moving)
            &&& now.store == p.store && now.active == p.active
        }),
{
    row_is_there(p, row);
    row_is_there(p, into);
    let open = pane_begun(p, 0);
    assert(row_of(open, row) == row_of(p, row));
    assert(row_of(open, into) == row_of(p, into));
    let moving = row_of(p, row)->0;
    let onto = row_of(p, into)->0;
    if group_of(onto) is Some && !holds(moving, onto.id) && group_of(onto)->0.len()
        <= usize::MAX {
        adopted_nodes_come_last(layers_of(p), moving.id, onto.id);
    }
}

/// A mask that is laid on a row by its number goes to the node of that row, as
/// one that is laid on the active node does.
pub proof fn masks_are_laid_on_the_row(p: PaneView, row: i32)
    requires
        row_of(p, row) is Some,
    ensures
        ({
            let picked = updated(p, CanvasMsg::LayerPick(row)).0;
            let id = row_of(p, row)->0.id;
            &&& mask_laid(p, row) == mask_added(picked)
            &&& picked.active == Some(id)
            &&& row_active(p, row).active == Some(id)
            &&& row_active(p, row).document == p.document
        }),
{
}

/// A mask that is taken off a row by its number, or switched, is the one of
/// that row, and nothing else of the row changes.
pub proof fn masks_of_rows_go_and_come_back(p: PaneView, row: i32)
    requires
        is_apart(p),
        p.document is Some,
        row_of(p, row) is Some,
    ensures
        ({
            let node = row_of(p, row)->0;
            let bare = mask_removed(row_active(p, row));
            let switched = mask_toggled(row_active(p, row));
            &&& find_in(layers_of(bare), node.id) == Some(NodeView { mask: None, ..node })
            &&& node.mask matches Some(mask) ==> find_in(layers_of(switched), node.id) == Some(
                NodeView {
                    mask: Some(LayerMask { pixels: mask.pixels, enabled: !mask.enabled }),
                    ..node
                },
            )
        }),
{
    row_is_there(p, row);
    let node = row_of(p, row)->0;
    found_edited(
        layers_of(p),
        node.id,
        NodeEditView::Mask(None),
    );
    found_edited(
        layers_of(p),
        node.id,
        NodeEditView::ToggleMask,
    );
}

/// A picture that is read becomes a canvas of its size with one layer, which
/// bears its name and its pixels, and is active. What cannot be read changes
/// nothing, and is told once.
pub proof fn pictures_that_are_read_are_opened(
    p: PaneView,
    path: Seq<char>,
    frame: FrameView,
    error: Seq<char>,
)
    ensures
        ({
            let now = image_read(p, path, Ok(frame)).0;
            let (same, told) = image_read(p, path, Err(error));
            &&& now.document matches Some(d) && d.width == frame.width && d.height == frame.height
                && d.children.len() == 1 && d.children[0].body == BodyView::Image(1)
                && d.children[0].opacity == 1_000_000 && !d.children[0].hidden
                && (stem_of(path) matches Some(stem) ==> d.children[0].name == stem)
            &&& now.layer == Some(1u64) && now.project_path is None && now.selection is None
            &&& file_name_of(path) matches Some(name) ==> now.name == name
            &&& same.document == p.document && same.store == p.store
            &&& !p.failed ==> told == seq![
                CanvasStepView::Notify("Could not open "@ + error, true),
            ]
            &&& p.failed ==> told.len() == 0
            &&& image_read(same, path, Err(error)).1.len() == 0
        }),
{
}

/// A project that is read is opened under its path and its name, without
/// changes, and remembered; the pictures that waited for it are handed over.
/// Where it cannot be read they are given up, and that is told.
pub proof fn projects_that_are_read_are_opened(
    p: PaneView,
    path: Seq<char>,
    project: ProjectView,
    error: Seq<char>,
)
    ensures
        ({
            let (now, steps) = project_read(p, path, Ok(project));
            let (same, told) = project_read(p, path, Err(error));
            &&& now.document == Some(project.document) && now.name == project.name
                && now.project_path == Some(path)
            &&& now.revision == now.saved_revision && now.pending_handoff_paths is None
            &&& steps[2] == CanvasStepView::Remember(path)
            &&& p.pending_handoff_paths matches Some(paths) ==> steps.last()
                == CanvasStepView::Handoff(paths) && told.len() > 0 && told[0]
                == CanvasStepView::Report(false, error)
            &&& p.pending_handoff_paths is None ==> steps.len() == 4
            &&& same.document == p.document && same.pending_handoff_paths is None
        }),
{
}

/// An export that is written is told, or registered where it goes to the
/// library; one that is not written is told as a failure.
pub proof fn exports_end_where_they_went(path: Seq<char>, error: Seq<char>)
    ensures
        export_ended(path, true, Ok(())) == seq![CanvasStepView::Register(path)],
        export_ended(path, false, Ok(())) == seq![CanvasStepView::Notify("图片已导出"@, false)],
        forall|library: bool|
            #[trigger] export_ended(path, library, Err(error)) == seq![
                CanvasStepView::Notify("Canvas failed: "@ + error, true),
            ],
{
}

/// A canvas is shown where there is one and the device takes its size.
pub proof fn canvases_that_fit_are_shown(p: PaneView, limit: u32)
    ensures
        ({
            let (now, told, shown) = show_checked(p, Some(limit));
            &&& shown <==> p.document is Some && 0 < p.document->0.width <= limit && 0
                < p.document->0.height <= limit
            &&& shown ==> now == p && told.len() == 0
            &&& !shown ==> now.document == p.document && now.store == p.store
        }),
{
}

/// A document is opened where it has an area, the device takes its size and its
/// tree is in order, and its bitmaps where they are not too many and hold at
/// most 512 MB together.
pub proof fn documents_in_order_are_opened(
    d: DocumentView,
    limit: u32,
    message: Seq<char>,
    bitmaps: nat,
)
    ensures
        document_fault(d, Some(limit), Ok(())) is None <==> 0 < d.width <= limit && 0 < d.height
            <= limit,
        document_fault(d, Some(limit), Err(message)) is Some,
        frame_bytes(d.width, d.height) <= usize::MAX ==> (bitmaps_fault(d, bitmaps) is None
            ==> frame_bytes(d.width, d.height) > 0 && frame_bytes(d.width, d.height) * bitmaps
            <= 536_870_912),
{
}

/// A name is made safe letter by letter: what parts folders, and what cannot
/// be seen, becomes a line; all else stays.
pub proof fn names_are_made_safe(s: Seq<char>, i: int)
    requires
        0 <= i < s.len(),
    ensures
        safe_text(s).len() == s.len(),
        s[i] == '/' || s[i] == '\\' || control(s[i]) ==> safe_text(s)[i] == '_',
        s[i] != '/' && s[i] != '\\' && !control(s[i]) ==> safe_text(s)[i] == s[i],
        !safe_text(s).contains('/'),
{
    if safe_text(s).contains('/') {
        let k = choose|k: int| 0 <= k < safe_text(s).len() && safe_text(s)[k] == '/';
        assert(safe_text(s)[k] == crate::panes::canvas::package::safe_char(s[k]));
    }
}

/// A text keeps nothing of what is taken off its end.
pub proof fn endings_are_taken_off(s: Seq<char>, p: Seq<char>)
    requires
        p.len() > 0,
    ensures
        trim_end_text(s + p, p) == trim_end_text(s, p),
        !crate::text::has_suffix(trim_end_text(s, p), p),
    decreases s.len(),
{
    let whole = s + p;
    assert(whole.subrange(whole.len() - p.len(), whole.len() as int) =~= p);
    assert(whole.take(whole.len() - p.len()) =~= s);
    if crate::text::has_suffix(s, p) {
        let front = s.take(s.len() - p.len());
        endings_are_taken_off(front, p);
    }
}

/// A file beside another lies in the same folder and differs in its ending.
pub proof fn siblings_lie_in_the_same_folder(path: Seq<char>, extension: Seq<char>, stem: Seq<char>)
    requires
        stem_of(path) == Some(stem),
        stem.len() > 0,
        stem[0] != '/',
        parent_of(path).len() > 0,
        parent_of(path).last() != '/',
    ensures
        sibling_of(path, extension) == parent_of(path) + seq!['/'] + (stem + seq!['.'] + extension),
{
    reveal_strlit(".");
    assert("."@ =~= seq!['.']);
    let name = stem + "."@ + extension;
    assert(name[0] == stem[0]);
    crate::paths::names_follow_their_folder(parent_of(path), name);
}

/// A picture is read as it lies in the file: in colour as it is, in grey with
/// the grey in all three colours; one that is empty, or does not fit the
/// device, is refused.
pub proof fn files_are_read_as_they_lie(
    size: (u32, u32),
    bytes: Seq<u8>,
    limit: u32,
    error: Seq<char>,
)
    requires
        bytes.len() == frame_bytes(size.0, size.1),
        frame_bytes(size.0, size.1) <= isize::MAX,
    ensures
        ({
            let picture = PngView {
                width: size.0,
                height: size.1,
                colour: PngColour::Rgba,
                bytes,
            };
            let read = framed(png_decoded(Ok(size), Ok(picture), Some(limit)));
            &&& read matches Ok(frame) ==> frame == (FrameView {
                width: size.0,
                height: size.1,
                pixels: bytes,
            })
            &&& read is Ok <==> 0 < size.0 <= limit && 0 < size.1 <= limit
            &&& framed(png_decoded(Err(error), Ok(picture), Some(limit))) == Err::<
                FrameView,
                Seq<char>,
            >(error)
            &&& longest_side(Some(limit)) == limit && longest_side(None) == 32768
        }),
{
    assert(frame_bytes(size.0, size.1) == (size.0 as nat * size.1 as nat) * 4);
}

/// A preview is drawn anew once its pixels changed, unless the stroke that
/// changes them is still under way.
pub proof fn changed_pixels_are_drawn_anew(p: PaneView, id: u64, mask: bool, drawn: (u64, u64, bool))
    requires
        p.stroke is None,
        p.store.at(id) is Some,
    ensures
        p.store.at(id)->0.version != drawn.1 ==> !preview_stays(p, id, mask, drawn),
        drawn.2 != mask ==> !preview_stays(p, id, mask, drawn),
        p.pixel_revisions.contains_key(id) && p.pixel_revisions[id] != drawn.0 ==> !preview_stays(
            p,
            id,
            mask,
            drawn,
        ),
        p.pixel_revisions.contains_key(id) && p.pixel_revisions[id] == drawn.0 && drawn.2 == mask
            && p.store.at(id)->0.version == drawn.1 ==> preview_stays(p, id, mask, drawn),
{
}

} // verus!
