//! What the tools, the brush, the selection and the files of a canvas do, seen
//! from outside.

use crate::panes::canvas::arranging::clamped;
use crate::panes::canvas::layers::{is_addressable, layers_of};
use crate::panes::canvas::edits::masks;
use crate::panes::canvas::frame::{
    centred_view, expanded, mask_value, place_bounds, places_are_pixels, thumbnail_byte, FrameView,
};
use crate::panes::canvas::store::replaced_pixels_are_found;
use crate::panes::canvas::messages::{updated, CanvasMsg};
use crate::panes::canvas::opening::{
    autosave_begun, autosave_ended, files_imported, import_fault, layers_imported, or_empty,
    CanvasStepView, IncomingView,
};
use crate::panes::canvas::pane::{
    active_node, palette_color, palette_place, Brush, PaneView, Point, Region, StrokeView,
};
use crate::panes::canvas::tree::Rgb;
use vstd::prelude::*;

verus! {

/// A tool that is taken up is the one that is held, the eraser alone erases,
/// and neither the layers nor the rest of the brush change.
pub proof fn tools_are_taken_up(p: PaneView, tool: i32)
    ensures
        ({
            let now = updated(p, CanvasMsg::Tool(tool)).0;
            &&& now.tool == clamped(tool as int, 0, 6)
            &&& now.brush.erasing <==> tool == 4
            &&& now.document == p.document && now.store == p.store
            &&& now.brush.diameter == p.brush.diameter && now.brush.opacity == p.brush.opacity
                && now.brush.hardness == p.brush.hardness && now.brush.color == p.brush.color
        }),
{
}

/// The size, the opacity and the hardness of the brush are set each for itself,
/// to the number that is given, held to its range.
pub proof fn brushes_get_what_is_set(p: PaneView, n: i64)
    ensures
        ({
            let size = updated(p, CanvasMsg::BrushSize(n)).0;
            let opacity = updated(p, CanvasMsg::BrushOpacity(n)).0;
            let hardness = updated(p, CanvasMsg::BrushHardness(n)).0;
            &&& size.brush.diameter == clamped(n as int, 1_000_000, 2_000_000_000)
            &&& size == (PaneView {
                brush: Brush { diameter: size.brush.diameter, ..p.brush },
                ..p
            })
            &&& opacity.brush.opacity == clamped(n as int, 10_000, 1_000_000)
            &&& opacity == (PaneView {
                brush: Brush { opacity: opacity.brush.opacity, ..p.brush },
                ..p
            })
            &&& hardness.brush.hardness == clamped(n as int, 0, 1_000_000)
            &&& hardness == (PaneView {
                brush: Brush { hardness: hardness.brush.hardness, ..p.brush },
                ..p
            })
        }),
{
}

/// The place of a colour in the palette is where the palette has it.
proof fn palette_places(color: Rgb, from: int)
    requires
        0 <= from <= 8,
    ensures
        ({
            let at = palette_place(color, from);
            &&& at == -1 || (from <= at < 8 && palette_color(at as int) == color)
            &&& at == -1 ==> forall|i: int| from <= i < 8 ==> #[trigger] palette_color(i) != color
        }),
    decreases 8 - from,
{
    if from < 8 {
        palette_places(color, from + 1);
    }
}

/// A colour of the palette that is chosen is the one that the brush paints
/// with, and shown as chosen. A place that the palette does not have chooses
/// nothing.
pub proof fn palette_colours_are_chosen(p: PaneView, index: usize)
    ensures
        ({
            let now = updated(p, CanvasMsg::BrushColor(index)).0;
            &&& index >= 8 ==> now == p
            &&& index < 8 ==> now.brush_color_index == index && !now.brush.erasing
                && now.brush.diameter == p.brush.diameter && now.brush.opacity == p.brush.opacity
                && now.brush.hardness == p.brush.hardness && now.document == p.document
            &&& index == 0 ==> now.brush.color == (Rgb { red: 30, green: 30, blue: 34 })
            &&& index == 1 ==> now.brush.color == (Rgb { red: 235, green: 235, blue: 240 })
            &&& index == 2 ==> now.brush.color == (Rgb { red: 212, green: 59, blue: 55 })
            &&& index == 3 ==> now.brush.color == (Rgb { red: 235, green: 152, blue: 47 })
            &&& index == 4 ==> now.brush.color == (Rgb { red: 235, green: 205, blue: 62 })
            &&& index == 5 ==> now.brush.color == (Rgb { red: 88, green: 168, blue: 78 })
            &&& index == 6 ==> now.brush.color == (Rgb { red: 58, green: 118, blue: 205 })
            &&& index == 7 ==> now.brush.color == (Rgb { red: 138, green: 78, blue: 205 })
        }),
{
}

/// A colour that is picked from the picture, or set by its three parts, is the
/// one that the brush paints with. The eraser gives way to the brush, any
/// other tool stays. The palette shows the colour as chosen where it has it,
/// and none otherwise.
pub proof fn colours_that_are_set_are_painted_with(
    p: PaneView,
    rgba: [u8; 4],
    red: u8,
    green: u8,
    blue: u8,
)
    ensures
        ({
            let picked = updated(p, CanvasMsg::PickColor(Some(rgba))).0;
            let set = updated(
                p,
                CanvasMsg::BrushRgb(
                    (red * 1_000_000) as i64,
                    (green * 1_000_000) as i64,
                    (blue * 1_000_000) as i64,
                ),
            ).0;
            &&& picked.brush.color == (Rgb { red: rgba[0], green: rgba[1], blue: rgba[2] })
            &&& set.brush.color == (Rgb { red, green, blue })
            &&& p.tool == 4 ==> picked.tool == 3 && set.tool == 3 && !picked.brush.erasing
                && !set.brush.erasing
            &&& p.tool != 4 ==> picked.tool == p.tool && set.tool == p.tool
            &&& picked.document == p.document && set.document == p.document
            &&& 0 <= set.brush_color_index < 8 ==> palette_color(set.brush_color_index as int)
                == set.brush.color
            &&& !(0 <= set.brush_color_index < 8) ==> set.brush_color_index == -1 && forall|i: int|
                0 <= i < 8 ==> #[trigger] palette_color(i) != set.brush.color
            &&& updated(p, CanvasMsg::PickColor(None)).0 == p
        }),
{
    palette_places(Rgb { red, green, blue }, 0);
    assert((red * 1_000_000 + 500_000) / 1_000_000 == red);
    assert((green * 1_000_000 + 500_000) / 1_000_000 == green);
    assert((blue * 1_000_000 + 500_000) / 1_000_000 == blue);
}

/// A part of a colour that lies between two whole numbers is rounded to the
/// nearer, and one outside of the range of a byte is held to it.
pub proof fn parts_of_colours_are_rounded(p: PaneView, n: i64)
    requires
        n <= i64::MAX - 500_000,
    ensures
        ({
            let set = updated(p, CanvasMsg::BrushRgb(n, 0, 0)).0.brush.color;
            &&& set.green == 0 && set.blue == 0
            &&& n <= 0 ==> set.red == 0
            &&& n >= 255_000_000 ==> set.red == 255
            &&& 0 <= n <= 255_000_000 ==> set.red * 1_000_000 - 500_000 <= n < set.red * 1_000_000
                + 500_000
        }),
{
}

/// Everything that is selected is the whole picture, fully; nothing is
/// selected any more once the selection is given up.
pub proof fn everything_and_nothing_are_selected(p: PaneView)
    requires
        p.document is Some,
        is_addressable(p.document->0),
    ensures
        ({
            let d = p.document->0;
            let all = updated(p, CanvasMsg::SelectAll).0;
            &&& all.selection matches Some(cover) && cover.width == d.width && cover.height
                == d.height && cover.coverage.len() == d.width as nat * d.height as nat && forall|
                i: int,
            |
                0 <= i < cover.coverage.len() ==> #[trigger] cover.coverage[i] == 255
            &&& all == (PaneView { selection: all.selection, ..p })
            &&& updated(p, CanvasMsg::Deselect).0 == (PaneView { selection: None, ..p })
        }),
{
}

/// A marquee is the box between the point where it began and the one where it
/// is now, whichever way it was drawn.
pub proof fn marquees_span_what_was_drawn(p: PaneView, at: Point, shown: Point, to: Point)
    requires
        p.document is Some,
    ensures
        ({
            let pressed = updated(p, CanvasMsg::MarqueePress(at, shown)).0;
            let moved = updated(pressed, CanvasMsg::MarqueeMove(to)).0;
            &&& pressed.marquee == Some(Region { x: shown.x, y: shown.y, width: 0, height: 0 })
            &&& moved.marquee matches Some(r) && {
                &&& r.x <= at.x && r.x <= to.x && (r.x == at.x || r.x == to.x)
                &&& r.y <= at.y && r.y <= to.y && (r.y == at.y || r.y == to.y)
                &&& (r.x + r.width == at.x || r.x + r.width == to.x) && r.x + r.width >= at.x && r.x
                    + r.width >= to.x
                &&& (r.y + r.height == at.y || r.y + r.height == to.y) && r.y + r.height >= at.y
                    && r.y + r.height >= to.y
            }
            &&& moved.selection == p.selection
            &&& updated(moved, CanvasMsg::MarqueeRelease(None)).0.marquee is None
            &&& updated(moved, CanvasMsg::MarqueeRelease(None)).0.selection == p.selection
        }),
{
}

/// Filling and emptying a selection changes the pixels that are painted on,
/// to those that are given, and no others; without a selection nothing changes.
pub proof fn selections_change_the_painted_pixels(
    p: PaneView,
    painted: crate::panes::canvas::frame::Frame,
    target: u64,
    other: u64,
)
    requires
        p.stroke is None,
        crate::panes::canvas::pane::target_of(p) == Some(target),
        p.store.frame(target) is Some,
        other != target,
        !masks(layers_of(p), target),
    ensures
        ({
            let filled = updated(p, CanvasMsg::FillSelection(painted)).0;
            let emptied = updated(p, CanvasMsg::DeleteSelection(painted)).0;
            &&& filled.document == p.document && emptied.document == p.document
            &&& p.selection is None ==> filled.store == p.store && emptied.store == p.store
            &&& p.selection is Some ==> filled.store == p.store.replaced(
                target,
                painted@,
                p.versions,
            ) && emptied.store == filled.store
            &&& filled.selection == p.selection && emptied.selection == p.selection
        }),
{
}

/// A stroke that ends leaves its pixels on the layer, or the mask, that it was
/// drawn on, and every other one as it was. Nothing is being drawn then.
pub proof fn strokes_end_on_what_they_were_drawn_on(p: PaneView, stroke: StrokeView, other: u64)
    requires
        p.stroke == Some(stroke),
        stroke.scratch is Some,
        p.store.frame(stroke.target) is Some,
        other != stroke.target,
    ensures
        ({
            let now = updated(p, CanvasMsg::BrushRelease).0;
            &&& now.stroke is None
            &&& now.document == p.document
            &&& now.store.frame(stroke.target) == stroke.scratch
            &&& now.store.frame(other) == p.store.frame(other)
        }),
{
    replaced_pixels_are_found(p.store, stroke.target, stroke.scratch->0, p.versions, other);
}

/// A stroke begins where the brush is put down on the canvas, has pixels to
/// paint on and can paint: on the mask of the active node while masks are
/// painted, and on its own pixels otherwise. It begins with what is there.
pub proof fn strokes_begin_on_the_canvas(p: PaneView, at: Point, ready: bool)
    requires
        p.document is Some,
        p.stroke is None,
    ensures
        ({
            let d = p.document->0;
            let now = updated(p, CanvasMsg::BrushPress(at, ready)).0;
            let on_canvas = 0 <= at.x < d.width * 1_000_000 && 0 <= at.y < d.height * 1_000_000;
            let mask = match active_node(p) {
                Some(node) => match node.mask {
                    Some(mask) => Some(mask.pixels),
                    None => None,
                },
                None => None,
            };
            let target = if p.paint_mask && mask is Some {
                mask
            } else {
                p.layer
            };
            &&& now.stroke is Some <==> on_canvas && ready && target is Some
            &&& now.stroke matches Some(stroke) ==> Some(stroke.target) == target && stroke.base
                == p.store.frame(stroke.target) && stroke.scratch == stroke.base
            &&& now.document == p.document && now.store == p.store
        }),
{
}

/// Pictures are imported all or none: where one cannot be read nothing
/// changes, and the first of those is named.
pub proof fn unreadable_pictures_hold_back_all(p: PaneView, list: Seq<IncomingView>, at: int)
    requires
        0 <= at < list.len(),
        list[at].picture is Err,
        forall|i: int| 0 <= i < at ==> (#[trigger] list[i]).picture is Ok,
    ensures
        ({
            let (now, steps, success) = files_imported(p, list);
            &&& now == p
            &&& !success
            &&& steps == seq![
                CanvasStepView::Notify(
                    "无法导入 "@ + list[at].path + "："@ + list[at].picture->Err_0,
                    true,
                ),
            ]
        }),
{
    first_fault(list, 0, at);
}

proof fn first_fault(list: Seq<IncomingView>, from: int, at: int)
    requires
        0 <= from <= at <= list.len(),
        forall|i: int| from <= i < at ==> (#[trigger] list[i]).picture is Ok,
    ensures
        import_fault(list, from) == import_fault(list, at),
    decreases at - from,
{
    if from < at {
        first_fault(list, from + 1, at);
    }
}

/// Pictures that are imported become layers, one each, named after their files
/// and in their order, each in front of the one before and all in front of
/// what was there. The last one is then active.
pub proof fn imported_pictures_become_layers(p: PaneView, list: Seq<IncomingView>, k: int)
    requires
        p.document is Some,
        is_addressable(p.document->0),
        0 <= k < list.len(),
        forall|i: int| 0 <= i < list.len() ==> (#[trigger] list[i]).picture is Ok,
    ensures
        ({
            let (now, steps, success) = files_imported(p, list);
            let before = layers_of(p);
            let layers = layers_of(now);
            &&& success
            &&& layers.len() == before.len() + list.len()
            &&& layers.take(before.len() as int) == before
            &&& layers[before.len() + k].name == or_empty(
                crate::paths::stem_of(list[k].path),
            )
            &&& layers[before.len() + k].body is Image
            &&& !layers[before.len() + k].hidden
            &&& now.active == Some(layers.last().id)
            &&& layers.last().body == crate::panes::canvas::tree::BodyView::Image(now.layer->0)
            &&& now.document->0.width == p.document->0.width && now.document->0.height
                == p.document->0.height
        }),
{
    first_fault(list, 0, list.len() as int);
    imported_so_far(p, list, list.len() as int, k);
}

proof fn imported_so_far(p: PaneView, list: Seq<IncomingView>, to: int, k: int)
    requires
        p.document is Some,
        is_addressable(p.document->0),
        0 <= to <= list.len(),
        forall|i: int| 0 <= i < list.len() ==> (#[trigger] list[i]).picture is Ok,
    ensures
        ({
            let now = layers_imported(p, list, 0, to);
            let before = layers_of(p);
            let layers = layers_of(now);
            &&& now.document is Some
            &&& now.document->0.width == p.document->0.width
            &&& now.document->0.height == p.document->0.height
            &&& layers.len() == before.len() + to
            &&& layers.take(before.len() as int) == before
            &&& 0 <= k < to ==> layers[before.len() + k].name == or_empty(
                crate::paths::stem_of(list[k].path),
            ) && layers[before.len() + k].body is Image && !layers[before.len() + k].hidden
            &&& to > 0 ==> now.active == Some(layers.last().id) && now.layer is Some
                && layers.last().body == crate::panes::canvas::tree::BodyView::Image(now.layer->0)
        }),
    decreases to,
{
    if to > 0 {
        imported_so_far(p, list, to - 1, k);
        let earlier = layers_of(layers_imported(p, list, 0, to - 1));
        let now = layers_of(layers_imported(p, list, 0, to));
        assert(list[to - 1].picture is Ok);
        assert(now.take(layers_of(p).len() as int) =~= earlier.take(layers_of(p).len() as int));
    } else {
        assert(layers_of(p).take(layers_of(p).len() as int) =~= layers_of(p));
    }
}

/// A canvas that has a file is saved to it, one that has none is asked for
/// one; saving to another file always asks. The name that is offered is that
/// of the canvas. Without a canvas there is nothing to save.
pub proof fn saves_go_to_the_file(p: PaneView)
    ensures
        ({
            let saved = updated(p, CanvasMsg::SaveComp).1;
            let elsewhere = updated(p, CanvasMsg::SaveCompAs).1;
            let name = crate::panes::canvas::package::bare_name(p.name);
            &&& p.document is None ==> saved.len() == 0 && elsewhere.len() == 0
            &&& p.document is Some ==> elsewhere == seq![CanvasStepView::AskSave(name + ".comp"@)]
            &&& p.document is Some && p.project_path is Some ==> saved == seq![
                CanvasStepView::SaveTo(p.project_path->0),
            ]
            &&& p.document is Some && p.project_path is None ==> saved == elsewhere
            &&& updated(p, CanvasMsg::SaveComp).0 == p
            &&& updated(p, CanvasMsg::SaveCompAs).0 == p
        }),
{
    assert(updated(p, CanvasMsg::SaveComp).1 =~= crate::panes::canvas::opening::save_steps(p));
    assert(updated(p, CanvasMsg::SaveCompAs).1 =~= crate::panes::canvas::opening::save_as_steps(p));
}

/// A picture is exported where it fits the device, to a file or to the
/// library as is asked; otherwise the fault is told. Nothing changes.
pub proof fn pictures_that_fit_are_exported(p: PaneView, limit: u32)
    requires
        p.document is Some,
    ensures
        ({
            let d = p.document->0;
            let to_file = updated(p, CanvasMsg::ExportPng(Some(limit)));
            let to_library = updated(p, CanvasMsg::ExportLibrary(Some(limit)));
            let name = crate::panes::canvas::package::bare_name(p.name) + ".png"@;
            let fits = 0 < d.width <= limit && 0 < d.height <= limit;
            &&& to_file.0 == p && to_library.0 == p
            &&& fits ==> to_file.1 == seq![CanvasStepView::Export(name, false)]
            &&& fits ==> to_library.1 == seq![CanvasStepView::Export(name, true)]
            &&& !fits ==> to_file.1.len() == 1 && to_file.1[0] is Notify && to_library.1
                == to_file.1
        }),
{
    let plain = Some(limit);
    assert(updated(p, CanvasMsg::ExportPng(plain)).1
        =~= crate::panes::canvas::opening::export_steps(p, plain, false));
    assert(updated(p, CanvasMsg::ExportLibrary(plain)).1
        =~= crate::panes::canvas::opening::export_steps(p, plain, true));
}

/// A new canvas is asked for only once the changes of the old one are saved,
/// and is then full-size, blank and without a file.
pub proof fn new_canvases_are_blank(p: PaneView)
    ensures
        ({
            let (now, steps) = updated(p, CanvasMsg::New(None));
            &&& p.document is Some && p.revision != p.saved_revision ==> now == p && steps == seq![
                CanvasStepView::SaveFirst,
            ]
            &&& !(p.document is Some && p.revision != p.saved_revision) ==> {
                &&& now.document matches Some(d) && d.width == 1920 && d.height == 1080
                    && d.children.len() == 1 && d.children[0].body
                    == crate::panes::canvas::tree::BodyView::Image(1)
                &&& now.store.bitmaps.len() == 1 && now.store.bitmaps[0].id == 1
                    && now.store.bitmaps[0].frame.width == 1920
                    && now.store.bitmaps[0].frame.height == 1080 && forall|i: int|
                    0 <= i < now.store.bitmaps[0].frame.pixels.len()
                        ==> #[trigger] now.store.bitmaps[0].frame.pixels[i] == 0
                &&& now.project_path is None
                &&& now.active == Some(1u64) && now.layer == Some(1u64)
                &&& now.selection is None
            }
        }),
{
    assert(updated(p, CanvasMsg::New(None)).1 =~= crate::panes::canvas::opening::blank_asked(
        p,
        None,
    ).1 + crate::panes::canvas::messages::only_if(
        updated(p, CanvasMsg::New(None)).0.revision != p.revision
            && crate::panes::canvas::pane::has_changes(updated(p, CanvasMsg::New(None)).0),
        seq![CanvasStepView::AutoSave(900)],
    ));
    if crate::panes::canvas::pane::has_changes(p) {
        assert(updated(p, CanvasMsg::New(None)).1 =~= seq![CanvasStepView::SaveFirst]);
    }
}

/// What waits to be opened is opened when the changes are given up, and
/// forgotten when the question is called off.
pub proof fn waiting_files_are_opened_or_forgotten(p: PaneView, path: Seq<char>)
    requires
        p.pending_open == Some(path),
    ensures
        ({
            let (given, opened) = updated(p, CanvasMsg::OpenDiscard);
            let (called, steps) = updated(p, CanvasMsg::OpenCancel);
            &&& opened == seq![CanvasStepView::Open(path)]
            &&& given.pending_open is None && !given.open_confirm
            &&& called.pending_open is None && !called.open_confirm
                && called.pending_handoff_paths is None
            &&& forall|i: int| 0 <= i < steps.len() ==> !((#[trigger] steps[i]) is Open)
            &&& given.document == p.document && called.document == p.document
        }),
{
    assert(updated(p, CanvasMsg::OpenDiscard).1 =~= seq![CanvasStepView::Open(path)]);
}

/// A save by itself goes to the file of the canvas, or to a fresh one where it
/// has none; only one is under way at a time, and it holds the state that it
/// began with.
pub proof fn saves_by_themselves_are_single(p: PaneView, fresh: Seq<char>)
    ensures
        ({
            let begun = autosave_begun(p, fresh);
            &&& p.document is None || p.autosave_inflight is Some ==> begun is None
            &&& p.document is Some && p.autosave_inflight is None ==> (begun matches Some((
                now,
                path,
            )) && path == (match p.project_path {
                Some(own) => own,
                None => fresh,
            }) && now.autosave_inflight == Some(p.revision) && now.project_path == Some(path)
                && now.document == p.document && autosave_begun(now, fresh) is None)
        }),
{
}

/// A save by itself that is done settles the changes that it wrote, for the
/// canvas that it was made for and no other.
pub proof fn saves_by_themselves_settle_what_they_wrote(
    p: PaneView,
    generation: u64,
    path: Seq<char>,
    revision: u64,
    error: Seq<char>,
)
    ensures
        ({
            let own = p.document_generation == generation && p.project_path == Some(path);
            let done = autosave_ended(p, generation, path, revision, Ok(true));
            let failed = autosave_ended(p, generation, path, revision, Err(error));
            &&& !own ==> done.0 == p && failed.0 == p
            &&& own ==> done.0.autosave_inflight is None && failed.0.autosave_inflight is None
            &&& own && p.revision == revision ==> done.0.saved_revision == revision
            &&& own && p.revision != revision ==> done.0.saved_revision == p.saved_revision
            &&& failed.0.saved_revision == p.saved_revision
            &&& own ==> failed.1.len() == 1 && failed.1[0] is Notify
        }),
{
}

/// A picture in the middle of a canvas keeps its pixels: each lies as far from
/// the edges as the margins say, and the margins of two opposite sides differ
/// by one pixel at most. Around it the canvas is clear.
pub proof fn pictures_lie_in_the_middle(
    canvas: (u32, u32),
    layer: FrameView,
    x: int,
    y: int,
    c: int,
)
    requires
        layer.is_whole(),
        layer.width <= canvas.0,
        layer.height <= canvas.1,
        0 <= x < canvas.0,
        0 <= y < canvas.1,
        0 <= c < 4,
    ensures
        ({
            let left = (canvas.0 - layer.width) / 2;
            let top = (canvas.1 - layer.height) / 2;
            let byte = centred_view(canvas, layer).pixels[(y * canvas.0 + x) * 4 + c];
            &&& 0 <= canvas.0 - layer.width - 2 * left <= 1
            &&& 0 <= canvas.1 - layer.height - 2 * top <= 1
            &&& left <= x < left + layer.width && top <= y < top + layer.height ==> byte
                == layer.pixels[((y - top) * layer.width + (x - left)) * 4 + c]
            &&& !(left <= x < left + layer.width && top <= y < top + layer.height) ==> byte == 0
        }),
{
    let w = canvas.0 as int;
    let i = (y * w + x) * 4 + c;
    place_bounds(w, canvas.1 as int, x, y);
    places_are_pixels(i, w, x, y);
    assert(w * canvas.1 as int == canvas.0 as nat * canvas.1 as nat);
}

/// The bytes of a picture become four channels a pixel: grey goes to all three
/// colours, and what has no transparency is opaque.
pub proof fn pixels_get_four_channels(bytes: Seq<u8>, k: int)
    requires
        0 <= k,
    ensures
        k < bytes.len() ==> expanded(bytes, 1).subrange(4 * k, 4 * k + 4) == seq![
            bytes[k],
            bytes[k],
            bytes[k],
            255u8,
        ],
        k < bytes.len() as int / 2 ==> expanded(bytes, 2).subrange(4 * k, 4 * k + 4) == seq![
            bytes[2 * k],
            bytes[2 * k],
            bytes[2 * k],
            bytes[2 * k + 1],
        ],
        k < bytes.len() as int / 3 ==> expanded(bytes, 3).subrange(4 * k, 4 * k + 4) == seq![
            bytes[3 * k],
            bytes[3 * k + 1],
            bytes[3 * k + 2],
            255u8,
        ],
{
    if k < bytes.len() {
        assert(expanded(bytes, 1).subrange(4 * k, 4 * k + 4) =~= seq![
            bytes[k],
            bytes[k],
            bytes[k],
            255u8,
        ]);
    }
    if k < bytes.len() as int / 2 {
        assert(expanded(bytes, 2).subrange(4 * k, 4 * k + 4) =~= seq![
            bytes[2 * k],
            bytes[2 * k],
            bytes[2 * k],
            bytes[2 * k + 1],
        ]);
    }
    if k < bytes.len() as int / 3 {
        assert(expanded(bytes, 3).subrange(4 * k, 4 * k + 4) =~= seq![
            bytes[3 * k],
            bytes[3 * k + 1],
            bytes[3 * k + 2],
            255u8,
        ]);
    }
}

/// A mask is as bright as its red where it is opaque, black where it is clear,
/// and never brighter than its red.
pub proof fn masks_are_grey(red: u8, alpha: u8)
    ensures
        mask_value(red, 255) == red,
        mask_value(red, 0) == 0,
        mask_value(red, alpha) <= red,
{
    assert(red * alpha <= red * 255) by (nonlinear_arith)
        requires
            0 <= alpha <= 255,
            0 <= red,
    ;
    assert(0 <= red * alpha) by (nonlinear_arith)
        requires
            0 <= alpha,
            0 <= red,
    ;
}

/// A preview of the size of the picture is the picture, and that of a mask
/// shows its red as grey.
pub proof fn full_previews_are_the_picture(frame: FrameView, x: int, y: int, c: int)
    requires
        frame.is_whole(),
        0 <= x < frame.width,
        0 <= y < frame.height,
        0 <= c < 4,
    ensures
        ({
            let i = (y * frame.width + x) * 4 + c;
            let w = frame.width as int;
            let h = frame.height as int;
            &&& thumbnail_byte(frame, w, h, false, i) == frame.pixels[i]
            &&& thumbnail_byte(frame, w, h, true, i) == if c == 3 {
                255u8
            } else {
                frame.pixels[i - c]
            }
        }),
{
    let w = frame.width as int;
    let h = frame.height as int;
    let i = (y * w + x) * 4 + c;
    place_bounds(w, h, x, y);
    places_are_pixels(i, w, x, y);
    vstd::arithmetic::div_mod::lemma_div_multiples_vanish(x, w);
    vstd::arithmetic::div_mod::lemma_div_multiples_vanish(y, h);
    assert(x * w == w * x) by (nonlinear_arith);
    assert(y * h == h * y) by (nonlinear_arith);
}

/// The palette goes from dark and light over red, orange, yellow, green and blue
/// to violet.
pub proof fn palettes_go_through_the_colours()
    ensures
        palette_color(0) == (Rgb { red: 30, green: 30, blue: 34 }),
        palette_color(1) == (Rgb { red: 235, green: 235, blue: 240 }),
        palette_color(2) == (Rgb { red: 212, green: 59, blue: 55 }),
        palette_color(3) == (Rgb { red: 235, green: 152, blue: 47 }),
        palette_color(4) == (Rgb { red: 235, green: 205, blue: 62 }),
        palette_color(5) == (Rgb { red: 88, green: 168, blue: 78 }),
        palette_color(6) == (Rgb { red: 58, green: 118, blue: 205 }),
        palette_color(7) == (Rgb { red: 138, green: 78, blue: 205 }),
{
}

} // verus!
