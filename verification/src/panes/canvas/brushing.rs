//! What a stroke leaves of the pixels, seen from outside.

use crate::panes::canvas::frame::{
    blended, checker_view, column, frame_bytes, in_tile, place_bounds, places_are_pixels,
    plain_tiles, restricted, row, size_fault, source_place, FrameView, SelectionCover,
};
use crate::panes::canvas::painting::{
    covers, in_reach, is_even, marquee_released, on_canvas, tiles_copied, tiles_reset,
    tiles_settled,
};
use crate::panes::canvas::pane::{PaneView, Point, StrokeView};
use crate::panes::canvas::store::replaced_pixels_are_found;
use crate::panes::canvas::tree::DocumentView;
use vstd::prelude::*;

verus! {

/// The pixel of a byte lies in one of the tiles, which are 256 pixels a side.
pub open spec fn is_touched(i: int, width: int, tiles: Seq<(u64, u64)>) -> bool {
    let x = (i / 4) % width;
    let y = (i / 4) / width;
    exists|k: int|
        0 <= k < tiles.len() && (#[trigger] tiles[k]).0 * 256 <= x < tiles[k].0 * 256 + 256
            && tiles[k].1 * 256 <= y < tiles[k].1 * 256 + 256
}

proof fn touched_by_the_last(i: int, width: int, tiles: Seq<(u64, u64)>)
    requires
        tiles.len() > 0,
    ensures
        is_touched(i, width, tiles) <==> is_touched(i, width, tiles.drop_last()) || in_tile(
            i,
            width,
            tiles.last(),
        ),
{
    let front = tiles.drop_last();
    let x = (i / 4) % width;
    let y = (i / 4) / width;
    if is_touched(i, width, tiles) {
        let k = choose|k: int|
            0 <= k < tiles.len() && (#[trigger] tiles[k]).0 * 256 <= x < tiles[k].0 * 256 + 256
                && tiles[k].1 * 256 <= y < tiles[k].1 * 256 + 256;
        if k < front.len() {
            assert(front[k] == tiles[k]);
        }
    }
    if is_touched(i, width, front) {
        let k = choose|k: int|
            0 <= k < front.len() && (#[trigger] front[k]).0 * 256 <= x < front[k].0 * 256 + 256
                && front[k].1 * 256 <= y < front[k].1 * 256 + 256;
        assert(tiles[k] == front[k]);
    }
    if in_tile(i, width, tiles.last()) {
        assert(tiles[tiles.len() - 1] == tiles.last());
    }
}

proof fn restricted_byte(
    pixels: Seq<u8>,
    base: Seq<u8>,
    width: int,
    cover: SelectionCover,
    tiles: Seq<(u64, u64)>,
    i: int,
)
    requires
        0 <= i < pixels.len(),
    ensures
        ({
            let now = restricted(pixels, base, width, cover, tiles);
            let coverage = cover.at(column(i, width), row(i, width));
            &&& now.len() == pixels.len()
            &&& coverage == 255 ==> now[i] == pixels[i]
            &&& coverage == 0 && is_touched(i, width, tiles) ==> now[i] == base[i]
            &&& !is_touched(i, width, tiles) ==> now[i] == pixels[i]
        }),
    decreases tiles.len(),
{
    if tiles.len() > 0 {
        restricted_byte(pixels, base, width, cover, tiles.drop_last(), i);
        touched_by_the_last(i, width, tiles);
        let before = restricted(pixels, base, width, cover, tiles.drop_last());
        crate::panes::canvas::frame::selection_clips(base[i], before[i]);
    }
}

/// A stroke keeps to the selection: where nothing is selected the pixels come
/// back, where all is selected they are as painted, and what it did not touch
/// is as it was. Without a selection all is as painted.
pub proof fn strokes_keep_to_the_selection(
    p: PaneView,
    stroke: StrokeView,
    tiles: Seq<(u64, u64)>,
    resident: bool,
    i: int,
)
    requires
        p.stroke == Some(stroke),
        is_even(stroke),
        tiles.len() > 0,
        !stroke.on_mask,
        0 <= i < stroke.scratch->0.pixels.len(),
    ensures
        ({
            let base = stroke.base->0.pixels;
            let painted = stroke.scratch->0.pixels;
            let width = stroke.scratch->0.width as int;
            let x = (i / 4) % width;
            let y = (i / 4) / width;
            let now = tiles_settled(p, tiles, resident);
            let left = now.stroke->0.scratch->0.pixels;
            &&& now.stroke is Some && now.stroke->0.target == stroke.target
                && now.stroke->0.base == stroke.base
            &&& now.document == p.document && now.selection == p.selection
            &&& p.selection is None ==> left == painted
            &&& !is_touched(i, width, tiles) ==> left[i] == painted[i]
            &&& p.selection matches Some(cover) ==> cover.is_whole() && 0 <= x < cover.width && 0
                <= y < cover.height ==> {
                let coverage = cover.coverage[y * cover.width + x];
                &&& coverage == 255 ==> left[i] == painted[i]
                &&& coverage == 0 && is_touched(i, width, tiles) ==> left[i] == base[i]
            }
        }),
{
    let width = stroke.scratch->0.width as int;
    if let Some(cover) = p.selection {
        restricted_byte(
            stroke.scratch->0.pixels,
            stroke.base->0.pixels,
            width,
            cover,
            tiles,
            i,
        );
    }
}

/// Where a pixel is half selected its bytes lie between the old ones and those
/// that were painted, the nearer to these the more of it is selected.
pub proof fn half_selected_pixels_lie_between(old: u8, painted: u8, less: u8, more: u8)
    requires
        less <= more,
        old <= painted,
    ensures
        old <= blended(old, painted, less) <= painted,
        blended(old, painted, less) <= blended(old, painted, more),
        old <= blended(painted, old, less) <= painted,
        blended(painted, old, more) <= blended(painted, old, less),
        blended(old, painted, 0) == old,
        blended(old, painted, 255) == painted,
{
    let o = old as int;
    let n = painted as int;
    let a = less as int;
    let b = more as int;
    assert(o * (255 - a) + n * a == 255 * o + (n - o) * a) by (nonlinear_arith);
    assert(o * (255 - b) + n * b == 255 * o + (n - o) * b) by (nonlinear_arith);
    assert(n * (255 - a) + o * a == 255 * n - (n - o) * a) by (nonlinear_arith);
    assert(n * (255 - b) + o * b == 255 * n - (n - o) * b) by (nonlinear_arith);
    assert(0 <= (n - o) * a <= (n - o) * b <= (n - o) * 255) by (nonlinear_arith)
        requires
            0 <= a <= b <= 255,
            o <= n,
    ;
    crate::panes::canvas::frame::selection_clips(old, painted);
}

/// What is settled while the pixels are not kept elsewhere is stored, under
/// the identity that is painted on, and nothing else in the store changes.
pub proof fn settled_pixels_are_stored(
    p: PaneView,
    stroke: StrokeView,
    tiles: Seq<(u64, u64)>,
    other: u64,
)
    requires
        p.stroke == Some(stroke),
        is_even(stroke),
        tiles.len() > 0,
        p.store.frame(stroke.target) is Some,
        other != stroke.target,
    ensures
        ({
            let stored = tiles_settled(p, tiles, false);
            let kept = tiles_settled(p, tiles, true);
            &&& stored.store.frame(stroke.target) == stored.stroke->0.scratch
            &&& stored.store.frame(other) == p.store.frame(other)
            &&& kept.store == p.store
            &&& kept.stroke == stored.stroke
        }),
{
    let frame = tiles_settled(p, tiles, false).stroke->0.scratch->0;
    replaced_pixels_are_found(p.store, stroke.target, frame, p.versions, other);
}

proof fn copied_byte(dst: Seq<u8>, src: Seq<u8>, width: int, tiles: Seq<(u64, u64)>, i: int)
    requires
        0 <= i < dst.len(),
    ensures
        tiles_copied(dst, src, width, tiles).len() == dst.len(),
        tiles_copied(dst, src, width, tiles)[i] == if is_touched(i, width, tiles) {
            src[i]
        } else {
            dst[i]
        },
    decreases tiles.len(),
{
    if tiles.len() > 0 {
        copied_byte(dst, src, width, tiles.drop_last(), i);
        touched_by_the_last(i, width, tiles);
    }
}

/// Tiles that are taken back show what was there before the stroke, and the
/// rest of the stroke stays.
pub proof fn tiles_are_taken_back(p: PaneView, stroke: StrokeView, tiles: Seq<(u64, u64)>, i: int)
    requires
        p.stroke == Some(stroke),
        is_even(stroke),
        0 <= i < stroke.scratch->0.pixels.len(),
    ensures
        ({
            let now = tiles_reset(p, tiles);
            let left = now.stroke->0.scratch->0;
            &&& left.width == stroke.scratch->0.width && left.height == stroke.scratch->0.height
            &&& left.pixels[i] == if is_touched(i, left.width as int, tiles) {
                stroke.base->0.pixels[i]
            } else {
                stroke.scratch->0.pixels[i]
            }
            &&& now.store == p.store && now.document == p.document
        }),
{
    copied_byte(
        stroke.scratch->0.pixels,
        stroke.base->0.pixels,
        stroke.scratch->0.width as int,
        tiles,
        i,
    );
}

proof fn plain_byte(pixels: Seq<u8>, width: int, tiles: Seq<(u64, u64)>, i: int)
    requires
        0 <= i < pixels.len(),
        pixels.len() % 4 == 0,
    ensures
        ({
            let now = plain_tiles(pixels, width, tiles);
            let at = i - i % 4;
            &&& now.len() == pixels.len()
            &&& is_touched(i, width, tiles) ==> now[at + 3] == 255 && now[at] == now[at + 1]
                && now[at + 1] == now[at + 2]
            &&& !is_touched(i, width, tiles) ==> now[i] == pixels[i]
        }),
    decreases tiles.len(),
{
    if tiles.len() > 0 {
        let front = tiles.drop_last();
        let at = i - i % 4;
        plain_byte(pixels, width, front, i);
        touched_by_the_last(i, width, tiles);
        assert(at / 4 == i / 4 && (at + 1) / 4 == i / 4 && (at + 2) / 4 == i / 4 && (at + 3) / 4
            == i / 4);
        assert(at % 4 == 0 && (at + 1) % 4 == 1 && (at + 2) % 4 == 2 && (at + 3) % 4 == 3);
    }
}

/// A stroke on a mask leaves grey, opaque pixels where it painted, and what it
/// did not touch as it was.
pub proof fn strokes_on_masks_are_grey(
    p: PaneView,
    stroke: StrokeView,
    tiles: Seq<(u64, u64)>,
    i: int,
)
    requires
        p.stroke == Some(stroke),
        is_even(stroke),
        tiles.len() > 0,
        stroke.on_mask,
        p.selection is None,
        0 <= i < stroke.scratch->0.pixels.len(),
    ensures
        ({
            let left = tiles_settled(p, tiles, true).stroke->0.scratch->0.pixels;
            let width = stroke.scratch->0.width as int;
            let at = i - i % 4;
            &&& is_touched(i, width, tiles) ==> left[at + 3] == 255 && left[at] == left[at + 1]
                && left[at + 1] == left[at + 2]
            &&& !is_touched(i, width, tiles) ==> left[i] == stroke.scratch->0.pixels[i]
        }),
{
    plain_byte(stroke.scratch->0.pixels, stroke.scratch->0.width as int, tiles, i);
}

/// The pixels of a picture lie row by row, from the left to the right, four
/// bytes each.
pub proof fn pixels_lie_row_by_row(frame: FrameView, x: int, y: int)
    ensures
        frame.place(0, 0) == 0,
        frame.place(x + 1, y) == frame.place(x, y) + 4,
        frame.place(x, y + 1) == frame.place(x, y) + 4 * frame.width,
{
    assert((y + 1) * frame.width == y * frame.width + frame.width) by (nonlinear_arith);
}

/// The brush reaches the canvas from wherever it stands on it, and from half
/// of its size outside, on every side, but from no farther.
pub proof fn brushes_reach_half_their_size_out(d: DocumentView, diameter: i64, at: Point)
    requires
        diameter >= 0,
    ensures
        on_canvas(d, at) ==> in_reach(d, diameter, at),
        2 * at.x < -diameter || 2 * at.y < -diameter ==> !in_reach(d, diameter, at),
        2 * (at.x - d.width * 1_000_000) > diameter || 2 * (at.y - d.height * 1_000_000) > diameter
            ==> !in_reach(d, diameter, at),
        -diameter <= 2 * at.x <= 2 * (d.width * 1_000_000) + diameter && -diameter <= 2 * at.y <= 2
            * (d.height * 1_000_000) + diameter ==> in_reach(d, diameter, at),
{
}

/// A canvas is taken where it has an area and both of its sides fit the device,
/// or, where the device is not known, 32768 pixels.
pub proof fn sizes_that_fit_are_taken(width: u32, height: u32, limit: u32)
    ensures
        size_fault(width, height, Some(limit)) is None <==> 0 < width <= limit
            && 0 < height <= limit,
        size_fault(width, height, None) is None <==> 0 < width <= 32768 && 0 < height <= 32768,
{
}

/// A selection of nothing is none, and any other is the one that was joined;
/// the marquee is gone either way.
pub proof fn selections_of_nothing_are_none(
    p: PaneView,
    alone: SelectionCover,
    whole: SelectionCover,
    i: int,
)
    requires
        p.document is Some,
        p.marquee is Some,
        0 <= i < alone.coverage.len(),
    ensures
        ({
            let now = marquee_released(p, Some((alone, whole)));
            &&& alone.coverage[i] != 0 ==> now.selection == Some(whole)
            &&& (forall|k: int| 0 <= k < alone.coverage.len() ==> #[trigger] alone.coverage[k] == 0)
                ==> now.selection is None
            &&& now.marquee is None && now.marquee_start is None
            &&& now.document == p.document && now.store == p.store
        }),
{
    if alone.coverage[i] != 0 {
        assert(covers(alone));
    }
}

/// The board behind a picture is of opaque squares of 16 pixels, light and dark
/// in turn, the first one light.
pub proof fn boards_are_of_squares(width: u32, height: u32, x: int, y: int)
    requires
        1 <= width <= 2048,
        1 <= height <= 2048,
        0 <= x < width,
        0 <= y < height,
    ensures
        ({
            let board = checker_view(width, height);
            let i = (y * width + x) * 4;
            &&& board.width == width && board.height == height && board.is_whole()
            &&& board.pixels[i + 3] == 255
            &&& board.pixels[i] == board.pixels[i + 1] && board.pixels[i + 1] == board.pixels[i + 2]
            &&& board.pixels[i] == if (x / 16 + y / 16) % 2 == 0 {
                255u8
            } else {
                203u8
            }
        }),
{
    let w = width as int;
    let i = (y * w + x) * 4;
    place_bounds(w, height as int, x, y);
    places_are_pixels(i, w, x, y);
    places_are_pixels(i + 1, w, x, y);
    places_are_pixels(i + 2, w, x, y);
    places_are_pixels(i + 3, w, x, y);
    assert(w * height as int == width as nat * height as nat);
    assert(frame_bytes(width, height) == (w * height as int) * 4);
}

/// A preview shows the picture from its first pixel on, in order, and nothing
/// from outside of it.
pub proof fn previews_go_through_the_picture(at: int, next: int, source: int, side: int)
    requires
        0 <= at <= next < side,
        0 < source,
    ensures
        source_place(0, source, side) == 0,
        0 <= source_place(at, source, side) <= source_place(next, source, side) < source,
{
    assert(0 <= at * source <= next * source) by (nonlinear_arith)
        requires
            0 <= at <= next,
            0 < source,
    ;
    vstd::arithmetic::div_mod::lemma_div_is_ordered(at * source, next * source, side);
    vstd::arithmetic::div_mod::lemma_div_pos_is_pos(at * source, side);
    assert(0 * source == 0);
    vstd::arithmetic::div_mod::lemma_basic_div(0, side);
}

} // verus!
