//! Strokes, selections, and what they do to pixels.

use crate::panes::canvas::edits::masks;
use crate::panes::canvas::frame::{
    checked_frame_bytes, copied, copy_tile, frame_bytes, normalize_mask_pixels,
    normalize_mask_tiles, patched, plain_all, plain_tiles, restrict_to_selection, restricted,
    Frame, FrameView, Selection, SelectionCover,
};
use crate::panes::canvas::layers::layers_of;
use crate::panes::canvas::pane::{
    pane_begun, pane_committed, pixels_replaced, target_of, CanvasPane, PaneView, Point, Region,
    Stroke, StrokeView,
};
use crate::panes::canvas::store::{after, next_number};
use crate::panes::canvas::tree::DocumentView;
use vstd::prelude::*;

verus! {

/// Whether a place is on the canvas.
pub open spec fn on_canvas(d: DocumentView, at: Point) -> bool {
    0 <= at.x < d.width * 1_000_000 && 0 <= at.y < d.height * 1_000_000
}

/// Whether a brush at a place may leave something on the canvas.
pub open spec fn in_reach(d: DocumentView, diameter: i64, at: Point) -> bool {
    2 * at.x >= -diameter && 2 * at.y >= -diameter && 2 * at.x <= 2 * (d.width * 1_000_000)
        + diameter && 2 * at.y <= 2 * (d.height * 1_000_000) + diameter
}

/// The canvas after the stroke ended: its picture is stored, and the change is
/// over.
pub open spec fn stroke_released(p: PaneView) -> PaneView {
    match p.stroke {
        Some(stroke) => {
            let over = PaneView { stroke: None, ..p };
            pane_committed(
                match stroke.scratch {
                    Some(frame) => pixels_replaced(over, stroke.target, frame),
                    None => over,
                },
            )
        },
        None => p,
    }
}

/// Whether a press at a place begins a stroke.
pub open spec fn begins(p: PaneView, at: Point, ready: bool) -> bool {
    (p.document matches Some(d) && on_canvas(d, at)) && target_of(p) is Some && ready
}

/// The canvas after a press: a stroke that was under way ends, and a new one
/// begins where the place is on the canvas and the brush is ready.
pub open spec fn stroke_pressed(p: PaneView, at: Point, ready: bool) -> PaneView {
    match (p.document, target_of(p)) {
        (Some(d), Some(target)) => {
            let over = stroke_released(p);
            if begins(p, at, ready) {
                let open = pane_begun(over, 0);
                let base = open.store.frame(target);
                PaneView {
                    stroke: Some(
                        StrokeView {
                            target,
                            on_mask: masks(layers_of(open), target),
                            base,
                            scratch: base,
                        },
                    ),
                    ..open
                }
            } else {
                over
            }
        },
        _ => p,
    }
}

/// The bytes of a picture with some tiles copied from another.
pub open spec fn tiles_copied(dst: Seq<u8>, src: Seq<u8>, width: int, tiles: Seq<(u64, u64)>) -> Seq<
    u8,
>
    decreases tiles.len(),
{
    if tiles.len() == 0 {
        dst
    } else {
        patched(
            tiles_copied(dst, src, width, tiles.drop_last()),
            width,
            tiles.last(),
            copied(src),
        )
    }
}

/// The pictures of a stroke are of one size.
pub open spec fn is_even(stroke: StrokeView) -> bool {
    match (stroke.base, stroke.scratch) {
        (Some(base), Some(scratch)) => base.is_whole() && scratch.is_whole() && base.width
            == scratch.width && base.height == scratch.height,
        _ => false,
    }
}

/// The canvas with some tiles of the stroke as they were before it, ready to
/// be painted anew.
pub open spec fn tiles_reset(p: PaneView, tiles: Seq<(u64, u64)>) -> PaneView {
    match p.stroke {
        Some(stroke) => if is_even(stroke) {
            let base = stroke.base->0;
            let scratch = stroke.scratch->0;
            PaneView {
                stroke: Some(
                    StrokeView {
                        scratch: Some(
                            FrameView {
                                pixels: tiles_copied(
                                    scratch.pixels,
                                    base.pixels,
                                    scratch.width as int,
                                    tiles,
                                ),
                                ..scratch
                            },
                        ),
                        ..stroke
                    },
                ),
                ..p
            }
        } else {
            p
        },
        None => p,
    }
}

/// The painted picture held to the selection.
pub open spec fn selected_only(
    scratch: FrameView,
    base: FrameView,
    selection: Option<SelectionCover>,
    tiles: Seq<(u64, u64)>,
) -> FrameView {
    match selection {
        Some(cover) => if cover.is_whole() {
            FrameView {
                pixels: restricted(
                    scratch.pixels,
                    base.pixels,
                    scratch.width as int,
                    cover,
                    tiles,
                ),
                ..scratch
            }
        } else {
            scratch
        },
        None => scratch,
    }
}

/// The canvas after some tiles of the stroke were painted: they are held to
/// the selection, those of a mask are made plain, and the picture is stored
/// where no device holds it.
pub open spec fn tiles_settled(p: PaneView, tiles: Seq<(u64, u64)>, resident: bool) -> PaneView {
    match p.stroke {
        Some(stroke) => if is_even(stroke) && tiles.len() > 0 {
            let held = selected_only(stroke.scratch->0, stroke.base->0, p.selection, tiles);
            let scratch = if stroke.on_mask {
                FrameView { pixels: plain_tiles(held.pixels, held.width as int, tiles), ..held }
            } else {
                held
            };
            let painted = PaneView {
                stroke: Some(StrokeView { scratch: Some(scratch), ..stroke }),
                ..p
            };
            if resident {
                painted
            } else {
                PaneView {
                    store: p.store.replaced(stroke.target, scratch, p.versions),
                    versions: after(p.versions),
                    ..painted
                }
            }
        } else {
            p
        },
        None => p,
    }
}

/// The pixels that a fill or a clearing acts on; none where nothing is
/// selected.
pub open spec fn target_of_edit(p: PaneView) -> Option<u64> {
    match target_of(p) {
        Some(target) => if p.selection is Some && p.store.frame(target) is Some {
            Some(target)
        } else {
            None
        },
        None => None,
    }
}

/// The canvas after what is selected was filled or cleared; `painted` is what
/// the painter made of the pixels.
pub open spec fn selection_edited(p: PaneView, painted: FrameView) -> PaneView {
    match target_of_edit(p) {
        Some(target) => {
            let frame = if masks(layers_of(p), target) && painted.is_whole() {
                FrameView { pixels: plain_all(painted.pixels), ..painted }
            } else {
                painted
            };
            pixels_replaced(p, target, frame)
        },
        None => p,
    }
}

/// Whether something is selected.
pub open spec fn covers(cover: SelectionCover) -> bool {
    exists|i: int| 0 <= i < cover.coverage.len() && #[trigger] cover.coverage[i] != 0
}

/// The canvas after a shape was selected; `joined` is the shape together with
/// what was selected before. A shape of nothing selects nothing.
pub open spec fn shape_selected(p: PaneView, shape: SelectionCover, joined: SelectionCover) -> PaneView {
    PaneView {
        selection: if covers(shape) {
            Some(joined)
        } else {
            None
        },
        ..p
    }
}

/// The canvas after the wand found a run of a colour: the run is what is
/// selected, whatever was before. A run of nothing selects nothing.
pub open spec fn run_selected(p: PaneView, run: SelectionCover) -> PaneView {
    PaneView {
        selection: if covers(run) {
            Some(run)
        } else {
            None
        },
        ..p
    }
}

/// The box between two places.
pub open spec fn box_between(a: Point, b: Point) -> Region {
    Region {
        x: if a.x <= b.x {
            a.x
        } else {
            b.x
        },
        y: if a.y <= b.y {
            a.y
        } else {
            b.y
        },
        width: (if a.x <= b.x {
            b.x - a.x
        } else {
            a.x - b.x
        }) as u64,
        height: (if a.y <= b.y {
            b.y - a.y
        } else {
            a.y - b.y
        }) as u64,
    }
}

/// The canvas after a drag of the marquee began.
pub open spec fn marquee_pressed(p: PaneView, at: Point, shown: Point) -> PaneView {
    if p.document is Some {
        PaneView {
            marquee_start: Some(at),
            marquee: Some(Region { x: shown.x, y: shown.y, width: 0, height: 0 }),
            ..p
        }
    } else {
        p
    }
}

/// The canvas after a drag of the marquee went on.
pub open spec fn marquee_moved(p: PaneView, at: Point) -> PaneView {
    match p.marquee_start {
        Some(start) => PaneView { marquee: Some(box_between(start, at)), ..p },
        None => p,
    }
}

/// The canvas after a drag of the marquee ended; `shape` is what its box
/// selects, alone and together with what was selected before.
pub open spec fn marquee_released(p: PaneView, shape: Option<(SelectionCover, SelectionCover)>) -> PaneView {
    if p.marquee is Some && p.document is None {
        p
    } else {
        let chosen = match (p.marquee, shape) {
            (Some(_), Some((alone, joined))) => shape_selected(p, alone, joined),
            _ => p,
        };
        PaneView { marquee_start: None, marquee: None, ..chosen }
    }
}

fn is_within(at: Point, width: u32, height: u32) -> (r: bool)
    ensures
        r == (0 <= at.x < width * 1_000_000 && 0 <= at.y < height * 1_000_000),
{
    let w: i64 = width as i64 * 1_000_000;
    let h: i64 = height as i64 * 1_000_000;
    0 <= at.x && at.x < w && 0 <= at.y && at.y < h
}

fn distance(a: i64, b: i64) -> (r: u64)
    ensures
        r == if a <= b {
            b - a
        } else {
            a - b
        },
{
    let d: i128 = if a <= b {
        b as i128 - a as i128
    } else {
        a as i128 - b as i128
    };
    d as u64
}

pub fn is_complete(frame: &Frame) -> (r: bool)
    ensures
        r == frame@.is_whole(),
{
    let have: usize = frame.pixels.len();
    match checked_frame_bytes(frame.width, frame.height) {
        Some(n) => n == have,
        None => false,
    }
}

fn is_full(selection: &Selection) -> (r: bool)
    ensures
        r == selection@.is_whole(),
{
    proof {
        let (w, h) = (selection.width, selection.height);
        assert(w * h <= u32::MAX * u32::MAX) by (nonlinear_arith)
            requires
                0 <= w <= u32::MAX,
                0 <= h <= u32::MAX,
        ;
    }
    selection.coverage.len() as u128 == selection.width as u128 * selection.height as u128
}

fn is_covering(selection: &Selection) -> (r: bool)
    ensures
        r == covers(selection@),
{
    let mut i: usize = 0;
    while i < selection.coverage.len()
        invariant
            i <= selection.coverage.len(),
            forall|j: int| 0 <= j < i ==> selection.coverage@[j] == 0,
        decreases selection.coverage.len() - i,
    {
        if selection.coverage[i] != 0 {
            proof {
                assert(selection@.coverage[i as int] != 0);
            }
            return true;
        }
        i = i + 1;
    }
    false
}

impl Stroke {
    fn is_fit(&self) -> (r: bool)
        ensures
            r == is_even(self@),
    {
        match (&self.base, &self.scratch) {
            (Some(base), Some(scratch)) => is_complete(base) && is_complete(scratch) && base.width
                == scratch.width && base.height == scratch.height,
            _ => false,
        }
    }
}

impl CanvasPane {
    /// Ends the stroke: its picture lands in the store.
    pub fn brush_release(&mut self)
        ensures
            final(self)@ == stroke_released(old(self)@),
    {
        let mut stroke: Option<Stroke> = None;
        std::mem::swap(&mut stroke, &mut self.stroke);
        if let Some(s) = stroke {
            if let Some(frame) = s.scratch {
                self.replace_pixels(s.target, frame);
            }
            self.commit_history();
        }
    }

    /// Begins a stroke at a place of the canvas; the result says whether it
    /// did. `ready` says whether the brush can paint.
    pub fn brush_press(&mut self, at: Point, ready: bool) -> (r: bool)
        ensures
            final(self)@ == stroke_pressed(old(self)@, at, ready),
            r == begins(old(self)@, at, ready),
    {
        let (width, height): (u32, u32) = match self.document_size() {
            Some(size) => size,
            None => {
                return false;
            },
        };
        let target: u64 = match self.paint_target() {
            Some(target) => target,
            None => {
                return false;
            },
        };
        self.brush_release();
        if !is_within(at, width, height) || !ready {
            return false;
        }
        self.begin_history_mode(0);
        let (base, scratch): (Option<Frame>, Option<Frame>) = match self.store.get(target) {
            Some(frame) => (Some(frame.copy()), Some(frame.copy())),
            None => (None, None),
        };
        let on_mask: bool = self.is_mask(target);
        self.stroke = Some(Stroke { target, on_mask, base, scratch });
        true
    }

    /// Whether the brush at a place may leave something on the canvas.
    pub fn reaches(&self, at: Point) -> (r: bool)
        ensures
            r == (self@.document matches Some(d) && in_reach(d, self.brush.diameter, at)),
    {
        match self.document_size() {
            Some((width, height)) => {
                let d: i128 = self.brush.diameter as i128;
                let x: i128 = 2 * at.x as i128;
                let y: i128 = 2 * at.y as i128;
                let w: i128 = 2 * (width as i128 * 1_000_000);
                let h: i128 = 2 * (height as i128 * 1_000_000);
                x >= -d && y >= -d && x <= w + d && y <= h + d
            },
            None => false,
        }
    }

    /// Puts some tiles of the stroke back as they were before it.
    pub fn reset_tiles(&mut self, changed: &Vec<(u64, u64)>)
        ensures
            final(self)@ == tiles_reset(old(self)@, changed@),
    {
        let mut stroke: Option<Stroke> = None;
        std::mem::swap(&mut stroke, &mut self.stroke);
        if let Some(s) = stroke {
            if !s.is_fit() {
                self.stroke = Some(s);
                return ;
            }
            let ghost view = s@;
            let Stroke { target, on_mask, base, scratch } = s;
            match (base, scratch) {
                (Some(from), Some(mut to)) => {
                    let ghost before = to@;
                    let width: u32 = to.width;
                    let height: u32 = to.height;
                    let mut i: usize = 0;
                    proof {
                        assert(changed@.take(0) =~= Seq::empty());
                    }
                    while i < changed.len()
                        invariant
                            i <= changed.len(),
                            to.width == width,
                            to.height == height,
                            before.width == width,
                            from@.pixels.len() == frame_bytes(width, height),
                            to@.pixels.len() == frame_bytes(width, height),
                            to@.pixels == tiles_copied(
                                before.pixels,
                                from@.pixels,
                                width as int,
                                changed@.take(i as int),
                            ),
                        decreases changed.len() - i,
                    {
                        copy_tile(&from.pixels, &mut to.pixels, width, height, changed[i]);
                        proof {
                            assert(changed@.take(i + 1).drop_last() =~= changed@.take(i as int));
                            assert(changed@.take(i + 1).last() == changed@[i as int]);
                        }
                        i = i + 1;
                    }
                    proof {
                        assert(changed@.take(changed@.len() as int) =~= changed@);
                    }
                    self.stroke = Some(
                        Stroke { target, on_mask, base: Some(from), scratch: Some(to) },
                    );
                },
                (base, scratch) => {
                    self.stroke = Some(Stroke { target, on_mask, base, scratch });
                },
            }
        }
    }

    /// Some tiles of the stroke were painted. `resident` says that a device
    /// holds its picture.
    pub fn settle_tiles(&mut self, changed: &Vec<(u64, u64)>, resident: bool)
        ensures
            final(self)@ == tiles_settled(old(self)@, changed@, resident),
    {
        let mut stroke: Option<Stroke> = None;
        std::mem::swap(&mut stroke, &mut self.stroke);
        if let Some(s) = stroke {
            if !s.is_fit() || changed.len() == 0 {
                self.stroke = Some(s);
                return ;
            }
            let Stroke { target, on_mask, base, scratch } = s;
            match (base, scratch) {
                (Some(from), Some(mut to)) => {
                    if let Some(selection) = &self.selection {
                        if is_full(selection) {
                            restrict_to_selection(&mut to, &from, selection, changed);
                        }
                    }
                    if on_mask {
                        normalize_mask_tiles(&mut to, changed);
                    }
                    if !resident {
                        self.store.replace(target, to.copy(), self.versions);
                        self.versions = next_number(self.versions);
                    }
                    self.stroke = Some(
                        Stroke { target, on_mask, base: Some(from), scratch: Some(to) },
                    );
                },
                (base, scratch) => {
                    self.stroke = Some(Stroke { target, on_mask, base, scratch });
                },
            }
        }
    }

    /// The pixels that a fill or a clearing acts on; none where nothing is
    /// selected.
    pub fn selection_target(&self) -> (r: Option<u64>)
        ensures
            r == target_of_edit(self@),
    {
        match self.paint_target() {
            Some(target) => if self.selection.is_some() && self.store.get(target).is_some() {
                Some(target)
            } else {
                None
            },
            None => None,
        }
    }

    /// What is selected was filled or cleared.
    pub fn edit_selection(&mut self, painted: Frame)
        ensures
            final(self)@ == selection_edited(old(self)@, painted@),
    {
        if let Some(target) = self.selection_target() {
            let mut frame: Frame = painted;
            if self.is_mask(target) && is_complete(&frame) {
                normalize_mask_pixels(&mut frame);
            }
            self.replace_pixels(target, frame);
        }
    }

    /// A shape is selected.
    pub fn select(&mut self, shape: &Selection, joined: Selection)
        ensures
            final(self)@ == shape_selected(old(self)@, shape@, joined@),
    {
        self.selection = if is_covering(shape) {
            Some(joined)
        } else {
            None
        };
    }

    /// The wand has found a run of a colour.
    pub fn select_run(&mut self, run: Selection)
        ensures
            final(self)@ == run_selected(old(self)@, run@),
    {
        self.selection = if is_covering(&run) {
            Some(run)
        } else {
            None
        };
    }

    /// A drag of the marquee begins.
    pub fn marquee_press(&mut self, at: Point, shown: Point)
        ensures
            final(self)@ == marquee_pressed(old(self)@, at, shown),
    {
        if self.document.is_some() {
            self.marquee_start = Some(at);
            self.marquee = Some(Region { x: shown.x, y: shown.y, width: 0, height: 0 });
        }
    }

    /// A drag of the marquee goes on.
    pub fn marquee_move(&mut self, at: Point)
        ensures
            final(self)@ == marquee_moved(old(self)@, at),
    {
        if let Some(start) = self.marquee_start {
            self.marquee = Some(
                Region {
                    x: if start.x <= at.x {
                        start.x
                    } else {
                        at.x
                    },
                    y: if start.y <= at.y {
                        start.y
                    } else {
                        at.y
                    },
                    width: distance(start.x, at.x),
                    height: distance(start.y, at.y),
                },
            );
        }
    }

    /// A drag of the marquee ends.
    pub fn marquee_release(&mut self, shape: Option<(Selection, Selection)>)
        ensures
            final(self)@ == marquee_released(
                old(self)@,
                match shape {
                    Some((alone, joined)) => Some((alone@, joined@)),
                    None => None,
                },
            ),
    {
        if self.marquee.is_some() {
            if self.document.is_none() {
                return ;
            }
            if let Some((alone, joined)) = shape {
                self.select(&alone, joined);
            }
        }
        self.marquee_start = None;
        self.marquee = None;
    }
}

} // verus!
