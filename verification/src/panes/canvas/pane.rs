//! The state of the canvas, its brush, and its steps through the history.

use crate::format::{hex_value, read_hex};
use crate::panes::canvas::adjustments::{between, hold_between};
use crate::panes::canvas::edits::{list_rows, row_list, rows_view};
use crate::panes::canvas::frame::{Frame, FrameView, Selection, SelectionCover};
use crate::panes::canvas::history::{
    begun, bumped, committed, no_history, opt_moment, redone, undone, CanvasSnapshot, History,
    HistoryView, SnapshotView,
};
use crate::panes::canvas::store::{after, empty_store, next_number, PixelStore, StoreView};
use crate::panes::canvas::tree::{
    find, find_in, Document, DocumentView, LayerNode, NodeView, Rgb,
};
use crate::text::{chars_of, opt, trim, trimmed, views};
use std::collections::{HashMap, HashSet};
use vstd::prelude::*;
use vstd::string::*;

verus! {

/// A place on the canvas, in millionths of a pixel.
#[derive(Clone, Copy, PartialEq, Eq, Structural)]
pub struct Point {
    pub x: i64,
    pub y: i64,
}

/// A box on the canvas, in millionths of a pixel.
#[derive(Clone, Copy, PartialEq, Eq, Structural)]
pub struct Region {
    pub x: i64,
    pub y: i64,
    pub width: u64,
    pub height: u64,
}

/// The brush: its diameter in millionths of a pixel, its opacity and its
/// hardness in millionths, its colour, and whether it erases.
#[derive(Clone, Copy, PartialEq, Eq, Structural)]
pub struct Brush {
    pub diameter: i64,
    pub opacity: i64,
    pub hardness: i64,
    pub color: Rgb,
    pub erasing: bool,
}

/// A stroke: the pixels that it lands on, whether they are a mask, the picture
/// from before it, and the picture with it.
pub struct Stroke {
    pub target: u64,
    pub on_mask: bool,
    pub base: Option<Frame>,
    pub scratch: Option<Frame>,
}

#[verifier::ext_equal]
pub struct StrokeView {
    pub target: u64,
    pub on_mask: bool,
    pub base: Option<FrameView>,
    pub scratch: Option<FrameView>,
}

pub open spec fn opt_frame(f: Option<Frame>) -> Option<FrameView> {
    match f {
        Some(frame) => Some(frame@),
        None => None,
    }
}

impl View for Stroke {
    type V = StrokeView;

    open spec fn view(&self) -> StrokeView {
        StrokeView {
            target: self.target,
            on_mask: self.on_mask,
            base: opt_frame(self.base),
            scratch: opt_frame(self.scratch),
        }
    }
}

/// The state of the canvas.
pub struct CanvasPane {
    /// The open document.
    pub document: Option<Document>,
    /// Its pixels.
    pub store: PixelStore,
    /// The pixels that the tools act on.
    pub layer: Option<u64>,
    /// The node that the panel has picked.
    pub active: Option<u64>,
    /// 0 move, 1 hand, 2 zoom, 3 brush, 4 eraser, 5 marquee, 6 wand.
    pub tool: u64,
    /// The name of the open file.
    pub name: String,
    pub brush: Brush,
    /// The place of the colour of the brush in the palette.
    pub brush_color_index: i32,
    pub stroke: Option<Stroke>,
    pub history: History,
    pub selection: Option<Selection>,
    pub marquee_start: Option<Point>,
    pub marquee: Option<Region>,
    /// A failure was told already.
    pub failed: bool,
    /// The groups that the panel has folded.
    pub collapsed: HashSet<u64>,
    /// The tools act on the mask of the active node.
    pub paint_mask: bool,
    pub revision: u64,
    pub saved_revision: u64,
    pub document_generation: u64,
    /// The revision that is being saved in the background.
    pub autosave_inflight: Option<u64>,
    /// What is to be opened once the changes are settled.
    pub pending_open: Option<String>,
    /// What is to be imported once a project is open.
    pub pending_handoff_paths: Option<Vec<String>>,
    pub open_confirm: bool,
    pub project_path: Option<String>,
    /// How often the pixels of an identity were changed.
    pub pixel_revisions: HashMap<u64, u64>,
    /// The version that the next pixels get.
    pub versions: u64,
}

#[verifier::ext_equal]
pub struct PaneView {
    pub document: Option<DocumentView>,
    pub store: StoreView,
    pub layer: Option<u64>,
    pub active: Option<u64>,
    pub tool: u64,
    pub name: Seq<char>,
    pub brush: Brush,
    pub brush_color_index: i32,
    pub stroke: Option<StrokeView>,
    pub history: HistoryView,
    pub selection: Option<SelectionCover>,
    pub marquee_start: Option<Point>,
    pub marquee: Option<Region>,
    pub failed: bool,
    pub collapsed: Set<u64>,
    pub paint_mask: bool,
    pub revision: u64,
    pub saved_revision: u64,
    pub document_generation: u64,
    pub autosave_inflight: Option<u64>,
    pub pending_open: Option<Seq<char>>,
    pub pending_handoff_paths: Option<Seq<Seq<char>>>,
    pub open_confirm: bool,
    pub project_path: Option<Seq<char>>,
    pub pixel_revisions: Map<u64, u64>,
    pub versions: u64,
}

pub open spec fn opt_document(d: Option<Document>) -> Option<DocumentView> {
    match d {
        Some(document) => Some(document@),
        None => None,
    }
}

pub open spec fn opt_stroke(s: Option<Stroke>) -> Option<StrokeView> {
    match s {
        Some(stroke) => Some(stroke@),
        None => None,
    }
}

pub open spec fn opt_cover(s: Option<Selection>) -> Option<SelectionCover> {
    match s {
        Some(selection) => Some(selection@),
        None => None,
    }
}

pub open spec fn opt_paths(s: Option<Vec<String>>) -> Option<Seq<Seq<char>>> {
    match s {
        Some(v) => Some(views(v@)),
        None => None,
    }
}

impl View for CanvasPane {
    type V = PaneView;

    open spec fn view(&self) -> PaneView {
        PaneView {
            document: opt_document(self.document),
            store: self.store@,
            layer: self.layer,
            active: self.active,
            tool: self.tool,
            name: self.name@,
            brush: self.brush,
            brush_color_index: self.brush_color_index,
            stroke: opt_stroke(self.stroke),
            history: self.history@,
            selection: opt_cover(self.selection),
            marquee_start: self.marquee_start,
            marquee: self.marquee,
            failed: self.failed,
            collapsed: self.collapsed@,
            paint_mask: self.paint_mask,
            revision: self.revision,
            saved_revision: self.saved_revision,
            document_generation: self.document_generation,
            autosave_inflight: self.autosave_inflight,
            pending_open: opt(self.pending_open),
            pending_handoff_paths: opt_paths(self.pending_handoff_paths),
            open_confirm: self.open_confirm,
            project_path: opt(self.project_path),
            pixel_revisions: self.pixel_revisions@,
            versions: self.versions,
        }
    }
}

/// The brush to begin with.
pub open spec fn first_brush() -> Brush {
    Brush {
        diameter: 24_000_000,
        opacity: 1_000_000,
        hardness: 800_000,
        color: Rgb { red: 30, green: 30, blue: 34 },
        erasing: false,
    }
}

/// The canvas to begin with: nothing is open.
pub open spec fn empty_pane() -> PaneView {
    PaneView {
        document: None,
        store: empty_store(),
        layer: None,
        active: None,
        tool: 0,
        name: ""@,
        brush: first_brush(),
        brush_color_index: 0,
        stroke: None,
        history: no_history(),
        selection: None,
        marquee_start: None,
        marquee: None,
        failed: false,
        collapsed: Set::empty(),
        paint_mask: false,
        revision: 1,
        saved_revision: 1,
        document_generation: 1,
        autosave_inflight: None,
        pending_open: None,
        pending_handoff_paths: None,
        open_confirm: false,
        project_path: None,
        pixel_revisions: Map::empty(),
        versions: 1,
    }
}

impl Default for CanvasPane {
    fn default() -> (r: CanvasPane)
        ensures
            r@ == empty_pane(),
    {
        broadcast use vstd::std_specs::hash::group_hash_axioms;

        CanvasPane {
            document: None,
            store: PixelStore::new(),
            layer: None,
            active: None,
            tool: 0,
            name: "".to_owned(),
            brush: Brush {
                diameter: 24_000_000,
                opacity: 1_000_000,
                hardness: 800_000,
                color: Rgb { red: 30, green: 30, blue: 34 },
                erasing: false,
            },
            brush_color_index: 0,
            stroke: None,
            history: History::new(),
            selection: None,
            marquee_start: None,
            marquee: None,
            failed: false,
            collapsed: HashSet::new(),
            paint_mask: false,
            revision: 1,
            saved_revision: 1,
            document_generation: 1,
            autosave_inflight: None,
            pending_open: None,
            pending_handoff_paths: None,
            open_confirm: false,
            project_path: None,
            pixel_revisions: HashMap::new(),
            versions: 1,
        }
    }
}

/// The moment that the canvas is at.
pub open spec fn moment_of(p: PaneView) -> Option<SnapshotView> {
    match p.document {
        Some(document) => Some(
            SnapshotView {
                document,
                store: p.store,
                active: p.active,
                layer: p.layer,
                paint_mask: p.paint_mask,
                revision: p.revision,
            },
        ),
        None => None,
    }
}

/// The canvas once a change is under way.
pub open spec fn pane_begun(p: PaneView, kind: u8) -> PaneView {
    PaneView { history: begun(p.history, moment_of(p), kind), ..p }
}

/// The canvas once a change is over.
pub open spec fn pane_committed(p: PaneView) -> PaneView {
    let (history, revision) = committed(p.history, moment_of(p), p.revision);
    PaneView { history, revision, ..p }
}

/// The canvas at another moment.
pub open spec fn pane_restored(p: PaneView, history: HistoryView, moment: SnapshotView) -> PaneView {
    PaneView {
        document: Some(moment.document),
        store: moment.store,
        active: moment.active,
        layer: moment.layer,
        paint_mask: moment.paint_mask,
        revision: moment.revision,
        stroke: None,
        history,
        pixel_revisions: Map::empty(),
        ..p
    }
}

/// The canvas after the newest change is undone; a stroke comes first.
pub open spec fn pane_undone(p: PaneView) -> PaneView {
    if p.stroke is Some {
        p
    } else {
        match undone(p.history) {
            Some((history, moment)) => pane_restored(p, history, moment),
            None => p,
        }
    }
}

/// The canvas after the change that was undone last is made again.
pub open spec fn pane_redone(p: PaneView) -> PaneView {
    if p.stroke is Some {
        p
    } else {
        match redone(p.history) {
            Some((history, moment)) => pane_restored(p, history, moment),
            None => p,
        }
    }
}

/// Whether the canvas has changes that are not saved.
pub open spec fn has_changes(p: PaneView) -> bool {
    p.document is Some && p.revision != p.saved_revision
}

/// The rows of the panel.
pub open spec fn rows_of(p: PaneView) -> Seq<(NodeView, u64)> {
    match p.document {
        Some(d) => row_list(d.children, p.collapsed, 0),
        None => Seq::empty(),
    }
}

/// The node of a row of the panel; a negative row is the first.
pub open spec fn row_of(p: PaneView, index: i32) -> Option<NodeView> {
    let i = if index < 0 {
        0
    } else {
        index as int
    };
    if i < rows_of(p).len() {
        Some(rows_of(p)[i].0)
    } else {
        None
    }
}

/// The active node.
pub open spec fn active_node(p: PaneView) -> Option<NodeView> {
    match (p.document, p.active) {
        (Some(d), Some(id)) => find_in(d.children, id),
        _ => None,
    }
}

/// The pixels that the painting tools land on: the mask of the active node
/// where masks are painted and it has one, and else those of the picked layer.
pub open spec fn target_of(p: PaneView) -> Option<u64> {
    if p.paint_mask {
        match active_node(p) {
            Some(node) => match node.mask {
                Some(mask) => Some(mask.pixels),
                None => p.layer,
            },
            None => p.layer,
        }
    } else {
        p.layer
    }
}

/// The tool of a number, held to those that there are.
pub open spec fn held_tool(tool: i32) -> u64 {
    if tool < 0 {
        0
    } else if tool > 6 {
        6
    } else {
        tool as u64
    }
}

/// The canvas with another tool; the eraser is the brush that erases.
pub open spec fn tool_set(p: PaneView, tool: i32) -> PaneView {
    PaneView {
        tool: held_tool(tool),
        brush: Brush { erasing: held_tool(tool) == 4, ..p.brush },
        ..p
    }
}

/// How many colours the palette has.
pub const PALETTE_LEN: usize = 8;

/// A colour of the palette.
pub open spec fn palette_color(index: int) -> Rgb {
    if index == 0 {
        Rgb { red: 30, green: 30, blue: 34 }
    } else if index == 1 {
        Rgb { red: 235, green: 235, blue: 240 }
    } else if index == 2 {
        Rgb { red: 212, green: 59, blue: 55 }
    } else if index == 3 {
        Rgb { red: 235, green: 152, blue: 47 }
    } else if index == 4 {
        Rgb { red: 235, green: 205, blue: 62 }
    } else if index == 5 {
        Rgb { red: 88, green: 168, blue: 78 }
    } else if index == 6 {
        Rgb { red: 58, green: 118, blue: 205 }
    } else {
        Rgb { red: 138, green: 78, blue: 205 }
    }
}

/// A colour of the palette.
pub fn palette(index: usize) -> (r: Option<Rgb>)
    ensures
        r == if index < PALETTE_LEN {
            Some(palette_color(index as int))
        } else {
            None
        },
{
    if index >= PALETTE_LEN {
        return None;
    }
    Some(
        if index == 0 {
            Rgb { red: 30, green: 30, blue: 34 }
        } else if index == 1 {
            Rgb { red: 235, green: 235, blue: 240 }
        } else if index == 2 {
            Rgb { red: 212, green: 59, blue: 55 }
        } else if index == 3 {
            Rgb { red: 235, green: 152, blue: 47 }
        } else if index == 4 {
            Rgb { red: 235, green: 205, blue: 62 }
        } else if index == 5 {
            Rgb { red: 88, green: 168, blue: 78 }
        } else if index == 6 {
            Rgb { red: 58, green: 118, blue: 205 }
        } else {
            Rgb { red: 138, green: 78, blue: 205 }
        },
    )
}

/// The first place of a colour in the palette from a place on; below zero
/// where it has none.
pub open spec fn palette_place(color: Rgb, from: int) -> i32
    decreases PALETTE_LEN - from,
{
    if from < 0 || from >= PALETTE_LEN {
        -1i32 as i32
    } else if palette_color(from) == color {
        from as i32
    } else {
        palette_place(color, from + 1)
    }
}

fn find_color(color: Rgb) -> (r: i32)
    ensures
        r == palette_place(color, 0),
{
    let mut i: usize = 0;
    while i < PALETTE_LEN
        invariant
            i <= PALETTE_LEN,
            palette_place(color, 0) == palette_place(color, i as int),
        decreases PALETTE_LEN - i,
    {
        if let Some(known) = palette(i) {
            if known == color {
                return i as i32;
            }
        }
        i = i + 1;
    }
    -1
}

/// A channel from millionths: rounded, a half away from nothing, and held to
/// a byte.
pub open spec fn channel(n: i64) -> u8 {
    let whole = (n + 500_000) / 1_000_000;
    if n < 0 {
        0
    } else if whole > 255 {
        255
    } else {
        whole as u8
    }
}

fn to_channel(n: i64) -> (r: u8)
    ensures
        r == channel(n),
{
    if n < 0 {
        0
    } else {
        let whole: i128 = (n as i128 + 500_000) / 1_000_000;
        if whole > 255 {
            255
        } else {
            whole as u8
        }
    }
}

/// The canvas with a colour of its own for the brush; the eraser becomes the
/// brush.
pub open spec fn color_set(p: PaneView, color: Rgb) -> PaneView {
    let painted = PaneView { brush: Brush { color, ..p.brush }, ..p };
    let tooled = if p.tool == 4 {
        tool_set(painted, 3)
    } else {
        painted
    };
    PaneView { brush_color_index: palette_place(color, 0), ..tooled }
}

/// The canvas with a colour of the palette for the brush.
pub open spec fn palette_set(p: PaneView, index: int) -> PaneView {
    if index < PALETTE_LEN {
        PaneView {
            brush: Brush { color: palette_color(index), erasing: false, ..p.brush },
            brush_color_index: index as i32,
            ..p
        }
    } else {
        p
    }
}

/// A digit of base 16, written large.
pub open spec fn large_digit(d: int) -> char {
    if d == 0 {
        '0'
    } else if d == 1 {
        '1'
    } else if d == 2 {
        '2'
    } else if d == 3 {
        '3'
    } else if d == 4 {
        '4'
    } else if d == 5 {
        '5'
    } else if d == 6 {
        '6'
    } else if d == 7 {
        '7'
    } else if d == 8 {
        '8'
    } else if d == 9 {
        '9'
    } else if d == 10 {
        'A'
    } else if d == 11 {
        'B'
    } else if d == 12 {
        'C'
    } else if d == 13 {
        'D'
    } else if d == 14 {
        'E'
    } else {
        'F'
    }
}

fn to_large_digit(d: u8) -> (r: char)
    ensures
        r == large_digit(d as int),
{
    if d == 0 {
        '0'
    } else if d == 1 {
        '1'
    } else if d == 2 {
        '2'
    } else if d == 3 {
        '3'
    } else if d == 4 {
        '4'
    } else if d == 5 {
        '5'
    } else if d == 6 {
        '6'
    } else if d == 7 {
        '7'
    } else if d == 8 {
        '8'
    } else if d == 9 {
        '9'
    } else if d == 10 {
        'A'
    } else if d == 11 {
        'B'
    } else if d == 12 {
        'C'
    } else if d == 13 {
        'D'
    } else if d == 14 {
        'E'
    } else {
        'F'
    }
}

/// A byte as two digits of base 16.
pub open spec fn large_byte(n: u8) -> Seq<char> {
    seq![large_digit(n as int / 16), large_digit(n as int % 16)]
}

/// "#RRGGBB".
pub open spec fn large_hex(color: Rgb) -> Seq<char> {
    "#"@ + large_byte(color.red) + large_byte(color.green) + large_byte(color.blue)
}

fn push_large(s: &mut String, n: u8)
    ensures
        final(s)@ == old(s)@ + large_byte(n),
{
    s.push(to_large_digit(n / 16));
    s.push(to_large_digit(n % 16));
    proof {
        assert(s@ =~= old(s)@ + large_byte(n));
    }
}

/// The byte of two digits of base 16.
pub open spec fn pair_value(a: char, b: char) -> Option<u8> {
    match (hex_value(a), hex_value(b)) {
        (Some(high), Some(low)) => Some((high * 16 + low) as u8),
        _ => None,
    }
}

fn read_pair(a: char, b: char) -> (r: Option<u8>)
    ensures
        r == pair_value(a, b),
{
    match (read_hex(a), read_hex(b)) {
        (Some(high), Some(low)) => Some(high * 16 + low),
        _ => None,
    }
}

/// The digits of a colour: without blanks around them and without the mark.
pub open spec fn color_digits(text: Seq<char>) -> Seq<char> {
    let bare = trimmed(text);
    if bare.len() > 0 && bare[0] == '#' {
        bare.subrange(1, bare.len() as int)
    } else {
        bare
    }
}

/// The colour of "#RRGGBB" or "RRGGBB".
pub open spec fn hex_color(text: Seq<char>) -> Option<Rgb> {
    let d = color_digits(text);
    if d.len() != 6 {
        None
    } else {
        match (pair_value(d[0], d[1]), pair_value(d[2], d[3]), pair_value(d[4], d[5])) {
            (Some(red), Some(green), Some(blue)) => Some(Rgb { red, green, blue }),
            _ => None,
        }
    }
}

fn read_color(text: &str) -> (r: Option<Rgb>)
    ensures
        r == hex_color(text@),
{
    let bare: String = trim(text);
    let v: Vec<char> = chars_of(bare.as_str());
    let from: usize = if v.len() > 0 && v[0] == '#' {
        1
    } else {
        0
    };
    let ghost d = color_digits(text@);
    proof {
        assert(d =~= v@.subrange(from as int, v@.len() as int));
    }
    if v.len() - from != 6 {
        return None;
    }
    proof {
        assert(d[0] == v@[from as int] && d[1] == v@[from + 1] && d[2] == v@[from + 2]);
        assert(d[3] == v@[from + 3] && d[4] == v@[from + 4] && d[5] == v@[from + 5]);
    }
    match (
        read_pair(v[from], v[from + 1]),
        read_pair(v[from + 2], v[from + 3]),
        read_pair(v[from + 4], v[from + 5]),
    ) {
        (Some(red), Some(green), Some(blue)) => Some(Rgb { red, green, blue }),
        _ => None,
    }
}

/// The canvas with a brush of a diameter.
pub open spec fn size_set(p: PaneView, diameter: i64) -> PaneView {
    PaneView {
        brush: Brush { diameter: between(diameter, 1_000_000, 2_000_000_000), ..p.brush },
        ..p
    }
}

/// The canvas with a brush of an opacity.
pub open spec fn opacity_set(p: PaneView, opacity: i64) -> PaneView {
    PaneView { brush: Brush { opacity: between(opacity, 10_000, 1_000_000), ..p.brush }, ..p }
}

/// The canvas with a brush of a hardness.
pub open spec fn hardness_set(p: PaneView, hardness: i64) -> PaneView {
    PaneView { brush: Brush { hardness: between(hardness, 0, 1_000_000), ..p.brush }, ..p }
}

impl CanvasPane {
    /// Picks the tool.
    pub fn set_tool(&mut self, tool: i32)
        ensures
            final(self)@ == tool_set(old(self)@, tool),
    {
        self.tool = if tool < 0 {
            0
        } else if tool > 6 {
            6
        } else {
            tool as u64
        };
        self.brush.erasing = self.tool == 4;
    }

    /// Sets the diameter of the brush.
    pub fn set_brush_size(&mut self, diameter: i64)
        ensures
            final(self)@ == size_set(old(self)@, diameter),
    {
        self.brush.diameter = hold_between(diameter, 1_000_000, 2_000_000_000);
    }

    /// Sets the opacity of the brush.
    pub fn set_brush_opacity(&mut self, opacity: i64)
        ensures
            final(self)@ == opacity_set(old(self)@, opacity),
    {
        self.brush.opacity = hold_between(opacity, 10_000, 1_000_000);
    }

    /// Sets the hardness of the brush.
    pub fn set_brush_hardness(&mut self, hardness: i64)
        ensures
            final(self)@ == hardness_set(old(self)@, hardness),
    {
        self.brush.hardness = hold_between(hardness, 0, 1_000_000);
    }

    /// Gives the brush a colour of the palette.
    pub fn set_brush_palette(&mut self, index: usize)
        ensures
            final(self)@ == palette_set(old(self)@, index as int),
    {
        if let Some(color) = palette(index) {
            self.brush.color = color;
            self.brush.erasing = false;
            self.brush_color_index = index as i32;
        }
    }

    fn set_color(&mut self, color: Rgb)
        ensures
            final(self)@ == color_set(old(self)@, color),
    {
        self.brush.color = color;
        if self.tool == 4 {
            self.set_tool(3);
        }
        self.brush_color_index = find_color(color);
    }

    /// Gives the brush a colour; the channels are in millionths.
    pub fn set_brush_rgb(&mut self, red: i64, green: i64, blue: i64)
        ensures
            final(self)@ == color_set(
                old(self)@,
                Rgb { red: channel(red), green: channel(green), blue: channel(blue) },
            ),
    {
        self.set_color(
            Rgb { red: to_channel(red), green: to_channel(green), blue: to_channel(blue) },
        );
    }

    /// The colour of the brush, as "#RRGGBB".
    pub fn brush_hex(&self) -> (r: String)
        ensures
            r@ == large_hex(self.brush.color),
    {
        let mut s: String = "#".to_owned();
        push_large(&mut s, self.brush.color.red);
        push_large(&mut s, self.brush.color.green);
        push_large(&mut s, self.brush.color.blue);
        s
    }

    /// Gives the brush the colour of "#RRGGBB" or "RRGGBB"; any other text
    /// leaves it alone.
    pub fn set_brush_hex(&mut self, text: &str)
        ensures
            final(self)@ == match hex_color(text@) {
                Some(color) => color_set(old(self)@, color),
                None => old(self)@,
            },
    {
        if let Some(color) = read_color(text) {
            self.set_color(color);
        }
    }

    /// Gives the brush the colour of a pixel of the composed document.
    pub fn sample_color(&mut self, sampled: Option<[u8; 4]>)
        ensures
            final(self)@ == match sampled {
                Some(rgba) => color_set(
                    old(self)@,
                    Rgb { red: rgba[0], green: rgba[1], blue: rgba[2] },
                ),
                None => old(self)@,
            },
    {
        if let Some(rgba) = sampled {
            self.set_color(Rgb { red: rgba[0], green: rgba[1], blue: rgba[2] });
        }
    }

    /// What the painting tools act on.
    pub fn paint_target_label(&self) -> (r: &'static str)
        ensures
            r@ == if self.paint_mask {
                "蒙版"@
            } else {
                "图层"@
            },
    {
        if self.paint_mask {
            "蒙版"
        } else {
            "图层"
        }
    }

    /// The moment that the canvas is at.
    pub fn snapshot(&self) -> (r: Option<CanvasSnapshot>)
        ensures
            opt_moment(r) == moment_of(self@),
    {
        match &self.document {
            Some(d) => Some(
                CanvasSnapshot {
                    document: d.copy(),
                    store: self.store.copy(),
                    active: self.active,
                    layer: self.layer,
                    paint_mask: self.paint_mask,
                    revision: self.revision,
                },
            ),
            None => None,
        }
    }

    /// A change is under way.
    pub fn begin_history_mode(&mut self, kind: u8)
        ensures
            final(self)@ == pane_begun(old(self)@, kind),
    {
        let now: Option<CanvasSnapshot> = self.snapshot();
        self.history.begin(now, kind);
    }

    /// The change is over.
    pub fn commit_history(&mut self)
        ensures
            final(self)@ == pane_committed(old(self)@),
    {
        let now: Option<CanvasSnapshot> = self.snapshot();
        let revision: u64 = self.history.commit(now, self.revision);
        self.revision = revision;
    }

    fn restore_snapshot(&mut self, moment: CanvasSnapshot)
        ensures
            final(self)@ == pane_restored(old(self)@, old(self)@.history, moment@),
    {
        broadcast use vstd::std_specs::hash::group_hash_axioms;

        self.document = Some(moment.document);
        self.store = moment.store;
        self.active = moment.active;
        self.layer = moment.layer;
        self.paint_mask = moment.paint_mask;
        self.revision = moment.revision;
        self.stroke = None;
        self.pixel_revisions = HashMap::new();
    }

    /// Undoes the newest change.
    pub fn undo(&mut self)
        ensures
            final(self)@ == pane_undone(old(self)@),
    {
        if self.stroke.is_some() {
            return ;
        }
        if let Some(moment) = self.history.step_back() {
            self.restore_snapshot(moment);
        }
    }

    /// Makes the change again that was undone last.
    pub fn redo(&mut self)
        ensures
            final(self)@ == pane_redone(old(self)@),
    {
        if self.stroke.is_some() {
            return ;
        }
        if let Some(moment) = self.history.step_forth() {
            self.restore_snapshot(moment);
        }
    }

    /// Whether something can be undone.
    pub fn can_undo(&self) -> (r: bool)
        ensures
            r == (self@.stroke is None && undone(self@.history) is Some),
    {
        self.stroke.is_none() && self.history.undo.len() > 0
    }

    /// Whether something can be redone.
    pub fn can_redo(&self) -> (r: bool)
        ensures
            r == (self@.stroke is None && redone(self@.history) is Some),
    {
        self.stroke.is_none() && self.history.redo.len() > 0
    }

    /// Whether the canvas has changes that are not saved.
    pub fn is_modified(&self) -> (r: bool)
        ensures
            r == has_changes(self@),
    {
        self.document.is_some() && self.revision != self.saved_revision
    }

    /// The changes are let go.
    pub fn discard_unsaved(&mut self)
        ensures
            final(self)@ == (PaneView { saved_revision: old(self).revision, ..old(self)@ }),
    {
        self.saved_revision = self.revision;
    }

    /// The size of the document.
    pub fn document_size(&self) -> (r: Option<(u32, u32)>)
        ensures
            r == match self@.document {
                Some(d) => Some((d.width, d.height)),
                None => None,
            },
    {
        match &self.document {
            Some(d) => Some((d.width, d.height)),
            None => None,
        }
    }

    /// The rows of the panel.
    pub fn rows(&self) -> (r: Vec<(&LayerNode, u64)>)
        ensures
            rows_view(r@) == rows_of(self@),
    {
        match &self.document {
            Some(d) => list_rows(&d.children, &self.collapsed, 0),
            None => {
                let none: Vec<(&LayerNode, u64)> = Vec::new();
                proof {
                    assert(rows_view(none@) =~= Seq::empty());
                }
                none
            },
        }
    }

    /// The node of a row of the panel.
    pub fn row(&self, index: i32) -> (r: Option<&LayerNode>)
        ensures
            match r {
                Some(node) => row_of(self@, index) == Some(node@),
                None => row_of(self@, index) is None,
            },
    {
        let rows: Vec<(&LayerNode, u64)> = self.rows();
        let i: usize = if index < 0 {
            0
        } else {
            index as usize
        };
        proof {
            assert(rows_view(rows@).len() == rows@.len());
        }
        if i < rows.len() {
            proof {
                assert(rows_view(rows@)[i as int].0 == rows@[i as int].0@);
            }
            Some(rows[i].0)
        } else {
            None
        }
    }

    /// The active node.
    pub fn active_row(&self) -> (r: Option<&LayerNode>)
        ensures
            match r {
                Some(node) => active_node(self@) == Some(node@),
                None => active_node(self@) is None,
            },
    {
        match (&self.document, self.active) {
            (Some(d), Some(id)) => find(&d.children, id),
            _ => None,
        }
    }

    /// The pixels that the painting tools land on.
    pub fn paint_target(&self) -> (r: Option<u64>)
        ensures
            r == target_of(self@),
    {
        if self.paint_mask {
            if let Some(node) = self.active_row() {
                if let Some(mask) = node.mask {
                    return Some(mask.pixels);
                }
            }
        }
        self.layer
    }
}

/// The number of times that pixels were changed.
pub open spec fn touched(revisions: Map<u64, u64>, id: u64) -> Map<u64, u64> {
    revisions.insert(
        id,
        bumped(
            if revisions.contains_key(id) {
                revisions[id]
            } else {
                0
            },
        ),
    )
}

/// The canvas after the pixels of an identity were replaced.
pub open spec fn pixels_replaced(p: PaneView, id: u64, frame: FrameView) -> PaneView {
    PaneView {
        store: p.store.replaced(id, frame, p.versions),
        versions: after(p.versions),
        pixel_revisions: touched(p.pixel_revisions, id),
        ..p
    }
}

impl CanvasPane {
    /// Marks the pixels of an identity as changed.
    pub fn bump_thumbnail_revision(&mut self, id: u64)
        ensures
            final(self)@ == (PaneView {
                pixel_revisions: touched(old(self)@.pixel_revisions, id),
                ..old(self)@
            }),
    {
        broadcast use vstd::std_specs::hash::group_hash_axioms;

        let before: u64 = match self.pixel_revisions.get(&id) {
            Some(n) => *n,
            None => 0,
        };
        self.pixel_revisions.insert(id, crate::panes::canvas::history::bump(before));
    }

    /// Replaces the pixels of an identity.
    pub fn replace_pixels(&mut self, id: u64, frame: Frame)
        ensures
            final(self)@ == pixels_replaced(old(self)@, id, frame@),
    {
        self.store.replace(id, frame, self.versions);
        self.versions = next_number(self.versions);
        self.bump_thumbnail_revision(id);
    }
}

/// Whether the preview of some pixels still shows them: no change landed since
/// it was drawn, and it is of the same version, or a stroke is still under way
/// on them.
pub open spec fn preview_stays(
    p: PaneView,
    id: u64,
    mask: bool,
    drawn: (u64, u64, bool),
) -> bool {
    drawn.0 == (if p.pixel_revisions.contains_key(id) {
        p.pixel_revisions[id]
    } else {
        0
    }) && drawn.2 == mask && (p.store.at(id) matches Some(b) && b.version == drawn.1 || (
    p.stroke matches Some(s) && s.target == id))
}

impl CanvasPane {
    /// Whether the preview of some pixels still shows them. `drawn` holds the
    /// revision and the version it was drawn of, and whether it is that of a
    /// mask.
    pub fn thumbnail_stays(&self, id: u64, mask: bool, drawn: (u64, u64, bool)) -> (r: bool)
        ensures
            r == preview_stays(self@, id, mask, drawn),
    {
        broadcast use vstd::std_specs::hash::group_hash_axioms;

        let revision: u64 = match self.pixel_revisions.get(&id) {
            Some(n) => *n,
            None => 0,
        };
        let same: bool = match self.store.version(id) {
            Some(version) => version == drawn.1,
            None => false,
        };
        let stroked: bool = match &self.stroke {
            Some(s) => s.target == id,
            None => false,
        };
        drawn.0 == revision && drawn.2 == mask && (same || stroked)
    }
}

/// The colour of the brush is read back from how it is written, and is that of
/// the brush again.
pub proof fn colors_are_read_back(color: Rgb)
    ensures
        hex_color(large_hex(color)) == Some(color),
{
    reveal_strlit("#");
    let s = large_hex(color);
    let bare = large_byte(color.red) + large_byte(color.green) + large_byte(color.blue);
    assert(s.len() == 7);
    assert(s[0] == '#');
    assert(forall|i: int| 0 <= i < 6 ==> #[trigger] s[i + 1] == bare[i]);
    byte_digits(color.red);
    byte_digits(color.green);
    byte_digits(color.blue);
    solid_text(s);
    assert(color_digits(s) =~= bare);
    assert(bare[0] == large_byte(color.red)[0] && bare[1] == large_byte(color.red)[1]);
    assert(bare[2] == large_byte(color.green)[0] && bare[3] == large_byte(color.green)[1]);
    assert(bare[4] == large_byte(color.blue)[0] && bare[5] == large_byte(color.blue)[1]);
}

proof fn solid_text(s: Seq<char>)
    requires
        s.len() > 0,
        !crate::text::white_space(s[0]),
        !crate::text::white_space(s.last()),
    ensures
        trimmed(s) == s,
{
    reveal_with_fuel(crate::text::trim_start, 2);
    reveal_with_fuel(crate::text::trim_end, 2);
}

proof fn byte_digits(n: u8)
    ensures
        pair_value(large_byte(n)[0], large_byte(n)[1]) == Some(n),
        !crate::text::white_space(large_byte(n)[1]),
{
    let high = n as int / 16;
    let low = n as int % 16;
    assert(0 <= high < 16 && 0 <= low < 16 && n == high * 16 + low);
    assert(hex_value(large_digit(high)) == Some(high));
    assert(hex_value(large_digit(low)) == Some(low));
}

} // verus!
