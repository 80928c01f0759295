//! Pictures of straight RGBA bytes, and what is done to their tiles.

use crate::text::{cat, cat3, decimal, to_decimal, verdict};
use vstd::arithmetic::div_mod::{lemma_fundamental_div_mod_converse, lemma_mod_bound};
use vstd::prelude::*;
use vstd::string::*;

verus! {

/// The edge of a brush tile, in pixels.
pub const TILE: u64 = 256;

/// The longest side of a picture where no device sets another limit.
pub const DEFAULT_IMAGE_DIMENSION_LIMIT: u32 = 32_768;

/// The bytes of a picture.
pub open spec fn frame_bytes(width: u32, height: u32) -> nat {
    (width as nat * height as nat) * 4
}

/// The bytes of a picture, where the machine can address them.
pub fn checked_frame_bytes(width: u32, height: u32) -> (r: Option<usize>)
    ensures
        match r {
            Some(n) => n == frame_bytes(width, height),
            None => frame_bytes(width, height) > usize::MAX,
        },
{
    let pixels: Option<usize> = (width as usize).checked_mul(height as usize);
    match pixels {
        Some(n) => n.checked_mul(4),
        None => None,
    }
}

/// The limit that a device sets on a side.
pub open spec fn side_limit(texture_limit: Option<u32>) -> u32 {
    match texture_limit {
        Some(limit) => limit,
        None => DEFAULT_IMAGE_DIMENSION_LIMIT,
    }
}

/// Why a canvas cannot have a size.
pub open spec fn size_fault(width: u32, height: u32, texture_limit: Option<u32>) -> Option<
    Seq<char>,
> {
    let limit = side_limit(texture_limit);
    if width == 0 || height == 0 {
        Some("empty canvas"@)
    } else if width > limit || height > limit {
        Some(
            "canvas "@ + decimal(width as nat) + "x"@ + decimal(height as nat)
                + " exceeds this device's "@ + decimal(limit as nat) + "px texture limit"@,
        )
    } else {
        None
    }
}

/// Checks the size of a canvas against the limit of the device.
pub fn validate_canvas_dimensions(width: u32, height: u32, texture_limit: Option<u32>) -> (r: Result<
    (),
    String,
>)
    ensures
        verdict(r) == match size_fault(width, height, texture_limit) {
            Some(message) => Err(message),
            None => Ok(()),
        },
{
    let limit: u32 = match texture_limit {
        Some(limit) => limit,
        None => DEFAULT_IMAGE_DIMENSION_LIMIT,
    };
    if width == 0 || height == 0 {
        return Err("empty canvas".to_owned());
    }
    if width > limit || height > limit {
        let w: String = cat("canvas ", to_decimal(width as u64).as_str());
        let size: String = cat3(w.as_str(), "x", to_decimal(height as u64).as_str());
        let first: String = cat3(
            size.as_str(),
            " exceeds this device's ",
            to_decimal(limit as u64).as_str(),
        );
        return Err(cat(first.as_str(), "px texture limit"));
    }
    Ok(())
}

/// A picture: four bytes to a pixel, row after row.
pub struct Frame {
    pub width: u32,
    pub height: u32,
    pub pixels: Vec<u8>,
}

pub struct FrameView {
    pub width: u32,
    pub height: u32,
    pub pixels: Seq<u8>,
}

impl View for Frame {
    type V = FrameView;

    open spec fn view(&self) -> FrameView {
        FrameView { width: self.width, height: self.height, pixels: self.pixels@ }
    }
}

impl FrameView {
    /// The bytes are those of the size.
    pub open spec fn is_whole(self) -> bool {
        self.pixels.len() == frame_bytes(self.width, self.height)
    }

    /// The place of the first byte of a pixel.
    pub open spec fn place(self, x: int, y: int) -> int {
        (y * self.width + x) * 4
    }
}

/// A picture that nothing shows of.
pub open spec fn transparent_view(width: u32, height: u32) -> FrameView {
    FrameView { width, height, pixels: Seq::new(frame_bytes(width, height), |i: int| 0u8) }
}

/// A picture that is white and opaque all over.
pub open spec fn white_view(width: u32, height: u32) -> FrameView {
    FrameView { width, height, pixels: Seq::new(frame_bytes(width, height), |i: int| 255u8) }
}

fn filled_bytes(n: usize, value: u8) -> (r: Vec<u8>)
    ensures
        r@ == Seq::new(n as nat, |i: int| value),
{
    let mut out: Vec<u8> = Vec::new();
    let mut i: usize = 0;
    while i < n
        invariant
            i <= n,
            out@.len() == i,
            forall|j: int| 0 <= j < i ==> #[trigger] out@[j] == value,
        decreases n - i,
    {
        out.push(value);
        i = i + 1;
    }
    proof {
        assert(out@ =~= Seq::new(n as nat, |i: int| value));
    }
    out
}

fn byte_count(width: u32, height: u32) -> (r: usize)
    requires
        frame_bytes(width, height) <= usize::MAX,
    ensures
        r == frame_bytes(width, height),
{
    match checked_frame_bytes(width, height) {
        Some(n) => n,
        None => 0,
    }
}

/// The place of the first byte of a pixel, in a picture of so many bytes.
fn pixel_start(width: u32, height: u32, x: u32, y: u32, bytes: usize) -> (r: usize)
    requires
        x < width,
        y < height,
        bytes == frame_bytes(width, height),
    ensures
        r == (y as int * width as int + x as int) * 4,
        r + 4 <= bytes,
{
    proof {
        place_bounds(width as int, height as int, x as int, y as int);
    }
    (y as usize * width as usize + x as usize) * 4
}

impl Frame {
    /// A picture that nothing shows of.
    pub fn transparent(width: u32, height: u32) -> (r: Frame)
        requires
            frame_bytes(width, height) <= usize::MAX,
        ensures
            r@ == transparent_view(width, height),
            r@.is_whole(),
    {
        Frame { width, height, pixels: filled_bytes(byte_count(width, height), 0) }
    }

    /// A picture that is white and opaque all over, as a new mask is.
    pub fn white(width: u32, height: u32) -> (r: Frame)
        requires
            frame_bytes(width, height) <= usize::MAX,
        ensures
            r@ == white_view(width, height),
            r@.is_whole(),
    {
        Frame { width, height, pixels: filled_bytes(byte_count(width, height), 255) }
    }

    /// A picture of bytes; none where it would be empty or the bytes are not
    /// those of the size.
    pub fn from_rgba(width: u32, height: u32, pixels: Vec<u8>) -> (r: Option<Frame>)
        ensures
            match r {
                Some(frame) => frame@ == (FrameView { width, height, pixels: pixels@ })
                    && frame@.is_whole() && width > 0 && height > 0,
                None => width == 0 || height == 0 || pixels@.len() != frame_bytes(width, height),
            },
    {
        let bytes: usize = pixels.len();
        let whole: bool = match checked_frame_bytes(width, height) {
            Some(n) => bytes == n,
            None => false,
        };
        if width == 0 || height == 0 || !whole {
            None
        } else {
            Some(Frame { width, height, pixels })
        }
    }

    /// A pixel; none outside the picture.
    pub fn pixel(&self, x: u32, y: u32) -> (r: Option<[u8; 4]>)
        requires
            self@.is_whole(),
        ensures
            match r {
                Some(rgba) => x < self.width && y < self.height && forall|c: int|
                    0 <= c < 4 ==> #[trigger] rgba@[c] == self@.pixels[self@.place(
                        x as int,
                        y as int,
                    ) + c],
                None => x >= self.width || y >= self.height,
            },
    {
        if x >= self.width || y >= self.height {
            return None;
        }
        let at: usize = pixel_start(self.width, self.height, x, y, self.pixels.len());
        Some([self.pixels[at], self.pixels[at + 1], self.pixels[at + 2], self.pixels[at + 3]])
    }

    pub fn copy(&self) -> (r: Frame)
        ensures
            r@ == self@,
    {
        let mut out: Vec<u8> = Vec::new();
        let mut i: usize = 0;
        while i < self.pixels.len()
            invariant
                i <= self.pixels.len(),
                out@ == self.pixels@.take(i as int),
            decreases self.pixels.len() - i,
        {
            out.push(self.pixels[i]);
            proof {
                assert(self.pixels@.take(i + 1) =~= self.pixels@.take(i as int).push(
                    self.pixels@[i as int],
                ));
            }
            i = i + 1;
        }
        proof {
            assert(self.pixels@.take(self.pixels@.len() as int) =~= self.pixels@);
        }
        Frame { width: self.width, height: self.height, pixels: out }
    }
}

/// The four bytes of a pixel lie within the picture.
pub proof fn place_bounds(width: int, height: int, x: int, y: int)
    requires
        0 <= x < width,
        0 <= y < height,
    ensures
        0 <= y * width,
        0 <= (y * width + x) * 4,
        (y * width + x) * 4 + 4 <= (width * height) * 4,
        y * width + x < width * height,
{
    assert(0 <= y * width) by (nonlinear_arith)
        requires
            0 <= y,
            0 < width,
    ;
    assert(y * width + width <= width * height) by (nonlinear_arith)
        requires
            0 <= y < height,
            0 < width,
    ;
}

/// The column of a byte.
pub open spec fn column(i: int, width: int) -> int {
    (i / 4) % width
}

/// The row of a byte.
pub open spec fn row(i: int, width: int) -> int {
    (i / 4) / width
}

/// The bytes of a pixel are in its column and row, and no others are.
pub proof fn places_are_pixels(i: int, width: int, x: int, y: int)
    requires
        0 <= x < width,
        0 <= y,
        0 <= i,
    ensures
        (column(i, width) == x && row(i, width) == y) <==> (y * width + x) * 4 <= i < (y * width
            + x) * 4 + 4,
{
    let p = i / 4;
    if p == y * width + x {
        lemma_fundamental_div_mod_converse(p, width, y, x);
    }
    if column(i, width) == x && row(i, width) == y {
        vstd::arithmetic::div_mod::lemma_fundamental_div_mod(p, width);
        assert(p == width * y + x);
        assert(width * y == y * width) by (nonlinear_arith);
    }
}

/// Whether a byte belongs to a box of pixels.
pub open spec fn in_box(i: int, width: int, x0: int, x1: int, y0: int, y1: int) -> bool {
    x0 <= column(i, width) < x1 && y0 <= row(i, width) < y1
}

/// Whether a column or row belongs to those of a brush tile.
pub open spec fn in_span(tile: u64, x: int) -> bool {
    tile * 256 <= x < tile * 256 + 256
}

/// Whether a byte belongs to a brush tile.
pub open spec fn in_tile(i: int, width: int, tile: (u64, u64)) -> bool {
    in_span(tile.0, column(i, width)) && in_span(tile.1, row(i, width))
}

/// Whether a part of a side is the one that a tile covers.
pub open spec fn is_span(span: (u32, u32), tile: u64, side: u32) -> bool {
    &&& span.0 <= span.1 <= side
    &&& forall|x: int|
        0 <= x < side ==> (span.0 <= x < span.1) == #[trigger] in_span(tile, x)
}

/// Bytes with those of a tile replaced.
pub open spec fn patched(
    bytes: Seq<u8>,
    width: int,
    tile: (u64, u64),
    fresh: spec_fn(int) -> u8,
) -> Seq<u8> {
    Seq::new(
        bytes.len(),
        |i: int|
            if in_tile(i, width, tile) {
                fresh(i)
            } else {
                bytes[i]
            },
    )
}

/// The part of a side that a tile covers.
fn tile_span(tile: u64, side: u32) -> (r: (u32, u32))
    ensures
        is_span(r, tile, side),
{
    if tile > (side as u64) / TILE {
        return (side, side);
    }
    let from: u64 = tile * TILE;
    if from >= side as u64 {
        return (side, side);
    }
    let to: u64 = if from + TILE > side as u64 {
        side as u64
    } else {
        from + TILE
    };
    (from as u32, to as u32)
}

/// What a loop over the pixels of a tile has done so far: the rows before `y`,
/// and of the row `y` the columns before `x`.
pub open spec fn so_far(
    bytes: Seq<u8>,
    before: Seq<u8>,
    width: int,
    x0: int,
    x1: int,
    y0: int,
    y: int,
    x: int,
    fresh: spec_fn(int) -> u8,
) -> bool {
    &&& bytes.len() == before.len()
    &&& forall|i: int|
        0 <= i < bytes.len() ==> #[trigger] bytes[i] == if in_box(i, width, x0, x1, y0, y)
            || in_box(i, width, x0, x, y, y + 1) {
            fresh(i)
        } else {
            before[i]
        }
}

proof fn next_row(
    bytes: Seq<u8>,
    before: Seq<u8>,
    width: int,
    x0: int,
    x1: int,
    y0: int,
    y: int,
    fresh: spec_fn(int) -> u8,
)
    requires
        so_far(bytes, before, width, x0, x1, y0, y, x1, fresh),
        y0 <= y,
    ensures
        so_far(bytes, before, width, x0, x1, y0, y + 1, x0, fresh),
{
    assert forall|i: int| 0 <= i < bytes.len() implies #[trigger] bytes[i] == if in_box(
        i,
        width,
        x0,
        x1,
        y0,
        y + 1,
    ) || in_box(i, width, x0, x0, y + 1, y + 2) {
        fresh(i)
    } else {
        before[i]
    } by {}
}

proof fn next_pixel(
    after: Seq<u8>,
    bytes: Seq<u8>,
    before: Seq<u8>,
    width: int,
    x0: int,
    x1: int,
    y0: int,
    y: int,
    x: int,
    fresh: spec_fn(int) -> u8,
)
    requires
        so_far(bytes, before, width, x0, x1, y0, y, x, fresh),
        0 <= x0 <= x < x1 <= width,
        0 <= y0 <= y,
        after.len() == bytes.len(),
        ({
            let at = (y * width + x) * 4;
            forall|i: int|
                0 <= i < after.len() ==> #[trigger] after[i] == if at <= i < at + 4 {
                    fresh(i)
                } else {
                    bytes[i]
                }
        }),
    ensures
        so_far(after, before, width, x0, x1, y0, y, x + 1, fresh),
{
    assert forall|i: int| 0 <= i < after.len() implies #[trigger] after[i] == if in_box(
        i,
        width,
        x0,
        x1,
        y0,
        y,
    ) || in_box(i, width, x0, x + 1, y, y + 1) {
        fresh(i)
    } else {
        before[i]
    } by {
        places_are_pixels(i, width, x, y);
        assert(bytes[i] == if in_box(i, width, x0, x1, y0, y) || in_box(
            i,
            width,
            x0,
            x,
            y,
            y + 1,
        ) {
            fresh(i)
        } else {
            before[i]
        });
    }
}

proof fn tile_done(
    bytes: Seq<u8>,
    before: Seq<u8>,
    width: u32,
    height: u32,
    tile: (u64, u64),
    xs: (u32, u32),
    ys: (u32, u32),
    fresh: spec_fn(int) -> u8,
)
    requires
        before.len() == frame_bytes(width, height),
        so_far(
            bytes,
            before,
            width as int,
            xs.0 as int,
            xs.1 as int,
            ys.0 as int,
            ys.1 as int,
            xs.0 as int,
            fresh,
        ),
        is_span(xs, tile.0, width),
        is_span(ys, tile.1, height),
    ensures
        bytes == patched(before, width as int, tile, fresh),
{
    assert forall|i: int| 0 <= i < bytes.len() implies bytes[i] == patched(
        before,
        width as int,
        tile,
        fresh,
    )[i] by {
        let w = width as int;
        let h = height as int;
        assert(0 <= i < (w * h) * 4);
        if w == 0 {
            assert(w * h == 0) by (nonlinear_arith)
                requires
                    w == 0,
            ;
        }
        assert(w > 0);
        let p = i / 4;
        assert(0 <= p < w * h);
        lemma_mod_bound(p, w);
        vstd::arithmetic::div_mod::lemma_fundamental_div_mod(p, w);
        assert(0 <= p / w) by (nonlinear_arith)
            requires
                0 <= p,
                0 < w,
        ;
        assert(p / w < h) by (nonlinear_arith)
            requires
                p < w * h,
                p == w * (p / w) + p % w,
                0 <= p % w,
                0 < w,
        ;
    }
    assert(bytes =~= patched(before, width as int, tile, fresh));
}

proof fn tile_begins(before: Seq<u8>, width: int, x0: int, x1: int, y0: int, fresh: spec_fn(int) -> u8)
    ensures
        so_far(before, before, width, x0, x1, y0, y0, x0, fresh),
{
}

/// The bytes of a source.
pub open spec fn copied(src: Seq<u8>) -> spec_fn(int) -> u8 {
    |i: int| src[i]
}

/// Copies the pixels of one brush tile, clipped to the picture.
pub fn copy_tile(src: &Vec<u8>, dst: &mut Vec<u8>, width: u32, height: u32, tile: (u64, u64))
    requires
        src@.len() == frame_bytes(width, height),
        old(dst)@.len() == frame_bytes(width, height),
    ensures
        final(dst)@ == patched(old(dst)@, width as int, tile, copied(src@)),
{
    let xs: (u32, u32) = tile_span(tile.0, width);
    let ys: (u32, u32) = tile_span(tile.1, height);
    let ghost before = dst@;
    let ghost fresh = copied(src@);
    let mut y: u32 = ys.0;
    proof {
        tile_begins(
            before,
            width as int,
            xs.0 as int,
            xs.1 as int,
            ys.0 as int,
            fresh,
        );
    }
    while y < ys.1
        invariant
            ys.0 <= y <= ys.1 <= height,
            xs.0 <= xs.1 <= width,
            src@.len() == frame_bytes(width, height),
            before.len() == frame_bytes(width, height),
            fresh == copied(src@),
            so_far(
                dst@,
                before,
                width as int,
                xs.0 as int,
                xs.1 as int,
                ys.0 as int,
                y as int,
                xs.0 as int,
                fresh,
            ),
        decreases ys.1 - y,
    {
        let mut x: u32 = xs.0;
        while x < xs.1
            invariant
                xs.0 <= x <= xs.1 <= width,
                ys.0 <= y < ys.1 <= height,
                src@.len() == frame_bytes(width, height),
                before.len() == frame_bytes(width, height),
                fresh == copied(src@),
                so_far(
                    dst@,
                    before,
                    width as int,
                    xs.0 as int,
                    xs.1 as int,
                    ys.0 as int,
                    y as int,
                    x as int,
                    fresh,
                ),
            decreases xs.1 - x,
        {
            let ghost bytes = dst@;
            let at: usize = pixel_start(width, height, x, y, src.len());
            dst.set(at, src[at]);
            dst.set(at + 1, src[at + 1]);
            dst.set(at + 2, src[at + 2]);
            dst.set(at + 3, src[at + 3]);
            proof {
                next_pixel(
                    dst@,
                    bytes,
                    before,
                    width as int,
                    xs.0 as int,
                    xs.1 as int,
                    ys.0 as int,
                    y as int,
                    x as int,
                    fresh,
                );
            }
            x = x + 1;
        }
        proof {
            next_row(
                dst@,
                before,
                width as int,
                xs.0 as int,
                xs.1 as int,
                ys.0 as int,
                y as int,
                fresh,
            );
        }
        y = y + 1;
    }
    proof {
        tile_done(dst@, before, width, height, tile, xs, ys, fresh);
    }
}

/// How much of each pixel is selected, from 0 to 255.
pub struct Selection {
    pub width: u32,
    pub height: u32,
    pub coverage: Vec<u8>,
}

pub struct SelectionCover {
    pub width: u32,
    pub height: u32,
    pub coverage: Seq<u8>,
}

impl View for Selection {
    type V = SelectionCover;

    open spec fn view(&self) -> SelectionCover {
        SelectionCover { width: self.width, height: self.height, coverage: self.coverage@ }
    }
}

impl SelectionCover {
    /// One byte to a pixel.
    pub open spec fn is_whole(self) -> bool {
        self.coverage.len() == self.width as nat * self.height as nat
    }

    /// How much of a pixel is selected; nothing outside.
    pub open spec fn at(self, x: int, y: int) -> u8 {
        if 0 <= x < self.width && 0 <= y < self.height {
            self.coverage[y * self.width + x]
        } else {
            0
        }
    }
}

impl Selection {
    /// How much of a pixel is selected; nothing outside.
    pub fn at(&self, x: u32, y: u32) -> (r: u8)
        requires
            self@.is_whole(),
        ensures
            r == self@.at(x as int, y as int),
    {
        if x >= self.width || y >= self.height {
            return 0;
        }
        let n: usize = self.coverage.len();
        proof {
            place_bounds(self.width as int, self.height as int, x as int, y as int);
        }
        let at: usize = y as usize * self.width as usize + x as usize;
        self.coverage[at]
    }
}

/// A byte between an old and a painted one, by how much is selected.
pub open spec fn blended(old: u8, painted: u8, coverage: u8) -> u8 {
    ((old * (255 - coverage) + painted * coverage + 127) / 255) as u8
}

fn blend(old: u8, painted: u8, coverage: u8) -> (r: u8)
    ensures
        r == blended(old, painted, coverage),
{
    proof {
        let a = old as int;
        let b = painted as int;
        let k = coverage as int;
        assert(0 <= a * (255 - k) <= 255 * (255 - k)) by (nonlinear_arith)
            requires
                0 <= a <= 255,
                0 <= k <= 255,
        ;
        assert(0 <= b * k <= 255 * k) by (nonlinear_arith)
            requires
                0 <= b <= 255,
                0 <= k <= 255,
        ;
    }
    ((old as u32 * (255 - coverage as u32) + painted as u32 * coverage as u32 + 127) / 255) as u8
}

/// Where all is selected the painted byte stays, and where nothing is the old
/// one comes back.
pub proof fn selection_clips(old: u8, painted: u8)
    ensures
        blended(old, painted, 255) == painted,
        blended(old, painted, 0) == old,
{
}

/// The bytes of a picture held to a selection.
pub open spec fn clipped(
    base: Seq<u8>,
    painted: Seq<u8>,
    width: int,
    selection: SelectionCover,
) -> spec_fn(int) -> u8 {
    |i: int|
        blended(base[i], painted[i], selection.at(column(i, width), row(i, width)))
}

proof fn clipped_at(
    base: Seq<u8>,
    painted: Seq<u8>,
    width: int,
    selection: SelectionCover,
    x: int,
    y: int,
)
    requires
        0 <= x < width,
        0 <= y,
    ensures
        forall|i: int|
            0 <= i && (y * width + x) * 4 <= i < (y * width + x) * 4 + 4 ==> #[trigger] clipped(
                base,
                painted,
                width,
                selection,
            )(i) == blended(base[i], painted[i], selection.at(x, y)),
{
    assert forall|i: int|
        0 <= i && (y * width + x) * 4 <= i < (y * width + x) * 4 + 4 implies #[trigger] clipped(
        base,
        painted,
        width,
        selection,
    )(i) == blended(base[i], painted[i], selection.at(x, y)) by {
        places_are_pixels(i, width, x, y);
    }
}

fn clip_tile(
    pixels: &mut Vec<u8>,
    base: &Vec<u8>,
    width: u32,
    height: u32,
    selection: &Selection,
    tile: (u64, u64),
)
    requires
        base@.len() == frame_bytes(width, height),
        old(pixels)@.len() == frame_bytes(width, height),
        selection@.is_whole(),
    ensures
        final(pixels)@ == patched(
            old(pixels)@,
            width as int,
            tile,
            clipped(base@, old(pixels)@, width as int, selection@),
        ),
{
    let xs: (u32, u32) = tile_span(tile.0, width);
    let ys: (u32, u32) = tile_span(tile.1, height);
    let ghost before = pixels@;
    let ghost fresh = clipped(base@, before, width as int, selection@);
    let mut y: u32 = ys.0;
    proof {
        tile_begins(
            before,
            width as int,
            xs.0 as int,
            xs.1 as int,
            ys.0 as int,
            fresh,
        );
    }
    while y < ys.1
        invariant
            ys.0 <= y <= ys.1 <= height,
            xs.0 <= xs.1 <= width,
            base@.len() == frame_bytes(width, height),
            selection@.is_whole(),
            before.len() == frame_bytes(width, height),
            fresh == clipped(base@, before, width as int, selection@),
            so_far(
                pixels@,
                before,
                width as int,
                xs.0 as int,
                xs.1 as int,
                ys.0 as int,
                y as int,
                xs.0 as int,
                fresh,
            ),
        decreases ys.1 - y,
    {
        let mut x: u32 = xs.0;
        while x < xs.1
            invariant
                xs.0 <= x <= xs.1 <= width,
                ys.0 <= y < ys.1 <= height,
                base@.len() == frame_bytes(width, height),
                selection@.is_whole(),
                before.len() == frame_bytes(width, height),
                fresh == clipped(base@, before, width as int, selection@),
                so_far(
                    pixels@,
                    before,
                    width as int,
                    xs.0 as int,
                    xs.1 as int,
                    ys.0 as int,
                    y as int,
                    x as int,
                    fresh,
                ),
            decreases xs.1 - x,
        {
            let ghost bytes = pixels@;
            let at: usize = pixel_start(width, height, x, y, pixels.len());
            let coverage: u8 = selection.at(x, y);
            proof {
                clipped_at(base@, before, width as int, selection@, x as int, y as int);
                assert forall|i: int| at <= i < at + 4 implies #[trigger] bytes[i] == before[i] by {
                    places_are_pixels(i, width as int, x as int, y as int);
                }
                assert(bytes[at as int] == before[at as int]);
                assert(bytes[at + 1] == before[at + 1]);
                assert(bytes[at + 2] == before[at + 2]);
                assert(bytes[at + 3] == before[at + 3]);
            }
            let b0: u8 = blend(base[at], pixels[at], coverage);
            let b1: u8 = blend(base[at + 1], pixels[at + 1], coverage);
            let b2: u8 = blend(base[at + 2], pixels[at + 2], coverage);
            let b3: u8 = blend(base[at + 3], pixels[at + 3], coverage);
            pixels.set(at, b0);
            pixels.set(at + 1, b1);
            pixels.set(at + 2, b2);
            pixels.set(at + 3, b3);
            proof {
                assert forall|i: int| 0 <= i < pixels@.len() implies #[trigger] pixels@[i] == if at
                    <= i < at + 4 {
                    fresh(i)
                } else {
                    bytes[i]
                } by {
                    if at <= i < at + 4 {
                        assert(clipped(base@, before, width as int, selection@)(i) == blended(
                            base@[i],
                            before[i],
                            selection@.at(x as int, y as int),
                        ));
                    }
                }
            }
            proof {
                next_pixel(
                    pixels@,
                    bytes,
                    before,
                    width as int,
                    xs.0 as int,
                    xs.1 as int,
                    ys.0 as int,
                    y as int,
                    x as int,
                    fresh,
                );
            }
            x = x + 1;
        }
        proof {
            next_row(
                pixels@,
                before,
                width as int,
                xs.0 as int,
                xs.1 as int,
                ys.0 as int,
                y as int,
                fresh,
            );
        }
        y = y + 1;
    }
    proof {
        tile_done(pixels@, before, width, height, tile, xs, ys, fresh);
    }
}

/// The bytes of a picture held to a selection on some tiles, one after the
/// other.
pub open spec fn restricted(
    pixels: Seq<u8>,
    base: Seq<u8>,
    width: int,
    selection: SelectionCover,
    tiles: Seq<(u64, u64)>,
) -> Seq<u8>
    decreases tiles.len(),
{
    if tiles.len() == 0 {
        pixels
    } else {
        let before = restricted(pixels, base, width, selection, tiles.drop_last());
        patched(before, width, tiles.last(), clipped(base, before, width, selection))
    }
}

/// Holds freshly painted tiles to a selection: outside it the pixels from
/// before the stroke come back, and a soft edge lies between the two.
pub fn restrict_to_selection(
    frame: &mut Frame,
    base: &Frame,
    selection: &Selection,
    changed: &Vec<(u64, u64)>,
)
    requires
        old(frame)@.is_whole(),
        base@.pixels.len() == old(frame)@.pixels.len(),
        selection@.is_whole(),
    ensures
        final(frame)@ == (FrameView {
            pixels: restricted(
                old(frame)@.pixels,
                base@.pixels,
                old(frame).width as int,
                selection@,
                changed@,
            ),
            ..old(frame)@
        }),
        final(frame)@.is_whole(),
{
    let ghost before = frame@;
    let mut i: usize = 0;
    proof {
        assert(changed@.take(0) =~= Seq::empty());
    }
    while i < changed.len()
        invariant
            i <= changed.len(),
            frame.width == before.width,
            frame.height == before.height,
            frame@.is_whole(),
            base@.pixels.len() == frame@.pixels.len(),
            selection@.is_whole(),
            frame.pixels@ == restricted(
                before.pixels,
                base@.pixels,
                before.width as int,
                selection@,
                changed@.take(i as int),
            ),
        decreases changed.len() - i,
    {
        proof {
            assert(changed@.take(i + 1).drop_last() =~= changed@.take(i as int));
        }
        clip_tile(
            &mut frame.pixels,
            &base.pixels,
            frame.width,
            frame.height,
            selection,
            changed[i],
        );
        i = i + 1;
    }
    proof {
        assert(changed@.take(changed@.len() as int) =~= changed@);
    }
}

/// The coverage that a pixel of a mask stands for.
pub open spec fn mask_value(red: u8, alpha: u8) -> u8 {
    ((red * alpha + 127) / 255) as u8
}

fn cover(red: u8, alpha: u8) -> (r: u8)
    ensures
        r == mask_value(red, alpha),
{
    proof {
        let a = red as int;
        let b = alpha as int;
        assert(0 <= a * b <= 255 * 255) by (nonlinear_arith)
            requires
                0 <= a <= 255,
                0 <= b <= 255,
        ;
    }
    ((red as u32 * alpha as u32 + 127) / 255) as u8
}

/// The bytes of a mask in their plain form: one coverage in all colours, and
/// opaque.
pub open spec fn plain_mask(pixels: Seq<u8>) -> spec_fn(int) -> u8 {
    |i: int|
        if i % 4 == 3 {
            255u8
        } else {
            mask_value(pixels[i - i % 4], pixels[i - i % 4 + 3])
        }
}

fn normalize_tile(pixels: &mut Vec<u8>, width: u32, height: u32, tile: (u64, u64))
    requires
        old(pixels)@.len() == frame_bytes(width, height),
    ensures
        final(pixels)@ == patched(
            old(pixels)@,
            width as int,
            tile,
            plain_mask(old(pixels)@),
        ),
{
    let xs: (u32, u32) = tile_span(tile.0, width);
    let ys: (u32, u32) = tile_span(tile.1, height);
    let ghost before = pixels@;
    let ghost fresh = plain_mask(before);
    let mut y: u32 = ys.0;
    proof {
        tile_begins(
            before,
            width as int,
            xs.0 as int,
            xs.1 as int,
            ys.0 as int,
            fresh,
        );
    }
    while y < ys.1
        invariant
            ys.0 <= y <= ys.1 <= height,
            xs.0 <= xs.1 <= width,
            before.len() == frame_bytes(width, height),
            fresh == plain_mask(before),
            so_far(
                pixels@,
                before,
                width as int,
                xs.0 as int,
                xs.1 as int,
                ys.0 as int,
                y as int,
                xs.0 as int,
                fresh,
            ),
        decreases ys.1 - y,
    {
        let mut x: u32 = xs.0;
        while x < xs.1
            invariant
                xs.0 <= x <= xs.1 <= width,
                ys.0 <= y < ys.1 <= height,
                before.len() == frame_bytes(width, height),
                fresh == plain_mask(before),
                so_far(
                    pixels@,
                    before,
                    width as int,
                    xs.0 as int,
                    xs.1 as int,
                    ys.0 as int,
                    y as int,
                    x as int,
                    fresh,
                ),
            decreases xs.1 - x,
        {
            let ghost bytes = pixels@;
            let at: usize = pixel_start(width, height, x, y, pixels.len());
            proof {
                assert forall|i: int| at <= i < at + 4 implies #[trigger] bytes[i] == before[i] by {
                    places_are_pixels(i, width as int, x as int, y as int);
                }
                assert(bytes[at as int] == before[at as int]);
                assert(bytes[at + 3] == before[at + 3]);
                assert(at % 4 == 0);
            }
            let coverage: u8 = cover(pixels[at], pixels[at + 3]);
            pixels.set(at, coverage);
            pixels.set(at + 1, coverage);
            pixels.set(at + 2, coverage);
            pixels.set(at + 3, 255);
            proof {
                assert forall|i: int| 0 <= i < pixels@.len() implies #[trigger] pixels@[i] == if at
                    <= i < at + 4 {
                    fresh(i)
                } else {
                    bytes[i]
                } by {
                    if at <= i < at + 4 {
                        assert(i - i % 4 == at);
                    }
                }
            }
            proof {
                next_pixel(
                    pixels@,
                    bytes,
                    before,
                    width as int,
                    xs.0 as int,
                    xs.1 as int,
                    ys.0 as int,
                    y as int,
                    x as int,
                    fresh,
                );
            }
            x = x + 1;
        }
        proof {
            next_row(
                pixels@,
                before,
                width as int,
                xs.0 as int,
                xs.1 as int,
                ys.0 as int,
                y as int,
                fresh,
            );
        }
        y = y + 1;
    }
    proof {
        tile_done(pixels@, before, width, height, tile, xs, ys, fresh);
    }
}

/// The bytes of a mask in their plain form on some tiles.
pub open spec fn plain_tiles(pixels: Seq<u8>, width: int, tiles: Seq<(u64, u64)>) -> Seq<u8>
    decreases tiles.len(),
{
    if tiles.len() == 0 {
        pixels
    } else {
        let before = plain_tiles(pixels, width, tiles.drop_last());
        patched(before, width, tiles.last(), plain_mask(before))
    }
}

/// Brings the painted tiles of a mask into their plain form.
pub fn normalize_mask_tiles(frame: &mut Frame, changed: &Vec<(u64, u64)>)
    requires
        old(frame)@.is_whole(),
    ensures
        final(frame)@ == (FrameView {
            pixels: plain_tiles(old(frame)@.pixels, old(frame).width as int, changed@),
            ..old(frame)@
        }),
        final(frame)@.is_whole(),
{
    let ghost before = frame@;
    let mut i: usize = 0;
    proof {
        assert(changed@.take(0) =~= Seq::empty());
    }
    while i < changed.len()
        invariant
            i <= changed.len(),
            frame.width == before.width,
            frame.height == before.height,
            frame@.is_whole(),
            frame.pixels@ == plain_tiles(
                before.pixels,
                before.width as int,
                changed@.take(i as int),
            ),
        decreases changed.len() - i,
    {
        proof {
            assert(changed@.take(i + 1).drop_last() =~= changed@.take(i as int));
        }
        normalize_tile(&mut frame.pixels, frame.width, frame.height, changed[i]);
        i = i + 1;
    }
    proof {
        assert(changed@.take(changed@.len() as int) =~= changed@);
    }
}

/// All bytes of a mask in their plain form.
pub open spec fn plain_all(pixels: Seq<u8>) -> Seq<u8> {
    Seq::new(pixels.len(), plain_mask(pixels))
}

/// Brings a mask into its plain form: one coverage in all colours, and opaque.
/// Erasing lowers the opacity, so the opacity is folded into the coverage.
pub fn normalize_mask_pixels(frame: &mut Frame)
    requires
        old(frame)@.is_whole(),
    ensures
        final(frame)@ == (FrameView { pixels: plain_all(old(frame)@.pixels), ..old(frame)@ }),
        final(frame)@.is_whole(),
{
    let ghost before = frame@;
    let total: usize = frame.pixels.len();
    let mut at: usize = 0;
    while at < total
        invariant
            at <= total,
            at % 4 == 0,
            total % 4 == 0,
            total == before.pixels.len(),
            frame.width == before.width,
            frame.height == before.height,
            frame.pixels@.len() == total,
            forall|i: int|
                0 <= i < at ==> #[trigger] frame.pixels@[i] == plain_mask(before.pixels)(i),
            forall|i: int| at <= i < total ==> #[trigger] frame.pixels@[i] == before.pixels[i],
        decreases total - at,
    {
        let coverage: u8 = cover(frame.pixels[at], frame.pixels[at + 3]);
        frame.pixels.set(at, coverage);
        frame.pixels.set(at + 1, coverage);
        frame.pixels.set(at + 2, coverage);
        frame.pixels.set(at + 3, 255);
        at = at + 4;
    }
    proof {
        assert(frame.pixels@ =~= plain_all(before.pixels));
    }
}

/// A mask in its plain form stays as it is.
pub proof fn plain_masks_stay(pixels: Seq<u8>)
    requires
        pixels.len() % 4 == 0,
    ensures
        plain_all(plain_all(pixels)) == plain_all(pixels),
{
    let once = plain_all(pixels);
    assert forall|i: int| 0 <= i < once.len() implies plain_all(once)[i] == once[i] by {
        let at = i - i % 4;
        assert(at + 3 < pixels.len());
        assert((at + 3) % 4 == 3);
        assert(once[at + 3] == 255);
        assert(at % 4 == 0);
        if i % 4 != 3 {
            let v = mask_value(pixels[at], pixels[at + 3]);
            assert(once[at] == v);
            assert(once[i] == v);
            assert(mask_value(v, 255) == v);
        }
    }
    assert(plain_all(once) =~= once);
}

/// A tile is written alone: every byte outside it stays.
pub proof fn tiles_keep_the_rest(
    bytes: Seq<u8>,
    width: int,
    tile: (u64, u64),
    fresh: spec_fn(int) -> u8,
    i: int,
)
    requires
        0 <= i < bytes.len(),
        !in_tile(i, width, tile),
    ensures
        patched(bytes, width, tile, fresh)[i] == bytes[i],
{
}

/// Red, green, blue and opacity of one pixel of so many channels.
pub open spec fn pixel_channel(bytes: Seq<u8>, channels: int, i: int) -> u8 {
    let at = (i / 4) * channels;
    let c = i % 4;
    if c == 3 {
        if channels == 2 {
            bytes[at + 1]
        } else if channels == 4 {
            bytes[at + 3]
        } else {
            255
        }
    } else if channels <= 2 {
        bytes[at]
    } else {
        bytes[at + c]
    }
}

/// Greys and colours as RGBA.
pub open spec fn expanded(bytes: Seq<u8>, channels: int) -> Seq<u8> {
    Seq::new(
        ((bytes.len() as int / channels) * 4) as nat,
        |i: int| pixel_channel(bytes, channels, i),
    )
}

/// Greys and colours to RGBA, one pixel for so many bytes. The opacity comes
/// from the second byte of a grey with opacity, and is full otherwise.
pub fn expand(bytes: &Vec<u8>, channels: usize) -> (r: Vec<u8>)
    requires
        1 <= channels <= 4,
    ensures
        r@ == expanded(bytes@, channels as int),
{
    let pixels: usize = bytes.len() / channels;
    let mut out: Vec<u8> = Vec::new();
    let mut k: usize = 0;
    proof {
        let n = bytes@.len() as int;
        let c = channels as int;
        vstd::arithmetic::div_mod::lemma_fundamental_div_mod(n, c);
        lemma_mod_bound(n, c);
        assert(c * (n / c) == (n / c) * c) by (nonlinear_arith);
    }
    while k < pixels
        invariant
            k <= pixels,
            1 <= channels <= 4,
            pixels == bytes@.len() as int / channels as int,
            pixels * channels <= bytes@.len(),
            out@.len() == k * 4,
            forall|i: int|
                0 <= i < k * 4 ==> #[trigger] out@[i] == pixel_channel(
                    bytes@,
                    channels as int,
                    i,
                ),
        decreases pixels - k,
    {
        let n: usize = bytes.len();
        proof {
            assert(k * channels + channels <= pixels * channels) by (nonlinear_arith)
                requires
                    k + 1 <= pixels,
                    1 <= channels,
            ;
            assert(0 <= k * channels) by (nonlinear_arith)
                requires
                    0 <= k,
                    0 <= channels,
            ;
        }
        let at: usize = k * channels;
        let first: u8 = bytes[at];
        let (g, b): (u8, u8) = if channels <= 2 {
            (first, first)
        } else {
            (bytes[at + 1], bytes[at + 2])
        };
        let a: u8 = if channels == 2 {
            bytes[at + 1]
        } else if channels == 4 {
            bytes[at + 3]
        } else {
            255
        };
        let ghost before = out@;
        out.push(first);
        out.push(g);
        out.push(b);
        out.push(a);
        proof {
            assert forall|i: int| 0 <= i < (k + 1) * 4 implies #[trigger] out@[i] == pixel_channel(
                bytes@,
                channels as int,
                i,
            ) by {
                if i < k * 4 {
                    assert(out@[i] == before[i]);
                } else {
                    assert(i / 4 == k as int);
                }
            }
        }
        k = k + 1;
    }
    proof {
        assert(out@ =~= expanded(bytes@, channels as int));
    }
    out
}

/// Opaque colours keep their bytes.
pub proof fn rgba_expands_to_itself(bytes: Seq<u8>)
    requires
        bytes.len() % 4 == 0,
    ensures
        expanded(bytes, 4) == bytes,
{
    assert forall|i: int| 0 <= i < bytes.len() implies expanded(bytes, 4)[i] == bytes[i] by {
        assert((i / 4) * 4 + i % 4 == i);
    }
    assert(expanded(bytes, 4) =~= bytes);
}

/// The column or row of a source that a place of a smaller picture shows.
pub open spec fn source_place(at: int, source: int, side: int) -> int {
    let n = at * source / side;
    if n >= source {
        source - 1
    } else {
        n
    }
}

fn find_source(at: u64, source: u64, side: u64) -> (r: u64)
    requires
        at < side <= 0xffff_ffff,
        0 < source <= 0xffff_ffff,
    ensures
        r == source_place(at as int, source as int, side as int),
        r < source,
{
    proof {
        assert(0 <= at * source <= 0xffff_ffff * 0xffff_ffff) by (nonlinear_arith)
            requires
                0 <= at <= 0xffff_ffff,
                0 <= source <= 0xffff_ffff,
        ;
    }
    let n: u64 = at * source / side;
    if n >= source {
        source - 1
    } else {
        n
    }
}

/// A byte of the small picture of a frame.
pub open spec fn thumbnail_byte(frame: FrameView, width: int, height: int, mask: bool, i: int) -> u8 {
    let at = frame.place(
        source_place(column(i, width), frame.width as int, width),
        source_place(row(i, width), frame.height as int, height),
    );
    if !mask {
        frame.pixels[at + i % 4]
    } else if i % 4 == 3 {
        255
    } else {
        frame.pixels[at]
    }
}

/// A small picture of a frame, `width` by `height`: each pixel is the nearest
/// of the source. A mask is shown as opaque grey.
pub fn frame_thumbnail(frame: &Frame, width: u32, height: u32, mask: bool) -> (r: Vec<u8>)
    requires
        frame@.is_whole(),
        frame.width > 0,
        frame.height > 0,
        frame_bytes(width, height) <= usize::MAX,
    ensures
        r@ == Seq::new(
            frame_bytes(width, height),
            |i: int| thumbnail_byte(frame@, width as int, height as int, mask, i),
        ),
{
    let mut out: Vec<u8> = Vec::new();
    let total: usize = byte_count(width, height) / 4;
    let mut p: usize = 0;
    while p < total
        invariant
            p <= total,
            total == width as nat * height as nat,
            total * 4 <= usize::MAX,
            frame@.is_whole(),
            frame.width > 0,
            frame.height > 0,
            out@.len() == p * 4,
            forall|i: int|
                0 <= i < p * 4 ==> #[trigger] out@[i] == thumbnail_byte(
                    frame@,
                    width as int,
                    height as int,
                    mask,
                    i,
                ),
        decreases total - p,
    {
        proof {
            row_bounds(p as int, width as int, height as int);
        }
        let x: u64 = (p % width as usize) as u64;
        let y: u64 = (p / width as usize) as u64;
        let sx: u64 = find_source(x, frame.width as u64, width as u64);
        let sy: u64 = find_source(y, frame.height as u64, height as u64);
        let at: usize = pixel_start(
            frame.width,
            frame.height,
            sx as u32,
            sy as u32,
            frame.pixels.len(),
        );
        let ghost before = out@;
        if mask {
            let coverage: u8 = frame.pixels[at];
            out.push(coverage);
            out.push(coverage);
            out.push(coverage);
            out.push(255);
        } else {
            out.push(frame.pixels[at]);
            out.push(frame.pixels[at + 1]);
            out.push(frame.pixels[at + 2]);
            out.push(frame.pixels[at + 3]);
        }
        proof {
            assert forall|i: int| 0 <= i < (p + 1) * 4 implies #[trigger] out@[i]
                == thumbnail_byte(frame@, width as int, height as int, mask, i) by {
                if i < p * 4 {
                    assert(out@[i] == before[i]);
                } else {
                    assert(i / 4 == p as int);
                }
            }
        }
        p = p + 1;
    }
    proof {
        assert(out@ =~= Seq::new(
            frame_bytes(width, height),
            |i: int| thumbnail_byte(frame@, width as int, height as int, mask, i),
        ));
    }
    out
}

/// A pixel of a picture has a column and a row in it.
proof fn row_bounds(p: int, width: int, height: int)
    requires
        0 <= p < width * height,
        0 <= width,
        0 <= height,
    ensures
        0 < width,
        0 < height,
        0 <= p % width < width,
        0 <= p / width < height,
{
    if width == 0 || height == 0 {
        assert(width * height == 0) by (nonlinear_arith)
            requires
                width == 0 || height == 0,
        ;
    }
    lemma_mod_bound(p, width);
    vstd::arithmetic::div_mod::lemma_fundamental_div_mod(p, width);
    assert(0 <= p / width) by (nonlinear_arith)
        requires
            0 <= p,
            0 < width,
    ;
    assert(p / width < height) by (nonlinear_arith)
        requires
            p < width * height,
            p == width * (p / width) + p % width,
            0 <= p % width,
            0 < width,
    ;
}

/// A byte of the board that shows through what is transparent: squares of 16
/// pixels, light and dark by turns.
pub open spec fn checker_byte(width: int, i: int) -> u8 {
    if i % 4 == 3 || (column(i, width) / 16 + row(i, width) / 16) % 2 == 0 {
        255
    } else {
        203
    }
}

/// A side of the board: that of the document, up to 2048.
pub open spec fn checker_side(side: u32) -> u32 {
    if side < 1 {
        1
    } else if side > 2048 {
        2048
    } else {
        side
    }
}

fn make_checker_side(side: u32) -> (r: u32)
    ensures
        r == checker_side(side),
        1 <= r <= 2048,
{
    if side < 1 {
        1
    } else if side > 2048 {
        2048
    } else {
        side
    }
}

/// The board that shows through what is transparent.
pub open spec fn checker_view(width: u32, height: u32) -> FrameView {
    let w = checker_side(width);
    let h = checker_side(height);
    FrameView {
        width: w,
        height: h,
        pixels: Seq::new(frame_bytes(w, h), |i: int| checker_byte(w as int, i)),
    }
}

/// The board that shows through what is transparent, at the size of the
/// document.
pub fn checker_image(width: u32, height: u32) -> (r: Frame)
    ensures
        r@ == checker_view(width, height),
        r@.is_whole(),
{
    let w: u32 = make_checker_side(width);
    let h: u32 = make_checker_side(height);
    proof {
        assert(0 <= w * h <= 2048 * 2048) by (nonlinear_arith)
            requires
                0 <= w <= 2048,
                0 <= h <= 2048,
        ;
    }
    let total: usize = w as usize * h as usize;
    let mut out: Vec<u8> = Vec::new();
    let mut p: usize = 0;
    while p < total
        invariant
            p <= total,
            total == w as nat * h as nat,
            total <= 2048 * 2048,
            out@.len() == p * 4,
            forall|i: int| 0 <= i < p * 4 ==> #[trigger] out@[i] == checker_byte(w as int, i),
        decreases total - p,
    {
        proof {
            row_bounds(p as int, w as int, h as int);
        }
        let x: usize = p % w as usize;
        let y: usize = p / w as usize;
        let colour: u8 = if (x / 16 + y / 16) % 2 == 0 {
            255
        } else {
            203
        };
        let ghost before = out@;
        out.push(colour);
        out.push(colour);
        out.push(colour);
        out.push(255);
        proof {
            assert forall|i: int| 0 <= i < (p + 1) * 4 implies #[trigger] out@[i] == checker_byte(
                w as int,
                i,
            ) by {
                if i < p * 4 {
                    assert(out@[i] == before[i]);
                } else {
                    assert(i / 4 == p as int);
                }
            }
        }
        p = p + 1;
    }
    let frame: Frame = Frame { width: w, height: h, pixels: out };
    proof {
        assert(frame@.pixels =~= checker_view(width, height).pixels);
    }
    frame
}

/// A byte of a picture that lies in the middle of a canvas.
pub open spec fn centred_byte(canvas: (u32, u32), layer: FrameView, i: int) -> u8 {
    let w = canvas.0 as int;
    let x = column(i, w) - (w - layer.width) / 2;
    let y = row(i, w) - (canvas.1 - layer.height) / 2;
    if 0 <= x < layer.width && 0 <= y < layer.height {
        layer.pixels[layer.place(x, y) + i % 4]
    } else {
        0
    }
}

/// A picture in the middle of a canvas that is otherwise transparent.
pub open spec fn centred_view(canvas: (u32, u32), layer: FrameView) -> FrameView {
    FrameView {
        width: canvas.0,
        height: canvas.1,
        pixels: Seq::new(
            frame_bytes(canvas.0, canvas.1),
            |i: int| centred_byte(canvas, layer, i),
        ),
    }
}

/// Puts a picture in the middle of a canvas that is otherwise transparent.
pub fn centre_on_canvas(width: u32, height: u32, layer: &Frame) -> (r: Frame)
    requires
        layer@.is_whole(),
        layer.width <= width,
        layer.height <= height,
        frame_bytes(width, height) <= usize::MAX,
    ensures
        r@ == centred_view((width, height), layer@),
        r@.is_whole(),
{
    let left: u64 = ((width - layer.width) / 2) as u64;
    let top: u64 = ((height - layer.height) / 2) as u64;
    let total: usize = byte_count(width, height) / 4;
    let mut out: Vec<u8> = Vec::new();
    let mut p: usize = 0;
    while p < total
        invariant
            p <= total,
            total == width as nat * height as nat,
            total * 4 <= usize::MAX,
            layer@.is_whole(),
            layer.width <= width,
            layer.height <= height,
            left == (width - layer.width) / 2,
            top == (height - layer.height) / 2,
            out@.len() == p * 4,
            forall|i: int|
                0 <= i < p * 4 ==> #[trigger] out@[i] == centred_byte(
                    (width, height),
                    layer@,
                    i,
                ),
        decreases total - p,
    {
        proof {
            row_bounds(p as int, width as int, height as int);
        }
        let x: u64 = (p % width as usize) as u64;
        let y: u64 = (p / width as usize) as u64;
        let ghost before = out@;
        let inside: bool = left <= x && x - left < layer.width as u64 && top <= y && y - top
            < layer.height as u64;
        if inside {
            let at: usize = pixel_start(
                layer.width,
                layer.height,
                (x - left) as u32,
                (y - top) as u32,
                layer.pixels.len(),
            );
            out.push(layer.pixels[at]);
            out.push(layer.pixels[at + 1]);
            out.push(layer.pixels[at + 2]);
            out.push(layer.pixels[at + 3]);
        } else {
            out.push(0);
            out.push(0);
            out.push(0);
            out.push(0);
        }
        proof {
            assert forall|i: int| 0 <= i < (p + 1) * 4 implies #[trigger] out@[i] == centred_byte(
                (width, height),
                layer@,
                i,
            ) by {
                if i < p * 4 {
                    assert(out@[i] == before[i]);
                } else {
                    assert(i / 4 == p as int);
                }
            }
        }
        p = p + 1;
    }
    let frame: Frame = Frame { width, height, pixels: out };
    proof {
        assert(frame@.pixels =~= centred_view((width, height), layer@).pixels);
    }
    frame
}

/// A picture of the size of the canvas fills it.
pub proof fn full_pictures_fill(canvas: (u32, u32), layer: FrameView)
    requires
        layer.is_whole(),
        layer.width == canvas.0,
        layer.height == canvas.1,
    ensures
        centred_view(canvas, layer) == layer,
{
    let shown = centred_view(canvas, layer);
    assert forall|i: int| 0 <= i < layer.pixels.len() implies shown.pixels[i]
        == layer.pixels[i] by {
        let w = canvas.0 as int;
        let h = canvas.1 as int;
        let p = i / 4;
        assert(0 <= p < w * h);
        row_bounds(p, w, h);
        vstd::arithmetic::div_mod::lemma_fundamental_div_mod(p, w);
        assert(w * (p / w) == (p / w) * w) by (nonlinear_arith);
        assert(layer.place(column(i, w), row(i, w)) + i % 4 == i);
    }
    assert(shown.pixels =~= layer.pixels);
}

} // verus!
