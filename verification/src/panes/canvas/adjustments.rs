//! Adjustments: their kinds, their knobs, and their curves.

use crate::panes::canvas::tree::{
    channel_views, Adjustment, AdjustmentKind, AdjustmentView, Rgb,
};
use vstd::prelude::*;
use vstd::string::*;

verus! {

/// One, in millionths.
pub const WHOLE: i64 = 1_000_000;

/// How close the inputs of two points of a curve may come, in millionths.
pub const CURVE_GAP: i64 = 1_000;

/// How many points a curve may have.
pub const CURVE_POINTS: usize = 16;

/// The number of a kind.
pub open spec fn kind_number(kind: AdjustmentKind) -> i32 {
    match kind {
        AdjustmentKind::Invert => 1,
        AdjustmentKind::Exposure => 2,
        AdjustmentKind::Levels => 3,
        AdjustmentKind::HueSaturation => 4,
        AdjustmentKind::GradientMap => 5,
        AdjustmentKind::Grain => 6,
        AdjustmentKind::Curves => 7,
    }
}

/// The number of the kind of an adjustment.
pub fn adjustment_kind(adjustment: &Adjustment) -> (r: i32)
    ensures
        r == kind_number(adjustment.kind),
{
    match adjustment.kind {
        AdjustmentKind::Invert => 1,
        AdjustmentKind::Exposure => 2,
        AdjustmentKind::Levels => 3,
        AdjustmentKind::HueSaturation => 4,
        AdjustmentKind::GradientMap => 5,
        AdjustmentKind::Grain => 6,
        AdjustmentKind::Curves => 7,
    }
}

/// The kind of a number.
pub open spec fn kind_of_number(number: i32) -> Option<AdjustmentKind> {
    if number == 1 {
        Some(AdjustmentKind::Invert)
    } else if number == 2 {
        Some(AdjustmentKind::Exposure)
    } else if number == 3 {
        Some(AdjustmentKind::Levels)
    } else if number == 4 {
        Some(AdjustmentKind::HueSaturation)
    } else if number == 5 {
        Some(AdjustmentKind::GradientMap)
    } else if number == 6 {
        Some(AdjustmentKind::Grain)
    } else if number == 7 {
        Some(AdjustmentKind::Curves)
    } else {
        None
    }
}

fn read_kind(number: i32) -> (r: Option<AdjustmentKind>)
    ensures
        r == kind_of_number(number),
{
    if number == 1 {
        Some(AdjustmentKind::Invert)
    } else if number == 2 {
        Some(AdjustmentKind::Exposure)
    } else if number == 3 {
        Some(AdjustmentKind::Levels)
    } else if number == 4 {
        Some(AdjustmentKind::HueSaturation)
    } else if number == 5 {
        Some(AdjustmentKind::GradientMap)
    } else if number == 6 {
        Some(AdjustmentKind::Grain)
    } else if number == 7 {
        Some(AdjustmentKind::Curves)
    } else {
        None
    }
}

/// The name of the kind of a number.
pub open spec fn kind_name(number: i32) -> Seq<char> {
    if number == 1 {
        "Invert"@
    } else if number == 2 {
        "Exposure"@
    } else if number == 3 {
        "Levels"@
    } else if number == 4 {
        "Hue & Saturation"@
    } else if number == 5 {
        "Gradient map"@
    } else if number == 6 {
        "Grain"@
    } else if number == 7 {
        "Curves"@
    } else {
        "Adjustments"@
    }
}

/// The name of the kind of a number.
pub fn adjustment_label(number: i32) -> (r: String)
    ensures
        r@ == kind_name(number),
{
    (if number == 1 {
        "Invert"
    } else if number == 2 {
        "Exposure"
    } else if number == 3 {
        "Levels"
    } else if number == 4 {
        "Hue & Saturation"
    } else if number == 5 {
        "Gradient map"
    } else if number == 6 {
        "Grain"
    } else if number == 7 {
        "Curves"
    } else {
        "Adjustments"
    }).to_owned()
}

/// The knobs of a new adjustment: those that change nothing.
pub open spec fn neutral_values(kind: AdjustmentKind) -> Seq<i64> {
    match kind {
        AdjustmentKind::Exposure => seq![0i64],
        AdjustmentKind::Levels => seq![0i64, WHOLE, WHOLE, 0i64, WHOLE],
        AdjustmentKind::HueSaturation => seq![0i64, 0i64, 0i64],
        AdjustmentKind::Grain => seq![0i64],
        _ => Seq::empty(),
    }
}

/// A curve that changes nothing.
pub open spec fn neutral_curve() -> Seq<(i64, i64)> {
    seq![(0i64, 0i64), (WHOLE, WHOLE)]
}

/// A new adjustment of a kind.
pub open spec fn neutral(kind: AdjustmentKind) -> AdjustmentView {
    AdjustmentView {
        kind,
        values: neutral_values(kind),
        low: Rgb { red: 0, green: 0, blue: 0 },
        high: Rgb { red: 255, green: 255, blue: 255 },
        channels: if kind == AdjustmentKind::Curves {
            seq![neutral_curve(), neutral_curve(), neutral_curve()]
        } else {
            Seq::empty()
        },
    }
}

fn make_values(kind: AdjustmentKind) -> (r: Vec<i64>)
    ensures
        r@ == neutral_values(kind),
{
    let mut v: Vec<i64> = Vec::new();
    match kind {
        AdjustmentKind::Exposure => {
            v.push(0);
        },
        AdjustmentKind::Levels => {
            v.push(0);
            v.push(WHOLE);
            v.push(WHOLE);
            v.push(0);
            v.push(WHOLE);
        },
        AdjustmentKind::HueSaturation => {
            v.push(0);
            v.push(0);
            v.push(0);
        },
        AdjustmentKind::Grain => {
            v.push(0);
        },
        _ => {},
    }
    proof {
        assert(v@ =~= neutral_values(kind));
    }
    v
}

fn make_curve() -> (r: Vec<(i64, i64)>)
    ensures
        r@ == neutral_curve(),
{
    let mut v: Vec<(i64, i64)> = Vec::new();
    v.push((0, 0));
    v.push((WHOLE, WHOLE));
    proof {
        assert(v@ =~= neutral_curve());
    }
    v
}

/// A new adjustment of the kind of a number, its knobs such that they change
/// nothing; none where no kind has the number.
pub fn default_adjustment(number: i32) -> (r: Option<Adjustment>)
    ensures
        match (r, kind_of_number(number)) {
            (Some(a), Some(kind)) => a@ == neutral(kind),
            (None, None) => true,
            _ => false,
        },
{
    let kind: AdjustmentKind = match read_kind(number) {
        Some(kind) => kind,
        None => {
            return None;
        },
    };
    let mut channels: Vec<Vec<(i64, i64)>> = Vec::new();
    if let AdjustmentKind::Curves = kind {
        channels.push(make_curve());
        channels.push(make_curve());
        channels.push(make_curve());
    }
    let a: Adjustment = Adjustment {
        kind,
        values: make_values(kind),
        low: Rgb { red: 0, green: 0, blue: 0 },
        high: Rgb { red: 255, green: 255, blue: 255 },
        channels,
    };
    proof {
        assert(a@.channels =~= neutral(kind).channels);
    }
    Some(a)
}

/// A knob: its name, and the least and the greatest value.
pub struct Knob {
    pub label: String,
    pub least: i64,
    pub most: i64,
}

/// The range of a knob of a kind.
pub open spec fn knob_range(kind: AdjustmentKind, index: int) -> (i64, i64) {
    match kind {
        AdjustmentKind::Exposure => (-4_000_000i64 as i64, 4_000_000i64),
        AdjustmentKind::Levels => if index == 2 {
            (100_000i64, 3_000_000i64)
        } else {
            (0i64, WHOLE)
        },
        AdjustmentKind::HueSaturation => if index == 0 {
            (-180_000_000i64 as i64, 180_000_000i64)
        } else {
            (-1_000_000i64 as i64, WHOLE)
        },
        _ => (0i64, WHOLE),
    }
}

/// The name of a knob of a kind.
pub open spec fn knob_name(kind: AdjustmentKind, index: int) -> Seq<char> {
    match kind {
        AdjustmentKind::Exposure => "Stops"@,
        AdjustmentKind::Levels => if index == 0 {
            "In black"@
        } else if index == 1 {
            "In white"@
        } else if index == 2 {
            "Gamma"@
        } else if index == 3 {
            "Out black"@
        } else {
            "Out white"@
        },
        AdjustmentKind::HueSaturation => if index == 0 {
            "Hue"@
        } else if index == 1 {
            "Saturation"@
        } else {
            "Lightness"@
        },
        _ => "Amount"@,
    }
}

fn make_knob(kind: AdjustmentKind, index: usize) -> (r: Knob)
    ensures
        r.label@ == knob_name(kind, index as int),
        (r.least, r.most) == knob_range(kind, index as int),
{
    match kind {
        AdjustmentKind::Exposure => Knob {
            label: "Stops".to_owned(),
            least: -4_000_000,
            most: 4_000_000,
        },
        AdjustmentKind::Levels => {
            let label: &str = if index == 0 {
                "In black"
            } else if index == 1 {
                "In white"
            } else if index == 2 {
                "Gamma"
            } else if index == 3 {
                "Out black"
            } else {
                "Out white"
            };
            if index == 2 {
                Knob { label: label.to_owned(), least: 100_000, most: 3_000_000 }
            } else {
                Knob { label: label.to_owned(), least: 0, most: WHOLE }
            }
        },
        AdjustmentKind::HueSaturation => {
            if index == 0 {
                Knob { label: "Hue".to_owned(), least: -180_000_000, most: 180_000_000 }
            } else if index == 1 {
                Knob { label: "Saturation".to_owned(), least: -1_000_000, most: WHOLE }
            } else {
                Knob { label: "Lightness".to_owned(), least: -1_000_000, most: WHOLE }
            }
        },
        _ => Knob { label: "Amount".to_owned(), least: 0, most: WHOLE },
    }
}

/// The knobs of an adjustment with their values, in the order that an index
/// means.
pub fn adjustment_parameters(adjustment: &Adjustment) -> (r: Vec<(Knob, i64)>)
    ensures
        r@.len() == adjustment@.values.len(),
        forall|i: int|
            0 <= i < r@.len() ==> (#[trigger] r@[i]).1 == adjustment@.values[i] && r@[i].0.label@
                == knob_name(adjustment.kind, i) && (r@[i].0.least, r@[i].0.most) == knob_range(
                adjustment.kind,
                i,
            ),
{
    let mut out: Vec<(Knob, i64)> = Vec::new();
    let mut i: usize = 0;
    while i < adjustment.values.len()
        invariant
            i <= adjustment.values.len(),
            out@.len() == i,
            forall|j: int|
                0 <= j < i ==> (#[trigger] out@[j]).1 == adjustment@.values[j]
                    && out@[j].0.label@ == knob_name(adjustment.kind, j) && (
                out@[j].0.least,
                out@[j].0.most,
                ) == knob_range(adjustment.kind, j),
        decreases adjustment.values.len() - i,
    {
        out.push((make_knob(adjustment.kind, i), adjustment.values[i]));
        i = i + 1;
    }
    out
}

/// `n` held between `least` and `most`.
pub open spec fn between(n: i64, least: i64, most: i64) -> i64 {
    if n < least {
        least
    } else if n > most {
        most
    } else {
        n
    }
}

/// `n` held between `least` and `most`.
pub fn hold_between(n: i64, least: i64, most: i64) -> (r: i64)
    ensures
        r == between(n, least, most),
{
    if n < least {
        least
    } else if n > most {
        most
    } else {
        n
    }
}

/// A change of an adjustment.
#[derive(Clone, Copy)]
pub enum AdjustmentEdit {
    /// The low or another end of a gradient map takes a colour.
    Gradient(i32, Rgb),
    /// A knob is set.
    Param(i32, i64),
    /// A point of the curve of a channel is moved.
    CurveSet(i32, i32, i64, i64),
    /// A point is put on the curve of a channel.
    CurveAdd(i32, i64, i64),
    /// A point is taken off the curve of a channel.
    CurveRemove(i32, i32),
}

/// The place of a channel.
pub open spec fn channel_place(channel: i32) -> int {
    if channel == 0 {
        0
    } else if channel == 1 {
        1
    } else {
        2
    }
}

/// An index that is not negative.
pub open spec fn from_zero(index: i32) -> int {
    if index < 0 {
        0
    } else {
        index as int
    }
}

/// The points of a curve when one is moved. The ends give their output only;
/// another keeps away from its neighbours, and where they leave no room its
/// input stays.
pub open spec fn point_moved(points: Seq<(i64, i64)>, index: i32, x: i64, y: i64) -> Seq<
    (i64, i64),
> {
    let i = from_zero(index);
    let output = between(y, 0, WHOLE);
    if i >= points.len() {
        points
    } else if i == 0 || i == points.len() - 1 {
        points.update(i, (points[i].0, output))
    } else {
        let low = points[i - 1].0 + CURVE_GAP;
        let high = points[i + 1].0 - CURVE_GAP;
        let input = between(x, 0, WHOLE);
        points.update(
            i,
            (
                if low > high {
                    points[i].0
                } else if input < low {
                    low as i64
                } else if input > high {
                    high as i64
                } else {
                    input
                },
                output,
            ),
        )
    }
}

/// The first place from `from` on whose input is not below `x`.
pub open spec fn place_for(points: Seq<(i64, i64)>, x: i64, from: int) -> int
    decreases points.len() - from,
{
    if from < 0 || from >= points.len() || points[from].0 >= x {
        from
    } else {
        place_for(points, x, from + 1)
    }
}

/// The points of a curve when one is put on it, where its input belongs.
pub open spec fn point_added(points: Seq<(i64, i64)>, x: i64, y: i64) -> Seq<(i64, i64)> {
    if points.len() >= CURVE_POINTS {
        points
    } else {
        let input = between(x, 0, WHOLE);
        points.insert(place_for(points, input, 0), (input, between(y, 0, WHOLE)))
    }
}

/// The points of a curve when one is taken off it; the ends stay.
pub open spec fn point_removed(points: Seq<(i64, i64)>, index: i32) -> Seq<(i64, i64)> {
    let i = from_zero(index);
    if points.len() < 3 || i == 0 || i >= points.len() - 1 {
        points
    } else {
        points.remove(i)
    }
}

/// An adjustment after a change. A change that is not for its kind changes
/// nothing.
pub open spec fn adjusted(a: AdjustmentView, edit: AdjustmentEdit) -> AdjustmentView {
    match edit {
        AdjustmentEdit::Gradient(slot, colour) => if a.kind != AdjustmentKind::GradientMap {
            a
        } else if slot == 0 {
            AdjustmentView { low: colour, ..a }
        } else {
            AdjustmentView { high: colour, ..a }
        },
        AdjustmentEdit::Param(index, value) => if 0 <= index < a.values.len() {
            let (least, most) = knob_range(a.kind, index as int);
            AdjustmentView {
                values: a.values.update(index as int, between(value, least, most)),
                ..a
            }
        } else {
            a
        },
        AdjustmentEdit::CurveSet(channel, index, x, y) => {
            let k = channel_place(channel);
            if k < a.channels.len() {
                AdjustmentView {
                    channels: a.channels.update(k, point_moved(a.channels[k], index, x, y)),
                    ..a
                }
            } else {
                a
            }
        },
        AdjustmentEdit::CurveAdd(channel, x, y) => {
            let k = channel_place(channel);
            if k < a.channels.len() {
                AdjustmentView {
                    channels: a.channels.update(k, point_added(a.channels[k], x, y)),
                    ..a
                }
            } else {
                a
            }
        },
        AdjustmentEdit::CurveRemove(channel, index) => {
            let k = channel_place(channel);
            if k < a.channels.len() {
                AdjustmentView {
                    channels: a.channels.update(k, point_removed(a.channels[k], index)),
                    ..a
                }
            } else {
                a
            }
        },
    }
}

fn to_place(channel: i32) -> (r: usize)
    ensures
        r == channel_place(channel),
{
    if channel == 0 {
        0
    } else if channel == 1 {
        1
    } else {
        2
    }
}

/// Moves a point of a curve.
pub fn set_curve_point(points: &mut Vec<(i64, i64)>, index: i32, x: i64, y: i64)
    ensures
        final(points)@ == point_moved(old(points)@, index, x, y),
{
    let i: usize = if index < 0 {
        0
    } else {
        index as usize
    };
    if i >= points.len() {
        return ;
    }
    let output: i64 = hold_between(y, 0, WHOLE);
    if i == 0 || i == points.len() - 1 {
        let input: i64 = points[i].0;
        points.set(i, (input, output));
        return ;
    }
    let low: i128 = points[i - 1].0 as i128 + CURVE_GAP as i128;
    let high: i128 = points[i + 1].0 as i128 - CURVE_GAP as i128;
    let wanted: i64 = hold_between(x, 0, WHOLE);
    let input: i64 = if low > high {
        points[i].0
    } else if (wanted as i128) < low {
        low as i64
    } else if (wanted as i128) > high {
        high as i64
    } else {
        wanted
    };
    points.set(i, (input, output));
}

/// Puts a point on a curve.
pub fn add_curve_point(points: &mut Vec<(i64, i64)>, x: i64, y: i64)
    ensures
        final(points)@ == point_added(old(points)@, x, y),
{
    if points.len() >= CURVE_POINTS {
        return ;
    }
    let input: i64 = hold_between(x, 0, WHOLE);
    let output: i64 = hold_between(y, 0, WHOLE);
    let mut at: usize = 0;
    while at < points.len() && points[at].0 < input
        invariant
            at <= points.len(),
            points@ == old(points)@,
            place_for(points@, input, 0) == place_for(points@, input, at as int),
        decreases points.len() - at,
    {
        at = at + 1;
    }
    points.insert(at, (input, output));
}

/// Takes a point off a curve.
pub fn remove_curve_point(points: &mut Vec<(i64, i64)>, index: i32)
    ensures
        final(points)@ == point_removed(old(points)@, index),
{
    let i: usize = if index < 0 {
        0
    } else {
        index as usize
    };
    if points.len() < 3 || i == 0 || i >= points.len() - 1 {
        return ;
    }
    points.remove(i);
}

fn edit_channel(channels: &mut Vec<Vec<(i64, i64)>>, edit: AdjustmentEdit)
    requires
        edit is CurveSet || edit is CurveAdd || edit is CurveRemove,
    ensures
        ({
            let before = channel_views(old(channels)@);
            let after = channel_views(final(channels)@);
            match edit {
                AdjustmentEdit::CurveSet(channel, index, x, y) => {
                    let k = channel_place(channel);
                    after == if k < before.len() {
                        before.update(k, point_moved(before[k], index, x, y))
                    } else {
                        before
                    }
                },
                AdjustmentEdit::CurveAdd(channel, x, y) => {
                    let k = channel_place(channel);
                    after == if k < before.len() {
                        before.update(k, point_added(before[k], x, y))
                    } else {
                        before
                    }
                },
                AdjustmentEdit::CurveRemove(channel, index) => {
                    let k = channel_place(channel);
                    after == if k < before.len() {
                        before.update(k, point_removed(before[k], index))
                    } else {
                        before
                    }
                },
                _ => true,
            }
        }),
{
    let ghost before = channel_views(channels@);
    let channel: i32 = match edit {
        AdjustmentEdit::CurveSet(channel, _, _, _) => channel,
        AdjustmentEdit::CurveAdd(channel, _, _) => channel,
        AdjustmentEdit::CurveRemove(channel, _) => channel,
        _ => 0,
    };
    let k: usize = to_place(channel);
    if k >= channels.len() {
        return ;
    }
    let mut points: Vec<(i64, i64)> = Vec::new();
    let mut i: usize = 0;
    while i < channels[k].len()
        invariant
            k < channels.len(),
            i <= channels@[k as int].len(),
            points@ == channels@[k as int]@.take(i as int),
        decreases channels@[k as int].len() - i,
    {
        points.push(channels[k][i]);
        proof {
            let all = channels@[k as int]@;
            assert(all.take(i + 1) =~= all.take(i as int).push(all[i as int]));
        }
        i = i + 1;
    }
    proof {
        let all = channels@[k as int]@;
        assert(all.take(all.len() as int) =~= all);
        assert(before[k as int] == points@);
    }
    match edit {
        AdjustmentEdit::CurveSet(_, index, x, y) => {
            set_curve_point(&mut points, index, x, y);
        },
        AdjustmentEdit::CurveAdd(_, x, y) => {
            add_curve_point(&mut points, x, y);
        },
        AdjustmentEdit::CurveRemove(_, index) => {
            remove_curve_point(&mut points, index);
        },
        _ => {},
    }
    let ghost view = points@;
    channels.set(k, points);
    proof {
        assert(channel_views(channels@) =~= before.update(k as int, view));
    }
}

impl Adjustment {
    /// Changes the adjustment.
    pub fn edit(&mut self, edit: AdjustmentEdit)
        ensures
            final(self)@ == adjusted(old(self)@, edit),
    {
        match edit {
            AdjustmentEdit::Gradient(slot, colour) => {
                if let AdjustmentKind::GradientMap = self.kind {
                    if slot == 0 {
                        self.low = colour;
                    } else {
                        self.high = colour;
                    }
                }
            },
            AdjustmentEdit::Param(index, value) => {
                if index >= 0 && (index as usize) < self.values.len() {
                    let knob: Knob = make_knob(self.kind, index as usize);
                    self.values.set(index as usize, hold_between(value, knob.least, knob.most));
                }
            },
            _ => {
                edit_channel(&mut self.channels, edit);
            },
        }
    }
}

/// A stroke of the drawing of a curve, its ends in millionths of the editor;
/// the output grows upwards, the editor downwards.
pub struct CurveSegment {
    pub x: i128,
    pub y: i128,
    pub x2: i128,
    pub y2: i128,
}

/// The strokes of the drawing of a curve, one for each pair of points that
/// follow one another.
pub fn curve_segments(points: &Vec<(i64, i64)>) -> (r: Vec<CurveSegment>)
    ensures
        r@.len() == if points@.len() == 0 {
            0
        } else {
            points@.len() - 1
        },
        forall|i: int|
            0 <= i < r@.len() ==> (#[trigger] r@[i]) == (CurveSegment {
                x: points@[i].0 as i128,
                y: (WHOLE - points@[i].1) as i128,
                x2: points@[i + 1].0 as i128,
                y2: (WHOLE - points@[i + 1].1) as i128,
            }),
{
    let mut out: Vec<CurveSegment> = Vec::new();
    let mut i: usize = 1;
    while i < points.len()
        invariant
            1 <= i,
            points.len() >= 1 ==> i <= points.len(),
            points.len() == 0 ==> i == 1,
            out@.len() == i - 1,
            forall|j: int|
                0 <= j < i - 1 ==> (#[trigger] out@[j]) == (CurveSegment {
                    x: points@[j].0 as i128,
                    y: (WHOLE - points@[j].1) as i128,
                    x2: points@[j + 1].0 as i128,
                    y2: (WHOLE - points@[j + 1].1) as i128,
                }),
        decreases points.len() - i,
    {
        out.push(
            CurveSegment {
                x: points[i - 1].0 as i128,
                y: WHOLE as i128 - points[i - 1].1 as i128,
                x2: points[i].0 as i128,
                y2: WHOLE as i128 - points[i].1 as i128,
            },
        );
        i = i + 1;
    }
    out
}

/// The inputs of a curve rise.
pub open spec fn rises(points: Seq<(i64, i64)>) -> bool {
    forall|i: int, j: int|
        0 <= i < j < points.len() ==> (#[trigger] points[i]).0 <= (#[trigger] points[j]).0
}

pub(crate) proof fn place_for_bounds(points: Seq<(i64, i64)>, x: i64, from: int)
    requires
        0 <= from <= points.len(),
    ensures
        from <= place_for(points, x, from) <= points.len(),
        forall|i: int| from <= i < place_for(points, x, from) ==> (#[trigger] points[i]).0 < x,
        place_for(points, x, from) < points.len() ==> points[place_for(points, x, from)].0 >= x,
    decreases points.len() - from,
{
    if from < points.len() && points[from].0 < x {
        place_for_bounds(points, x, from + 1);
    }
}

/// A curve whose inputs rise goes on rising, whatever is done to its points.
pub proof fn curves_keep_rising(points: Seq<(i64, i64)>, index: i32, x: i64, y: i64)
    requires
        rises(points),
    ensures
        rises(point_moved(points, index, x, y)),
        rises(point_added(points, x, y)),
        rises(point_removed(points, index)),
{
    let input = between(x, 0, WHOLE);
    place_for_bounds(points, input, 0);
    let at = place_for(points, input, 0);
    let added = points.insert(at, (input, between(y, 0, WHOLE)));
    assert forall|i: int, j: int| 0 <= i < j < added.len() implies (#[trigger] added[i]).0 <= (
    #[trigger] added[j]).0 by {
        let a = if i < at {
            i
        } else {
            i - 1
        };
        let b = if j < at {
            j
        } else {
            j - 1
        };
        if i == at {
            assert(added[j] == points[j - 1]);
            assert(points[at].0 <= points[j - 1].0 || at == j - 1);
        } else if j == at {
            assert(added[i] == points[i]);
        } else {
            assert(added[i] == points[a]);
            assert(added[j] == points[b]);
        }
    }
    let moved = point_moved(points, index, x, y);
    let m = from_zero(index);
    assert forall|i: int, j: int| 0 <= i < j < moved.len() implies (#[trigger] moved[i]).0 <= (
    #[trigger] moved[j]).0 by {
        if m < points.len() && 0 < m < points.len() - 1 {
            assert(points[m - 1].0 <= points[m].0 && points[m].0 <= points[m + 1].0);
            if i == m {
                assert(points[m + 1].0 <= points[j].0 || j == m + 1);
            }
            if j == m {
                assert(points[i].0 <= points[m - 1].0 || i == m - 1);
            }
        }
        assert(points[i].0 <= points[j].0);
    }
    let removed = point_removed(points, index);
    assert forall|i: int, j: int| 0 <= i < j < removed.len() implies (#[trigger] removed[i]).0 <= (
    #[trigger] removed[j]).0 by {
        if removed != points {
            let a = if i < m {
                i
            } else {
                i + 1
            };
            let b = if j < m {
                j
            } else {
                j + 1
            };
            assert(removed[i] == points[a]);
            assert(removed[j] == points[b]);
        }
    }
}

/// The ends of a curve stay: it never has fewer than two points if it had two,
/// and never more than it may.
pub proof fn curves_keep_their_ends(points: Seq<(i64, i64)>, index: i32, x: i64, y: i64)
    requires
        2 <= points.len() <= CURVE_POINTS,
    ensures
        2 <= point_moved(points, index, x, y).len() <= CURVE_POINTS,
        2 <= point_added(points, x, y).len() <= CURVE_POINTS,
        2 <= point_removed(points, index).len() <= CURVE_POINTS,
        point_removed(points, index)[0] == points[0],
        point_removed(points, index).last() == points.last(),
        point_moved(points, index, x, y)[0].0 == points[0].0,
        point_moved(points, index, x, y).last().0 == points.last().0,
{
    place_for_bounds(points, between(x, 0, WHOLE), 0);
}

} // verus!
