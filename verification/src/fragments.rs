//! Cell-sized drawings for box-drawing, block-element and powerline
//! characters, in place of font glyphs. Geometry is in eightieths of a cell,
//! which holds every fraction these drawings use exactly.

use vstd::prelude::*;
use crate::color::{scale_alpha, Paint, PAINT_ALPHA_OPAQUE};

verus! {

/// One cell side in drawing units.
pub const CELL_UNITS: u8 = 80;

/// A grid position: line (relative to the top of the display) and column.
#[derive(Clone, Copy, Debug, PartialEq, Eq, Structural)]
pub struct CellPoint {
    pub line: i32,
    pub column: i32,
}

/// A rectangle inside a cell, in eightieths of the cell's width (`x`,
/// `width`) and height (`y`, `height`).
#[derive(Clone, Copy, Debug, PartialEq, Eq, Structural)]
pub struct BlockRect {
    pub x: u8,
    pub y: u8,
    pub width: u8,
    pub height: u8,
}

/// A filled rectangle drawn in a cell.
#[derive(Clone, Copy, Debug, PartialEq, Eq, Structural)]
pub struct BlockFragment {
    pub point: CellPoint,
    pub rect: BlockRect,
    pub color: Paint,
}

/// A corner of a polygon inside a cell, in eightieths of the cell.
#[derive(Clone, Copy, Debug, PartialEq, Eq, Structural)]
pub struct BlockPoint {
    pub x: u8,
    pub y: u8,
}

/// A filled triangle drawn in a cell.
#[derive(Clone, Copy, Debug)]
pub struct PolygonFragment {
    pub point: CellPoint,
    pub points: [BlockPoint; 3],
    pub color: Paint,
}

/// Stroke weight of a box-drawing line.
#[derive(Clone, Copy, Debug, PartialEq, Eq, Structural)]
pub enum BoxWeight {
    Light,
    Heavy,
    Double,
}

/// Stroke thickness: 1/8, 2/8 and 1/10 of a cell.
pub open spec fn thickness(weight: BoxWeight) -> u8 {
    match weight {
        BoxWeight::Light => 10,
        BoxWeight::Heavy => 20,
        BoxWeight::Double => 8,
    }
}

pub fn line_thickness(weight: BoxWeight) -> (t: u8)
    ensures
        t == thickness(weight),
{
    match weight {
        BoxWeight::Light => 10,
        BoxWeight::Heavy => 20,
        BoxWeight::Double => 8,
    }
}

/// The fragments that draw `rects` in the cell at `point`.
pub open spec fn frags_of(point: CellPoint, color: Paint, rects: Seq<BlockRect>) -> Seq<BlockFragment> {
    rects.map_values(|r: BlockRect| BlockFragment { point, rect: r, color })
}

/// Where a stroke runs along its axis: the whole cell, or the half on the
/// side that is asked for.
pub open spec fn stroke_span(first: bool, second: bool) -> (u8, u8) {
    if first && second {
        (0, 80)
    } else if first {
        (0, 40)
    } else {
        (40, 80)
    }
}

/// Centre lines of a stroke across its axis: two for double lines, set
/// 1.5 thicknesses off the middle, else the middle.
pub open spec fn stroke_centers(weight: BoxWeight) -> Seq<int> {
    if weight == BoxWeight::Double {
        let offset = thickness(weight) * 3 / 2;
        seq![40 - offset, 40 + offset]
    } else {
        seq![40int]
    }
}

/// The band of one stroke across its axis, kept inside the cell.
pub open spec fn stroke_band(center: int, t: u8) -> (u8, u8) {
    let lo = if center - t / 2 > 0 { center - t / 2 } else { 0 };
    let hi = if center + t / 2 < 80 { center + t / 2 } else { 80 };
    (lo as u8, (hi - lo) as u8)
}

/// Rectangles of a horizontal stroke reaching left and/or right from the
/// cell's middle.
pub open spec fn hline_rects(weight: BoxWeight, left: bool, right: bool) -> Seq<BlockRect> {
    if !left && !right {
        Seq::empty()
    } else {
        let (x0, x1) = stroke_span(left, right);
        stroke_centers(weight).map_values(
            |c: int|
                BlockRect {
                    x: x0,
                    y: stroke_band(c, thickness(weight)).0,
                    width: (x1 - x0) as u8,
                    height: stroke_band(c, thickness(weight)).1,
                },
        )
    }
}

/// Rectangles of a vertical stroke reaching up and/or down from the cell's
/// middle.
pub open spec fn vline_rects(weight: BoxWeight, up: bool, down: bool) -> Seq<BlockRect> {
    if !up && !down {
        Seq::empty()
    } else {
        let (y0, y1) = stroke_span(up, down);
        stroke_centers(weight).map_values(
            |c: int|
                BlockRect {
                    x: stroke_band(c, thickness(weight)).0,
                    y: y0,
                    width: stroke_band(c, thickness(weight)).1,
                    height: (y1 - y0) as u8,
                },
        )
    }
}

/// The strokes of a box-drawing character: weight, then whether it reaches
/// left, right, up and down.
pub open spec fn box_strokes(cp: u32) -> Option<(BoxWeight, bool, bool, bool, bool)> {
    match cp {
        0x2500 => Some((BoxWeight::Light, true, true, false, false)),
        0x2502 => Some((BoxWeight::Light, false, false, true, true)),
        0x250C => Some((BoxWeight::Light, false, true, false, true)),
        0x2510 => Some((BoxWeight::Light, true, false, false, true)),
        0x2514 => Some((BoxWeight::Light, false, true, true, false)),
        0x2518 => Some((BoxWeight::Light, true, false, true, false)),
        0x251C => Some((BoxWeight::Light, false, true, true, true)),
        0x2524 => Some((BoxWeight::Light, true, false, true, true)),
        0x252C => Some((BoxWeight::Light, true, true, false, true)),
        0x2534 => Some((BoxWeight::Light, true, true, true, false)),
        0x253C => Some((BoxWeight::Light, true, true, true, true)),
        0x2574 => Some((BoxWeight::Light, true, false, false, false)),
        0x2575 => Some((BoxWeight::Light, false, false, true, false)),
        0x2576 => Some((BoxWeight::Light, false, true, false, false)),
        0x2577 => Some((BoxWeight::Light, false, false, false, true)),
        0x256D => Some((BoxWeight::Light, false, true, false, true)),
        0x256E => Some((BoxWeight::Light, true, false, false, true)),
        0x256F => Some((BoxWeight::Light, true, false, true, false)),
        0x2570 => Some((BoxWeight::Light, false, true, true, false)),
        0x2501 => Some((BoxWeight::Heavy, true, true, false, false)),
        0x2503 => Some((BoxWeight::Heavy, false, false, true, true)),
        0x250F => Some((BoxWeight::Heavy, false, true, false, true)),
        0x2513 => Some((BoxWeight::Heavy, true, false, false, true)),
        0x2517 => Some((BoxWeight::Heavy, false, true, true, false)),
        0x251B => Some((BoxWeight::Heavy, true, false, true, false)),
        0x2523 => Some((BoxWeight::Heavy, false, true, true, true)),
        0x252B => Some((BoxWeight::Heavy, true, false, true, true)),
        0x2533 => Some((BoxWeight::Heavy, true, true, false, true)),
        0x253B => Some((BoxWeight::Heavy, true, true, true, false)),
        0x254B => Some((BoxWeight::Heavy, true, true, true, true)),
        0x2550 => Some((BoxWeight::Double, true, true, false, false)),
        0x2551 => Some((BoxWeight::Double, false, false, true, true)),
        0x2554 => Some((BoxWeight::Double, false, true, false, true)),
        0x2557 => Some((BoxWeight::Double, true, false, false, true)),
        0x255A => Some((BoxWeight::Double, false, true, true, false)),
        0x255D => Some((BoxWeight::Double, true, false, true, false)),
        0x2560 => Some((BoxWeight::Double, false, true, true, true)),
        0x2563 => Some((BoxWeight::Double, true, false, true, true)),
        0x2566 => Some((BoxWeight::Double, true, true, false, true)),
        0x2569 => Some((BoxWeight::Double, true, true, true, false)),
        0x256C => Some((BoxWeight::Double, true, true, true, true)),
        _ => None,
    }
}

fn box_strokes_of(cp: u32) -> (res: Option<(BoxWeight, bool, bool, bool, bool)>)
    ensures
        res == box_strokes(cp),
{
    match cp {
        0x2500 => Some((BoxWeight::Light, true, true, false, false)),
        0x2502 => Some((BoxWeight::Light, false, false, true, true)),
        0x250C => Some((BoxWeight::Light, false, true, false, true)),
        0x2510 => Some((BoxWeight::Light, true, false, false, true)),
        0x2514 => Some((BoxWeight::Light, false, true, true, false)),
        0x2518 => Some((BoxWeight::Light, true, false, true, false)),
        0x251C => Some((BoxWeight::Light, false, true, true, true)),
        0x2524 => Some((BoxWeight::Light, true, false, true, true)),
        0x252C => Some((BoxWeight::Light, true, true, false, true)),
        0x2534 => Some((BoxWeight::Light, true, true, true, false)),
        0x253C => Some((BoxWeight::Light, true, true, true, true)),
        0x2574 => Some((BoxWeight::Light, true, false, false, false)),
        0x2575 => Some((BoxWeight::Light, false, false, true, false)),
        0x2576 => Some((BoxWeight::Light, false, true, false, false)),
        0x2577 => Some((BoxWeight::Light, false, false, false, true)),
        0x256D => Some((BoxWeight::Light, false, true, false, true)),
        0x256E => Some((BoxWeight::Light, true, false, false, true)),
        0x256F => Some((BoxWeight::Light, true, false, true, false)),
        0x2570 => Some((BoxWeight::Light, false, true, true, false)),
        0x2501 => Some((BoxWeight::Heavy, true, true, false, false)),
        0x2503 => Some((BoxWeight::Heavy, false, false, true, true)),
        0x250F => Some((BoxWeight::Heavy, false, true, false, true)),
        0x2513 => Some((BoxWeight::Heavy, true, false, false, true)),
        0x2517 => Some((BoxWeight::Heavy, false, true, true, false)),
        0x251B => Some((BoxWeight::Heavy, true, false, true, false)),
        0x2523 => Some((BoxWeight::Heavy, false, true, true, true)),
        0x252B => Some((BoxWeight::Heavy, true, false, true, true)),
        0x2533 => Some((BoxWeight::Heavy, true, true, false, true)),
        0x253B => Some((BoxWeight::Heavy, true, true, true, false)),
        0x254B => Some((BoxWeight::Heavy, true, true, true, true)),
        0x2550 => Some((BoxWeight::Double, true, true, false, false)),
        0x2551 => Some((BoxWeight::Double, false, false, true, true)),
        0x2554 => Some((BoxWeight::Double, false, true, false, true)),
        0x2557 => Some((BoxWeight::Double, true, false, false, true)),
        0x255A => Some((BoxWeight::Double, false, true, true, false)),
        0x255D => Some((BoxWeight::Double, true, false, true, false)),
        0x2560 => Some((BoxWeight::Double, false, true, true, true)),
        0x2563 => Some((BoxWeight::Double, true, false, true, true)),
        0x2566 => Some((BoxWeight::Double, true, true, false, true)),
        0x2569 => Some((BoxWeight::Double, true, true, true, false)),
        0x256C => Some((BoxWeight::Double, true, true, true, true)),
        _ => None,
    }
}

fn push_stroke_rects(
    out: &mut Vec<BlockFragment>,
    point: CellPoint,
    color: Paint,
    weight: BoxWeight,
    horizontal: bool,
    first: bool,
    second: bool,
)
    ensures
        final(out)@ == old(out)@ + frags_of(
            point,
            color,
            if horizontal {
                hline_rects(weight, first, second)
            } else {
                vline_rects(weight, first, second)
            },
        ),
{
    let ghost rects = if horizontal {
        hline_rects(weight, first, second)
    } else {
        vline_rects(weight, first, second)
    };
    if !first && !second {
        assert(frags_of(point, color, rects) =~= Seq::empty());
        assert(old(out)@ + Seq::<BlockFragment>::empty() =~= old(out)@);
        return;
    }
    let t = line_thickness(weight);
    let (s0, s1): (u8, u8) = if first && second {
        (0, 80)
    } else if first {
        (0, 40)
    } else {
        (40, 80)
    };
    let double = match weight {
        BoxWeight::Double => true,
        _ => false,
    };
    let (c0, c1): (u8, u8) = if double {
        (40 - t * 3 / 2, 40 + t * 3 / 2)
    } else {
        (40, 40)
    };
    let lo0 = if c0 > t / 2 { c0 - t / 2 } else { 0 };
    let hi0 = if c0 + t / 2 < 80 { c0 + t / 2 } else { 80 };
    let r0 = if horizontal {
        BlockRect { x: s0, y: lo0, width: s1 - s0, height: hi0 - lo0 }
    } else {
        BlockRect { x: lo0, y: s0, width: hi0 - lo0, height: s1 - s0 }
    };
    out.push(BlockFragment { point, rect: r0, color });
    if double {
        let lo1 = if c1 > t / 2 { c1 - t / 2 } else { 0 };
        let hi1 = if c1 + t / 2 < 80 { c1 + t / 2 } else { 80 };
        let r1 = if horizontal {
            BlockRect { x: s0, y: lo1, width: s1 - s0, height: hi1 - lo1 }
        } else {
            BlockRect { x: lo1, y: s0, width: hi1 - lo1, height: s1 - s0 }
        };
        out.push(BlockFragment { point, rect: r1, color });
        assert(rects.len() == 2);
        assert(rects[0] == r0);
        assert(rects[1] == r1);
    } else {
        assert(rects.len() == 1);
        assert(rects[0] == r0);
    }
    assert(final(out)@ =~= old(out)@ + frags_of(point, color, rects));
}

/// Draws a horizontal stroke reaching left and/or right.
pub fn push_horizontal_line(
    out: &mut Vec<BlockFragment>,
    point: CellPoint,
    color: Paint,
    weight: BoxWeight,
    left: bool,
    right: bool,
)
    ensures
        final(out)@ == old(out)@ + frags_of(point, color, hline_rects(weight, left, right)),
{
    push_stroke_rects(out, point, color, weight, true, left, right);
}

/// Draws a vertical stroke reaching up and/or down.
pub fn push_vertical_line(
    out: &mut Vec<BlockFragment>,
    point: CellPoint,
    color: Paint,
    weight: BoxWeight,
    up: bool,
    down: bool,
)
    ensures
        final(out)@ == old(out)@ + frags_of(point, color, vline_rects(weight, up, down)),
{
    push_stroke_rects(out, point, color, weight, false, up, down);
}

/// The rectangles of a box-drawing character: its horizontal stroke, then
/// its vertical one.
pub open spec fn box_rects(cp: u32) -> Option<Seq<BlockRect>> {
    match box_strokes(cp) {
        Some((w, l, r, u, d)) => Some(hline_rects(w, l, r) + vline_rects(w, u, d)),
        None => None,
    }
}

/// Draws `ch` if it is a box-drawing character; returns whether it is.
pub fn push_box_fragments(out: &mut Vec<BlockFragment>, point: CellPoint, color: Paint, ch: char) -> (handled: bool)
    ensures
        handled == box_rects(ch as u32) is Some,
        final(out)@ == old(out)@ + (match box_rects(ch as u32) {
            Some(rects) => frags_of(point, color, rects),
            None => Seq::empty(),
        }),
{
    match box_strokes_of(ch as u32) {
        Some((weight, left, right, up, down)) => {
            push_horizontal_line(out, point, color, weight, left, right);
            push_vertical_line(out, point, color, weight, up, down);
            assert(frags_of(point, color, hline_rects(weight, left, right) + vline_rects(weight, up, down))
                =~= frags_of(point, color, hline_rects(weight, left, right)) + frags_of(point, color, vline_rects(weight, up, down)));
            assert(final(out)@ =~= old(out)@ + frags_of(point, color, hline_rects(weight, left, right) + vline_rects(weight, up, down)));
            true
        },
        None => {
            assert(old(out)@ + Seq::<BlockFragment>::empty() =~= old(out)@);
            false
        },
    }
}

pub open spec fn bp(x: u8, y: u8) -> BlockPoint {
    BlockPoint { x, y }
}

pub open spec fn br(x: u8, y: u8, width: u8, height: u8) -> BlockRect {
    BlockRect { x, y, width, height }
}

/// What a powerline character draws: a triangle pointing right, a triangle
/// pointing left, or a thin vertical bar through the middle.
pub enum PowerlineShape {
    Triangle([BlockPoint; 3]),
    Bar(BlockRect),
}

pub open spec fn powerline_shape(cp: u32) -> Option<PowerlineShape> {
    if cp == 0xE0B0 || cp == 0xE0B4 {
        Some(PowerlineShape::Triangle([bp(0, 0), bp(80, 40), bp(0, 80)]))
    } else if cp == 0xE0B2 || cp == 0xE0B6 {
        Some(PowerlineShape::Triangle([bp(80, 0), bp(0, 40), bp(80, 80)]))
    } else if cp == 0xE0B1 || cp == 0xE0B3 || cp == 0xE0B5 || cp == 0xE0B7 {
        Some(PowerlineShape::Bar(br(35, 0, 10, 80)))
    } else {
        None
    }
}

/// Draws `ch` if it is a powerline separator; triangles go to `polys`, bars
/// to `rects`. Returns whether it is one.
pub fn push_powerline_fragments(
    rects: &mut Vec<BlockFragment>,
    polys: &mut Vec<PolygonFragment>,
    point: CellPoint,
    color: Paint,
    ch: char,
) -> (handled: bool)
    ensures
        handled == powerline_shape(ch as u32) is Some,
        match powerline_shape(ch as u32) {
            Some(PowerlineShape::Triangle(points)) => final(rects)@ == old(rects)@
                && final(polys)@ == old(polys)@.push(PolygonFragment { point, points, color }),
            Some(PowerlineShape::Bar(rect)) => final(rects)@ == old(rects)@.push(
                BlockFragment { point, rect, color },
            ) && final(polys)@ == old(polys)@,
            None => final(rects)@ == old(rects)@ && final(polys)@ == old(polys)@,
        },
{
    let cp = ch as u32;
    if cp == 0xE0B0 || cp == 0xE0B4 {
        let points = [BlockPoint { x: 0, y: 0 }, BlockPoint { x: 80, y: 40 }, BlockPoint { x: 0, y: 80 }];
        polys.push(PolygonFragment { point, points, color });
        true
    } else if cp == 0xE0B2 || cp == 0xE0B6 {
        let points = [BlockPoint { x: 80, y: 0 }, BlockPoint { x: 0, y: 40 }, BlockPoint { x: 80, y: 80 }];
        polys.push(PolygonFragment { point, points, color });
        true
    } else if cp == 0xE0B1 || cp == 0xE0B3 || cp == 0xE0B5 || cp == 0xE0B7 {
        let t = line_thickness(BoxWeight::Light);
        let rect = BlockRect { x: 40 - t / 2, y: 0, width: t, height: 80 };
        rects.push(BlockFragment { point, rect, color });
        true
    } else {
        false
    }
}

/// Whether `ch` is in the Block Elements range (U+2580 to U+259F).
pub fn is_block_element_char(ch: char) -> (res: bool)
    ensures
        res == (0x2580 <= (ch as u32) <= 0x259F),
{
    let cp = ch as u32;
    0x2580 <= cp && cp <= 0x259F
}

/// The quadrants a quadrant character fills, as bits: upper left (8),
/// upper right (4), lower left (2), lower right (1).
pub open spec fn quadrant_mask(cp: u32) -> u8 {
    match cp {
        0x2596 => 0b0010,
        0x2597 => 0b0001,
        0x2598 => 0b1000,
        0x2599 => 0b1011,
        0x259A => 0b1001,
        0x259B => 0b1110,
        0x259C => 0b1101,
        0x259D => 0b0100,
        0x259E => 0b0110,
        0x259F => 0b0111,
        _ => 0,
    }
}

pub open spec fn quadrant_rects(mask: u8) -> Seq<BlockRect> {
    let ul: Seq<BlockRect> = if mask & 0b1000 != 0 { seq![br(0, 0, 40, 40)] } else { Seq::empty() };
    let ur: Seq<BlockRect> = if mask & 0b0100 != 0 { seq![br(40, 0, 40, 40)] } else { Seq::empty() };
    let ll: Seq<BlockRect> = if mask & 0b0010 != 0 { seq![br(0, 40, 40, 40)] } else { Seq::empty() };
    let lr: Seq<BlockRect> = if mask & 0b0001 != 0 { seq![br(40, 40, 40, 40)] } else { Seq::empty() };
    ul + ur + ll + lr
}

/// How a block element is drawn: its rectangles, and the quarters of the
/// colour's alpha they are filled with (4 for the full colour).
pub open spec fn block_shape(cp: u32) -> Option<(Seq<BlockRect>, u32)> {
    if cp == 0x2591 {
        Some((seq![br(0, 0, 80, 80)], 1))
    } else if cp == 0x2592 {
        Some((seq![br(0, 0, 80, 80)], 2))
    } else if cp == 0x2593 {
        Some((seq![br(0, 0, 80, 80)], 3))
    } else if cp == 0x2588 {
        Some((seq![br(0, 0, 80, 80)], 4))
    } else if cp == 0x2580 {
        Some((seq![br(0, 0, 80, 40)], 4))
    } else if cp == 0x2584 {
        Some((seq![br(0, 40, 80, 40)], 4))
    } else if 0x2581 <= cp <= 0x2587 {
        let steps = cp - 0x2580;
        Some((seq![br(0, (80 - steps * 10) as u8, 80, (steps * 10) as u8)], 4))
    } else if 0x2589 <= cp <= 0x258F {
        let steps = 0x2590 - cp;
        Some((seq![br(0, 0, (steps * 10) as u8, 80)], 4))
    } else if cp == 0x2590 {
        Some((seq![br(40, 0, 40, 80)], 4))
    } else if cp == 0x2594 {
        Some((seq![br(0, 0, 80, 10)], 4))
    } else if cp == 0x2595 {
        Some((seq![br(70, 0, 10, 80)], 4))
    } else if 0x2596 <= cp <= 0x259F {
        Some((quadrant_rects(quadrant_mask(cp)), 4))
    } else {
        None
    }
}

/// A rectangle covers at least one unit each way and stays inside its cell.
pub open spec fn rect_in_cell(r: BlockRect) -> bool {
    &&& 1 <= r.width
    &&& 1 <= r.height
    &&& r.x + r.width <= CELL_UNITS
    &&& r.y + r.height <= CELL_UNITS
}

pub open spec fn rects_in_cell(rects: Seq<BlockRect>) -> bool {
    forall|i: int| 0 <= i < rects.len() ==> rect_in_cell(#[trigger] rects[i])
}

proof fn lemma_stroke_rects_in_cell(weight: BoxWeight, first: bool, second: bool)
    ensures
        rects_in_cell(hline_rects(weight, first, second)),
        rects_in_cell(vline_rects(weight, first, second)),
{
    let centers = stroke_centers(weight);
    let t = thickness(weight);
    assert forall|i: int| 0 <= i < centers.len() implies {
        let (lo, len) = stroke_band(#[trigger] centers[i], t);
        1 <= len && lo + len <= 80
    } by {
        if weight == BoxWeight::Double {
            assert(centers[i] == 28 || centers[i] == 52);
        } else {
            assert(centers[i] == 40);
        }
    }
}

/// Every rectangle that draws a box-drawing, block or powerline character
/// stays inside its cell, and a powerline triangle's corners lie in it.
pub proof fn lemma_glyph_rects_in_cell(cp: u32)
    ensures
        box_rects(cp) matches Some(rects) ==> rects_in_cell(rects),
        block_shape(cp) matches Some((rects, _)) ==> rects_in_cell(rects),
        powerline_shape(cp) matches Some(PowerlineShape::Bar(r)) ==> rect_in_cell(r),
        powerline_shape(cp) matches Some(PowerlineShape::Triangle(points)) ==> forall|i: int|
            0 <= i < 3 ==> (#[trigger] points@[i]).x <= CELL_UNITS && points@[i].y <= CELL_UNITS,
{
    if let Some((w, l, r, u, d)) = box_strokes(cp) {
        lemma_stroke_rects_in_cell(w, l, r);
        lemma_stroke_rects_in_cell(w, u, d);
        let h = hline_rects(w, l, r);
        let v = vline_rects(w, u, d);
        assert forall|i: int| 0 <= i < (h + v).len() implies rect_in_cell(#[trigger] (h + v)[i]) by {
            if i < h.len() {
                assert((h + v)[i] == h[i]);
            } else {
                assert((h + v)[i] == v[i - h.len()]);
            }
        }
    }
    if 0x2596 <= cp <= 0x259F {
        let mask = quadrant_mask(cp);
        let ul: Seq<BlockRect> = if mask & 0b1000 != 0 { seq![br(0, 0, 40, 40)] } else { Seq::empty() };
        let ur: Seq<BlockRect> = if mask & 0b0100 != 0 { seq![br(40, 0, 40, 40)] } else { Seq::empty() };
        let ll: Seq<BlockRect> = if mask & 0b0010 != 0 { seq![br(0, 40, 40, 40)] } else { Seq::empty() };
        let lr: Seq<BlockRect> = if mask & 0b0001 != 0 { seq![br(40, 40, 40, 40)] } else { Seq::empty() };
        assert(rects_in_cell(ul) && rects_in_cell(ur) && rects_in_cell(ll) && rects_in_cell(lr));
        let a = ul + ur;
        let b = a + ll;
        let c = b + lr;
        assert forall|i: int| 0 <= i < a.len() implies rect_in_cell(#[trigger] a[i]) by {
            if i < ul.len() {
                assert(a[i] == ul[i]);
            } else {
                assert(a[i] == ur[i - ul.len()]);
            }
        }
        assert forall|i: int| 0 <= i < b.len() implies rect_in_cell(#[trigger] b[i]) by {
            if i < a.len() {
                assert(b[i] == a[i]);
            } else {
                assert(b[i] == ll[i - a.len()]);
            }
        }
        assert forall|i: int| 0 <= i < c.len() implies rect_in_cell(#[trigger] c[i]) by {
            if i < b.len() {
                assert(c[i] == b[i]);
            } else {
                assert(c[i] == lr[i - b.len()]);
            }
        }
        assert(quadrant_rects(mask) == c);
    }
}

fn quadrant_mask_of(cp: u32) -> (m: u8)
    ensures
        m == quadrant_mask(cp),
{
    match cp {
        0x2596 => 0b0010,
        0x2597 => 0b0001,
        0x2598 => 0b1000,
        0x2599 => 0b1011,
        0x259A => 0b1001,
        0x259B => 0b1110,
        0x259C => 0b1101,
        0x259D => 0b0100,
        0x259E => 0b0110,
        0x259F => 0b0111,
        _ => 0,
    }
}

/// Draws `ch` if it is a block element; the shades fill the cell with the
/// colour's alpha scaled by a quarter, a half or three quarters. Returns
/// whether `ch` is one.
pub fn push_block_fragments(out: &mut Vec<BlockFragment>, point: CellPoint, color: Paint, ch: char) -> (handled: bool)
    requires
        color.alpha <= PAINT_ALPHA_OPAQUE,
    ensures
        handled == block_shape(ch as u32) is Some,
        final(out)@ == old(out)@ + (match block_shape(ch as u32) {
            Some((rects, quarters)) => frags_of(point, scale_alpha(color, quarters, 4), rects),
            None => Seq::empty(),
        }),
{
    let cp = ch as u32;
    let ghost shape = block_shape(cp);
    let full = color.scaled(4, 4);
    assert(full == color);
    if cp == 0x2591 || cp == 0x2592 || cp == 0x2593 {
        let shade = color.scaled(cp - 0x2590, 4);
        out.push(BlockFragment { point, rect: BlockRect { x: 0, y: 0, width: 80, height: 80 }, color: shade });
    } else if cp == 0x2588 {
        out.push(BlockFragment { point, rect: BlockRect { x: 0, y: 0, width: 80, height: 80 }, color });
    } else if cp == 0x2580 {
        out.push(BlockFragment { point, rect: BlockRect { x: 0, y: 0, width: 80, height: 40 }, color });
    } else if cp == 0x2584 {
        out.push(BlockFragment { point, rect: BlockRect { x: 0, y: 40, width: 80, height: 40 }, color });
    } else if 0x2581 <= cp && cp <= 0x2587 {
        let steps = (cp - 0x2580) as u8;
        out.push(BlockFragment { point, rect: BlockRect { x: 0, y: 80 - steps * 10, width: 80, height: steps * 10 }, color });
    } else if 0x2589 <= cp && cp <= 0x258F {
        let steps = (0x2590 - cp) as u8;
        out.push(BlockFragment { point, rect: BlockRect { x: 0, y: 0, width: steps * 10, height: 80 }, color });
    } else if cp == 0x2590 {
        out.push(BlockFragment { point, rect: BlockRect { x: 40, y: 0, width: 40, height: 80 }, color });
    } else if cp == 0x2594 {
        out.push(BlockFragment { point, rect: BlockRect { x: 0, y: 0, width: 80, height: 10 }, color });
    } else if cp == 0x2595 {
        out.push(BlockFragment { point, rect: BlockRect { x: 70, y: 0, width: 10, height: 80 }, color });
    } else if 0x2596 <= cp && cp <= 0x259F {
        let mask = quadrant_mask_of(cp);
        let ghost before = out@;
        let ghost rects = quadrant_rects(mask);
        if mask & 0b1000 != 0 {
            out.push(BlockFragment { point, rect: BlockRect { x: 0, y: 0, width: 40, height: 40 }, color });
        }
        if mask & 0b0100 != 0 {
            out.push(BlockFragment { point, rect: BlockRect { x: 40, y: 0, width: 40, height: 40 }, color });
        }
        if mask & 0b0010 != 0 {
            out.push(BlockFragment { point, rect: BlockRect { x: 0, y: 40, width: 40, height: 40 }, color });
        }
        if mask & 0b0001 != 0 {
            out.push(BlockFragment { point, rect: BlockRect { x: 40, y: 40, width: 40, height: 40 }, color });
        }
        assert(out@ =~= before + frags_of(point, color, rects));
        return true;
    } else {
        assert(old(out)@ + Seq::<BlockFragment>::empty() =~= old(out)@);
        return false;
    }
    assert(out@ =~= old(out)@ + frags_of(point, scale_alpha(color, shape.unwrap().1, 4), shape.unwrap().0));
    true
}


/// The strokes seen in a mirror standing upright: left and right swap.
pub open spec fn mirror_left_right(s: Option<(BoxWeight, bool, bool, bool, bool)>) -> Option<(BoxWeight, bool, bool, bool, bool)> {
    match s {
        Some((w, l, r, u, d)) => Some((w, r, l, u, d)),
        None => None,
    }
}

/// The strokes seen in a mirror lying flat: up and down swap.
pub open spec fn mirror_up_down(s: Option<(BoxWeight, bool, bool, bool, bool)>) -> Option<(BoxWeight, bool, bool, bool, bool)> {
    match s {
        Some((w, l, r, u, d)) => Some((w, l, r, d, u)),
        None => None,
    }
}

/// Box-drawing characters that are mirror images of each other have
/// mirrored strokes (a corner down and to the right mirrors into one down
/// and to the left, or up and to the right), symmetric ones are their own
/// mirror images, and one character of each mirror family reaches the
/// sides its Unicode name gives (U+250C, "down and right", reaches right
/// and down).
pub proof fn lemma_box_strokes_follow_their_names()
    ensures
        box_strokes(0x2510) == mirror_left_right(box_strokes(0x250C)),
        box_strokes(0x2518) == mirror_left_right(box_strokes(0x2514)),
        box_strokes(0x2524) == mirror_left_right(box_strokes(0x251C)),
        box_strokes(0x2576) == mirror_left_right(box_strokes(0x2574)),
        box_strokes(0x256E) == mirror_left_right(box_strokes(0x256D)),
        box_strokes(0x256F) == mirror_left_right(box_strokes(0x2570)),
        box_strokes(0x2513) == mirror_left_right(box_strokes(0x250F)),
        box_strokes(0x251B) == mirror_left_right(box_strokes(0x2517)),
        box_strokes(0x252B) == mirror_left_right(box_strokes(0x2523)),
        box_strokes(0x2557) == mirror_left_right(box_strokes(0x2554)),
        box_strokes(0x255D) == mirror_left_right(box_strokes(0x255A)),
        box_strokes(0x2563) == mirror_left_right(box_strokes(0x2560)),
        box_strokes(0x2500) == mirror_left_right(box_strokes(0x2500)),
        box_strokes(0x2502) == mirror_left_right(box_strokes(0x2502)),
        box_strokes(0x252C) == mirror_left_right(box_strokes(0x252C)),
        box_strokes(0x2534) == mirror_left_right(box_strokes(0x2534)),
        box_strokes(0x253C) == mirror_left_right(box_strokes(0x253C)),
        box_strokes(0x2575) == mirror_left_right(box_strokes(0x2575)),
        box_strokes(0x2577) == mirror_left_right(box_strokes(0x2577)),
        box_strokes(0x2501) == mirror_left_right(box_strokes(0x2501)),
        box_strokes(0x2503) == mirror_left_right(box_strokes(0x2503)),
        box_strokes(0x2533) == mirror_left_right(box_strokes(0x2533)),
        box_strokes(0x253B) == mirror_left_right(box_strokes(0x253B)),
        box_strokes(0x254B) == mirror_left_right(box_strokes(0x254B)),
        box_strokes(0x2550) == mirror_left_right(box_strokes(0x2550)),
        box_strokes(0x2551) == mirror_left_right(box_strokes(0x2551)),
        box_strokes(0x2566) == mirror_left_right(box_strokes(0x2566)),
        box_strokes(0x2569) == mirror_left_right(box_strokes(0x2569)),
        box_strokes(0x256C) == mirror_left_right(box_strokes(0x256C)),
        box_strokes(0x2514) == mirror_up_down(box_strokes(0x250C)),
        box_strokes(0x2518) == mirror_up_down(box_strokes(0x2510)),
        box_strokes(0x2534) == mirror_up_down(box_strokes(0x252C)),
        box_strokes(0x2577) == mirror_up_down(box_strokes(0x2575)),
        box_strokes(0x2570) == mirror_up_down(box_strokes(0x256D)),
        box_strokes(0x256F) == mirror_up_down(box_strokes(0x256E)),
        box_strokes(0x2517) == mirror_up_down(box_strokes(0x250F)),
        box_strokes(0x251B) == mirror_up_down(box_strokes(0x2513)),
        box_strokes(0x253B) == mirror_up_down(box_strokes(0x2533)),
        box_strokes(0x255A) == mirror_up_down(box_strokes(0x2554)),
        box_strokes(0x255D) == mirror_up_down(box_strokes(0x2557)),
        box_strokes(0x2569) == mirror_up_down(box_strokes(0x2566)),
        box_strokes(0x2500) == mirror_up_down(box_strokes(0x2500)),
        box_strokes(0x2502) == mirror_up_down(box_strokes(0x2502)),
        box_strokes(0x251C) == mirror_up_down(box_strokes(0x251C)),
        box_strokes(0x2524) == mirror_up_down(box_strokes(0x2524)),
        box_strokes(0x253C) == mirror_up_down(box_strokes(0x253C)),
        box_strokes(0x2574) == mirror_up_down(box_strokes(0x2574)),
        box_strokes(0x2576) == mirror_up_down(box_strokes(0x2576)),
        box_strokes(0x2501) == mirror_up_down(box_strokes(0x2501)),
        box_strokes(0x2503) == mirror_up_down(box_strokes(0x2503)),
        box_strokes(0x2523) == mirror_up_down(box_strokes(0x2523)),
        box_strokes(0x252B) == mirror_up_down(box_strokes(0x252B)),
        box_strokes(0x254B) == mirror_up_down(box_strokes(0x254B)),
        box_strokes(0x2550) == mirror_up_down(box_strokes(0x2550)),
        box_strokes(0x2551) == mirror_up_down(box_strokes(0x2551)),
        box_strokes(0x2560) == mirror_up_down(box_strokes(0x2560)),
        box_strokes(0x2563) == mirror_up_down(box_strokes(0x2563)),
        box_strokes(0x256C) == mirror_up_down(box_strokes(0x256C)),
        box_strokes(0x2500) == Some((BoxWeight::Light, true, true, false, false)),
        box_strokes(0x2502) == Some((BoxWeight::Light, false, false, true, true)),
        box_strokes(0x250C) == Some((BoxWeight::Light, false, true, false, true)),
        box_strokes(0x251C) == Some((BoxWeight::Light, false, true, true, true)),
        box_strokes(0x252C) == Some((BoxWeight::Light, true, true, false, true)),
        box_strokes(0x253C) == Some((BoxWeight::Light, true, true, true, true)),
        box_strokes(0x2574) == Some((BoxWeight::Light, true, false, false, false)),
        box_strokes(0x2575) == Some((BoxWeight::Light, false, false, true, false)),
        box_strokes(0x256D) == Some((BoxWeight::Light, false, true, false, true)),
        box_strokes(0x2501) == Some((BoxWeight::Heavy, true, true, false, false)),
        box_strokes(0x2503) == Some((BoxWeight::Heavy, false, false, true, true)),
        box_strokes(0x250F) == Some((BoxWeight::Heavy, false, true, false, true)),
        box_strokes(0x2523) == Some((BoxWeight::Heavy, false, true, true, true)),
        box_strokes(0x2533) == Some((BoxWeight::Heavy, true, true, false, true)),
        box_strokes(0x254B) == Some((BoxWeight::Heavy, true, true, true, true)),
        box_strokes(0x2550) == Some((BoxWeight::Double, true, true, false, false)),
        box_strokes(0x2551) == Some((BoxWeight::Double, false, false, true, true)),
        box_strokes(0x2554) == Some((BoxWeight::Double, false, true, false, true)),
        box_strokes(0x2560) == Some((BoxWeight::Double, false, true, true, true)),
        box_strokes(0x2566) == Some((BoxWeight::Double, true, true, false, true)),
        box_strokes(0x256C) == Some((BoxWeight::Double, true, true, true, true)),
{
}

} // verus!
