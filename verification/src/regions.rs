//! Background regions: runs of same-coloured cells merged into rectangles
//! before they are drawn.

use vstd::prelude::*;
use crate::color::Paint;
use crate::fragments::CellPoint;

verus! {

/// A rectangle of cells, lines `start_line..=end_line` and columns
/// `start_col..=end_col`, filled with one colour.
#[derive(Clone, Copy, Debug, PartialEq, Eq, Structural)]
pub struct BackgroundRegion {
    pub start_line: i32,
    pub start_col: i32,
    pub end_line: i32,
    pub end_col: i32,
    pub color: Paint,
}

/// A run of cells on one line, `num_of_cells` wide from `point`, filled
/// with one colour.
#[derive(Clone, Copy, Debug, PartialEq, Eq, Structural)]
pub struct LayoutRect {
    pub point: CellPoint,
    pub num_of_cells: usize,
    pub color: Paint,
}

/// The region lies in the non-negative quadrant, is not empty, and one more
/// line or column past its end is still an `i32`.
pub open spec fn region_fits(r: BackgroundRegion) -> bool {
    &&& 0 <= r.start_line <= r.end_line < i32::MAX
    &&& 0 <= r.start_col <= r.end_col < i32::MAX
}

pub open spec fn regions_fit(regs: Seq<BackgroundRegion>) -> bool {
    forall|i: int| 0 <= i < regs.len() ==> region_fits(#[trigger] regs[i])
}

/// Two regions of one colour that together form a rectangle: they span the
/// same lines and touch side by side, or span the same columns and touch
/// one above the other.
pub open spec fn can_merge(a: BackgroundRegion, b: BackgroundRegion) -> bool {
    &&& a.color == b.color
    &&& if a.start_line == b.start_line && a.end_line == b.end_line {
        a.end_col + 1 == b.start_col || b.end_col + 1 == a.start_col
    } else if a.start_col == b.start_col && a.end_col == b.end_col {
        a.end_line + 1 == b.start_line || b.end_line + 1 == a.start_line
    } else {
        false
    }
}

pub open spec fn min_i32(a: i32, b: i32) -> i32 {
    if a <= b { a } else { b }
}

pub open spec fn max_i32(a: i32, b: i32) -> i32 {
    if a >= b { a } else { b }
}

/// The bounding rectangle of two regions, in the first one's colour.
pub open spec fn merged(a: BackgroundRegion, b: BackgroundRegion) -> BackgroundRegion {
    BackgroundRegion {
        start_line: min_i32(a.start_line, b.start_line),
        start_col: min_i32(a.start_col, b.start_col),
        end_line: max_i32(a.end_line, b.end_line),
        end_col: max_i32(a.end_col, b.end_col),
        color: a.color,
    }
}

impl BackgroundRegion {
    /// The region of the single cell at `line`, `col`.
    pub fn new(line: i32, col: i32, color: Paint) -> (r: Self)
        ensures
            r == (BackgroundRegion { start_line: line, start_col: col, end_line: line, end_col: col, color }),
    {
        BackgroundRegion { start_line: line, start_col: col, end_line: line, end_col: col, color }
    }

    /// Whether this region and `other` merge into one rectangle.
    pub fn can_merge_with(&self, other: &BackgroundRegion) -> (res: bool)
        requires
            self.end_line < i32::MAX,
            self.end_col < i32::MAX,
            other.end_line < i32::MAX,
            other.end_col < i32::MAX,
        ensures
            res == can_merge(*self, *other),
    {
        if self.color != other.color {
            return false;
        }
        if self.start_line == other.start_line && self.end_line == other.end_line {
            return self.end_col + 1 == other.start_col || other.end_col + 1 == self.start_col;
        }
        if self.start_col == other.start_col && self.end_col == other.end_col {
            return self.end_line + 1 == other.start_line || other.end_line + 1 == self.start_line;
        }
        false
    }

    /// Grows this region to the bounding rectangle of both.
    pub fn merge_with(&mut self, other: &BackgroundRegion)
        ensures
            *final(self) == merged(*old(self), *other),
    {
        self.start_line = if self.start_line <= other.start_line { self.start_line } else { other.start_line };
        self.start_col = if self.start_col <= other.start_col { self.start_col } else { other.start_col };
        self.end_line = if self.end_line >= other.end_line { self.end_line } else { other.end_line };
        self.end_col = if self.end_col >= other.end_col { self.end_col } else { other.end_col };
    }
}

/// Folds into region `i` every later region that merges with it, scanning
/// from `j`; a region folded in is removed and the scan stays in place.
/// Also tells whether anything merged.
pub open spec fn absorb_from(regs: Seq<BackgroundRegion>, i: int, j: int) -> (Seq<BackgroundRegion>, bool)
    decreases regs.len() - j,
{
    if j < 0 || j >= regs.len() || i < 0 || i >= j {
        (regs, false)
    } else if can_merge(regs[i], regs[j]) {
        (absorb_from(regs.remove(j).update(i, merged(regs[i], regs[j])), i, j).0, true)
    } else {
        absorb_from(regs, i, j + 1)
    }
}

pub proof fn lemma_absorb_len(regs: Seq<BackgroundRegion>, i: int, j: int)
    ensures
        absorb_from(regs, i, j).0.len() <= regs.len(),
        absorb_from(regs, i, j).1 ==> absorb_from(regs, i, j).0.len() < regs.len(),
        !absorb_from(regs, i, j).1 ==> absorb_from(regs, i, j).0 == regs,
    decreases regs.len() - j,
{
    if j < 0 || j >= regs.len() || i < 0 || i >= j {
    } else if can_merge(regs[i], regs[j]) {
        lemma_absorb_len(regs.remove(j).update(i, merged(regs[i], regs[j])), i, j);
    } else {
        lemma_absorb_len(regs, i, j + 1);
    }
}

/// One pass of merging: every region from `i` on absorbs the later ones it
/// merges with. Also tells whether anything merged.
pub open spec fn pass_from(regs: Seq<BackgroundRegion>, i: int) -> (Seq<BackgroundRegion>, bool)
    decreases regs.len(), regs.len() - i,
{
    if i < 0 || i >= regs.len() {
        (regs, false)
    } else {
        let a = absorb_from(regs, i, i + 1);
        proof {
            lemma_absorb_len(regs, i, i + 1);
        }
        let p = pass_from(a.0, i + 1);
        (p.0, a.1 || p.1)
    }
}

pub proof fn lemma_pass_len(regs: Seq<BackgroundRegion>, i: int)
    ensures
        pass_from(regs, i).0.len() <= regs.len(),
        pass_from(regs, i).1 ==> pass_from(regs, i).0.len() < regs.len(),
        !pass_from(regs, i).1 ==> pass_from(regs, i).0 == regs,
    decreases regs.len(), regs.len() - i,
{
    if i < 0 || i >= regs.len() {
    } else {
        lemma_absorb_len(regs, i, i + 1);
        let a = absorb_from(regs, i, i + 1);
        lemma_pass_len(a.0, i + 1);
    }
}

/// Passes of merging, repeated until one merges nothing.
pub open spec fn merge_regions(regs: Seq<BackgroundRegion>) -> Seq<BackgroundRegion>
    decreases regs.len(),
{
    let p = pass_from(regs, 0);
    proof {
        lemma_pass_len(regs, 0);
    }
    if p.1 {
        merge_regions(p.0)
    } else {
        p.0
    }
}

proof fn lemma_merged_fits(a: BackgroundRegion, b: BackgroundRegion)
    requires
        region_fits(a),
        region_fits(b),
    ensures
        region_fits(merged(a, b)),
{
}

/// Merges regions pass after pass until no two merge.
pub fn merge_background_regions(regions: Vec<BackgroundRegion>) -> (res: Vec<BackgroundRegion>)
    requires
        regions_fit(regions@),
    ensures
        res@ == merge_regions(regions@),
        regions_fit(res@),
{
    if regions.len() == 0 {
        return regions;
    }
    let ghost target = merge_regions(regions@);
    let mut out = regions;
    let mut changed = true;
    while changed
        invariant
            regions_fit(out@),
            changed ==> merge_regions(out@) == target,
            !changed ==> out@ == target,
        decreases out@.len() + (if changed { 1int } else { 0 }),
    {
        changed = false;
        let ghost start = out@;
        proof {
            lemma_pass_len(start, 0);
        }
        let mut i: usize = 0;
        while i < out.len()
            invariant
                regions_fit(out@),
                pass_from(start, 0) == (pass_from(out@, i as int).0, changed || pass_from(
                    out@,
                    i as int,
                ).1),
                pass_from(start, 0).1 ==> pass_from(start, 0).0.len() < start.len(),
                !pass_from(start, 0).1 ==> pass_from(start, 0).0 == start,
                merge_regions(start) == target,
            decreases out@.len() - i,
        {
            let ghost at_i = out@;
            let ghost changed_before = changed;
            let ghost mut changed_here = false;
            let mut j: usize = i + 1;
            while j < out.len()
                invariant
                    i < j,
                    i < out@.len(),
                    out@.len() <= at_i.len(),
                    regions_fit(out@),
                    absorb_from(at_i, i as int, i + 1).0 == absorb_from(out@, i as int, j as int).0,
                    absorb_from(at_i, i as int, i + 1).1 == (changed_here || absorb_from(
                        out@,
                        i as int,
                        j as int,
                    ).1),
                    changed == (changed_before || changed_here),
                decreases out@.len() - j,
            {
                assert(region_fits(out@[i as int]));
                assert(region_fits(out@[j as int]));
                if out[i].can_merge_with(&out[j]) {
                    let ghost before = out@;
                    let other = out.remove(j);
                    let mut grown = out[i];
                    grown.merge_with(&other);
                    out.set(i, grown);
                    proof {
                        assert(out@ =~= before.remove(j as int).update(i as int, merged(before[i as int], before[j as int])));
                        lemma_merged_fits(before[i as int], before[j as int]);
                        changed_here = true;
                    }
                    changed = true;
                } else {
                    j = j + 1;
                }
            }
            i = i + 1;
        }
    }
    out
}

/// Every line of every region as a run of cells, region by region, top to
/// bottom.
pub open spec fn region_rows(r: BackgroundRegion) -> Seq<LayoutRect> {
    Seq::new(
        (r.end_line - r.start_line + 1) as nat,
        |k: int|
            LayoutRect {
                point: CellPoint { line: (r.start_line + k) as i32, column: r.start_col },
                num_of_cells: (r.end_col - r.start_col + 1) as usize,
                color: r.color,
            },
    )
}

pub open spec fn regions_rows(regs: Seq<BackgroundRegion>) -> Seq<LayoutRect>
    decreases regs.len(),
{
    if regs.len() == 0 {
        Seq::empty()
    } else {
        regions_rows(regs.drop_last()) + region_rows(regs.last())
    }
}

/// The rectangles that draw `regions`, one per line of each.
pub fn region_rects(regions: &Vec<BackgroundRegion>) -> (rects: Vec<LayoutRect>)
    requires
        regions_fit(regions@),
    ensures
        rects@ == regions_rows(regions@),
{
    let mut rects: Vec<LayoutRect> = Vec::new();
    let mut k: usize = 0;
    while k < regions.len()
        invariant
            k <= regions@.len(),
            regions_fit(regions@),
            rects@ == regions_rows(regions@.subrange(0, k as int)),
        decreases regions@.len() - k,
    {
        let region = regions[k];
        assert(region_fits(region));
        let ghost before = rects@;
        let mut line = region.start_line;
        while line <= region.end_line
            invariant
                region_fits(region),
                region.start_line <= line <= region.end_line + 1,
                rects@ == before + region_rows(region).subrange(0, line - region.start_line),
            decreases region.end_line + 1 - line,
        {
            rects.push(LayoutRect {
                point: CellPoint { line, column: region.start_col },
                num_of_cells: (region.end_col - region.start_col + 1) as usize,
                color: region.color,
            });
            proof {
                assert(region_rows(region).subrange(0, line + 1 - region.start_line) =~= region_rows(
                    region,
                ).subrange(0, line - region.start_line).push(region_rows(region)[line - region.start_line]));
            }
            line = line + 1;
        }
        proof {
            assert(region_rows(region).subrange(0, region.end_line + 1 - region.start_line) =~= region_rows(region));
            assert(regions@.subrange(0, k + 1).drop_last() =~= regions@.subrange(0, k as int));
            assert(regions@.subrange(0, k + 1).last() == region);
        }
        k = k + 1;
    }
    assert(regions@.subrange(0, regions@.len() as int) =~= regions@);
    rects
}

/// The cell at line `l`, column `c` lies in the region.
pub open spec fn in_region(r: BackgroundRegion, l: int, c: int) -> bool {
    r.start_line <= l <= r.end_line && r.start_col <= c <= r.end_col
}

/// Some region paints the cell at `l`, `c` with `color`.
pub open spec fn painted(regs: Seq<BackgroundRegion>, l: int, c: int, color: Paint) -> bool {
    exists|i: int| 0 <= i < regs.len() && in_region(#[trigger] regs[i], l, c) && regs[i].color == color
}

proof fn lemma_merged_is_union(a: BackgroundRegion, b: BackgroundRegion, l: int, c: int)
    requires
        region_fits(a),
        region_fits(b),
        can_merge(a, b),
    ensures
        in_region(merged(a, b), l, c) <==> (in_region(a, l, c) || in_region(b, l, c)),
        merged(a, b).color == b.color,
{
}

proof fn lemma_absorb_one_keeps_paint(regs: Seq<BackgroundRegion>, i: int, j: int)
    requires
        regions_fit(regs),
        0 <= i < j < regs.len(),
        can_merge(regs[i], regs[j]),
    ensures
        regions_fit(regs.remove(j).update(i, merged(regs[i], regs[j]))),
        forall|l: int, c: int, color: Paint|
            #[trigger] painted(regs.remove(j).update(i, merged(regs[i], regs[j])), l, c, color)
                <==> painted(regs, l, c, color),
{
    let m = merged(regs[i], regs[j]);
    let n = regs.remove(j).update(i, m);
    lemma_merged_fits(regs[i], regs[j]);
    assert forall|k: int| 0 <= k < n.len() implies region_fits(#[trigger] n[k]) by {
        if k != i {
            if k < j {
                assert(n[k] == regs[k]);
            } else {
                assert(n[k] == regs[k + 1]);
            }
        }
    }
    assert forall|l: int, c: int, color: Paint| #[trigger] painted(n, l, c, color) <==> painted(regs, l, c, color) by {
        lemma_merged_is_union(regs[i], regs[j], l, c);
        if painted(n, l, c, color) {
            let k = choose|k: int| 0 <= k < n.len() && in_region(#[trigger] n[k], l, c) && n[k].color == color;
            if k == i {
                if in_region(regs[i], l, c) {
                    assert(in_region(regs[i], l, c) && regs[i].color == color);
                } else {
                    assert(in_region(regs[j], l, c) && regs[j].color == color);
                }
            } else if k < j {
                assert(n[k] == regs[k]);
            } else {
                assert(n[k] == regs[k + 1]);
            }
        }
        if painted(regs, l, c, color) {
            let k = choose|k: int| 0 <= k < regs.len() && in_region(#[trigger] regs[k], l, c) && regs[k].color == color;
            if k == i || k == j {
                assert(in_region(n[i], l, c) && n[i].color == color);
            } else if k < j {
                assert(n[k] == regs[k]);
            } else {
                assert(n[k - 1] == regs[k]);
            }
        }
    }
}

proof fn lemma_absorb_keeps_paint(regs: Seq<BackgroundRegion>, i: int, j: int)
    requires
        regions_fit(regs),
    ensures
        regions_fit(absorb_from(regs, i, j).0),
        forall|l: int, c: int, color: Paint|
            #[trigger] painted(absorb_from(regs, i, j).0, l, c, color) <==> painted(regs, l, c, color),
    decreases regs.len() - j,
{
    if j < 0 || j >= regs.len() || i < 0 || i >= j {
    } else if can_merge(regs[i], regs[j]) {
        let n = regs.remove(j).update(i, merged(regs[i], regs[j]));
        lemma_absorb_one_keeps_paint(regs, i, j);
        lemma_absorb_keeps_paint(n, i, j);
        assert forall|l: int, c: int, color: Paint|
            #[trigger] painted(absorb_from(regs, i, j).0, l, c, color) <==> painted(regs, l, c, color) by {
            assert(painted(absorb_from(n, i, j).0, l, c, color) <==> painted(n, l, c, color));
            assert(painted(n, l, c, color) <==> painted(regs, l, c, color));
        }
    } else {
        lemma_absorb_keeps_paint(regs, i, j + 1);
    }
}

proof fn lemma_pass_keeps_paint(regs: Seq<BackgroundRegion>, i: int)
    requires
        regions_fit(regs),
    ensures
        regions_fit(pass_from(regs, i).0),
        forall|l: int, c: int, color: Paint|
            #[trigger] painted(pass_from(regs, i).0, l, c, color) <==> painted(regs, l, c, color),
    decreases regs.len(), regs.len() - i,
{
    if i < 0 || i >= regs.len() {
    } else {
        lemma_absorb_len(regs, i, i + 1);
        lemma_absorb_keeps_paint(regs, i, i + 1);
        let a = absorb_from(regs, i, i + 1);
        lemma_pass_keeps_paint(a.0, i + 1);
        assert forall|l: int, c: int, color: Paint|
            #[trigger] painted(pass_from(regs, i).0, l, c, color) <==> painted(regs, l, c, color) by {
            assert(painted(pass_from(a.0, i + 1).0, l, c, color) <==> painted(a.0, l, c, color));
            assert(painted(a.0, l, c, color) <==> painted(regs, l, c, color));
        }
    }
}

/// Merging regions paints exactly the cells, in exactly the colours, that
/// the regions painted.
pub proof fn lemma_merge_keeps_paint(regs: Seq<BackgroundRegion>)
    requires
        regions_fit(regs),
    ensures
        regions_fit(merge_regions(regs)),
        forall|l: int, c: int, color: Paint|
            #[trigger] painted(merge_regions(regs), l, c, color) <==> painted(regs, l, c, color),
    decreases regs.len(),
{
    lemma_pass_len(regs, 0);
    lemma_pass_keeps_paint(regs, 0);
    let p = pass_from(regs, 0);
    if p.1 {
        lemma_merge_keeps_paint(p.0);
        assert forall|l: int, c: int, color: Paint|
            #[trigger] painted(merge_regions(regs), l, c, color) <==> painted(regs, l, c, color) by {
            assert(painted(merge_regions(p.0), l, c, color) <==> painted(p.0, l, c, color));
            assert(painted(p.0, l, c, color) <==> painted(regs, l, c, color));
        }
    }
}

proof fn lemma_absorb_unchanged_means_none_merge(regs: Seq<BackgroundRegion>, i: int, j: int)
    requires
        0 <= i < j,
        !absorb_from(regs, i, j).1,
    ensures
        forall|k: int| j <= k < regs.len() ==> !can_merge(regs[i], #[trigger] regs[k]),
    decreases regs.len() - j,
{
    if j < regs.len() {
        lemma_absorb_unchanged_means_none_merge(regs, i, j + 1);
    }
}

proof fn lemma_pass_unchanged_means_none_merge(regs: Seq<BackgroundRegion>, i: int)
    requires
        0 <= i,
        !pass_from(regs, i).1,
    ensures
        forall|a: int, b: int| i <= a < b < regs.len() ==> !can_merge(#[trigger] regs[a], #[trigger] regs[b]),
    decreases regs.len(), regs.len() - i,
{
    if i < regs.len() {
        lemma_absorb_len(regs, i, i + 1);
        lemma_absorb_unchanged_means_none_merge(regs, i, i + 1);
        lemma_pass_unchanged_means_none_merge(regs, i + 1);
    }
}

/// After merging, no two regions can be merged further.
pub proof fn lemma_merge_leaves_nothing_to_merge(regs: Seq<BackgroundRegion>)
    ensures
        forall|a: int, b: int|
            0 <= a < b < merge_regions(regs).len() ==> !can_merge(
                #[trigger] merge_regions(regs)[a],
                #[trigger] merge_regions(regs)[b],
            ),
    decreases regs.len(),
{
    lemma_pass_len(regs, 0);
    let p = pass_from(regs, 0);
    if p.1 {
        lemma_merge_leaves_nothing_to_merge(p.0);
        assert(merge_regions(regs) == merge_regions(p.0));
    } else {
        lemma_pass_unchanged_means_none_merge(regs, 0);
        assert(merge_regions(regs) == regs);
    }
}

proof fn lemma_absorb_none_merge(regs: Seq<BackgroundRegion>, i: int, j: int)
    requires
        0 <= i < j,
        forall|k: int| j <= k < regs.len() ==> !can_merge(regs[i], #[trigger] regs[k]),
    ensures
        !absorb_from(regs, i, j).1,
    decreases regs.len() - j,
{
    if j < regs.len() {
        lemma_absorb_none_merge(regs, i, j + 1);
    }
}

proof fn lemma_pass_none_merge(regs: Seq<BackgroundRegion>, i: int)
    requires
        0 <= i,
        forall|a: int, b: int| i <= a < b < regs.len() ==> !can_merge(#[trigger] regs[a], #[trigger] regs[b]),
    ensures
        !pass_from(regs, i).1,
    decreases regs.len(), regs.len() - i,
{
    if i < regs.len() {
        assert forall|k: int| i + 1 <= k < regs.len() implies !can_merge(regs[i], #[trigger] regs[k]) by {
            assert(!can_merge(regs[i], regs[k]));
        }
        lemma_absorb_none_merge(regs, i, i + 1);
        lemma_absorb_len(regs, i, i + 1);
        lemma_pass_none_merge(regs, i + 1);
    }
}

/// Merging regions that were already merged changes nothing.
pub proof fn lemma_merge_is_idempotent(regs: Seq<BackgroundRegion>)
    ensures
        merge_regions(merge_regions(regs)) == merge_regions(regs),
{
    let m = merge_regions(regs);
    lemma_merge_leaves_nothing_to_merge(regs);
    lemma_pass_none_merge(m, 0);
    lemma_pass_len(m, 0);
}

/// Two regions share no cell: one lies wholly above, below, left or right
/// of the other.
pub open spec fn regions_apart(a: BackgroundRegion, b: BackgroundRegion) -> bool {
    ||| a.end_line < b.start_line
    ||| b.end_line < a.start_line
    ||| a.end_col < b.start_col
    ||| b.end_col < a.start_col
}

/// No two regions share a cell.
pub open spec fn regions_disjoint(regs: Seq<BackgroundRegion>) -> bool {
    forall|i: int, j: int| 0 <= i < j < regs.len() ==> regions_apart(#[trigger] regs[i], #[trigger] regs[j])
}

proof fn lemma_merged_apart(a: BackgroundRegion, b: BackgroundRegion, x: BackgroundRegion)
    requires
        region_fits(a),
        region_fits(b),
        region_fits(x),
        can_merge(a, b),
        regions_apart(a, x),
        regions_apart(b, x),
    ensures
        regions_apart(merged(a, b), x),
        regions_apart(x, merged(a, b)),
{
}

proof fn lemma_absorb_one_disjoint(regs: Seq<BackgroundRegion>, i: int, j: int)
    requires
        regions_fit(regs),
        regions_disjoint(regs),
        0 <= i < j < regs.len(),
        can_merge(regs[i], regs[j]),
    ensures
        regions_disjoint(regs.remove(j).update(i, merged(regs[i], regs[j]))),
{
    let m = merged(regs[i], regs[j]);
    let n = regs.remove(j).update(i, m);
    assert forall|p: int, q: int| 0 <= p < q < n.len() implies regions_apart(#[trigger] n[p], #[trigger] n[q]) by {
        let op = if p < j { p } else { p + 1 };
        let oq = if q < j { q } else { q + 1 };
        if p == i {
            assert(n[q] == regs[oq]);
            assert(oq != i && oq != j);
            assert(regions_apart(regs[i], regs[oq]) || regions_apart(regs[oq], regs[i]));
            assert(regions_apart(regs[i], regs[oq])) by {
                if oq < i {
                    assert(regions_apart(regs[oq], regs[i]));
                }
            }
            assert(regions_apart(regs[j], regs[oq])) by {
                if oq < j {
                    assert(regions_apart(regs[oq], regs[j]));
                } else {
                    assert(regions_apart(regs[j], regs[oq]));
                }
            }
            lemma_merged_apart(regs[i], regs[j], regs[oq]);
        } else if q == i {
            assert(n[p] == regs[op]);
            assert(op < i);
            assert(regions_apart(regs[op], regs[i]));
            assert(regions_apart(regs[op], regs[j]));
            assert(regions_apart(regs[i], regs[op]));
            assert(regions_apart(regs[j], regs[op]));
            lemma_merged_apart(regs[i], regs[j], regs[op]);
        } else {
            assert(n[p] == regs[op]);
            assert(n[q] == regs[oq]);
            assert(op < oq);
        }
    }
}

proof fn lemma_absorb_disjoint(regs: Seq<BackgroundRegion>, i: int, j: int)
    requires
        regions_fit(regs),
        regions_disjoint(regs),
    ensures
        regions_disjoint(absorb_from(regs, i, j).0),
    decreases regs.len() - j,
{
    if j < 0 || j >= regs.len() || i < 0 || i >= j {
    } else if can_merge(regs[i], regs[j]) {
        let n = regs.remove(j).update(i, merged(regs[i], regs[j]));
        lemma_absorb_one_disjoint(regs, i, j);
        lemma_absorb_one_keeps_paint(regs, i, j);
        lemma_absorb_disjoint(n, i, j);
    } else {
        lemma_absorb_disjoint(regs, i, j + 1);
    }
}

proof fn lemma_pass_disjoint(regs: Seq<BackgroundRegion>, i: int)
    requires
        regions_fit(regs),
        regions_disjoint(regs),
    ensures
        regions_disjoint(pass_from(regs, i).0),
    decreases regs.len(), regs.len() - i,
{
    if i < 0 || i >= regs.len() {
    } else {
        lemma_absorb_len(regs, i, i + 1);
        lemma_absorb_keeps_paint(regs, i, i + 1);
        lemma_absorb_disjoint(regs, i, i + 1);
        let a = absorb_from(regs, i, i + 1);
        lemma_pass_disjoint(a.0, i + 1);
    }
}

/// Merging regions that share no cell gives regions that share no cell.
pub proof fn lemma_merge_keeps_disjoint(regs: Seq<BackgroundRegion>)
    requires
        regions_fit(regs),
        regions_disjoint(regs),
    ensures
        regions_disjoint(merge_regions(regs)),
        forall|i: int, j: int, l: int, c: int|
            0 <= i < j < merge_regions(regs).len() ==> !(#[trigger] in_region(merge_regions(regs)[i], l, c)
                && #[trigger] in_region(merge_regions(regs)[j], l, c)),
    decreases regs.len(),
{
    lemma_pass_len(regs, 0);
    lemma_pass_keeps_paint(regs, 0);
    lemma_pass_disjoint(regs, 0);
    let p = pass_from(regs, 0);
    if p.1 {
        lemma_merge_keeps_disjoint(p.0);
    }
    let m = merge_regions(regs);
    assert forall|i: int, j: int, l: int, c: int|
        0 <= i < j < m.len() implies !(#[trigger] in_region(m[i], l, c) && #[trigger] in_region(m[j], l, c)) by {
        assert(regions_apart(m[i], m[j]));
    }
}

} // verus!
