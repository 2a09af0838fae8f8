//! Laying out a terminal grid for drawing: background rectangles, drawn
//! glyph fragments, and runs of text that share one style.

use vstd::prelude::*;
use crate::ansi::{AnsiColor, NamedColor};
use crate::color::{paint_of, scale_alpha, Paint, PAINT_ALPHA_OPAQUE};
use crate::fragments::{
    box_rects, block_shape, frags_of, is_block_element_char, powerline_shape,
    push_block_fragments, push_box_fragments, push_powerline_fragments, BlockFragment, CellPoint,
    PolygonFragment, PowerlineShape,
};
use crate::regions::{
    in_region, lemma_merge_keeps_paint, merge_background_regions, merge_regions, painted, region_fits,
    region_rects, regions_fit, regions_rows, BackgroundRegion, LayoutRect,
};
use crate::selection::GridPoint;
use crate::text::{char_len_utf8, char_utf8_len, push_char, utf8_len};
use crate::theme::{theme_resolve, TerminalTheme};

verus! {

/// The attributes of a cell that change how it is drawn. `underline` is set
/// for every underline style, `undercurl` for the wavy one.
#[derive(Clone, Copy, Debug, PartialEq, Eq, Structural)]
pub struct CellFlags {
    pub inverse: bool,
    pub wide_char_spacer: bool,
    pub dim: bool,
    pub underline: bool,
    pub undercurl: bool,
    pub strikeout: bool,
    pub bold: bool,
    pub italic: bool,
}

/// A cell of the grid with its position: its character, the zero-width
/// characters that combine with it, its colours and attributes.
#[derive(Clone, Debug)]
pub struct IndexedCell {
    pub point: GridPoint,
    pub c: char,
    pub fg: AnsiColor,
    pub bg: AnsiColor,
    pub flags: CellFlags,
    pub zerowidth: Vec<char>,
}

/// What the layout of a grid depends on besides the cells: the theme, and
/// whether the base font weight is already bold.
#[derive(Clone, Copy, Debug)]
pub struct GridStyle {
    pub theme: TerminalTheme,
    pub bold_base: bool,
}

/// The style of a run of text: its length in bytes, colour, weight, slant,
/// underline (`Some(wavy)`) and strike-through.
#[derive(Clone, Copy, Debug, PartialEq, Eq, Structural)]
pub struct RunStyle {
    pub len: usize,
    pub color: Paint,
    pub bold: bool,
    pub italic: bool,
    pub underline: Option<bool>,
    pub strikethrough: bool,
}

/// Adjacent cells of one line and style, drawn as one piece of text.
#[derive(Debug)]
pub struct BatchedTextRun {
    pub start_point: CellPoint,
    pub text: String,
    pub cell_count: usize,
    pub style: RunStyle,
}

/// A text run as a value: where it starts, its characters, how many cells
/// it covers, and its style.
pub struct RunSpec {
    pub start: CellPoint,
    pub text: Seq<char>,
    pub cells: int,
    pub style: RunStyle,
}

impl View for BatchedTextRun {
    type V = RunSpec;

    open spec fn view(&self) -> RunSpec {
        RunSpec { start: self.start_point, text: self.text@, cells: self.cell_count as int, style: self.style }
    }
}

/// Two styles draw alike: everything but the length matches.
pub open spec fn same_look(a: RunStyle, b: RunStyle) -> bool {
    &&& a.color == b.color
    &&& a.bold == b.bold
    &&& a.italic == b.italic
    &&& a.underline == b.underline
    &&& a.strikethrough == b.strikethrough
}

/// The run after one more character; it covers one more cell unless the
/// character has zero width.
pub open spec fn run_push(r: RunSpec, c: char, counts_cell: bool) -> RunSpec {
    RunSpec {
        text: r.text.push(c),
        cells: if counts_cell { r.cells + 1 } else { r.cells },
        style: RunStyle { len: (r.style.len + char_utf8_len(c)) as usize, ..r.style },
        ..r
    }
}

/// The run after zero-width characters.
pub open spec fn run_push_zero_width(r: RunSpec, chars: Seq<char>) -> RunSpec
    decreases chars.len(),
{
    if chars.len() == 0 {
        r
    } else {
        run_push(run_push_zero_width(r, chars.drop_last()), chars.last(), false)
    }
}

pub open spec fn run_start(start: CellPoint, c: char, style: RunStyle) -> RunSpec {
    RunSpec { start, text: seq![c], cells: 1, style }
}

impl BatchedTextRun {
    /// A run of one character.
    pub fn new_from_char(start_point: CellPoint, c: char, style: RunStyle) -> (r: Self)
        ensures
            r@ == run_start(start_point, c, style),
    {
        let mut text = String::new();
        push_char(&mut text, c);
        BatchedTextRun { start_point, text, cell_count: 1, style }
    }

    /// Whether a cell of style `other` can join this run.
    pub fn can_append(&self, other_style: &RunStyle) -> (res: bool)
        ensures
            res == same_look(self.style, *other_style),
    {
        self.style.color == other_style.color && self.style.bold == other_style.bold
            && self.style.italic == other_style.italic && self.style.underline
            == other_style.underline && self.style.strikethrough == other_style.strikethrough
    }

    /// Adds the character of the next cell.
    pub fn append_char(&mut self, c: char)
        requires
            old(self).style.len + 4 <= usize::MAX,
            old(self).cell_count < usize::MAX,
        ensures
            final(self)@ == run_push(old(self)@, c, true),
            final(self).style.len <= old(self).style.len + 4,
    {
        self.append_char_internal(c, true);
    }

    /// Adds characters that combine with the last one.
    pub fn append_zero_width_chars(&mut self, chars: &[char])
        requires
            old(self).style.len + 4 * chars@.len() <= usize::MAX,
        ensures
            final(self)@ == run_push_zero_width(old(self)@, chars@),
            final(self).style.len <= old(self).style.len + 4 * chars@.len(),
            final(self).cell_count == old(self).cell_count,
            final(self).start_point == old(self).start_point,
    {
        let ghost start = self@;
        let mut i: usize = 0;
        while i < chars.len()
            invariant
                i <= chars@.len(),
                start == old(self)@,
                self@ == run_push_zero_width(start, chars@.subrange(0, i as int)),
                self.style.len <= old(self).style.len + 4 * i,
                old(self).style.len + 4 * chars@.len() <= usize::MAX,
                self.cell_count == old(self).cell_count,
                self.start_point == old(self).start_point,
            decreases chars@.len() - i,
        {
            self.append_char_internal(chars[i], false);
            proof {
                let p = chars@.subrange(0, i + 1);
                assert(p.drop_last() =~= chars@.subrange(0, i as int));
                assert(p.last() == chars@[i as int]);
            }
            i = i + 1;
        }
        assert(chars@.subrange(0, chars@.len() as int) =~= chars@);
    }

    fn append_char_internal(&mut self, c: char, counts_cell: bool)
        requires
            old(self).style.len + 4 <= usize::MAX,
            counts_cell ==> old(self).cell_count < usize::MAX,
        ensures
            final(self)@ == run_push(old(self)@, c, counts_cell),
            final(self).style.len <= old(self).style.len + 4,
    {
        push_char(&mut self.text, c);
        if counts_cell {
            self.cell_count = self.cell_count + 1;
        }
        self.style.len = self.style.len + char_len_utf8(c);
    }
}

/// The foreground paint of a cell: `fg` from the theme, at 70% alpha when
/// the cell is dim.
pub open spec fn fg_paint(cell: IndexedCell, fg: AnsiColor, theme: TerminalTheme) -> Paint {
    let p = paint_of(theme_resolve(theme, fg));
    if cell.flags.dim {
        scale_alpha(p, 7, 10)
    } else {
        p
    }
}

/// The style that draws a cell's character with foreground `fg`.
pub open spec fn spec_cell_style(cell: IndexedCell, fg: AnsiColor, gs: GridStyle) -> RunStyle {
    RunStyle {
        len: char_utf8_len(cell.c) as usize,
        color: fg_paint(cell, fg, gs.theme),
        bold: cell.flags.bold || gs.bold_base,
        italic: cell.flags.italic,
        underline: if cell.flags.underline {
            Some(cell.flags.undercurl)
        } else {
            None
        },
        strikethrough: cell.flags.strikeout,
    }
}

/// A cell with nothing to draw: a space on the default background with no
/// underline, inversion or strike-through.
pub open spec fn spec_is_blank(cell: IndexedCell) -> bool {
    &&& cell.c == ' '
    &&& cell.bg == AnsiColor::Named(NamedColor::Background)
    &&& !(cell.flags.underline || cell.flags.inverse || cell.flags.strikeout)
}

/// The foreground paint of a cell.
pub fn cell_fg_color(cell: &IndexedCell, fg: AnsiColor, theme: &TerminalTheme) -> (p: Paint)
    ensures
        p == fg_paint(*cell, fg, *theme),
        p.alpha <= PAINT_ALPHA_OPAQUE,
{
    let p = Paint::from_rgba(theme.resolve_color(&fg));
    if cell.flags.dim {
        p.scaled(7, 10)
    } else {
        p
    }
}

/// The style of a cell's character drawn with foreground `fg`.
pub fn cell_style(cell: &IndexedCell, fg: AnsiColor, style: &GridStyle) -> (s: RunStyle)
    ensures
        s == spec_cell_style(*cell, fg, *style),
{
    RunStyle {
        len: char_len_utf8(cell.c),
        color: cell_fg_color(cell, fg, &style.theme),
        bold: cell.flags.bold || style.bold_base,
        italic: cell.flags.italic,
        underline: if cell.flags.underline {
            Some(cell.flags.undercurl)
        } else {
            None
        },
        strikethrough: cell.flags.strikeout,
    }
}

/// Whether a cell has nothing to draw.
pub fn is_blank(cell: &IndexedCell) -> (res: bool)
    ensures
        res == spec_is_blank(*cell),
{
    if cell.c != ' ' {
        return false;
    }
    match cell.bg {
        AnsiColor::Named(NamedColor::Background) => {},
        _ => {
            return false;
        },
    }
    !(cell.flags.underline || cell.flags.inverse || cell.flags.strikeout)
}

/// What laying out the cells so far has produced: background regions,
/// drawn fragments, finished text runs, the run still open, how many line
/// groups have started, the grid line of the last one, and whether the
/// last drawn cell had combining characters.
pub struct LayoutAcc {
    pub regions: Seq<BackgroundRegion>,
    pub blocks: Seq<BlockFragment>,
    pub polys: Seq<PolygonFragment>,
    pub runs: Seq<RunSpec>,
    pub current: Option<RunSpec>,
    pub groups: int,
    pub last_line: Option<i32>,
    pub prev_extras: bool,
}

pub open spec fn empty_layout() -> LayoutAcc {
    LayoutAcc {
        regions: Seq::empty(),
        blocks: Seq::empty(),
        polys: Seq::empty(),
        runs: Seq::empty(),
        current: None,
        groups: 0,
        last_line: None,
        prev_extras: false,
    }
}

/// Adds the cell at `line`, `col` to the background: the last region grows
/// by it when it ends just left of it on that line in that colour, else a
/// new region starts.
pub open spec fn add_region(regs: Seq<BackgroundRegion>, line: int, col: int, color: Paint) -> Seq<BackgroundRegion> {
    if regs.len() > 0 && regs.last().color == color && regs.last().start_line == line
        && regs.last().end_line == line && regs.last().end_col + 1 == col {
        regs.update(regs.len() - 1, BackgroundRegion { end_col: col as i32, ..regs.last() })
    } else {
        regs.push(BackgroundRegion { start_line: line as i32, start_col: col as i32, end_line: line as i32, end_col: col as i32, color })
    }
}

/// Adds a drawn character at `pt` to the text: it joins the open run when
/// that run looks alike and ends just left of it on its line, else the open
/// run is finished and a new one starts.
pub open spec fn text_step(acc: LayoutAcc, cell: IndexedCell, style: RunStyle, pt: CellPoint) -> LayoutAcc {
    match acc.current {
        Some(b) => if same_look(b.style, style) && b.start.line == pt.line && b.start.column + b.cells
            == pt.column {
            LayoutAcc {
                current: Some(run_push_zero_width(run_push(b, cell.c, true), cell.zerowidth@)),
                ..acc
            }
        } else {
            LayoutAcc {
                runs: acc.runs.push(b),
                current: Some(run_push_zero_width(run_start(pt, cell.c, style), cell.zerowidth@)),
                ..acc
            }
        },
        None => LayoutAcc {
            current: Some(run_push_zero_width(run_start(pt, cell.c, style), cell.zerowidth@)),
            ..acc
        },
    }
}

/// The drawing of one cell's character at `pt`: a powerline, box-drawing or
/// block-element character becomes fragments, any other non-blank cell
/// becomes text.
pub open spec fn glyph_step(acc: LayoutAcc, cell: IndexedCell, fg: AnsiColor, fgc: Paint, pt: CellPoint, gs: GridStyle) -> LayoutAcc {
    let cp = cell.c as u32;
    match powerline_shape(cp) {
        Some(PowerlineShape::Triangle(points)) => LayoutAcc {
            polys: acc.polys.push(PolygonFragment { point: pt, points, color: fgc }),
            ..acc
        },
        Some(PowerlineShape::Bar(rect)) => LayoutAcc {
            blocks: acc.blocks.push(BlockFragment { point: pt, rect, color: fgc }),
            ..acc
        },
        None => match box_rects(cp) {
            Some(rects) => LayoutAcc { blocks: acc.blocks + frags_of(pt, fgc, rects), ..acc },
            None => match block_shape(cp) {
                Some((rects, quarters)) => LayoutAcc {
                    blocks: acc.blocks + frags_of(pt, scale_alpha(fgc, quarters, 4), rects),
                    ..acc
                },
                None => if spec_is_blank(cell) {
                    acc
                } else {
                    text_step(acc, cell, spec_cell_style(cell, fg, gs), pt)
                },
            },
        },
    }
}

/// Lays out one more cell. Cells of one grid line form a group; each group
/// is drawn on the display line of its position among the groups, and the
/// open run is finished when a group starts. Inverse cells swap their
/// colours. A cell off the default background adds to the background,
/// unless it is a block element whose background is its foreground. Wide
/// character spacers draw nothing, nor does a space right after a cell with
/// combining characters.
pub open spec fn layout_step(acc: LayoutAcc, cell: IndexedCell, gs: GridStyle) -> LayoutAcc {
    let new_group = acc.last_line != Some(cell.point.line);
    let runs = if new_group && acc.current is Some {
        acc.runs.push(acc.current->0)
    } else {
        acc.runs
    };
    let current = if new_group { None } else { acc.current };
    let prev = if new_group { false } else { acc.prev_extras };
    let groups = if new_group { acc.groups + 1 } else { acc.groups };
    let line = groups - 1;
    let fg = if cell.flags.inverse { cell.bg } else { cell.fg };
    let bg = if cell.flags.inverse { cell.fg } else { cell.bg };
    let fgc = fg_paint(cell, fg, gs.theme);
    let bgc = paint_of(theme_resolve(gs.theme, bg));
    let col = cell.point.column as int;
    let is_block_char = 0x2580 <= (cell.c as u32) <= 0x259F;
    let regions = if bg != AnsiColor::Named(NamedColor::Background) && !(is_block_char && bgc == fgc) {
        add_region(acc.regions, line, col, bgc)
    } else {
        acc.regions
    };
    let base = LayoutAcc { regions, runs, current, groups, last_line: Some(cell.point.line), prev_extras: prev, ..acc };
    if cell.flags.wide_char_spacer {
        base
    } else if cell.c == ' ' && prev {
        LayoutAcc { prev_extras: false, ..base }
    } else {
        let base = LayoutAcc { prev_extras: cell.zerowidth@.len() > 0, ..base };
        glyph_step(base, cell, fg, fgc, CellPoint { line: line as i32, column: col as i32 }, gs)
    }
}

/// The cell lies on a line of the viewport, when there is one.
pub open spec fn in_viewport(cell: IndexedCell, viewport: Option<(i32, i32)>) -> bool {
    match viewport {
        Some((start, end)) => start <= cell.point.line < end,
        None => true,
    }
}

/// The layout of the cells, in order, that lie in the viewport.
pub open spec fn layout_fold(cells: Seq<IndexedCell>, viewport: Option<(i32, i32)>, gs: GridStyle) -> LayoutAcc
    decreases cells.len(),
{
    if cells.len() == 0 {
        empty_layout()
    } else {
        let acc = layout_fold(cells.drop_last(), viewport, gs);
        if in_viewport(cells.last(), viewport) {
            layout_step(acc, cells.last(), gs)
        } else {
            acc
        }
    }
}

/// The cells, in order, that lie on lines `start..end`.
pub open spec fn cells_on_lines(cells: Seq<IndexedCell>, start: i32, end: i32) -> Seq<IndexedCell>
    decreases cells.len(),
{
    if cells.len() == 0 {
        Seq::empty()
    } else {
        let rest = cells_on_lines(cells.drop_last(), start, end);
        if start <= cells.last().point.line < end {
            rest.push(cells.last())
        } else {
            rest
        }
    }
}

/// Laying out with the viewport `start..end` gives the same layout as
/// laying out, with no viewport, only the cells on those lines.
pub proof fn lemma_viewport_is_filter(cells: Seq<IndexedCell>, start: i32, end: i32, gs: GridStyle)
    ensures
        layout_fold(cells, Some((start, end)), gs) == layout_fold(cells_on_lines(cells, start, end), None, gs),
    decreases cells.len(),
{
    if cells.len() > 0 {
        lemma_viewport_is_filter(cells.drop_last(), start, end, gs);
        let f = cells_on_lines(cells, start, end);
        if start <= cells.last().point.line < end {
            assert(f.drop_last() =~= cells_on_lines(cells.drop_last(), start, end));
            assert(f.last() == cells.last());
        }
    }
}

/// All the runs, the open one last.
pub open spec fn finished_runs(acc: LayoutAcc) -> Seq<RunSpec> {
    match acc.current {
        Some(r) => acc.runs.push(r),
        None => acc.runs,
    }
}

/// Characters a cell contributes to text: its own and its combining ones.
pub open spec fn total_chars(cells: Seq<IndexedCell>) -> nat
    decreases cells.len(),
{
    if cells.len() == 0 {
        0
    } else {
        total_chars(cells.drop_last()) + 1 + cells.last().zerowidth@.len()
    }
}

/// The cells can be laid out within machine integers: fewer than `i32::MAX`
/// of them, every column below `i32::MAX`, and four bytes for each of their
/// characters fit in a `usize`.
pub open spec fn grid_fits(cells: Seq<IndexedCell>) -> bool {
    &&& cells.len() < i32::MAX
    &&& forall|i: int| 0 <= i < cells.len() ==> (#[trigger] cells[i]).point.column < i32::MAX
    &&& 4 * total_chars(cells) <= usize::MAX
}

/// Decides whether `layout_grid` may be given these cells.
pub fn grid_fits_check(cells: &Vec<IndexedCell>) -> (res: bool)
    ensures
        res == grid_fits(cells@),
{
    if cells.len() >= 0x7fff_ffff {
        return false;
    }
    let limit: usize = usize::MAX / 4;
    let mut total: usize = 0;
    let mut k: usize = 0;
    while k < cells.len()
        invariant
            k <= cells@.len() < i32::MAX,
            limit == usize::MAX / 4,
            total == total_chars(cells@.subrange(0, k as int)),
            total <= limit,
            forall|i: int| 0 <= i < k ==> (#[trigger] cells@[i]).point.column < i32::MAX,
        decreases cells@.len() - k,
    {
        proof {
            lemma_total_chars_prefix(cells@, k as int);
        }
        if cells[k].point.column >= 0x7fff_ffff {
            return false;
        }
        let extra = cells[k].zerowidth.len();
        if extra >= limit || limit - extra - 1 < total {
            proof {
                lemma_total_chars_monotone(cells@, k + 1);
            }
            return false;
        }
        total = total + 1 + extra;
        k = k + 1;
    }
    assert(cells@.subrange(0, k as int) =~= cells@);
    true
}

/// The layout being built, cell by cell.
struct GridLayoutBuilder {
    regions: Vec<BackgroundRegion>,
    blocks: Vec<BlockFragment>,
    polys: Vec<PolygonFragment>,
    runs: Vec<BatchedTextRun>,
    current: Option<BatchedTextRun>,
    groups: usize,
    last_line: Option<i32>,
    prev_extras: bool,
}

pub open spec fn runs_view(runs: Seq<BatchedTextRun>) -> Seq<RunSpec> {
    runs.map_values(|r: BatchedTextRun| r@)
}

impl GridLayoutBuilder {
    spec fn acc(&self) -> LayoutAcc {
        LayoutAcc {
            regions: self.regions@,
            blocks: self.blocks@,
            polys: self.polys@,
            runs: runs_view(self.runs@),
            current: match self.current {
                Some(r) => Some(r@),
                None => None,
            },
            groups: self.groups as int,
            last_line: self.last_line,
            prev_extras: self.prev_extras,
        }
    }

    /// Machine-integer bounds: at most `gmax` groups, an open run of at most
    /// `cmax` cells and `4 * chars` bytes.
    spec fn bounded3(&self, gmax: int, cmax: int, chars: int) -> bool {
        &&& self.groups <= gmax
        &&& (self.last_line is Some ==> self.groups >= 1)
        &&& regions_fit(self.regions@)
        &&& forall|i: int| 0 <= i < self.regions@.len() ==> (#[trigger] self.regions@[i]).end_line < self.groups
        &&& (self.current matches Some(b) ==> {
            &&& b.style.len <= 4 * chars
            &&& b.cell_count <= cmax
            &&& 0 <= b.start_point.column
        })
    }

    /// Machine-integer bounds after `seen` cells holding `chars` characters.
    spec fn bounded(&self, seen: int, chars: int) -> bool {
        self.bounded3(seen, seen, chars)
    }
}

proof fn lemma_region_added_fits(regs: Seq<BackgroundRegion>, line: int, col: int, color: Paint, groups: int)
    requires
        regions_fit(regs),
        forall|i: int| 0 <= i < regs.len() ==> (#[trigger] regs[i]).end_line < groups,
        0 <= line < groups < i32::MAX,
        0 <= col < i32::MAX,
    ensures
        regions_fit(add_region(regs, line, col, color)),
        forall|i: int| 0 <= i < add_region(regs, line, col, color).len() ==> (#[trigger] add_region(regs, line, col, color)[i]).end_line < groups,
{
    let r = add_region(regs, line, col, color);
    assert forall|i: int| 0 <= i < r.len() implies region_fits(#[trigger] r[i]) && r[i].end_line < groups by {
        if i < regs.len() {
            assert(region_fits(regs[i]));
        }
    }
}

fn add_region_exec(regions: &mut Vec<BackgroundRegion>, line: i32, col: i32, color: Paint, Ghost(groups): Ghost<int>)
    requires
        regions_fit(old(regions)@),
        forall|i: int| 0 <= i < old(regions)@.len() ==> (#[trigger] old(regions)@[i]).end_line < groups,
        0 <= line < groups < i32::MAX,
        0 <= col < i32::MAX,
    ensures
        final(regions)@ == add_region(old(regions)@, line as int, col as int, color),
{
    proof {
        lemma_region_added_fits(regions@, line as int, col as int, color, groups);
    }
    let n = regions.len();
    if n > 0 {
        let last = regions[n - 1];
        assert(region_fits(regions@[n - 1]));
        if last.color == color && last.start_line == line && last.end_line == line && last.end_col + 1 == col {
            regions.set(n - 1, BackgroundRegion { end_col: col, ..last });
            return;
        }
    }
    regions.push(BackgroundRegion::new(line, col, color));
}

impl GridLayoutBuilder {
    fn text_step_exec(&mut self, cell: &IndexedCell, style: RunStyle, pt: CellPoint, Ghost(seen): Ghost<int>, Ghost(chars): Ghost<int>)
        requires
            old(self).bounded3(seen + 1, seen, chars),
            0 <= pt.column,
            0 <= seen,
            seen + 1 < i32::MAX,
            style.len == char_utf8_len(cell.c),
            4 * (chars + 1 + cell.zerowidth@.len()) <= usize::MAX,
            0 <= chars,
        ensures
            final(self).acc() == text_step(old(self).acc(), *cell, style, pt),
            final(self).bounded(seen + 1, chars + 1 + cell.zerowidth@.len()),
    {
        let ghost acc0 = self.acc();
        let zw = cell.zerowidth.as_slice();
        let cur = self.current.take();
        match cur {
            Some(b0) => {
                let mut b = b0;
                let joins = b.can_append(&style) && b.start_point.line == pt.line && (b.start_point.column as i64)
                    + (b.cell_count as i64) == pt.column as i64;
                if joins {
                    b.append_char(cell.c);
                    b.append_zero_width_chars(zw);
                    self.current = Some(b);
                } else {
                    self.runs.push(b);
                    let mut nb = BatchedTextRun::new_from_char(pt, cell.c, style);
                    nb.append_zero_width_chars(zw);
                    assert(nb.style.len <= 4 * (chars + 1 + cell.zerowidth@.len()));
                    assert(nb.cell_count <= seen + 1);
                    self.current = Some(nb);
                    proof {
                        assert(runs_view(self.runs@) =~= acc0.runs.push(b@));
                    }
                }
            },
            None => {
                let mut nb = BatchedTextRun::new_from_char(pt, cell.c, style);
                nb.append_zero_width_chars(zw);
                assert(nb.style.len <= 4 * (chars + 1 + cell.zerowidth@.len()));
                assert(nb.cell_count <= seen + 1);
                self.current = Some(nb);
            },
        }
    }

    fn glyph_step_exec(&mut self, cell: &IndexedCell, fg: AnsiColor, fgc: Paint, pt: CellPoint, gs: &GridStyle, Ghost(seen): Ghost<int>, Ghost(chars): Ghost<int>)
        requires
            old(self).bounded3(seen + 1, seen, chars),
            fgc.alpha <= PAINT_ALPHA_OPAQUE,
            0 <= pt.column,
            0 <= seen,
            seen + 1 < i32::MAX,
            4 * (chars + 1 + cell.zerowidth@.len()) <= usize::MAX,
            0 <= chars,
        ensures
            final(self).acc() == glyph_step(old(self).acc(), *cell, fg, fgc, pt, *gs),
            final(self).bounded(seen + 1, chars + 1 + cell.zerowidth@.len()),
    {
        if push_powerline_fragments(&mut self.blocks, &mut self.polys, pt, fgc, cell.c) {
            return;
        }
        if push_box_fragments(&mut self.blocks, pt, fgc, cell.c) {
            return;
        }
        if push_block_fragments(&mut self.blocks, pt, fgc, cell.c) {
            return;
        }
        if is_blank(cell) {
            return;
        }
        let st = cell_style(cell, fg, gs);
        self.text_step_exec(cell, st, pt, Ghost(seen), Ghost(chars));
    }

    fn step(&mut self, cell: &IndexedCell, gs: &GridStyle, Ghost(seen): Ghost<int>, Ghost(chars): Ghost<int>)
        requires
            old(self).bounded(seen, chars),
            cell.point.column < i32::MAX,
            0 <= seen,
            seen + 1 < i32::MAX,
            4 * (chars + 1 + cell.zerowidth@.len()) <= usize::MAX,
            0 <= chars,
        ensures
            final(self).acc() == layout_step(old(self).acc(), *cell, *gs),
            final(self).bounded(seen + 1, chars + 1 + cell.zerowidth@.len()),
    {
        let ghost acc0 = self.acc();
        let new_group = match self.last_line {
            Some(l) => l != cell.point.line,
            None => true,
        };
        if new_group {
            if let Some(b) = self.current.take() {
                self.runs.push(b);
                proof {
                    assert(runs_view(self.runs@) =~= acc0.runs.push(b@));
                }
            }
            self.prev_extras = false;
            self.groups = self.groups + 1;
        }
        self.last_line = Some(cell.point.line);
        let line = (self.groups - 1) as i32;
        let (fg, bg) = if cell.flags.inverse {
            (cell.bg, cell.fg)
        } else {
            (cell.fg, cell.bg)
        };
        let fgc = cell_fg_color(cell, fg, &gs.theme);
        let bgc = Paint::from_rgba(gs.theme.resolve_color(&bg));
        let col = cell.point.column as i32;
        let default_bg = match bg {
            AnsiColor::Named(NamedColor::Background) => true,
            _ => false,
        };
        if !default_bg && !(is_block_element_char(cell.c) && bgc == fgc) {
            add_region_exec(&mut self.regions, line, col, bgc, Ghost(self.groups as int));
            proof {
                lemma_region_added_fits(acc0.regions, line as int, col as int, bgc, self.groups as int);
            }
        }
        if cell.flags.wide_char_spacer {
            return;
        }
        if cell.c == ' ' && self.prev_extras {
            self.prev_extras = false;
            return;
        }
        self.prev_extras = cell.zerowidth.len() > 0;
        let pt = CellPoint { line, column: col };
        self.glyph_step_exec(cell, fg, fgc, pt, gs, Ghost(seen), Ghost(chars));
    }
}

proof fn lemma_total_chars_prefix(cells: Seq<IndexedCell>, k: int)
    requires
        0 <= k < cells.len(),
    ensures
        total_chars(cells.subrange(0, k + 1)) == total_chars(cells.subrange(0, k)) + 1
            + cells[k].zerowidth@.len(),
{
    let p = cells.subrange(0, k + 1);
    assert(p.drop_last() =~= cells.subrange(0, k));
    assert(p.last() == cells[k]);
}

proof fn lemma_total_chars_monotone(cells: Seq<IndexedCell>, k: int)
    requires
        0 <= k <= cells.len(),
    ensures
        total_chars(cells.subrange(0, k)) <= total_chars(cells),
    decreases cells.len() - k,
{
    if k < cells.len() {
        lemma_total_chars_prefix(cells, k);
        lemma_total_chars_monotone(cells, k + 1);
    } else {
        assert(cells.subrange(0, k) =~= cells);
    }
}

/// Lays out the cells that lie in `viewport_lines` (all of them when there
/// is none): the rectangles of the merged background regions, the glyph
/// fragments, the triangles, and the text runs.
pub fn layout_grid(grid: &Vec<IndexedCell>, style: &GridStyle, viewport_lines: Option<(i32, i32)>) -> (res: (
    Vec<LayoutRect>,
    Vec<BlockFragment>,
    Vec<PolygonFragment>,
    Vec<BatchedTextRun>,
))
    requires
        grid_fits(grid@),
    ensures
        res.0@ == regions_rows(merge_regions(layout_fold(grid@, viewport_lines, *style).regions)),
        res.1@ == layout_fold(grid@, viewport_lines, *style).blocks,
        res.2@ == layout_fold(grid@, viewport_lines, *style).polys,
        runs_view(res.3@) == finished_runs(layout_fold(grid@, viewport_lines, *style)),
{
    let mut b = GridLayoutBuilder {
        regions: Vec::new(),
        blocks: Vec::new(),
        polys: Vec::new(),
        runs: Vec::new(),
        current: None,
        groups: 0,
        last_line: None,
        prev_extras: false,
    };
    assert(runs_view(b.runs@) =~= Seq::<RunSpec>::empty());
    assert(b.acc() == empty_layout());
    let mut k: usize = 0;
    while k < grid.len()
        invariant
            k <= grid@.len(),
            grid_fits(grid@),
            b.acc() == layout_fold(grid@.subrange(0, k as int), viewport_lines, *style),
            b.bounded(k as int, total_chars(grid@.subrange(0, k as int)) as int),
        decreases grid@.len() - k,
    {
        let cell = &grid[k];
        proof {
            lemma_total_chars_prefix(grid@, k as int);
            lemma_total_chars_monotone(grid@, k + 1);
            let p = grid@.subrange(0, k + 1);
            assert(p.drop_last() =~= grid@.subrange(0, k as int));
            assert(p.last() == grid@[k as int]);
            assert(grid@[k as int].point.column < i32::MAX);
        }
        let visible = match viewport_lines {
            Some((start, end)) => start <= cell.point.line && cell.point.line < end,
            None => true,
        };
        if visible {
            b.step(cell, style, Ghost(k as int), Ghost(total_chars(grid@.subrange(0, k as int)) as int));
        }
        k = k + 1;
    }
    assert(grid@.subrange(0, grid@.len() as int) =~= grid@);
    let GridLayoutBuilder { regions, blocks, polys, mut runs, current, .. } = b;
    if let Some(last) = current {
        runs.push(last);
    }
    assert(runs_view(runs@) =~= finished_runs(layout_fold(grid@, viewport_lines, *style)));
    let merged = merge_background_regions(regions);
    let rects = region_rects(&merged);
    (rects, blocks, polys, runs)
}

/// The cells come in strictly increasing (line, column) order, as a
/// terminal grid lists them.
pub open spec fn cells_sorted(cells: Seq<IndexedCell>) -> bool {
    forall|i: int, j: int|
        0 <= i < j < cells.len() ==> (#[trigger] cells[i]).point.line < (#[trigger] cells[j]).point.line || (
        cells[i].point.line == cells[j].point.line && cells[i].point.column < cells[j].point.column)
}

/// A run covers at least one cell, holds at least one character per cell,
/// and its style length is the byte length of its text.
pub open spec fn run_well_formed(r: RunSpec) -> bool {
    &&& r.cells >= 1
    &&& r.text.len() >= r.cells
    &&& r.style.len == utf8_len(r.text)
}

/// Run `a` comes before run `b`: on an earlier line, or on the same line and
/// ending at or before `b`'s first cell.
pub open spec fn run_before(a: RunSpec, b: RunSpec) -> bool {
    ||| a.start.line < b.start.line
    ||| a.start.line == b.start.line && a.start.column + a.cells <= b.start.column
}

/// The runs laid out so far are well formed, in order, on the display
/// lines started so far, and the last one on the current line ends at or
/// before `limit`; no run holds more than `bound` characters.
spec fn layout_inv(acc: LayoutAcc, limit: int, bound: int) -> bool {
    let rs = finished_runs(acc);
    &&& 0 <= acc.groups
    &&& (acc.last_line is Some ==> acc.groups >= 1)
    &&& forall|i: int|
        0 <= i < rs.len() ==> {
            &&& 0 <= (#[trigger] rs[i]).start.line < acc.groups
            &&& 0 <= rs[i].start.column
            &&& run_well_formed(rs[i])
            &&& rs[i].text.len() <= bound
        }
    &&& forall|i: int, j: int| 0 <= i < j < rs.len() ==> run_before(#[trigger] rs[i], #[trigger] rs[j])
    &&& (rs.len() > 0 && rs.last().start.line == acc.groups - 1) ==> rs.last().start.column + rs.last().cells
        <= limit
}

proof fn lemma_utf8_len_push(s: Seq<char>, c: char)
    ensures
        utf8_len(s.push(c)) == utf8_len(s) + char_utf8_len(c),
{
    assert(s.push(c).drop_last() =~= s);
}

proof fn lemma_utf8_len_at_most(s: Seq<char>)
    ensures
        utf8_len(s) <= 4 * s.len(),
    decreases s.len(),
{
    if s.len() > 0 {
        lemma_utf8_len_at_most(s.drop_last());
    }
}

proof fn lemma_run_push(r: RunSpec, c: char, counts_cell: bool)
    requires
        r.style.len == utf8_len(r.text),
        4 * (r.text.len() + 1) <= usize::MAX,
    ensures
        run_push(r, c, counts_cell).text == r.text.push(c),
        run_push(r, c, counts_cell).style.len == utf8_len(r.text.push(c)),
{
    lemma_utf8_len_push(r.text, c);
    lemma_utf8_len_at_most(r.text.push(c));
}

proof fn lemma_run_push_zero_width(r: RunSpec, zs: Seq<char>)
    requires
        r.style.len == utf8_len(r.text),
        4 * (r.text.len() + zs.len()) <= usize::MAX,
    ensures
        run_push_zero_width(r, zs).text == r.text + zs,
        run_push_zero_width(r, zs).style.len == utf8_len(r.text + zs),
        run_push_zero_width(r, zs).cells == r.cells,
        run_push_zero_width(r, zs).start == r.start,
    decreases zs.len(),
{
    if zs.len() > 0 {
        lemma_run_push_zero_width(r, zs.drop_last());
        let q = run_push_zero_width(r, zs.drop_last());
        lemma_run_push(q, zs.last(), false);
        assert(r.text + zs.drop_last() + seq![zs.last()] =~= r.text + zs);
        assert((r.text + zs.drop_last()).push(zs.last()) =~= r.text + zs);
    } else {
        assert(r.text + zs =~= r.text);
    }
}

/// A new run `n` at `pt`, after runs that all lie before `pt`.
proof fn lemma_runs_push_after(rs: Seq<RunSpec>, n: RunSpec, groups: int, bound: int)
    requires
        forall|i: int|
            0 <= i < rs.len() ==> {
                &&& 0 <= (#[trigger] rs[i]).start.line < groups
                &&& 0 <= rs[i].start.column
                &&& run_well_formed(rs[i])
                &&& rs[i].text.len() <= bound
            },
        forall|i: int, j: int| 0 <= i < j < rs.len() ==> run_before(#[trigger] rs[i], #[trigger] rs[j]),
        groups >= 1,
        n.start.line == groups - 1,
        0 <= n.start.column,
        run_well_formed(n),
        n.text.len() <= bound,
        rs.len() > 0 && rs.last().start.line == groups - 1 ==> rs.last().start.column + rs.last().cells
            <= n.start.column,
    ensures
        forall|i: int, j: int| 0 <= i < j < rs.push(n).len() ==> run_before(#[trigger] rs.push(n)[i], #[trigger] rs.push(n)[j]),
        forall|i: int|
            0 <= i < rs.push(n).len() ==> {
                &&& 0 <= (#[trigger] rs.push(n)[i]).start.line < groups
                &&& 0 <= rs.push(n)[i].start.column
                &&& run_well_formed(rs.push(n)[i])
                &&& rs.push(n)[i].text.len() <= bound
            },
{
    let t = rs.push(n);
    assert forall|i: int| 0 <= i < rs.len() implies run_before(#[trigger] rs[i], n) by {
        if rs[i].start.line == n.start.line {
            let l = rs.last();
            if i < rs.len() - 1 {
                assert(run_before(rs[i], rs[rs.len() - 1]));
            }
        }
    }
    assert forall|i: int, j: int| 0 <= i < j < t.len() implies run_before(#[trigger] t[i], #[trigger] t[j]) by {
        assert(t[i] == rs[i]);
        if j < rs.len() {
            assert(t[j] == rs[j]);
        } else {
            assert(t[j] == n);
        }
    }
    assert forall|i: int| 0 <= i < t.len() implies {
        &&& 0 <= (#[trigger] t[i]).start.line < groups
        &&& 0 <= t[i].start.column
        &&& run_well_formed(t[i])
        &&& t[i].text.len() <= bound
    } by {
        if i < rs.len() {
            assert(t[i] == rs[i]);
        }
    }
}

/// Laying out a text cell keeps the runs in order.
proof fn lemma_text_step_inv(acc: LayoutAcc, cell: IndexedCell, style: RunStyle, pt: CellPoint, bound: int)
    requires
        layout_inv(acc, pt.column as int, bound),
        acc.groups >= 1,
        pt.line == acc.groups - 1,
        0 <= pt.column,
        style.len == char_utf8_len(cell.c),
        0 <= bound,
        4 * (bound + 1 + cell.zerowidth@.len()) <= usize::MAX,
    ensures
        layout_inv(text_step(acc, cell, style, pt), pt.column + 1, bound + 1 + cell.zerowidth@.len()),
        text_step(acc, cell, style, pt).groups == acc.groups,
        text_step(acc, cell, style, pt).last_line == acc.last_line,
{
    let nb = bound + 1 + cell.zerowidth@.len();
    let zw = cell.zerowidth@;
    let start = run_start(pt, cell.c, style);
    assert(utf8_len(seq![cell.c]) == char_utf8_len(cell.c)) by {
        lemma_utf8_len_push(Seq::<char>::empty(), cell.c);
        assert(Seq::<char>::empty().push(cell.c) =~= seq![cell.c]);
    }
    lemma_run_push_zero_width(start, zw);
    let n = run_push_zero_width(start, zw);
    assert(n.text =~= seq![cell.c] + zw);
    let rs = finished_runs(acc);
    let res = text_step(acc, cell, style, pt);
    match acc.current {
        Some(b) => {
            assert(rs.last() == b);
            if same_look(b.style, style) && b.start.line == pt.line && b.start.column + b.cells == pt.column {
                assert(run_well_formed(b) && b.text.len() <= bound) by {
                    assert(rs[rs.len() - 1] == b);
                }
                lemma_run_push(b, cell.c, true);
                let b1 = run_push(b, cell.c, true);
                lemma_run_push_zero_width(b1, zw);
                let b2 = run_push_zero_width(b1, zw);
                let rs2 = finished_runs(res);
                assert(rs2 == acc.runs.push(b2));
                assert(rs == acc.runs.push(b));
                assert forall|i: int| 0 <= i < rs2.len() implies {
                    &&& 0 <= (#[trigger] rs2[i]).start.line < res.groups
                    &&& 0 <= rs2[i].start.column
                    &&& run_well_formed(rs2[i])
                    &&& rs2[i].text.len() <= nb
                } by {
                    if i < acc.runs.len() {
                        assert(rs2[i] == rs[i]);
                    } else {
                        assert(rs2[i] == b2);
                        assert(rs[i] == b);
                    }
                }
                assert forall|i: int, j: int| 0 <= i < j < rs2.len() implies run_before(#[trigger] rs2[i], #[trigger] rs2[j]) by {
                    assert(rs2[i] == rs[i]);
                    assert(run_before(rs[i], rs[j]));
                    if j < acc.runs.len() {
                        assert(rs2[j] == rs[j]);
                    } else {
                        assert(rs2[j] == b2);
                        assert(rs[j] == b);
                    }
                }
            } else {
                let rs2 = finished_runs(res);
                assert(rs2 == rs.push(n));
                lemma_runs_push_after(rs, n, acc.groups, nb);
            }
        },
        None => {
            let rs2 = finished_runs(res);
            assert(rs2 == rs.push(n));
            lemma_runs_push_after(rs, n, acc.groups, nb);
        },
    }
}

/// Laying out one cell keeps the runs in order, given that a cell on the
/// line of the last one lies to its right.
proof fn lemma_layout_step_inv(acc: LayoutAcc, cell: IndexedCell, gs: GridStyle, limit: int, bound: int)
    requires
        layout_inv(acc, limit, bound),
        acc.last_line == Some(cell.point.line) ==> limit <= cell.point.column,
        cell.point.column < i32::MAX,
        acc.groups + 1 < i32::MAX,
        0 <= bound,
        4 * (bound + 1 + cell.zerowidth@.len()) <= usize::MAX,
    ensures
        layout_inv(layout_step(acc, cell, gs), cell.point.column + 1, bound + 1 + cell.zerowidth@.len()),
        layout_step(acc, cell, gs).last_line == Some(cell.point.line),
        layout_step(acc, cell, gs).groups <= acc.groups + 1,
{
    let nb = bound + 1 + cell.zerowidth@.len();
    let new_group = acc.last_line != Some(cell.point.line);
    let runs = if new_group && acc.current is Some {
        acc.runs.push(acc.current->0)
    } else {
        acc.runs
    };
    let current = if new_group { None } else { acc.current };
    let prev = if new_group { false } else { acc.prev_extras };
    let groups = if new_group { acc.groups + 1 } else { acc.groups };
    let line = groups - 1;
    let fg = if cell.flags.inverse { cell.bg } else { cell.fg };
    let bg = if cell.flags.inverse { cell.fg } else { cell.bg };
    let fgc = fg_paint(cell, fg, gs.theme);
    let bgc = paint_of(theme_resolve(gs.theme, bg));
    let col = cell.point.column as int;
    let is_block_char = 0x2580 <= (cell.c as u32) <= 0x259F;
    let regions = if bg != AnsiColor::Named(NamedColor::Background) && !(is_block_char && bgc == fgc) {
        add_region(acc.regions, line, col, bgc)
    } else {
        acc.regions
    };
    let base = LayoutAcc { regions, runs, current, groups, last_line: Some(cell.point.line), prev_extras: prev, ..acc };
    assert(finished_runs(base) == finished_runs(acc));
    assert(layout_inv(base, col, bound));
    assert(layout_inv(base, col + 1, nb));
    let res = layout_step(acc, cell, gs);
    if cell.flags.wide_char_spacer {
        assert(res == base);
    } else if cell.c == ' ' && prev {
        assert(finished_runs(res) == finished_runs(base));
    } else {
        let base2 = LayoutAcc { prev_extras: cell.zerowidth@.len() > 0, ..base };
        assert(finished_runs(base2) == finished_runs(base));
        assert(layout_inv(base2, col, bound));
        let pt = CellPoint { line: line as i32, column: col as i32 };
        assert(res == glyph_step(base2, cell, fg, fgc, pt, gs));
        let cp = cell.c as u32;
        if powerline_shape(cp) is None && box_rects(cp) is None && block_shape(cp) is None && !spec_is_blank(cell) {
            lemma_text_step_inv(base2, cell, spec_cell_style(cell, fg, gs), pt, bound);
        } else {
            assert(finished_runs(res) == finished_runs(base2));
        }
    }
}

/// The last cell in the viewport, if any.
spec fn last_seen(cells: Seq<IndexedCell>, viewport: Option<(i32, i32)>) -> Option<IndexedCell>
    decreases cells.len(),
{
    if cells.len() == 0 {
        None
    } else if in_viewport(cells.last(), viewport) {
        Some(cells.last())
    } else {
        last_seen(cells.drop_last(), viewport)
    }
}

proof fn lemma_fold_inv(cells: Seq<IndexedCell>, viewport: Option<(i32, i32)>, gs: GridStyle)
    requires
        grid_fits(cells),
        cells_sorted(cells),
    ensures
        ({
            let acc = layout_fold(cells, viewport, gs);
            let last = last_seen(cells, viewport);
            &&& acc.last_line == (match last {
                Some(c) => Some(c.point.line),
                None => None,
            })
            &&& acc.groups <= cells.len()
            &&& layout_inv(acc, match last {
                Some(c) => c.point.column + 1,
                None => 0,
            }, total_chars(cells) as int)
            &&& (last matches Some(c) ==> exists|i: int| 0 <= i < cells.len() && cells[i] == c)
        }),
    decreases cells.len(),
{
    if cells.len() == 0 {
    } else {
        let prev = cells.drop_last();
        let cell = cells.last();
        assert(total_chars(prev) <= total_chars(cells));
        assert forall|i: int| 0 <= i < prev.len() implies (#[trigger] prev[i]).point.column < i32::MAX by {
            assert(prev[i] == cells[i]);
        }
        assert forall|i: int, j: int| 0 <= i < j < prev.len() implies (#[trigger] prev[i]).point.line < (
        #[trigger] prev[j]).point.line || (prev[i].point.line == prev[j].point.line && prev[i].point.column
            < prev[j].point.column) by {
            assert(prev[i] == cells[i] && prev[j] == cells[j]);
        }
        lemma_fold_inv(prev, viewport, gs);
        let acc = layout_fold(prev, viewport, gs);
        let last = last_seen(prev, viewport);
        let limit = match last {
            Some(c) => c.point.column + 1,
            None => 0,
        };
        assert(cell == cells[cells.len() - 1]);
        assert(cell.point.column < i32::MAX);
        if in_viewport(cell, viewport) {
            if let Some(c) = last {
                let i = choose|i: int| 0 <= i < prev.len() && prev[i] == c;
                assert(cells[i] == c);
                assert(cells[i].point.line < cells[cells.len() - 1].point.line || (cells[i].point.line
                    == cells[cells.len() - 1].point.line && cells[i].point.column < cells[cells.len()
                    - 1].point.column));
            }
            lemma_layout_step_inv(acc, cell, gs, limit, total_chars(prev) as int);
            assert(last_seen(cells, viewport) == Some(cell));
        } else {
            assert(last_seen(cells, viewport) == last);
            if let Some(c) = last {
                let i = choose|i: int| 0 <= i < prev.len() && prev[i] == c;
                assert(cells[i] == c);
            }
        }
    }
}

/// The text runs of a layout are well formed (at least one cell, at least
/// one character per cell, style length equal to the text's byte length),
/// lie on the display, and come in strictly increasing (line, column)
/// order, never overlapping on a line.
pub proof fn lemma_runs_in_order(cells: Seq<IndexedCell>, viewport: Option<(i32, i32)>, gs: GridStyle)
    requires
        grid_fits(cells),
        cells_sorted(cells),
    ensures
        forall|i: int|
            0 <= i < finished_runs(layout_fold(cells, viewport, gs)).len() ==> {
                let r = #[trigger] finished_runs(layout_fold(cells, viewport, gs))[i];
                &&& run_well_formed(r)
                &&& 0 <= r.start.line
                &&& 0 <= r.start.column
            },
        forall|i: int, j: int|
            0 <= i < j < finished_runs(layout_fold(cells, viewport, gs)).len() ==> run_before(
                #[trigger] finished_runs(layout_fold(cells, viewport, gs))[i],
                #[trigger] finished_runs(layout_fold(cells, viewport, gs))[j],
            ),
{
    lemma_fold_inv(cells, viewport, gs);
}

/// The characters of a cell as text: its own, then its combining ones.
pub open spec fn cell_text(cell: IndexedCell) -> Seq<char> {
    seq![cell.c] + cell.zerowidth@
}

/// The text of runs, one after another.
pub open spec fn runs_text(rs: Seq<RunSpec>) -> Seq<char>
    decreases rs.len(),
{
    if rs.len() == 0 {
        Seq::empty()
    } else {
        runs_text(rs.drop_last()) + rs.last().text
    }
}

/// Cell `m` is in the viewport and is not the spacer of a wide character.
pub open spec fn solid(cells: Seq<IndexedCell>, viewport: Option<(i32, i32)>, m: int) -> bool {
    in_viewport(cells[m], viewport) && !cells[m].flags.wide_char_spacer
}

/// The last cell before `k` in the viewport.
pub open spec fn last_visible_before(cells: Seq<IndexedCell>, viewport: Option<(i32, i32)>, k: int) -> Option<int>
    decreases k,
{
    if k <= 0 {
        None
    } else if in_viewport(cells[k - 1], viewport) {
        Some(k - 1)
    } else {
        last_visible_before(cells, viewport, k - 1)
    }
}

/// The last solid cell before `k`.
pub open spec fn last_solid_before(cells: Seq<IndexedCell>, viewport: Option<(i32, i32)>, k: int) -> Option<int>
    decreases k,
{
    if k <= 0 {
        None
    } else if solid(cells, viewport, k - 1) {
        Some(k - 1)
    } else {
        last_solid_before(cells, viewport, k - 1)
    }
}

/// The last solid cell before `k` lies on `k`'s line, was drawn, and has
/// combining characters.
pub open spec fn extras_before(cells: Seq<IndexedCell>, viewport: Option<(i32, i32)>, k: int) -> bool
    decreases k, 1int,
{
    match last_solid_before(cells, viewport, k) {
        Some(j) => if 0 <= j < k {
            cells[j].point.line == cells[k].point.line && !skipped_space(cells, viewport, j)
                && cells[j].zerowidth@.len() > 0
        } else {
            false
        },
        None => false,
    }
}

/// Cell `k` is a space right after a cell with combining characters, which
/// those characters may spill into, so it is not drawn.
pub open spec fn skipped_space(cells: Seq<IndexedCell>, viewport: Option<(i32, i32)>, k: int) -> bool
    decreases k, 2int,
{
    cells[k].c == ' ' && extras_before(cells, viewport, k)
}

/// Cell `k` is drawn as text: it is solid, not a skipped space, not a
/// powerline, box-drawing or block character, and not blank.
pub open spec fn text_cell(cells: Seq<IndexedCell>, viewport: Option<(i32, i32)>, k: int) -> bool {
    let cp = cells[k].c as u32;
    &&& solid(cells, viewport, k)
    &&& !skipped_space(cells, viewport, k)
    &&& powerline_shape(cp) is None
    &&& box_rects(cp) is None
    &&& block_shape(cp) is None
    &&& !spec_is_blank(cells[k])
}

/// The characters of the text cells among the first `n`, in grid order.
pub open spec fn kept_text(cells: Seq<IndexedCell>, viewport: Option<(i32, i32)>, n: int) -> Seq<char>
    decreases n,
{
    if n <= 0 {
        Seq::empty()
    } else if text_cell(cells, viewport, n - 1) {
        kept_text(cells, viewport, n - 1) + cell_text(cells[n - 1])
    } else {
        kept_text(cells, viewport, n - 1)
    }
}

proof fn lemma_zero_width_text(r: RunSpec, zs: Seq<char>)
    ensures
        run_push_zero_width(r, zs).text == r.text + zs,
        run_push_zero_width(r, zs).cells == r.cells,
        run_push_zero_width(r, zs).start == r.start,
        same_look(run_push_zero_width(r, zs).style, r.style),
    decreases zs.len(),
{
    if zs.len() > 0 {
        lemma_zero_width_text(r, zs.drop_last());
        assert((r.text + zs.drop_last()).push(zs.last()) =~= r.text + zs);
    } else {
        assert(r.text + zs =~= r.text);
    }
}

proof fn lemma_runs_text_push(rs: Seq<RunSpec>, r: RunSpec)
    ensures
        runs_text(rs.push(r)) == runs_text(rs) + r.text,
{
    assert(rs.push(r).drop_last() =~= rs);
}

proof fn lemma_text_step_text(acc: LayoutAcc, cell: IndexedCell, style: RunStyle, pt: CellPoint)
    ensures
        runs_text(finished_runs(text_step(acc, cell, style, pt))) == runs_text(finished_runs(acc)) + cell_text(cell),
        text_step(acc, cell, style, pt).prev_extras == acc.prev_extras,
        text_step(acc, cell, style, pt).last_line == acc.last_line,
{
    let zw = cell.zerowidth@;
    let n = run_push_zero_width(run_start(pt, cell.c, style), zw);
    lemma_zero_width_text(run_start(pt, cell.c, style), zw);
    assert(n.text == cell_text(cell));
    match acc.current {
        Some(b) => {
            lemma_runs_text_push(acc.runs, b);
            if same_look(b.style, style) && b.start.line == pt.line && b.start.column + b.cells == pt.column {
                let b1 = run_push(b, cell.c, true);
                lemma_zero_width_text(b1, zw);
                let b2 = run_push_zero_width(b1, zw);
                lemma_runs_text_push(acc.runs, b2);
                assert(b2.text =~= b.text + cell_text(cell));
                assert(runs_text(acc.runs) + b2.text =~= runs_text(acc.runs) + b.text + cell_text(cell));
            } else {
                lemma_runs_text_push(acc.runs.push(b), n);
            }
        },
        None => {
            lemma_runs_text_push(acc.runs, n);
        },
    }
}

proof fn lemma_last_solid_visible(cells: Seq<IndexedCell>, viewport: Option<(i32, i32)>, k: int)
    requires
        0 <= k <= cells.len(),
    ensures
        last_solid_before(cells, viewport, k) matches Some(j) ==> (0 <= j < k && solid(cells, viewport, j)
            && (last_visible_before(cells, viewport, k) matches Some(v) && j <= v < k)),
        last_visible_before(cells, viewport, k) matches Some(v) ==> 0 <= v < k && in_viewport(cells[v], viewport),
    decreases k,
{
    if k > 0 {
        lemma_last_solid_visible(cells, viewport, k - 1);
    }
}

/// The text state of a layout of the first `n` cells: the runs hold the
/// kept text, the last line is that of the last visible cell, and the
/// combining flag tells whether a space next on that line would be skipped.
spec fn text_inv(acc: LayoutAcc, cells: Seq<IndexedCell>, viewport: Option<(i32, i32)>, n: int) -> bool {
    &&& runs_text(finished_runs(acc)) == kept_text(cells, viewport, n)
    &&& acc.last_line == (match last_visible_before(cells, viewport, n) {
        Some(v) => Some(cells[v].point.line),
        None => None,
    })
    &&& acc.prev_extras == (match last_solid_before(cells, viewport, n) {
        Some(j) => acc.last_line == Some(cells[j].point.line) && !skipped_space(cells, viewport, j)
            && cells[j].zerowidth@.len() > 0,
        None => false,
    })
}

proof fn lemma_fold_text(cells: Seq<IndexedCell>, viewport: Option<(i32, i32)>, gs: GridStyle, n: int)
    requires
        cells_sorted(cells),
        0 <= n <= cells.len(),
    ensures
        text_inv(layout_fold(cells.subrange(0, n), viewport, gs), cells, viewport, n),
    decreases n,
{
    if n > 0 {
        let k = n - 1;
        lemma_fold_text(cells, viewport, gs, k);
        lemma_last_solid_visible(cells, viewport, k);
        let pre = cells.subrange(0, n);
        assert(pre.drop_last() =~= cells.subrange(0, k));
        assert(pre.last() == cells[k]);
        let acc = layout_fold(cells.subrange(0, k), viewport, gs);
        let cell = cells[k];
        if in_viewport(cell, viewport) {
            let new_group = acc.last_line != Some(cell.point.line);
            let prev = if new_group { false } else { acc.prev_extras };
            assert(prev == extras_before(cells, viewport, k)) by {
                if let Some(j) = last_solid_before(cells, viewport, k) {
                    let v = last_visible_before(cells, viewport, k)->0;
                    if j < v {
                        assert(cells[j].point.line <= cells[v].point.line);
                    }
                    assert(cells[v].point.line <= cells[k].point.line);
                }
            }
            let runs = if new_group && acc.current is Some {
                acc.runs.push(acc.current->0)
            } else {
                acc.runs
            };
            let current = if new_group { None } else { acc.current };
            let groups = if new_group { acc.groups + 1 } else { acc.groups };
            let line = groups - 1;
            let fg = if cell.flags.inverse { cell.bg } else { cell.fg };
            let bg = if cell.flags.inverse { cell.fg } else { cell.bg };
            let fgc = fg_paint(cell, fg, gs.theme);
            let bgc = paint_of(theme_resolve(gs.theme, bg));
            let col = cell.point.column as int;
            let is_block_char = 0x2580 <= (cell.c as u32) <= 0x259F;
            let regions = if bg != AnsiColor::Named(NamedColor::Background) && !(is_block_char && bgc == fgc) {
                add_region(acc.regions, line, col, bgc)
            } else {
                acc.regions
            };
            let base = LayoutAcc { regions, runs, current, groups, last_line: Some(cell.point.line), prev_extras: prev, ..acc };
            assert(finished_runs(base) == finished_runs(acc));
            let res = layout_step(acc, cell, gs);
            assert(last_visible_before(cells, viewport, n) == Some(k));
            if cell.flags.wide_char_spacer {
                assert(res == base);
                assert(last_solid_before(cells, viewport, n) == last_solid_before(cells, viewport, k));
                assert(!text_cell(cells, viewport, k));
            } else if cell.c == ' ' && prev {
                assert(skipped_space(cells, viewport, k));
                assert(finished_runs(res) == finished_runs(base));
                assert(last_solid_before(cells, viewport, n) == Some(k));
            } else {
                assert(!skipped_space(cells, viewport, k));
                assert(last_solid_before(cells, viewport, n) == Some(k));
                let base2 = LayoutAcc { prev_extras: cell.zerowidth@.len() > 0, ..base };
                let pt = CellPoint { line: line as i32, column: col as i32 };
                assert(res == glyph_step(base2, cell, fg, fgc, pt, gs));
                if text_cell(cells, viewport, k) {
                    lemma_text_step_text(base2, cell, spec_cell_style(cell, fg, gs), pt);
                } else {
                    assert(finished_runs(res) == finished_runs(base2));
                }
            }
        } else {
            assert(last_visible_before(cells, viewport, n) == last_visible_before(cells, viewport, k));
            assert(last_solid_before(cells, viewport, n) == last_solid_before(cells, viewport, k));
        }
    }
}

/// The text of all runs of a layout is the characters, with their
/// combining characters, of exactly the cells drawn as text, in grid order.
pub proof fn lemma_runs_hold_kept_text(cells: Seq<IndexedCell>, viewport: Option<(i32, i32)>, gs: GridStyle)
    requires
        cells_sorted(cells),
    ensures
        runs_text(finished_runs(layout_fold(cells, viewport, gs))) == kept_text(cells, viewport, cells.len() as int),
{
    lemma_fold_text(cells, viewport, gs, cells.len() as int);
    assert(cells.subrange(0, cells.len() as int) =~= cells);
}

/// The colour a cell's background is drawn with (its foreground when it is
/// inverse).
pub open spec fn cell_bg_paint(cell: IndexedCell, gs: GridStyle) -> Paint {
    paint_of(theme_resolve(gs.theme, if cell.flags.inverse { cell.fg } else { cell.bg }))
}

/// The cell paints its background: the background is not the default one,
/// and the cell is not a block element drawn in the background's colour.
pub open spec fn paints_background(cell: IndexedCell, gs: GridStyle) -> bool {
    let fg = if cell.flags.inverse { cell.bg } else { cell.fg };
    let bg = if cell.flags.inverse { cell.fg } else { cell.bg };
    &&& bg != AnsiColor::Named(NamedColor::Background)
    &&& !(0x2580 <= (cell.c as u32) <= 0x259F && cell_bg_paint(cell, gs) == fg_paint(cell, fg, gs.theme))
}

/// Cell `m` is visible and starts a new display line: no visible cell
/// comes before it, or the last one lies on another grid line.
pub open spec fn group_start(cells: Seq<IndexedCell>, viewport: Option<(i32, i32)>, m: int) -> bool {
    &&& in_viewport(cells[m], viewport)
    &&& match last_visible_before(cells, viewport, m) {
        Some(v) => cells[v].point.line != cells[m].point.line,
        None => true,
    }
}

/// How many display lines the first `n` cells start.
pub open spec fn groups_upto(cells: Seq<IndexedCell>, viewport: Option<(i32, i32)>, n: int) -> int
    decreases n,
{
    if n <= 0 {
        0
    } else {
        groups_upto(cells, viewport, n - 1) + if group_start(cells, viewport, n - 1) { 1int } else { 0int }
    }
}

/// Some visible cell among the first `n` paints its background with
/// `color` at display line `l`, column `c`.
pub open spec fn background_at(
    cells: Seq<IndexedCell>,
    viewport: Option<(i32, i32)>,
    gs: GridStyle,
    n: int,
    l: int,
    c: int,
    color: Paint,
) -> bool {
    exists|k: int|
        0 <= k < n && in_viewport(cells[k], viewport) && paints_background(cells[k], gs) && groups_upto(
            cells,
            viewport,
            k + 1,
        ) - 1 == l && cells[k].point.column == c && #[trigger] cell_bg_paint(cells[k], gs) == color
}

proof fn lemma_add_region_painted(regs: Seq<BackgroundRegion>, line: int, col: int, color: Paint, l: int, c: int, color2: Paint)
    requires
        regions_fit(regs),
        0 <= line < i32::MAX,
        0 <= col < i32::MAX,
    ensures
        painted(add_region(regs, line, col, color), l, c, color2) == (painted(regs, l, c, color2) || (l == line
            && c == col && color2 == color)),
{
    let r = add_region(regs, line, col, color);
    if regs.len() > 0 && regs.last().color == color && regs.last().start_line == line && regs.last().end_line == line
        && regs.last().end_col + 1 == col {
        let n = regs.len() - 1;
        assert(region_fits(regs[n]));
        if painted(r, l, c, color2) {
            let k = choose|k: int| 0 <= k < r.len() && in_region(#[trigger] r[k], l, c) && r[k].color == color2;
            if k != n {
                assert(r[k] == regs[k]);
            } else if !(l == line && c == col) {
                assert(in_region(regs[n], l, c));
            }
        }
        if painted(regs, l, c, color2) {
            let k = choose|k: int| 0 <= k < regs.len() && in_region(#[trigger] regs[k], l, c) && regs[k].color == color2;
            if k != n {
                assert(r[k] == regs[k]);
            } else {
                assert(in_region(r[n], l, c));
            }
        }
        if l == line && c == col && color2 == color {
            assert(in_region(r[n], l, c));
        }
    } else {
        let n = regs.len() as int;
        if painted(r, l, c, color2) {
            let k = choose|k: int| 0 <= k < r.len() && in_region(#[trigger] r[k], l, c) && r[k].color == color2;
            if k != n {
                assert(r[k] == regs[k]);
            }
        }
        if painted(regs, l, c, color2) {
            let k = choose|k: int| 0 <= k < regs.len() && in_region(#[trigger] regs[k], l, c) && regs[k].color == color2;
            assert(r[k] == regs[k]);
        }
        if l == line && c == col && color2 == color {
            assert(in_region(r[n], l, c));
        }
    }
}

proof fn lemma_groups_upto_bound(cells: Seq<IndexedCell>, viewport: Option<(i32, i32)>, n: int)
    requires
        0 <= n,
    ensures
        0 <= groups_upto(cells, viewport, n) <= n,
    decreases n,
{
    if n > 0 {
        lemma_groups_upto_bound(cells, viewport, n - 1);
    }
}

proof fn lemma_groups_positive(cells: Seq<IndexedCell>, viewport: Option<(i32, i32)>, k: int)
    requires
        0 <= k,
        last_visible_before(cells, viewport, k) is Some,
    ensures
        groups_upto(cells, viewport, k) >= 1,
    decreases k,
{
    lemma_groups_upto_bound(cells, viewport, k - 1);
    if in_viewport(cells[k - 1], viewport) {
        if !group_start(cells, viewport, k - 1) {
            lemma_groups_positive(cells, viewport, k - 1);
        }
    } else {
        lemma_groups_positive(cells, viewport, k - 1);
    }
}

proof fn lemma_background_step_same(
    cells: Seq<IndexedCell>,
    viewport: Option<(i32, i32)>,
    gs: GridStyle,
    k: int,
    regs: Seq<BackgroundRegion>,
)
    requires
        0 <= k < cells.len(),
        !(in_viewport(cells[k], viewport) && paints_background(cells[k], gs)),
        forall|l: int, c: int, color: Paint|
            #[trigger] painted(regs, l, c, color) == background_at(cells, viewport, gs, k, l, c, color),
    ensures
        forall|l: int, c: int, color: Paint|
            #[trigger] painted(regs, l, c, color) == background_at(cells, viewport, gs, k + 1, l, c, color),
{
    assert forall|l: int, c: int, color: Paint|
        #[trigger] painted(regs, l, c, color) == background_at(cells, viewport, gs, k + 1, l, c, color) by {
        if background_at(cells, viewport, gs, k + 1, l, c, color) {
            let w = choose|w: int|
                0 <= w < k + 1 && in_viewport(cells[w], viewport) && paints_background(cells[w], gs) && groups_upto(
                    cells,
                    viewport,
                    w + 1,
                ) - 1 == l && cells[w].point.column == c && #[trigger] cell_bg_paint(cells[w], gs) == color;
            assert(w < k);
            assert(background_at(cells, viewport, gs, k, l, c, color));
        }
        if background_at(cells, viewport, gs, k, l, c, color) {
            let w = choose|w: int|
                0 <= w < k && in_viewport(cells[w], viewport) && paints_background(cells[w], gs) && groups_upto(
                    cells,
                    viewport,
                    w + 1,
                ) - 1 == l && cells[w].point.column == c && #[trigger] cell_bg_paint(cells[w], gs) == color;
            assert(cell_bg_paint(cells[w], gs) == color);
        }
    }
}

proof fn lemma_background_step_add(
    cells: Seq<IndexedCell>,
    viewport: Option<(i32, i32)>,
    gs: GridStyle,
    k: int,
    regs: Seq<BackgroundRegion>,
    line: int,
)
    requires
        0 <= k < cells.len(),
        in_viewport(cells[k], viewport),
        paints_background(cells[k], gs),
        regions_fit(regs),
        line == groups_upto(cells, viewport, k + 1) - 1,
        0 <= line < i32::MAX,
        cells[k].point.column < i32::MAX,
        forall|l: int, c: int, color: Paint|
            #[trigger] painted(regs, l, c, color) == background_at(cells, viewport, gs, k, l, c, color),
    ensures
        forall|l: int, c: int, color: Paint|
            #[trigger] painted(add_region(regs, line, cells[k].point.column as int, cell_bg_paint(cells[k], gs)), l, c, color)
                == background_at(cells, viewport, gs, k + 1, l, c, color),
{
    let col = cells[k].point.column as int;
    let p = cell_bg_paint(cells[k], gs);
    assert forall|l: int, c: int, color: Paint|
        #[trigger] painted(add_region(regs, line, col, p), l, c, color) == background_at(cells, viewport, gs, k + 1, l, c, color) by {
        lemma_add_region_painted(regs, line, col, p, l, c, color);
        if background_at(cells, viewport, gs, k + 1, l, c, color) {
            let w = choose|w: int|
                0 <= w < k + 1 && in_viewport(cells[w], viewport) && paints_background(cells[w], gs) && groups_upto(
                    cells,
                    viewport,
                    w + 1,
                ) - 1 == l && cells[w].point.column == c && #[trigger] cell_bg_paint(cells[w], gs) == color;
            if w < k {
                assert(background_at(cells, viewport, gs, k, l, c, color));
            }
        }
        if background_at(cells, viewport, gs, k, l, c, color) {
            let w = choose|w: int|
                0 <= w < k && in_viewport(cells[w], viewport) && paints_background(cells[w], gs) && groups_upto(
                    cells,
                    viewport,
                    w + 1,
                ) - 1 == l && cells[w].point.column == c && #[trigger] cell_bg_paint(cells[w], gs) == color;
            assert(cell_bg_paint(cells[w], gs) == color);
        }
        if l == line && c == col && color == p {
            assert(cell_bg_paint(cells[k], gs) == color);
        }
    }
}

proof fn lemma_fold_background(cells: Seq<IndexedCell>, viewport: Option<(i32, i32)>, gs: GridStyle, n: int)
    requires
        cells_sorted(cells),
        grid_fits(cells),
        0 <= n <= cells.len(),
    ensures
        ({
            let acc = layout_fold(cells.subrange(0, n), viewport, gs);
            &&& acc.groups == groups_upto(cells, viewport, n)
            &&& regions_fit(acc.regions)
            &&& forall|i: int| 0 <= i < acc.regions.len() ==> (#[trigger] acc.regions[i]).end_line < acc.groups
            &&& forall|l: int, c: int, color: Paint|
                #[trigger] painted(acc.regions, l, c, color) == background_at(cells, viewport, gs, n, l, c, color)
        }),
    decreases n,
{
    if n > 0 {
        let k = n - 1;
        lemma_fold_background(cells, viewport, gs, k);
        lemma_fold_text(cells, viewport, gs, k);
        lemma_groups_upto_bound(cells, viewport, n);
        lemma_groups_upto_bound(cells, viewport, k);
        let pre = cells.subrange(0, n);
        assert(pre.drop_last() =~= cells.subrange(0, k));
        assert(pre.last() == cells[k]);
        let acc = layout_fold(cells.subrange(0, k), viewport, gs);
        assert(text_inv(acc, cells, viewport, k));
        let cell = cells[k];
        assert(cell.point.column < i32::MAX);
        let res = layout_fold(pre, viewport, gs);
        if in_viewport(cell, viewport) {
            let new_group = acc.last_line != Some(cell.point.line);
            assert(new_group == group_start(cells, viewport, k));
            if !new_group {
                assert(last_visible_before(cells, viewport, k) is Some);
                lemma_groups_positive(cells, viewport, k);
            }
            let groups = if new_group { acc.groups + 1 } else { acc.groups };
            assert(res.groups == groups);
            assert(groups == groups_upto(cells, viewport, n));
            assert(groups <= n);
            assert(groups >= 1);
            let line = groups - 1;
            if paints_background(cell, gs) {
                assert(res.regions == add_region(acc.regions, line, cell.point.column as int, cell_bg_paint(cell, gs)));
                lemma_region_added_fits(acc.regions, line, cell.point.column as int, cell_bg_paint(cell, gs), groups);
                lemma_background_step_add(cells, viewport, gs, k, acc.regions, line);
            } else {
                assert(res.regions == acc.regions);
                lemma_background_step_same(cells, viewport, gs, k, acc.regions);
            }
        } else {
            assert(res == acc);
            lemma_background_step_same(cells, viewport, gs, k, acc.regions);
        }
    }
}

/// The background of a layout, after merging, paints exactly the cells
/// that paint their background: display line `l` (the number of the cell's
/// grid line among the visible ones), column `c`, in the cell's background
/// colour.
pub proof fn lemma_background_covers_cells(cells: Seq<IndexedCell>, viewport: Option<(i32, i32)>, gs: GridStyle)
    requires
        cells_sorted(cells),
        grid_fits(cells),
    ensures
        forall|l: int, c: int, color: Paint|
            #[trigger] painted(merge_regions(layout_fold(cells, viewport, gs).regions), l, c, color)
                == background_at(cells, viewport, gs, cells.len() as int, l, c, color),
{
    lemma_fold_background(cells, viewport, gs, cells.len() as int);
    assert(cells.subrange(0, cells.len() as int) =~= cells);
    let regs = layout_fold(cells, viewport, gs).regions;
    lemma_merge_keeps_paint(regs);
    assert forall|l: int, c: int, color: Paint|
        #[trigger] painted(merge_regions(regs), l, c, color) == background_at(cells, viewport, gs, cells.len() as int, l, c, color) by {
        assert(painted(merge_regions(regs), l, c, color) == painted(regs, l, c, color));
    }
}


/// A run's style shows a cell's attributes: struck out, italic, bold
/// (or the base font is), and underlined (wavy for a curly underline).
pub open spec fn style_shows_flags(style: RunStyle, cell: IndexedCell, gs: GridStyle) -> bool {
    &&& style.strikethrough == cell.flags.strikeout
    &&& style.italic == cell.flags.italic
    &&& style.bold == (cell.flags.bold || gs.bold_base)
    &&& style.underline == (if cell.flags.underline {
        Some(cell.flags.undercurl)
    } else {
        None
    })
}

/// Cell `k` is drawn as text (`text_cell`), kept behind a name so that
/// statements about many cells do not unfold what drawing as text means.
#[verifier::opaque]
pub open spec fn drawn_text(cells: Seq<IndexedCell>, viewport: Option<(i32, i32)>, k: int) -> bool {
    text_cell(cells, viewport, k)
}

/// Run `r` draws column `col` of display line `line`.
pub open spec fn run_holds(r: RunSpec, line: int, col: int) -> bool {
    r.start.line == line && r.start.column <= col < r.start.column + r.cells
}

/// The display line of visible cell `k`.
#[verifier::opaque]
pub open spec fn display_line_of(cells: Seq<IndexedCell>, viewport: Option<(i32, i32)>, k: int) -> int {
    groups_upto(cells, viewport, k + 1) - 1
}

/// Each run starts at a text cell among the first `n` and shows its
/// attributes.
#[verifier::opaque]
pub open spec fn runs_from_cells(rs: Seq<RunSpec>, cells: Seq<IndexedCell>, viewport: Option<(i32, i32)>, gs: GridStyle, n: int) -> bool {
    forall|i: int|
        0 <= i < rs.len() ==> (#[trigger] rs[i]).cells >= 1 && exists|k: int|
            0 <= k < n && #[trigger] drawn_text(cells, viewport, k) && rs[i].start.line == display_line_of(
                cells,
                viewport,
                k,
            ) && rs[i].start.column == cells[k].point.column && style_shows_flags(rs[i].style, cells[k], gs)
}

/// Each text cell among the first `n` is drawn by a run that shows its
/// attributes.
#[verifier::opaque]
pub open spec fn cells_in_runs(rs: Seq<RunSpec>, cells: Seq<IndexedCell>, viewport: Option<(i32, i32)>, gs: GridStyle, n: int) -> bool {
    forall|k: int|
        0 <= k < n && #[trigger] drawn_text(cells, viewport, k) ==> exists|i: int|
            0 <= i < rs.len() && run_holds(#[trigger] rs[i], display_line_of(cells, viewport, k), cells[k].point.column as int)
                && style_shows_flags(rs[i].style, cells[k], gs)
}

proof fn lemma_flags_push_run(
    rs: Seq<RunSpec>,
    nr: RunSpec,
    cells: Seq<IndexedCell>,
    viewport: Option<(i32, i32)>,
    gs: GridStyle,
    k: int,
)
    requires
        0 <= k,
        runs_from_cells(rs, cells, viewport, gs, k),
        cells_in_runs(rs, cells, viewport, gs, k),
        drawn_text(cells, viewport, k),
        nr.start.line == display_line_of(cells, viewport, k),
        nr.start.column == cells[k].point.column,
        nr.cells >= 1,
        style_shows_flags(nr.style, cells[k], gs),
    ensures
        runs_from_cells(rs.push(nr), cells, viewport, gs, k + 1),
        cells_in_runs(rs.push(nr), cells, viewport, gs, k + 1),
{
    reveal(runs_from_cells);
    reveal(cells_in_runs);
    let t = rs.push(nr);
    assert forall|i: int| 0 <= i < t.len() implies (#[trigger] t[i]).cells >= 1 && exists|m: int|
        0 <= m < k + 1 && #[trigger] drawn_text(cells, viewport, m) && t[i].start.line == display_line_of(
            cells,
            viewport,
            m,
        ) && t[i].start.column == cells[m].point.column && style_shows_flags(t[i].style, cells[m], gs) by {
        if i < rs.len() {
            assert(t[i] == rs[i]);
            let m = choose|m: int|
                0 <= m < k && #[trigger] drawn_text(cells, viewport, m) && rs[i].start.line
                    == display_line_of(cells, viewport, m) && rs[i].start.column == cells[m].point.column
                    && style_shows_flags(rs[i].style, cells[m], gs);
            assert(drawn_text(cells, viewport, m));
        } else {
            assert(t[i] == nr);
            assert(drawn_text(cells, viewport, k));
        }
    }
    assert forall|m: int| 0 <= m < k + 1 && #[trigger] drawn_text(cells, viewport, m) implies exists|i: int|
        0 <= i < t.len() && run_holds(#[trigger] t[i], display_line_of(cells, viewport, m), cells[m].point.column as int)
            && style_shows_flags(t[i].style, cells[m], gs) by {
        if m < k {
            let i = choose|i: int|
                0 <= i < rs.len() && run_holds(#[trigger] rs[i], display_line_of(cells, viewport, m), cells[m].point.column as int)
                    && style_shows_flags(rs[i].style, cells[m], gs);
            assert(t[i] == rs[i]);
        } else {
            assert(t[rs.len() as int] == nr);
        }
    }
}

#[verifier::rlimit(50)]
proof fn lemma_flags_grow_last(
    runs: Seq<RunSpec>,
    b: RunSpec,
    b2: RunSpec,
    cells: Seq<IndexedCell>,
    viewport: Option<(i32, i32)>,
    gs: GridStyle,
    k: int,
)
    requires
        0 <= k,
        runs_from_cells(runs.push(b), cells, viewport, gs, k),
        cells_in_runs(runs.push(b), cells, viewport, gs, k),
        drawn_text(cells, viewport, k),
        b2.start == b.start,
        b2.cells == b.cells + 1,
        same_look(b2.style, b.style),
        b.start.line == display_line_of(cells, viewport, k),
        b.start.column + b.cells == cells[k].point.column,
        style_shows_flags(b.style, cells[k], gs),
    ensures
        runs_from_cells(runs.push(b2), cells, viewport, gs, k + 1),
        cells_in_runs(runs.push(b2), cells, viewport, gs, k + 1),
{
    reveal(runs_from_cells);
    reveal(cells_in_runs);
    let rs = runs.push(b);
    let t = runs.push(b2);
    let last = runs.len() as int;
    assert(rs[last] == b && t[last] == b2);
    assert forall|i: int| 0 <= i < t.len() implies (#[trigger] t[i]).cells >= 1 && exists|m: int|
        0 <= m < k + 1 && #[trigger] drawn_text(cells, viewport, m) && t[i].start.line == display_line_of(
            cells,
            viewport,
            m,
        ) && t[i].start.column == cells[m].point.column && style_shows_flags(t[i].style, cells[m], gs) by {
        let m = choose|m: int|
            0 <= m < k && #[trigger] drawn_text(cells, viewport, m) && rs[i].start.line
                == display_line_of(cells, viewport, m) && rs[i].start.column == cells[m].point.column
                && style_shows_flags(rs[i].style, cells[m], gs);
        if i < last {
            assert(t[i] == rs[i]);
        }
        assert(drawn_text(cells, viewport, m));
    }
    assert forall|m: int| 0 <= m < k + 1 && #[trigger] drawn_text(cells, viewport, m) implies exists|i: int|
        0 <= i < t.len() && run_holds(#[trigger] t[i], display_line_of(cells, viewport, m), cells[m].point.column as int)
            && style_shows_flags(t[i].style, cells[m], gs) by {
        if m < k {
            let i = choose|i: int|
                0 <= i < rs.len() && run_holds(#[trigger] rs[i], display_line_of(cells, viewport, m), cells[m].point.column as int)
                    && style_shows_flags(rs[i].style, cells[m], gs);
            if i < last {
                assert(t[i] == rs[i]);
            } else {
                assert(run_holds(t[last], display_line_of(cells, viewport, m), cells[m].point.column as int));
            }
        } else {
            assert(run_holds(t[last], display_line_of(cells, viewport, m), cells[m].point.column as int));
        }
    }
}

proof fn lemma_flags_skip(
    rs: Seq<RunSpec>,
    cells: Seq<IndexedCell>,
    viewport: Option<(i32, i32)>,
    gs: GridStyle,
    k: int,
)
    requires
        0 <= k,
        runs_from_cells(rs, cells, viewport, gs, k),
        cells_in_runs(rs, cells, viewport, gs, k),
        !drawn_text(cells, viewport, k),
    ensures
        runs_from_cells(rs, cells, viewport, gs, k + 1),
        cells_in_runs(rs, cells, viewport, gs, k + 1),
{
    reveal(runs_from_cells);
    reveal(cells_in_runs);
    assert forall|i: int| 0 <= i < rs.len() implies (#[trigger] rs[i]).cells >= 1 && exists|m: int|
        0 <= m < k + 1 && #[trigger] drawn_text(cells, viewport, m) && rs[i].start.line == display_line_of(
            cells,
            viewport,
            m,
        ) && rs[i].start.column == cells[m].point.column && style_shows_flags(rs[i].style, cells[m], gs) by {
        let m = choose|m: int|
            0 <= m < k && #[trigger] drawn_text(cells, viewport, m) && rs[i].start.line == display_line_of(
                cells,
                viewport,
                m,
            ) && rs[i].start.column == cells[m].point.column && style_shows_flags(rs[i].style, cells[m], gs);
        assert(drawn_text(cells, viewport, m));
    }
}

proof fn lemma_text_step_flags(
    acc: LayoutAcc,
    cells: Seq<IndexedCell>,
    viewport: Option<(i32, i32)>,
    gs: GridStyle,
    k: int,
    fg: AnsiColor,
    pt: CellPoint,
)
    requires
        0 <= k < cells.len(),
        runs_from_cells(finished_runs(acc), cells, viewport, gs, k),
        cells_in_runs(finished_runs(acc), cells, viewport, gs, k),
        drawn_text(cells, viewport, k),
        pt.line == display_line_of(cells, viewport, k),
        pt.column == cells[k].point.column,
    ensures
        runs_from_cells(finished_runs(text_step(acc, cells[k], spec_cell_style(cells[k], fg, gs), pt)), cells, viewport, gs, k + 1),
        cells_in_runs(finished_runs(text_step(acc, cells[k], spec_cell_style(cells[k], fg, gs), pt)), cells, viewport, gs, k + 1),
{
    let cell = cells[k];
    let style = spec_cell_style(cell, fg, gs);
    let zw = cell.zerowidth@;
    let nr = run_push_zero_width(run_start(pt, cell.c, style), zw);
    lemma_zero_width_text(run_start(pt, cell.c, style), zw);
    assert(style_shows_flags(nr.style, cell, gs));
    match acc.current {
        Some(b) => {
            if same_look(b.style, style) && b.start.line == pt.line && b.start.column + b.cells == pt.column {
                let b1 = run_push(b, cell.c, true);
                lemma_zero_width_text(b1, zw);
                let b2 = run_push_zero_width(b1, zw);
                lemma_flags_grow_last(acc.runs, b, b2, cells, viewport, gs, k);
            } else {
                lemma_flags_push_run(acc.runs.push(b), nr, cells, viewport, gs, k);
            }
        },
        None => {
            lemma_flags_push_run(acc.runs, nr, cells, viewport, gs, k);
        },
    }
}

#[verifier::rlimit(60)]
proof fn lemma_fold_flags(cells: Seq<IndexedCell>, viewport: Option<(i32, i32)>, gs: GridStyle, n: int)
    requires
        cells_sorted(cells),
        grid_fits(cells),
        0 <= n <= cells.len(),
    ensures
        runs_from_cells(finished_runs(layout_fold(cells.subrange(0, n), viewport, gs)), cells, viewport, gs, n),
        cells_in_runs(finished_runs(layout_fold(cells.subrange(0, n), viewport, gs)), cells, viewport, gs, n),
    decreases n,
{
    if n > 0 {
        let k = n - 1;
        lemma_fold_flags(cells, viewport, gs, k);
        lemma_fold_text(cells, viewport, gs, k);
        lemma_fold_background(cells, viewport, gs, k);
        lemma_last_solid_visible(cells, viewport, k);
        lemma_groups_upto_bound(cells, viewport, n);
        lemma_groups_upto_bound(cells, viewport, k);
        let pre = cells.subrange(0, n);
        assert(pre.drop_last() =~= cells.subrange(0, k));
        assert(pre.last() == cells[k]);
        let acc = layout_fold(cells.subrange(0, k), viewport, gs);
        assert(text_inv(acc, cells, viewport, k));
        let cell = cells[k];
        assert(cell.point.column < i32::MAX);
        let res = layout_fold(pre, viewport, gs);
        let rs = finished_runs(acc);
        if in_viewport(cell, viewport) {
            let new_group = acc.last_line != Some(cell.point.line);
            assert(new_group == group_start(cells, viewport, k));
            if !new_group {
                assert(last_visible_before(cells, viewport, k) is Some);
                lemma_groups_positive(cells, viewport, k);
            }
            let prev = if new_group { false } else { acc.prev_extras };
            assert(prev == extras_before(cells, viewport, k)) by {
                if let Some(j) = last_solid_before(cells, viewport, k) {
                    let v = last_visible_before(cells, viewport, k)->0;
                    if j < v {
                        assert(cells[j].point.line <= cells[v].point.line);
                    }
                    assert(cells[v].point.line <= cells[k].point.line);
                }
            }
            let runs = if new_group && acc.current is Some {
                acc.runs.push(acc.current->0)
            } else {
                acc.runs
            };
            let current = if new_group { None } else { acc.current };
            let groups = if new_group { acc.groups + 1 } else { acc.groups };
            assert(groups == groups_upto(cells, viewport, n));
            assert(1 <= groups <= n);
            let line = groups - 1;
            let fg = if cell.flags.inverse { cell.bg } else { cell.fg };
            let bg = if cell.flags.inverse { cell.fg } else { cell.bg };
            let fgc = fg_paint(cell, fg, gs.theme);
            let bgc = paint_of(theme_resolve(gs.theme, bg));
            let col = cell.point.column as int;
            let is_block_char = 0x2580 <= (cell.c as u32) <= 0x259F;
            let regions = if bg != AnsiColor::Named(NamedColor::Background) && !(is_block_char && bgc == fgc) {
                add_region(acc.regions, line, col, bgc)
            } else {
                acc.regions
            };
            let base = LayoutAcc { regions, runs, current, groups, last_line: Some(cell.point.line), prev_extras: prev, ..acc };
            assert(finished_runs(base) == rs);
            if cell.flags.wide_char_spacer {
                assert(res == base);
                assert(!drawn_text(cells, viewport, k)) by {
                    reveal(drawn_text);
                }
                lemma_flags_skip(rs, cells, viewport, gs, k);
            } else if cell.c == ' ' && prev {
                assert(skipped_space(cells, viewport, k));
                assert(!drawn_text(cells, viewport, k)) by {
                    reveal(drawn_text);
                }
                assert(finished_runs(res) == rs);
                lemma_flags_skip(rs, cells, viewport, gs, k);
            } else {
                assert(!skipped_space(cells, viewport, k));
                let base2 = LayoutAcc { prev_extras: cell.zerowidth@.len() > 0, ..base };
                assert(finished_runs(base2) == rs);
                let pt = CellPoint { line: line as i32, column: col as i32 };
                assert(res == glyph_step(base2, cell, fg, fgc, pt, gs));
                assert(pt.line == display_line_of(cells, viewport, k)) by {
                    reveal(display_line_of);
                }
                reveal(drawn_text);
                if text_cell(cells, viewport, k) {
                    assert(res == text_step(base2, cell, spec_cell_style(cell, fg, gs), pt));
                    lemma_text_step_flags(base2, cells, viewport, gs, k, fg, pt);
                } else {
                    assert(finished_runs(res) == rs);
                    lemma_flags_skip(rs, cells, viewport, gs, k);
                }
            }
        } else {
            assert(res == acc);
            assert(!drawn_text(cells, viewport, k)) by {
                reveal(drawn_text);
            }
            lemma_flags_skip(rs, cells, viewport, gs, k);
        }
    } else {
        reveal(runs_from_cells);
        reveal(cells_in_runs);
    }
}

/// Every text run of a layout starts at a cell drawn as text and shows that
/// cell's attributes, and every cell drawn as text is drawn by a run, at
/// its display line and column, whose style shows the cell's attributes:
/// struck out exactly when the cell is, likewise italic, bold (or the base
/// font is bold), and underlined (wavy for a curly underline).
pub proof fn lemma_runs_show_cell_flags(cells: Seq<IndexedCell>, viewport: Option<(i32, i32)>, gs: GridStyle)
    requires
        cells_sorted(cells),
        grid_fits(cells),
    ensures
        runs_from_cells(finished_runs(layout_fold(cells, viewport, gs)), cells, viewport, gs, cells.len() as int),
        cells_in_runs(finished_runs(layout_fold(cells, viewport, gs)), cells, viewport, gs, cells.len() as int),
{
    lemma_fold_flags(cells, viewport, gs, cells.len() as int);
    assert(cells.subrange(0, cells.len() as int) =~= cells);
}


/// A cell's character is styled with the cell's attributes: struck out
/// exactly when the cell is, likewise italic, bold (or the base font is),
/// underlined (wavy for a curly underline), in the cell's foreground
/// paint, over the byte length of its character.
pub proof fn lemma_cell_style_shows_flags(cell: IndexedCell, fg: AnsiColor, gs: GridStyle)
    ensures
        style_shows_flags(spec_cell_style(cell, fg, gs), cell, gs),
        spec_cell_style(cell, fg, gs).len == char_utf8_len(cell.c),
        spec_cell_style(cell, fg, gs).color == fg_paint(cell, fg, gs.theme),
{
}

} // verus!
