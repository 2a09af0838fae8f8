//! Grid positions, the highlighted selection, and the cursor.

use vstd::prelude::*;
use crate::color::Paint;
use crate::fragments::CellPoint;
use crate::regions::LayoutRect;

verus! {

/// A point of the terminal grid: line (negative in the scroll history) and
/// column.
#[derive(Clone, Copy, Debug, PartialEq, Eq, Structural)]
pub struct GridPoint {
    pub line: i32,
    pub column: usize,
}

/// The selected span of the grid, from `start` to `end`; a block selection
/// covers the same columns on every line.
#[derive(Clone, Copy, Debug, PartialEq, Eq, Structural)]
pub struct SelectionRange {
    pub start: GridPoint,
    pub end: GridPoint,
    pub is_block: bool,
}

pub open spec fn clamp(v: int, lo: int, hi: int) -> int {
    if v < lo {
        lo
    } else if v > hi {
        hi
    } else {
        v
    }
}

pub open spec fn row_rect(line: int, from: int, to: int, color: Paint) -> LayoutRect {
    LayoutRect {
        point: CellPoint { line: line as i32, column: from as i32 },
        num_of_cells: (to - from + 1) as usize,
        color,
    }
}

/// The highlighted part of each line from `line` to `last`: the first line
/// from the start column, the last up to the end column, lines between
/// whole; an empty part gives no rectangle.
pub open spec fn stream_rows(
    line: int,
    first: int,
    last: int,
    start_col: int,
    end_col: int,
    max_col: int,
    color: Paint,
) -> Seq<LayoutRect>
    decreases last + 1 - line,
{
    if line > last {
        Seq::empty()
    } else {
        let (a, b) = if line == first && line == last {
            (start_col, end_col)
        } else if line == first {
            (start_col, max_col)
        } else if line == last {
            (0, end_col)
        } else {
            (0, max_col)
        };
        let a = clamp(a, 0, max_col);
        let b = clamp(b, 0, max_col);
        let here: Seq<LayoutRect> = if b >= a { seq![row_rect(line, a, b, color)] } else { Seq::empty() };
        here + stream_rows(line + 1, first, last, start_col, end_col, max_col, color)
    }
}

/// The same columns `left..=right` on each line from `line` to `last`.
pub open spec fn block_rows(line: int, last: int, left: int, right: int, color: Paint) -> Seq<LayoutRect>
    decreases last + 1 - line,
{
    if line > last {
        Seq::empty()
    } else {
        seq![row_rect(line, left, right, color)] + block_rows(line + 1, last, left, right, color)
    }
}

/// The rectangles that highlight `sel` on a display of `num_lines` lines and
/// `num_columns` columns scrolled back by `display_offset` lines. Lines out
/// of view are left out; the first and last lines in view take the start
/// and end columns.
pub open spec fn selection_rows(
    sel: SelectionRange,
    display_offset: int,
    num_lines: int,
    num_columns: int,
    color: Paint,
) -> Seq<LayoutRect> {
    if num_lines <= 0 || num_columns == 0 {
        Seq::empty()
    } else {
        let max_line = num_lines - 1;
        let max_col = num_columns - 1;
        let s0 = sel.start.line + display_offset;
        let e0 = sel.end.line + display_offset;
        let (s, e) = if s0 > e0 { (e0, s0) } else { (s0, e0) };
        if e < 0 || s > max_line {
            Seq::empty()
        } else {
            let first = if s < 0 { 0 } else { s };
            let last = if e > max_line { max_line } else { e };
            let sc = sel.start.column as int;
            let ec = sel.end.column as int;
            if sel.is_block {
                let left = clamp(if sc <= ec { sc } else { ec }, 0, max_col);
                let right = clamp(if sc >= ec { sc } else { ec }, 0, max_col);
                block_rows(first, last, left, right, color)
            } else {
                stream_rows(first, first, last, sc, ec, max_col, color)
            }
        }
    }
}

/// A highlight rectangle lies inside a display of `num_lines` lines and
/// `num_columns` columns and covers at least one cell.
pub open spec fn rect_in_view(r: LayoutRect, num_lines: int, num_columns: int) -> bool {
    &&& 0 <= r.point.line < num_lines
    &&& 0 <= r.point.column
    &&& 1 <= r.num_of_cells
    &&& r.point.column + r.num_of_cells <= num_columns
}

proof fn lemma_stream_rows_in_view(
    line: int,
    first: int,
    last: int,
    start_col: int,
    end_col: int,
    max_col: int,
    color: Paint,
    num_lines: int,
)
    requires
        0 <= line,
        last < num_lines <= i32::MAX,
        0 <= max_col < i32::MAX,
    ensures
        forall|i: int| 0 <= i < stream_rows(line, first, last, start_col, end_col, max_col, color).len()
            ==> rect_in_view(#[trigger] stream_rows(line, first, last, start_col, end_col, max_col, color)[i], num_lines, max_col + 1),
    decreases last + 1 - line,
{
    if line <= last {
        lemma_stream_rows_in_view(line + 1, first, last, start_col, end_col, max_col, color, num_lines);
        let rows = stream_rows(line, first, last, start_col, end_col, max_col, color);
        let rest = stream_rows(line + 1, first, last, start_col, end_col, max_col, color);
        let (a, b) = if line == first && line == last {
            (start_col, end_col)
        } else if line == first {
            (start_col, max_col)
        } else if line == last {
            (0, end_col)
        } else {
            (0, max_col)
        };
        let a = clamp(a, 0, max_col);
        let b = clamp(b, 0, max_col);
        let here: Seq<LayoutRect> = if b >= a { seq![row_rect(line, a, b, color)] } else { Seq::empty() };
        assert(rows == here + rest);
        assert forall|i: int| 0 <= i < rows.len() implies rect_in_view(#[trigger] rows[i], num_lines, max_col + 1) by {
            if i < here.len() {
                assert(rows[i] == here[i]);
            } else {
                assert(rows[i] == rest[i - here.len()]);
            }
        }
    }
}

proof fn lemma_block_rows_in_view(line: int, last: int, left: int, right: int, color: Paint, num_lines: int, num_columns: int)
    requires
        0 <= line,
        last < num_lines <= i32::MAX,
        0 <= left <= right < num_columns <= i32::MAX,
    ensures
        forall|i: int| 0 <= i < block_rows(line, last, left, right, color).len()
            ==> rect_in_view(#[trigger] block_rows(line, last, left, right, color)[i], num_lines, num_columns),
    decreases last + 1 - line,
{
    if line <= last {
        lemma_block_rows_in_view(line + 1, last, left, right, color, num_lines, num_columns);
        let rows = block_rows(line, last, left, right, color);
        let rest = block_rows(line + 1, last, left, right, color);
        assert(rows == seq![row_rect(line, left, right, color)] + rest);
        assert forall|i: int| 0 <= i < rows.len() implies rect_in_view(#[trigger] rows[i], num_lines, num_columns) by {
            if i > 0 {
                assert(rows[i] == rest[i - 1]);
            }
        }
    }
}

/// Every rectangle that highlights a selection lies on the display: lines
/// and columns out of view are cut away, never drawn past the edges.
pub proof fn lemma_selection_rows_in_view(
    sel: SelectionRange,
    display_offset: int,
    num_lines: int,
    num_columns: int,
    color: Paint,
)
    requires
        num_lines <= i32::MAX,
        0 <= num_columns <= i32::MAX,
    ensures
        forall|i: int| 0 <= i < selection_rows(sel, display_offset, num_lines, num_columns, color).len()
            ==> rect_in_view(#[trigger] selection_rows(sel, display_offset, num_lines, num_columns, color)[i], num_lines, num_columns),
{
    if num_lines > 0 && num_columns != 0 {
        let max_line = num_lines - 1;
        let max_col = num_columns - 1;
        let s0 = sel.start.line + display_offset;
        let e0 = sel.end.line + display_offset;
        let (s, e) = if s0 > e0 { (e0, s0) } else { (s0, e0) };
        if !(e < 0 || s > max_line) {
            let first = if s < 0 { 0 } else { s };
            let last = if e > max_line { max_line } else { e };
            let sc = sel.start.column as int;
            let ec = sel.end.column as int;
            if sel.is_block {
                let left = clamp(if sc <= ec { sc } else { ec }, 0, max_col);
                let right = clamp(if sc >= ec { sc } else { ec }, 0, max_col);
                lemma_block_rows_in_view(first, last, left, right, color, num_lines, num_columns);
            } else {
                lemma_stream_rows_in_view(first, first, last, sc, ec, max_col, color, num_lines);
            }
        }
    }
}

fn clamp_i32(v: i32, lo: i32, hi: i32) -> (res: i32)
    requires
        lo <= hi,
    ensures
        res == clamp(v as int, lo as int, hi as int),
{
    if v < lo {
        lo
    } else if v > hi {
        hi
    } else {
        v
    }
}

/// The rectangles that highlight a selection on the display.
pub fn selection_rects(
    selection: &SelectionRange,
    display_offset: usize,
    num_lines: usize,
    num_columns: usize,
    color: Paint,
) -> (rects: Vec<LayoutRect>)
    requires
        num_lines <= i32::MAX,
        num_columns <= i32::MAX,
        display_offset <= i32::MAX,
        selection.start.column <= i32::MAX,
        selection.end.column <= i32::MAX,
        i32::MIN <= selection.start.line + display_offset <= i32::MAX,
        i32::MIN <= selection.end.line + display_offset <= i32::MAX,
    ensures
        rects@ == selection_rows(
            *selection,
            display_offset as int,
            num_lines as int,
            num_columns as int,
            color,
        ),
{
    let num_lines = num_lines as i32;
    if num_lines <= 0 || num_columns == 0 {
        return Vec::new();
    }
    let max_line = num_lines - 1;
    let max_col = (num_columns - 1) as i32;
    let mut start_line = selection.start.line + display_offset as i32;
    let mut end_line = selection.end.line + display_offset as i32;
    if start_line > end_line {
        let t = start_line;
        start_line = end_line;
        end_line = t;
    }
    if end_line < 0 || start_line > max_line {
        return Vec::new();
    }
    start_line = if start_line < 0 { 0 } else { start_line };
    end_line = if end_line > max_line { max_line } else { end_line };
    let start_col = selection.start.column as i32;
    let end_col = selection.end.column as i32;
    let mut rects: Vec<LayoutRect> = Vec::new();
    let mut line = start_line;
    if selection.is_block {
        let left = clamp_i32(if start_col <= end_col { start_col } else { end_col }, 0, max_col);
        let right = clamp_i32(if start_col >= end_col { start_col } else { end_col }, 0, max_col);
        while line <= end_line
            invariant
                start_line <= line <= end_line + 1,
                0 <= start_line,
                end_line <= max_line < i32::MAX,
                0 <= left <= right <= max_col < i32::MAX,
                block_rows(start_line as int, end_line as int, left as int, right as int, color) == rects@
                    + block_rows(line as int, end_line as int, left as int, right as int, color),
            decreases end_line + 1 - line,
        {
            let ghost before = rects@;
            rects.push(LayoutRect {
                point: CellPoint { line, column: left },
                num_of_cells: (right - left + 1) as usize,
                color,
            });
            proof {
                let rest = block_rows(line + 1, end_line as int, left as int, right as int, color);
                assert(block_rows(line as int, end_line as int, left as int, right as int, color) == seq![row_rect(line as int, left as int, right as int, color)] + rest);
                assert(rects@ =~= before + seq![row_rect(line as int, left as int, right as int, color)]);
                assert(before + (seq![row_rect(line as int, left as int, right as int, color)] + rest) =~= rects@ + rest);
            }
            line = line + 1;
        }
    } else {
        while line <= end_line
            invariant
                start_line <= line <= end_line + 1,
                0 <= start_line,
                end_line <= max_line < i32::MAX,
                0 <= max_col < i32::MAX,
                stream_rows(start_line as int, start_line as int, end_line as int, start_col as int, end_col as int, max_col as int, color)
                    == rects@ + stream_rows(line as int, start_line as int, end_line as int, start_col as int, end_col as int, max_col as int, color),
            decreases end_line + 1 - line,
        {
            let (a, b) = if line == start_line && line == end_line {
                (start_col, end_col)
            } else if line == start_line {
                (start_col, max_col)
            } else if line == end_line {
                (0, end_col)
            } else {
                (0, max_col)
            };
            let a = clamp_i32(a, 0, max_col);
            let b = clamp_i32(b, 0, max_col);
            let ghost before = rects@;
            if b >= a {
                rects.push(LayoutRect {
                    point: CellPoint { line, column: a },
                    num_of_cells: (b - a + 1) as usize,
                    color,
                });
            }
            proof {
                let rest = stream_rows(line + 1, start_line as int, end_line as int, start_col as int, end_col as int, max_col as int, color);
                let here: Seq<LayoutRect> = if b >= a { seq![row_rect(line as int, a as int, b as int, color)] } else { Seq::empty() };
                assert(stream_rows(line as int, start_line as int, end_line as int, start_col as int, end_col as int, max_col as int, color) == here + rest);
                assert(rects@ =~= before + here);
                assert(before + (here + rest) =~= (before + here) + rest);
            }
            line = line + 1;
        }
    }
    rects
}

/// Where the cursor is drawn: its grid line moved down by the scroll offset,
/// and its column.
#[derive(Clone, Copy, Debug, PartialEq, Eq, Structural)]
pub struct DisplayCursor {
    line: i32,
    col: usize,
}

impl DisplayCursor {
    /// The display position of a cursor at `cursor_point` when the display
    /// is scrolled back by `display_offset` lines.
    pub fn from(cursor_point: GridPoint, display_offset: usize) -> (c: Self)
        requires
            display_offset <= i32::MAX,
            cursor_point.line + display_offset <= i32::MAX,
        ensures
            c.line() == cursor_point.line + display_offset,
            c.col() == cursor_point.column,
    {
        DisplayCursor { line: cursor_point.line + display_offset as i32, col: cursor_point.column }
    }

    pub closed spec fn spec_line(&self) -> i32 {
        self.line
    }

    pub closed spec fn spec_col(&self) -> usize {
        self.col
    }

    #[verifier::when_used_as_spec(spec_line)]
    pub fn line(&self) -> (res: i32)
        ensures
            res == self.spec_line(),
    {
        self.line
    }

    #[verifier::when_used_as_spec(spec_col)]
    pub fn col(&self) -> (res: usize)
        ensures
            res == self.spec_col(),
    {
        self.col
    }
}

/// Whether a cursor at display position `cursor` is on the display of
/// `num_lines` lines: its line comes before the last line's end.
pub fn cursor_visible(cursor: &DisplayCursor, num_lines: usize) -> (res: bool)
    requires
        num_lines <= i32::MAX,
    ensures
        res == (cursor.spec_line() < num_lines),
{
    cursor.line() < num_lines as i32
}

/// The cursor shapes a terminal asks for.
#[derive(Clone, Copy, Debug, PartialEq, Eq, Structural)]
pub enum TermCursorShape {
    Block,
    Underline,
    Beam,
    HollowBlock,
    Hidden,
}

/// The cursor shapes that are drawn.
#[derive(Debug, Clone, Copy, PartialEq, Eq, Structural)]
pub enum CursorShape {
    Block,
    Hollow,
    Bar,
    Underline,
}

/// How the cursor is drawn, and whether the character under it is drawn on
/// top: nothing when hidden; a hollow box for a block cursor out of focus.
pub open spec fn spec_cursor_shape(shape: TermCursorShape, focused: bool) -> Option<(CursorShape, bool)> {
    match shape {
        TermCursorShape::Hidden => None,
        TermCursorShape::Block => if focused {
            Some((CursorShape::Block, true))
        } else {
            Some((CursorShape::Hollow, false))
        },
        TermCursorShape::Underline => Some((CursorShape::Underline, false)),
        TermCursorShape::Beam => Some((CursorShape::Bar, false)),
        TermCursorShape::HollowBlock => Some((CursorShape::Hollow, false)),
    }
}

/// Decides how the cursor is drawn.
pub fn cursor_shape(shape: TermCursorShape, focused: bool) -> (res: Option<(CursorShape, bool)>)
    ensures
        res == spec_cursor_shape(shape, focused),
{
    match shape {
        TermCursorShape::Hidden => None,
        TermCursorShape::Block => if focused {
            Some((CursorShape::Block, true))
        } else {
            Some((CursorShape::Hollow, false))
        },
        TermCursorShape::Underline => Some((CursorShape::Underline, false)),
        TermCursorShape::Beam => Some((CursorShape::Bar, false)),
        TermCursorShape::HollowBlock => Some((CursorShape::Hollow, false)),
    }
}

/// Some rectangle of `rects` covers column `c` of display line `l`.
pub open spec fn covers(rects: Seq<LayoutRect>, l: int, c: int) -> bool {
    exists|i: int|
        0 <= i < rects.len() && (#[trigger] rects[i]).point.line == l && rects[i].point.column <= c
            < rects[i].point.column + rects[i].num_of_cells
}

/// Column `c` of display line `l` lies in the selection shown at
/// `display_offset`: for a block, between the two corners' lines and
/// columns; otherwise between start and end in reading order.
pub open spec fn in_selection(sel: SelectionRange, display_offset: int, l: int, c: int) -> bool {
    let sl = sel.start.line + display_offset;
    let el = sel.end.line + display_offset;
    let sc = sel.start.column as int;
    let ec = sel.end.column as int;
    if sel.is_block {
        &&& (if sl <= el { sl } else { el }) <= l <= (if sl <= el { el } else { sl })
        &&& (if sc <= ec { sc } else { ec }) <= c <= (if sc <= ec { ec } else { sc })
    } else {
        &&& (sl < l || (sl == l && sc <= c))
        &&& (l < el || (l == el && c <= ec))
    }
}

proof fn lemma_covers_concat(x: Seq<LayoutRect>, y: Seq<LayoutRect>, l: int, c: int)
    ensures
        covers(x + y, l, c) == (covers(x, l, c) || covers(y, l, c)),
{
    let z = x + y;
    if covers(z, l, c) {
        let i = choose|i: int|
            0 <= i < z.len() && (#[trigger] z[i]).point.line == l && z[i].point.column <= c < z[i].point.column
                + z[i].num_of_cells;
        if i < x.len() {
            assert(z[i] == x[i]);
        } else {
            assert(z[i] == y[i - x.len()]);
        }
    }
    if covers(x, l, c) {
        let i = choose|i: int|
            0 <= i < x.len() && (#[trigger] x[i]).point.line == l && x[i].point.column <= c < x[i].point.column
                + x[i].num_of_cells;
        assert(z[i] == x[i]);
    }
    if covers(y, l, c) {
        let i = choose|i: int|
            0 <= i < y.len() && (#[trigger] y[i]).point.line == l && y[i].point.column <= c < y[i].point.column
                + y[i].num_of_cells;
        assert(z[i + x.len()] == y[i]);
    }
}

proof fn lemma_covers_one(r: LayoutRect, l: int, c: int)
    ensures
        covers(seq![r], l, c) == (r.point.line == l && r.point.column <= c < r.point.column + r.num_of_cells),
{
    if r.point.line == l && r.point.column <= c < r.point.column + r.num_of_cells {
        assert(seq![r][0] == r);
    }
}

proof fn lemma_stream_covers(
    line: int,
    first: int,
    last: int,
    start_col: int,
    end_col: int,
    max_col: int,
    color: Paint,
    l: int,
    c: int,
)
    requires
        0 <= line,
        last < i32::MAX,
        0 <= max_col < i32::MAX,
        0 <= c <= max_col,
    ensures
        covers(stream_rows(line, first, last, start_col, end_col, max_col, color), l, c) == (line <= l <= last && ({
            let (a, b) = if l == first && l == last {
                (start_col, end_col)
            } else if l == first {
                (start_col, max_col)
            } else if l == last {
                (0, end_col)
            } else {
                (0, max_col)
            };
            clamp(a, 0, max_col) <= c <= clamp(b, 0, max_col)
        })),
    decreases last + 1 - line,
{
    if line <= last {
        lemma_stream_covers(line + 1, first, last, start_col, end_col, max_col, color, l, c);
        let rest = stream_rows(line + 1, first, last, start_col, end_col, max_col, color);
        let (a, b) = if line == first && line == last {
            (start_col, end_col)
        } else if line == first {
            (start_col, max_col)
        } else if line == last {
            (0, end_col)
        } else {
            (0, max_col)
        };
        let a = clamp(a, 0, max_col);
        let b = clamp(b, 0, max_col);
        let here: Seq<LayoutRect> = if b >= a { seq![row_rect(line, a, b, color)] } else { Seq::empty() };
        assert(stream_rows(line, first, last, start_col, end_col, max_col, color) == here + rest);
        lemma_covers_concat(here, rest, l, c);
        if b >= a {
            lemma_covers_one(row_rect(line, a, b, color), l, c);
        } else {
            assert(!covers(here, l, c));
        }
    } else {
        assert(!covers(stream_rows(line, first, last, start_col, end_col, max_col, color), l, c));
    }
}

proof fn lemma_block_covers(line: int, last: int, left: int, right: int, color: Paint, l: int, c: int)
    requires
        0 <= line,
        last < i32::MAX,
        0 <= left <= right < i32::MAX,
    ensures
        covers(block_rows(line, last, left, right, color), l, c) == (line <= l <= last && left <= c <= right),
    decreases last + 1 - line,
{
    if line <= last {
        lemma_block_covers(line + 1, last, left, right, color, l, c);
        let rest = block_rows(line + 1, last, left, right, color);
        assert(block_rows(line, last, left, right, color) == seq![row_rect(line, left, right, color)] + rest);
        lemma_covers_concat(seq![row_rect(line, left, right, color)], rest, l, c);
        lemma_covers_one(row_rect(line, left, right, color), l, c);
    } else {
        assert(!covers(block_rows(line, last, left, right, color), l, c));
    }
}

/// The highlight covers exactly the selected cells on the display, when
/// both corners' columns are on the display; for a selection in reading
/// order, also when its start comes before its end and both lie on the
/// display.
pub proof fn lemma_selection_rows_cover_selection(
    sel: SelectionRange,
    display_offset: int,
    num_lines: int,
    num_columns: int,
    color: Paint,
    l: int,
    c: int,
)
    requires
        num_lines <= i32::MAX,
        0 <= num_columns <= i32::MAX,
        0 <= l < num_lines,
        0 <= c < num_columns,
        sel.start.column < num_columns,
        sel.end.column < num_columns,
        !sel.is_block ==> {
            &&& sel.start.line < sel.end.line || (sel.start.line == sel.end.line && sel.start.column
                <= sel.end.column)
            &&& 0 <= sel.start.line + display_offset
            &&& sel.end.line + display_offset < num_lines
        },
    ensures
        covers(selection_rows(sel, display_offset, num_lines, num_columns, color), l, c) == in_selection(
            sel,
            display_offset,
            l,
            c,
        ),
{
    let max_line = num_lines - 1;
    let max_col = num_columns - 1;
    let s0 = sel.start.line + display_offset;
    let e0 = sel.end.line + display_offset;
    let (s, e) = if s0 > e0 { (e0, s0) } else { (s0, e0) };
    let sc = sel.start.column as int;
    let ec = sel.end.column as int;
    if e < 0 || s > max_line {
        assert(!covers(Seq::<LayoutRect>::empty(), l, c));
        assert(selection_rows(sel, display_offset, num_lines, num_columns, color) == Seq::<LayoutRect>::empty());
    } else {
        let first = if s < 0 { 0 } else { s };
        let last = if e > max_line { max_line } else { e };
        if sel.is_block {
            let left = clamp(if sc <= ec { sc } else { ec }, 0, max_col);
            let right = clamp(if sc >= ec { sc } else { ec }, 0, max_col);
            lemma_block_covers(first, last, left, right, color, l, c);
        } else {
            lemma_stream_covers(first, first, last, sc, ec, max_col, color, l, c);
        }
    }
}


/// How and where the cursor is drawn, if at all: nothing when the terminal
/// hides it or when its display line (grid line moved down by the scroll
/// offset) is at or past the last line; otherwise the drawn shape, whether
/// the character under it is drawn on top, and its display position.
pub fn cursor_plan(
    shape: TermCursorShape,
    focused: bool,
    cursor_point: GridPoint,
    display_offset: usize,
    num_lines: usize,
) -> (res: Option<(CursorShape, bool, DisplayCursor)>)
    requires
        num_lines <= i32::MAX,
        spec_cursor_shape(shape, focused) is Some ==> display_offset <= i32::MAX && cursor_point.line
            + display_offset <= i32::MAX,
    ensures
        res is None <==> (spec_cursor_shape(shape, focused) is None || cursor_point.line + display_offset
            >= num_lines),
        res matches Some((s, text, c)) ==> {
            &&& spec_cursor_shape(shape, focused) == Some((s, text))
            &&& c.spec_line() == cursor_point.line + display_offset
            &&& c.spec_col() == cursor_point.column
        },
{
    match cursor_shape(shape, focused) {
        None => None,
        Some((s, text)) => {
            let c = DisplayCursor::from(cursor_point, display_offset);
            if cursor_visible(&c, num_lines) {
                Some((s, text, c))
            } else {
                None
            }
        },
    }
}


/// The drawn shape `s` is the picture of the requested shape `t`: a block
/// (or a hollow box), a hollow box, a bar for a beam, an underline.
pub open spec fn drawn_as(s: CursorShape, t: TermCursorShape) -> bool {
    match t {
        TermCursorShape::Block => s == CursorShape::Block || s == CursorShape::Hollow,
        TermCursorShape::HollowBlock => s == CursorShape::Hollow,
        TermCursorShape::Beam => s == CursorShape::Bar,
        TermCursorShape::Underline => s == CursorShape::Underline,
        TermCursorShape::Hidden => false,
    }
}

/// Every shown cursor is drawn as the picture of its requested shape; only
/// a hidden one is not drawn. Focus changes only a block cursor, which is
/// drawn solid with its character on top when focused and as a hollow box
/// otherwise; no other cursor draws its character.
pub proof fn lemma_cursor_follows_its_shape(shape: TermCursorShape, focused: bool)
    ensures
        spec_cursor_shape(shape, focused) is None <==> shape == TermCursorShape::Hidden,
        spec_cursor_shape(shape, focused) matches Some((s, text)) ==> drawn_as(s, shape)
            && (text <==> (shape == TermCursorShape::Block && focused))
            && (shape == TermCursorShape::Block ==> (s == CursorShape::Block <==> focused)),
        shape != TermCursorShape::Block ==> spec_cursor_shape(shape, true) == spec_cursor_shape(shape, false),
{
}

} // verus!
