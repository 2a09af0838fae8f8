//! The terminal's own state between frames: the queue of changes waiting to
//! be applied to the emulator, mouse and selection tracking, and the
//! decisions taken on input and emulator events.

use vstd::prelude::*;
use std::collections::VecDeque;
use crate::grid::IndexedCell;
use crate::input::{focus_report, paste_text, spec_focus_report, spec_paste_text};
use crate::selection::{GridPoint, SelectionRange, TermCursorShape};

verus! {

/// What the terminal tells the view.
#[derive(Clone, Debug, PartialEq, Eq, Structural)]
pub enum Event {
    TitleChanged,
    Bell,
    Wakeup,
    BlinkChanged(bool),
    SelectionsChanged,
    CloseTerminal,
}

/// Whether a mouse selection is being dragged out.
#[derive(Clone, Copy, Debug, PartialEq, Eq, Structural)]
pub enum SelectionPhase {
    Selecting,
    Ended,
}

/// A scroll of the display.
#[derive(Clone, Copy, Debug, PartialEq, Eq, Structural)]
pub enum Scroll {
    Delta(i32),
    PageUp,
    PageDown,
    Top,
    Bottom,
}

/// Which half of a cell a point falls in.
#[derive(Clone, Copy, Debug, PartialEq, Eq, Structural)]
pub enum Side {
    Left,
    Right,
}

/// How a selection grows: by cell, by rectangle, by word, or by line.
#[derive(Clone, Copy, Debug, PartialEq, Eq, Structural)]
pub enum SelectionType {
    Simple,
    Block,
    Semantic,
    Lines,
}

/// A selection from an anchor to a head, each on one side of its cell.
#[derive(Clone, Copy, Debug, PartialEq, Eq, Structural)]
pub struct Selection {
    pub ty: SelectionType,
    pub anchor: GridPoint,
    pub anchor_side: Side,
    pub head: GridPoint,
    pub head_side: Side,
}

/// A change waiting to be applied to the emulator. `B` is the size of the
/// display, `P` a pointer position on it.
#[derive(Clone, Debug)]
pub enum InternalEvent<B, P> {
    Resize(B),
    Clear,
    Scroll(Scroll),
    ScrollToAlacPoint(GridPoint),
    SetSelection(Option<(Selection, GridPoint)>),
    UpdateSelection(P),
    Copy(Option<bool>),
}

/// The emulator modes the terminal acts on.
#[derive(Clone, Copy, Debug, PartialEq, Eq, Structural)]
pub struct TermMode {
    pub alt_screen: bool,
    pub alternate_scroll: bool,
    pub bracketed_paste: bool,
    pub focus_in_out: bool,
    pub mouse_mode: bool,
}

/// What was last drawn: the cells, modes, scroll position, selection,
/// cursor and display size.
#[derive(Clone, Debug)]
pub struct TerminalContent<B> {
    pub cells: Vec<IndexedCell>,
    pub mode: TermMode,
    pub display_offset: usize,
    pub selection_text: Option<String>,
    pub selection: Option<SelectionRange>,
    pub cursor_shape: TermCursorShape,
    pub cursor_point: GridPoint,
    pub cursor_char: char,
    pub terminal_bounds: B,
    pub scrolled_to_top: bool,
    pub scrolled_to_bottom: bool,
    pub history_size: usize,
}

impl<B> TerminalContent<B> {
    /// Content at a scroll position: it is scrolled to the top when the
    /// whole history is above the display, to the bottom when none is.
    pub fn new(
        cells: Vec<IndexedCell>,
        mode: TermMode,
        display_offset: usize,
        selection_text: Option<String>,
        selection: Option<SelectionRange>,
        cursor_shape: TermCursorShape,
        cursor_point: GridPoint,
        cursor_char: char,
        terminal_bounds: B,
        history_size: usize,
    ) -> (c: Self)
        ensures
            c.cells == cells,
            c.mode == mode,
            c.display_offset == display_offset,
            c.selection_text == selection_text,
            c.selection == selection,
            c.cursor_shape == cursor_shape,
            c.cursor_point == cursor_point,
            c.cursor_char == cursor_char,
            c.terminal_bounds == terminal_bounds,
            c.history_size == history_size,
            c.scrolled_to_top == (display_offset == history_size),
            c.scrolled_to_bottom == (display_offset == 0),
    {
        TerminalContent {
            cells,
            mode,
            display_offset,
            selection_text,
            selection,
            cursor_shape,
            cursor_point,
            cursor_char,
            terminal_bounds,
            scrolled_to_top: display_offset == history_size,
            scrolled_to_bottom: display_offset == 0,
            history_size,
        }
    }
}

/// A selection of `range` from its start (left side) to its end (right side).
pub open spec fn spec_make_selection(start: GridPoint, end: GridPoint) -> Selection {
    Selection { ty: SelectionType::Simple, anchor: start, anchor_side: Side::Left, head: end, head_side: Side::Right }
}

/// A simple selection from `start` to `end`, both included.
pub fn make_selection(start: GridPoint, end: GridPoint) -> (s: Selection)
    ensures
        s == spec_make_selection(start, end),
{
    Selection { ty: SelectionType::Simple, anchor: start, anchor_side: Side::Left, head: end, head_side: Side::Right }
}

/// The selection kind a click starts: none for no click, by cell for one,
/// by word for two, by line for three, none for more.
pub open spec fn click_selection_type(click_count: usize) -> Option<SelectionType> {
    if click_count == 1 {
        Some(SelectionType::Simple)
    } else if click_count == 2 {
        Some(SelectionType::Semantic)
    } else if click_count == 3 {
        Some(SelectionType::Lines)
    } else {
        None
    }
}

/// What a mouse wheel turn does.
#[derive(Clone, Copy, Debug, PartialEq, Eq, Structural)]
pub enum WheelAction {
    /// Nothing to do.
    Nothing,
    /// Report the scroll to the program, which tracks the mouse.
    Report(i32),
    /// Send the program arrow keys for the lines, as the alternate screen
    /// asks for.
    AlternateScroll(i32),
    /// The display was scrolled.
    Scrolled,
}

/// An event of the emulator.
#[derive(Clone, Debug)]
pub enum TermEvent {
    Title(String),
    ResetTitle,
    ClipboardStore(String),
    ClipboardLoad,
    PtyWrite(String),
    TextAreaSizeRequest,
    CursorBlinkingChange(bool),
    Bell,
    Exit,
    ChildExit,
    Wakeup,
    MouseCursorDirty,
    ColorRequest(usize),
}

/// What handling an emulator event asks of the surroundings.
#[derive(Clone, Debug)]
pub enum EventEffect {
    Nothing,
    /// Put this text on the clipboard.
    StoreClipboard(String),
    /// Answer the program with the clipboard's text.
    AnswerClipboard,
    /// Send this text to the program.
    Write(String),
    /// Answer the program with the text area's size.
    ReportSize,
    /// Answer the program with the colour of this palette entry.
    ReportColor(usize),
}

/// The terminal's state: changes queued for the emulator, the last mouse
/// position reported, the last content drawn, the selection head, the
/// title, and the selection phase.
pub struct Terminal<B, P> {
    pub events: VecDeque<InternalEvent<B, P>>,
    pub last_mouse: Option<(GridPoint, Side)>,
    pub last_content: TerminalContent<B>,
    pub selection_head: Option<GridPoint>,
    pub breadcrumb_text: String,
    pub selection_phase: SelectionPhase,
}

impl<B, P> Terminal<B, P> {
    /// The queued changes, oldest first.
    pub open spec fn queue(&self) -> Seq<InternalEvent<B, P>> {
        self.events@
    }

    pub open spec fn phase(&self) -> SelectionPhase {
        self.selection_phase
    }

    /// The last mouse position and side reported to the program.
    pub open spec fn mouse(&self) -> Option<(GridPoint, Side)> {
        self.last_mouse
    }

    /// Everything but the queue is as in `other`.
    pub open spec fn same_but_queue(self, other: Self) -> bool {
        &&& self.last_mouse == other.last_mouse
        &&& self.last_content == other.last_content
        &&& self.selection_head == other.selection_head
        &&& self.breadcrumb_text == other.breadcrumb_text
        &&& self.selection_phase == other.selection_phase
    }

    /// A terminal showing `content`, with nothing queued, no selection
    /// under way and no title.
    pub fn new(content: TerminalContent<B>) -> (t: Self)
        ensures
            t.queue() == Seq::<InternalEvent<B, P>>::empty(),
            t.phase() == SelectionPhase::Ended,
            t.mouse() is None,
            t.last_content == content,
            t.selection_head is None,
            t.breadcrumb_text@ == Seq::<char>::empty(),
    {
        Terminal {
            events: VecDeque::new(),
            last_mouse: None,
            last_content: content,
            selection_head: None,
            breadcrumb_text: String::new(),
            selection_phase: SelectionPhase::Ended,
        }
    }

    fn push_event(&mut self, event: InternalEvent<B, P>)
        ensures
            final(self).queue() == old(self).queue().push(event),
            final(self).same_but_queue(*old(self)),
    {
        self.events.push_back(event);
    }

    /// Takes the oldest queued change.
    pub fn next_event(&mut self) -> (e: Option<InternalEvent<B, P>>)
        ensures
            old(self).queue().len() == 0 ==> e is None && final(self).queue() == old(self).queue(),
            old(self).queue().len() > 0 ==> e == Some(old(self).queue()[0]) && final(self).queue()
                == old(self).queue().drop_first(),
            final(self).same_but_queue(*old(self)),
    {
        self.events.pop_front()
    }

    /// Queues a scroll up by one line.
    pub fn scroll_line_up(&mut self)
        ensures
            final(self).same_but_queue(*old(self)),
            final(self).queue() == old(self).queue().push(InternalEvent::Scroll(Scroll::Delta(1))),
    {
        self.push_event(InternalEvent::Scroll(Scroll::Delta(1)));
    }

    /// Queues a scroll down by one line.
    pub fn scroll_line_down(&mut self)
        ensures
            final(self).same_but_queue(*old(self)),
            final(self).queue() == old(self).queue().push(InternalEvent::Scroll(Scroll::Delta(-1i32))),
    {
        self.push_event(InternalEvent::Scroll(Scroll::Delta(-1)));
    }

    /// Queues a scroll up by one page.
    pub fn scroll_page_up(&mut self)
        ensures
            final(self).same_but_queue(*old(self)),
            final(self).queue() == old(self).queue().push(InternalEvent::Scroll(Scroll::PageUp)),
    {
        self.push_event(InternalEvent::Scroll(Scroll::PageUp));
    }

    /// Queues a scroll down by one page.
    pub fn scroll_page_down(&mut self)
        ensures
            final(self).same_but_queue(*old(self)),
            final(self).queue() == old(self).queue().push(InternalEvent::Scroll(Scroll::PageDown)),
    {
        self.push_event(InternalEvent::Scroll(Scroll::PageDown));
    }

    /// Queues a scroll to the top of the history.
    pub fn scroll_to_top(&mut self)
        ensures
            final(self).same_but_queue(*old(self)),
            final(self).queue() == old(self).queue().push(InternalEvent::Scroll(Scroll::Top)),
    {
        self.push_event(InternalEvent::Scroll(Scroll::Top));
    }

    /// Queues a scroll to the bottom.
    pub fn scroll_to_bottom(&mut self)
        ensures
            final(self).same_but_queue(*old(self)),
            final(self).queue() == old(self).queue().push(InternalEvent::Scroll(Scroll::Bottom)),
    {
        self.push_event(InternalEvent::Scroll(Scroll::Bottom));
    }

    /// Queues the scroll that brings the display to `target_offset` lines
    /// back in the history; nothing when it is there already.
    pub fn scroll_to_offset(&mut self, target_offset: usize)
        requires
            target_offset <= i32::MAX,
            old(self).last_content.display_offset <= i32::MAX,
        ensures
            final(self).same_but_queue(*old(self)),
            target_offset == old(self).last_content.display_offset ==> final(self).queue() == old(self).queue(),
            target_offset != old(self).last_content.display_offset ==> final(self).queue() == old(self).queue().push(
                InternalEvent::Scroll(Scroll::Delta((target_offset - old(self).last_content.display_offset) as i32)),
            ),
    {
        let current = self.last_content.display_offset;
        let delta = target_offset as i32 - current as i32;
        if delta != 0 {
            self.push_event(InternalEvent::Scroll(Scroll::Delta(delta)));
        }
    }

    /// Queues a scroll that brings `point` into view.
    pub fn scroll_to_point(&mut self, point: GridPoint)
        ensures
            final(self).same_but_queue(*old(self)),
            final(self).queue() == old(self).queue().push(InternalEvent::ScrollToAlacPoint(point)),
    {
        self.push_event(InternalEvent::ScrollToAlacPoint(point));
    }

    /// Queues the selection of the whole grid, from the first column of
    /// `topmost_line` to `last_column` of `bottommost_line`.
    pub fn select_all(&mut self, topmost_line: i32, bottommost_line: i32, last_column: usize)
        ensures
            final(self).same_but_queue(*old(self)),
            final(self).queue() == old(self).queue().push(
                InternalEvent::SetSelection(
                    Some(
                        (
                            spec_make_selection(
                                GridPoint { line: topmost_line, column: 0 },
                                GridPoint { line: bottommost_line, column: last_column },
                            ),
                            GridPoint { line: bottommost_line, column: last_column },
                        ),
                    ),
                ),
            ),
    {
        let start = GridPoint { line: topmost_line, column: 0 };
        let end = GridPoint { line: bottommost_line, column: last_column };
        self.set_selection(Some((make_selection(start, end), end)));
    }

    fn set_selection(&mut self, selection: Option<(Selection, GridPoint)>)
        ensures
            final(self).same_but_queue(*old(self)),
            final(self).queue() == old(self).queue().push(InternalEvent::SetSelection(selection)),
    {
        self.push_event(InternalEvent::SetSelection(selection));
    }

    /// Queues a copy of the selection; it is cleared afterwards unless
    /// `keep_selection` is `Some(true)`.
    pub fn copy(&mut self, keep_selection: Option<bool>)
        ensures
            final(self).same_but_queue(*old(self)),
            final(self).queue() == old(self).queue().push(InternalEvent::Copy(keep_selection)),
    {
        self.push_event(InternalEvent::Copy(keep_selection));
    }

    /// Queues clearing the screen.
    pub fn clear(&mut self)
        ensures
            final(self).same_but_queue(*old(self)),
            final(self).queue() == old(self).queue().push(InternalEvent::Clear),
    {
        self.push_event(InternalEvent::Clear);
    }

    /// Queues a resize to `new_bounds` unless the display already has that
    /// size (`unchanged`).
    pub fn set_size(&mut self, new_bounds: B, unchanged: bool)
        ensures
            final(self).same_but_queue(*old(self)),
            unchanged ==> final(self).queue() == old(self).queue(),
            !unchanged ==> final(self).queue() == old(self).queue().push(InternalEvent::Resize(new_bounds)),
    {
        if !unchanged {
            self.push_event(InternalEvent::Resize(new_bounds));
        }
    }

    /// After input reached the program: queues a scroll to the bottom and
    /// the clearing of the selection.
    pub fn input_sent(&mut self)
        ensures
            final(self).same_but_queue(*old(self)),
            final(self).queue() == old(self).queue().push(InternalEvent::Scroll(Scroll::Bottom)).push(
                InternalEvent::SetSelection(None),
            ),
    {
        self.push_event(InternalEvent::Scroll(Scroll::Bottom));
        self.push_event(InternalEvent::SetSelection(None));
    }

    /// Whether a mouse selection is being dragged out.
    pub fn selection_started(&self) -> (res: bool)
        ensures
            res == (self.phase() == SelectionPhase::Selecting),
    {
        match self.selection_phase {
            SelectionPhase::Selecting => true,
            SelectionPhase::Ended => false,
        }
    }

    /// The content last drawn.
    pub fn last_content(&self) -> (c: &TerminalContent<B>)
        ensures
            *c == self.last_content,
    {
        &self.last_content
    }

    /// Whether mouse events go to the program: it asked for them and shift
    /// is not held.
    pub fn mouse_mode(&self, shift: bool) -> (res: bool)
        ensures
            res == (self.last_content.mode.mouse_mode && !shift),
    {
        self.last_content.mode.mouse_mode && !shift
    }

    fn mouse_changed(&mut self, point: GridPoint, side: Side) -> (changed: bool)
        ensures
            final(self).last_content == old(self).last_content,
            final(self).selection_head == old(self).selection_head,
            final(self).breadcrumb_text == old(self).breadcrumb_text,
            changed == (old(self).mouse() != Some((point, side))),
            final(self).mouse() == Some((point, side)),
            final(self).queue() == old(self).queue(),
            final(self).phase() == old(self).phase(),
    {
        match self.last_mouse {
            Some((old_point, old_side)) => {
                if old_point == point && old_side == side {
                    false
                } else {
                    self.last_mouse = Some((point, side));
                    true
                }
            },
            None => {
                self.last_mouse = Some((point, side));
                true
            },
        }
    }

    /// Handles the mouse moving over cell `point`, `side`; returns whether to
    /// report the move to the program: in mouse mode, when the position
    /// differs from the last one.
    pub fn mouse_move(&mut self, shift: bool, point: GridPoint, side: Side) -> (report: bool)
        ensures
            final(self).last_content == old(self).last_content,
            final(self).selection_head == old(self).selection_head,
            final(self).breadcrumb_text == old(self).breadcrumb_text,
            final(self).selection_phase == old(self).selection_phase,
            report == (old(self).last_content.mode.mouse_mode && !shift && old(self).mouse() != Some((point, side))),
            old(self).last_content.mode.mouse_mode && !shift ==> final(self).mouse() == Some((point, side)),
            !(old(self).last_content.mode.mouse_mode && !shift) ==> final(self).mouse() == old(self).mouse(),
            final(self).queue() == old(self).queue(),
    {
        if self.mouse_mode(shift) {
            self.mouse_changed(point, side)
        } else {
            false
        }
    }

    /// Handles a button press at cell `point`, `side` (pointer at
    /// `position`); returns whether to report it to the program, as in mouse
    /// mode. Otherwise a left click starts a selection of the kind the click
    /// count gives, and a shift-click extends the selection.
    pub fn mouse_down(
        &mut self,
        left_button: bool,
        click_count: usize,
        shift: bool,
        point: GridPoint,
        side: Side,
        position: P,
    ) -> (report: bool)
        ensures
            final(self).same_but_queue(*old(self)),
            report == (old(self).last_content.mode.mouse_mode && !shift),
            final(self).queue() == (if report || !left_button || click_selection_type(click_count) is None {
                old(self).queue()
            } else if click_count == 1 && shift {
                old(self).queue().push(InternalEvent::UpdateSelection(position))
            } else {
                old(self).queue().push(
                    InternalEvent::SetSelection(
                        Some(
                            (
                                Selection {
                                    ty: click_selection_type(click_count)->0,
                                    anchor: point,
                                    anchor_side: side,
                                    head: point,
                                    head_side: side,
                                },
                                point,
                            ),
                        ),
                    ),
                )
            }),
    {
        if self.mouse_mode(shift) {
            return true;
        }
        if left_button {
            let selection_type = if click_count == 1 {
                SelectionType::Simple
            } else if click_count == 2 {
                SelectionType::Semantic
            } else if click_count == 3 {
                SelectionType::Lines
            } else {
                return false;
            };
            if click_count == 1 && shift {
                self.push_event(InternalEvent::UpdateSelection(position));
                return false;
            }
            let selection = Selection { ty: selection_type, anchor: point, anchor_side: side, head: point, head_side: side };
            self.push_event(InternalEvent::SetSelection(Some((selection, point))));
        }
        false
    }

    /// Handles a button release; returns whether to report it to the
    /// program, as in mouse mode. The selection phase ends and the last
    /// mouse position is forgotten.
    pub fn mouse_up(&mut self, shift: bool) -> (report: bool)
        ensures
            final(self).last_content == old(self).last_content,
            final(self).selection_head == old(self).selection_head,
            final(self).breadcrumb_text == old(self).breadcrumb_text,
            report == (old(self).last_content.mode.mouse_mode && !shift),
            final(self).phase() == SelectionPhase::Ended,
            final(self).mouse() is None,
            final(self).queue() == old(self).queue(),
    {
        let report = self.mouse_mode(shift);
        self.selection_phase = SelectionPhase::Ended;
        self.last_mouse = None;
        report
    }

    /// Handles a drag to `position`: outside mouse mode a selection is being
    /// dragged out and extended there, and, outside the alternate screen, the
    /// display scrolls by `scroll_lines` when the pointer left the display.
    /// Returns whether the drag was taken as a selection.
    pub fn mouse_drag(&mut self, shift: bool, position: P, scroll_lines: Option<i32>) -> (selecting: bool)
        ensures
            final(self).last_mouse == old(self).last_mouse,
            final(self).last_content == old(self).last_content,
            final(self).selection_head == old(self).selection_head,
            final(self).breadcrumb_text == old(self).breadcrumb_text,
            selecting == !(old(self).last_content.mode.mouse_mode && !shift),
            selecting ==> final(self).phase() == SelectionPhase::Selecting,
            !selecting ==> final(self).phase() == old(self).phase(),
            final(self).queue() == (if !selecting {
                old(self).queue()
            } else if !old(self).last_content.mode.alt_screen && scroll_lines is Some {
                old(self).queue().push(InternalEvent::UpdateSelection(position)).push(
                    InternalEvent::Scroll(Scroll::Delta(scroll_lines->0)),
                )
            } else {
                old(self).queue().push(InternalEvent::UpdateSelection(position))
            }),
    {
        if self.mouse_mode(shift) {
            return false;
        }
        self.selection_phase = SelectionPhase::Selecting;
        self.push_event(InternalEvent::UpdateSelection(position));
        if !self.last_content.mode.alt_screen {
            if let Some(lines) = scroll_lines {
                self.push_event(InternalEvent::Scroll(Scroll::Delta(lines)));
            }
        }
        true
    }

    /// Handles a wheel turn of `scroll_lines` lines, if it amounts to any: in
    /// mouse mode it is reported to the program; on the alternate screen
    /// with alternate scrolling (and shift not held) it becomes arrow keys;
    /// otherwise the display scrolls, unless by zero lines.
    pub fn scroll_wheel(&mut self, shift: bool, scroll_lines: Option<i32>) -> (action: WheelAction)
        ensures
            final(self).same_but_queue(*old(self)),
            action == (match scroll_lines {
                None => WheelAction::Nothing,
                Some(n) => if old(self).last_content.mode.mouse_mode && !shift {
                    WheelAction::Report(n)
                } else if old(self).last_content.mode.alt_screen && old(self).last_content.mode.alternate_scroll && !shift {
                    WheelAction::AlternateScroll(n)
                } else if n != 0 {
                    WheelAction::Scrolled
                } else {
                    WheelAction::Nothing
                },
            }),
            final(self).queue() == (if action == WheelAction::Scrolled {
                old(self).queue().push(InternalEvent::Scroll(Scroll::Delta(scroll_lines->0)))
            } else {
                old(self).queue()
            }),
    {
        let lines = match scroll_lines {
            Some(n) => n,
            None => {
                return WheelAction::Nothing;
            },
        };
        if self.mouse_mode(shift) {
            WheelAction::Report(lines)
        } else if self.last_content.mode.alt_screen && self.last_content.mode.alternate_scroll && !shift {
            WheelAction::AlternateScroll(lines)
        } else if lines != 0 {
            self.push_event(InternalEvent::Scroll(Scroll::Delta(lines)));
            WheelAction::Scrolled
        } else {
            WheelAction::Nothing
        }
    }

    /// What to send when the terminal gains focus, if the program asked.
    pub fn focus_in(&self) -> (res: Option<String>)
        ensures
            match res {
                Some(s) => spec_focus_report(self.last_content.mode.focus_in_out, true) == Some(s@),
                None => spec_focus_report(self.last_content.mode.focus_in_out, true) is None,
            },
    {
        focus_report(self.last_content.mode.focus_in_out, true)
    }

    /// What to send when the terminal loses focus, if the program asked.
    pub fn focus_out(&self) -> (res: Option<String>)
        ensures
            match res {
                Some(s) => spec_focus_report(self.last_content.mode.focus_in_out, false) == Some(s@),
                None => spec_focus_report(self.last_content.mode.focus_in_out, false) is None,
            },
    {
        focus_report(self.last_content.mode.focus_in_out, false)
    }

    /// What pasting `text` sends, in the current paste mode.
    pub fn paste(&self, text: &str) -> (res: String)
        ensures
            res@ == spec_paste_text(text@, self.last_content.mode.bracketed_paste),
    {
        paste_text(text, self.last_content.mode.bracketed_paste)
    }

    /// A selection change was applied: the head moves to the new selection's
    /// head, if there is one.
    pub fn selection_applied(&mut self, selection_head: Option<GridPoint>) -> (e: Event)
        ensures
            final(self).last_mouse == old(self).last_mouse,
            final(self).last_content == old(self).last_content,
            final(self).breadcrumb_text == old(self).breadcrumb_text,
            final(self).selection_phase == old(self).selection_phase,
            e == Event::SelectionsChanged,
            final(self).selection_head == (if selection_head is Some {
                selection_head
            } else {
                old(self).selection_head
            }),
            final(self).queue() == old(self).queue(),
    {
        if let Some(head) = selection_head {
            self.selection_head = Some(head);
        }
        Event::SelectionsChanged
    }

    /// The selection was copied (`copied`, when there was text): unless
    /// asked to keep it, its clearing is queued.
    pub fn copy_applied(&mut self, keep_selection: Option<bool>, copied: bool)
        ensures
            final(self).same_but_queue(*old(self)),
            final(self).queue() == (if copied && keep_selection != Some(true) {
                old(self).queue().push(InternalEvent::SetSelection(None))
            } else {
                old(self).queue()
            }),
    {
        if copied {
            let keep = match keep_selection {
                Some(k) => k,
                None => false,
            };
            if !keep {
                self.push_event(InternalEvent::SetSelection(None));
            }
        }
    }

    /// Handles an emulator event: the title changes, and the event for the
    /// view and the answer for the program are decided.
    pub fn process_event(&mut self, event: TermEvent) -> (res: (Option<Event>, EventEffect))
        ensures
            final(self).last_mouse == old(self).last_mouse,
            final(self).last_content == old(self).last_content,
            final(self).selection_head == old(self).selection_head,
            final(self).selection_phase == old(self).selection_phase,
            res == spec_event_response(event),
            final(self).breadcrumb_text@ == (match event {
                TermEvent::Title(t) => t@,
                TermEvent::ResetTitle => Seq::<char>::empty(),
                _ => old(self).breadcrumb_text@,
            }),
            final(self).queue() == old(self).queue(),
    {
        match event {
            TermEvent::Title(title) => {
                self.breadcrumb_text = title;
                (Some(Event::TitleChanged), EventEffect::Nothing)
            },
            TermEvent::ResetTitle => {
                self.breadcrumb_text = String::new();
                (Some(Event::TitleChanged), EventEffect::Nothing)
            },
            TermEvent::ClipboardStore(data) => (None, EventEffect::StoreClipboard(data)),
            TermEvent::ClipboardLoad => (None, EventEffect::AnswerClipboard),
            TermEvent::PtyWrite(out) => (None, EventEffect::Write(out)),
            TermEvent::TextAreaSizeRequest => (None, EventEffect::ReportSize),
            TermEvent::CursorBlinkingChange(blinking) => (Some(Event::BlinkChanged(blinking)), EventEffect::Nothing),
            TermEvent::Bell => (Some(Event::Bell), EventEffect::Nothing),
            TermEvent::Exit => (Some(Event::CloseTerminal), EventEffect::Nothing),
            TermEvent::ChildExit => (Some(Event::CloseTerminal), EventEffect::Nothing),
            TermEvent::Wakeup => (Some(Event::Wakeup), EventEffect::Nothing),
            TermEvent::MouseCursorDirty => (None, EventEffect::Nothing),
            TermEvent::ColorRequest(index) => (None, EventEffect::ReportColor(index)),
        }
    }
}

/// The event for the view and the answer for the program that an emulator
/// event gives.
pub open spec fn spec_event_response(event: TermEvent) -> (Option<Event>, EventEffect) {
    match event {
        TermEvent::Title(_) => (Some(Event::TitleChanged), EventEffect::Nothing),
        TermEvent::ResetTitle => (Some(Event::TitleChanged), EventEffect::Nothing),
        TermEvent::ClipboardStore(data) => (None, EventEffect::StoreClipboard(data)),
        TermEvent::ClipboardLoad => (None, EventEffect::AnswerClipboard),
        TermEvent::PtyWrite(out) => (None, EventEffect::Write(out)),
        TermEvent::TextAreaSizeRequest => (None, EventEffect::ReportSize),
        TermEvent::CursorBlinkingChange(blinking) => (Some(Event::BlinkChanged(blinking)), EventEffect::Nothing),
        TermEvent::Bell => (Some(Event::Bell), EventEffect::Nothing),
        TermEvent::Exit => (Some(Event::CloseTerminal), EventEffect::Nothing),
        TermEvent::ChildExit => (Some(Event::CloseTerminal), EventEffect::Nothing),
        TermEvent::Wakeup => (Some(Event::Wakeup), EventEffect::Nothing),
        TermEvent::MouseCursorDirty => (None, EventEffect::Nothing),
        TermEvent::ColorRequest(index) => (None, EventEffect::ReportColor(index)),
    }
}

/// The bell indicator after one more happening: an event heard (`Some`),
/// which lights it if it is the bell, or a clearing (`None`).
pub open spec fn bell_step(lit: bool, heard: Option<Event>) -> bool {
    match heard {
        Some(e) => lit || e == Event::Bell,
        None => false,
    }
}

/// The bell indicator after a history of events and clearings, starting
/// unlit.
pub open spec fn bell_of(history: Seq<Option<Event>>) -> bool
    decreases history.len(),
{
    if history.len() == 0 {
        false
    } else {
        bell_step(bell_of(history.drop_last()), history.last())
    }
}

/// The bell indicator is lit exactly when the bell was heard after the last
/// clearing.
pub proof fn lemma_bell_since_last_clear(history: Seq<Option<Event>>)
    ensures
        bell_of(history) == exists|i: int|
            0 <= i < history.len() && #[trigger] history[i] == Some(Event::Bell) && forall|j: int|
                i < j < history.len() ==> (#[trigger] history[j]) is Some,
    decreases history.len(),
{
    if history.len() > 0 {
        let pre = history.drop_last();
        let n = history.len() - 1;
        lemma_bell_since_last_clear(pre);
        let claim = exists|i: int|
            0 <= i < history.len() && #[trigger] history[i] == Some(Event::Bell) && forall|j: int|
                i < j < history.len() ==> (#[trigger] history[j]) is Some;
        if bell_of(history) {
            if history.last() == Some(Event::Bell) {
                assert(history[n] == Some(Event::Bell));
            } else {
                let i = choose|i: int|
                    0 <= i < pre.len() && #[trigger] pre[i] == Some(Event::Bell) && forall|j: int|
                        i < j < pre.len() ==> (#[trigger] pre[j]) is Some;
                assert(history[i] == pre[i]);
                assert forall|j: int| i < j < history.len() implies (#[trigger] history[j]) is Some by {
                    if j < n {
                        assert(history[j] == pre[j]);
                    }
                }
            }
            assert(claim);
        }
        if claim {
            let i = choose|i: int|
                0 <= i < history.len() && #[trigger] history[i] == Some(Event::Bell) && forall|j: int|
                    i < j < history.len() ==> (#[trigger] history[j]) is Some;
            if i < n {
                assert(history[n] is Some);
                assert(pre[i] == history[i]);
                assert forall|j: int| i < j < pre.len() implies (#[trigger] pre[j]) is Some by {
                    assert(pre[j] == history[j]);
                }
            }
        }
    }
}

/// Whether the bell indicator is lit after the view hears `event`: the bell
/// lights it, any other event leaves it as it was.
pub fn bell_after(has_bell: bool, event: &Event) -> (res: bool)
    ensures
        res == (has_bell || *event == Event::Bell),
        res == bell_step(has_bell, Some(*event)),
{
    match event {
        Event::Bell => true,
        _ => has_bell,
    }
}

/// Scroll history kept when none is asked for.
pub const DEFAULT_SCROLL_HISTORY_LINES: usize = 10_000;

/// The most scroll history kept.
pub const MAX_SCROLL_HISTORY_LINES: usize = 100_000;

/// The scroll history to keep: what is asked for, or the default, and never
/// more than the maximum.
pub fn scrolling_history(max_scroll_history_lines: Option<usize>) -> (n: usize)
    ensures
        n == (match max_scroll_history_lines {
            Some(m) => if m < MAX_SCROLL_HISTORY_LINES { m } else { MAX_SCROLL_HISTORY_LINES },
            None => DEFAULT_SCROLL_HISTORY_LINES,
        }),
{
    let asked = match max_scroll_history_lines {
        Some(m) => m,
        None => DEFAULT_SCROLL_HISTORY_LINES,
    };
    if asked < MAX_SCROLL_HISTORY_LINES {
        asked
    } else {
        MAX_SCROLL_HISTORY_LINES
    }
}

/// A batch after one more event: a wake-up sets the flag, any other
/// event is kept after those before it.
pub open spec fn batch_step<E>(events: Seq<E>, wakeup: bool, event: E, is_wakeup: bool) -> (Seq<E>, bool) {
    if is_wakeup {
        (events, true)
    } else {
        (events.push(event), wakeup)
    }
}

/// The batch gathered from events (each with whether it is a wake-up),
/// starting empty.
pub open spec fn batch_of<E>(items: Seq<(E, bool)>) -> (Seq<E>, bool)
    decreases items.len(),
{
    if items.len() == 0 {
        (Seq::empty(), false)
    } else {
        let p = batch_of(items.drop_last());
        batch_step(p.0, p.1, items.last().0, items.last().1)
    }
}

/// The events that are not wake-ups, in order.
pub open spec fn non_wakeups<E>(items: Seq<(E, bool)>) -> Seq<E>
    decreases items.len(),
{
    if items.len() == 0 {
        Seq::empty()
    } else if items.last().1 {
        non_wakeups(items.drop_last())
    } else {
        non_wakeups(items.drop_last()).push(items.last().0)
    }
}

/// A batch keeps every event that is not a wake-up, once each and in
/// arrival order, and one flag that is set exactly when a wake-up came.
pub proof fn lemma_batch_keeps_events<E>(items: Seq<(E, bool)>)
    ensures
        batch_of(items).0 == non_wakeups(items),
        batch_of(items).1 == exists|i: int| 0 <= i < items.len() && (#[trigger] items[i]).1,
    decreases items.len(),
{
    if items.len() > 0 {
        let pre = items.drop_last();
        lemma_batch_keeps_events(pre);
        if batch_of(pre).1 {
            let i = choose|i: int| 0 <= i < pre.len() && (#[trigger] pre[i]).1;
            assert(items[i] == pre[i]);
        }
        if exists|i: int| 0 <= i < items.len() && (#[trigger] items[i]).1 {
            let i = choose|i: int| 0 <= i < items.len() && (#[trigger] items[i]).1;
            if i < items.len() - 1 {
                assert(pre[i] == items[i]);
            }
        }
    }
}

/// Gathering stops at the first event after which more than 100 are held,
/// so a batch whose earlier additions all asked for more holds at most 101.
pub proof fn lemma_batch_at_most_101<E>(items: Seq<(E, bool)>)
    requires
        forall|k: int| 0 < k < items.len() ==> (#[trigger] batch_of(items.take(k))).0.len() <= 100,
    ensures
        batch_of(items).0.len() <= 101,
{
    if items.len() > 0 {
        let n = items.len() - 1;
        assert(items.drop_last() =~= items.take(n));
        if n > 0 {
            assert(batch_of(items.take(n)).0.len() <= 100);
        } else {
            assert(batch_of(items.take(0)).0.len() == 0);
        }
    }
}

/// Emulator events gathered over one short window: wake-ups folded into one
/// flag, the others kept in order.
pub struct EventBatch<E> {
    pub events: Vec<E>,
    pub wakeup: bool,
}

impl<E> EventBatch<E> {
    /// An empty batch.
    pub fn new() -> (b: Self)
        ensures
            b.events@ == Seq::<E>::empty(),
            !b.wakeup,
    {
        EventBatch { events: Vec::new(), wakeup: false }
    }

    /// Adds an event; returns whether to keep gathering, which stops once
    /// more than 100 events are held.
    pub fn add(&mut self, event: E, is_wakeup: bool) -> (more: bool)
        ensures
            is_wakeup ==> final(self).events@ == old(self).events@ && final(self).wakeup,
            !is_wakeup ==> final(self).events@ == old(self).events@.push(event) && final(self).wakeup
                == old(self).wakeup,
            more == (final(self).events@.len() <= 100),
            (final(self).events@, final(self).wakeup) == batch_step(old(self).events@, old(self).wakeup, event, is_wakeup),
    {
        if is_wakeup {
            self.wakeup = true;
        } else {
            self.events.push(event);
        }
        self.events.len() <= 100
    }

    /// Whether nothing arrived.
    pub fn is_idle(&self) -> (res: bool)
        ensures
            res == (self.events@.len() == 0 && !self.wakeup),
    {
        self.events.len() == 0 && !self.wakeup
    }
}


/// How much a selection kind takes at once: a cell, a word, a line (a
/// block selection stands apart).
pub open spec fn selection_unit_rank(ty: SelectionType) -> int {
    match ty {
        SelectionType::Simple => 0,
        SelectionType::Semantic => 1,
        SelectionType::Lines => 2,
        SelectionType::Block => 3,
    }
}

/// Only one to three clicks start a selection, and each further click
/// takes a larger unit: one click by cell, two by word, three by line. So
/// the three kinds are distinct.
pub proof fn lemma_click_count_picks_unit(click_count: usize)
    ensures
        click_selection_type(click_count) is Some <==> 1 <= click_count <= 3,
        click_selection_type(click_count) matches Some(ty) ==> selection_unit_rank(ty) == click_count - 1,
{
}

} // verus!
