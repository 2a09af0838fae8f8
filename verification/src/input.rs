//! What the terminal sends for pasted text and focus changes, and the text
//! of the whole grid.

use vstd::prelude::*;
use crate::text::{char_is_white_space, chars_of, is_white_space, lemma_trim_end_skip, push_char, trim_end};

verus! {

/// Where input bytes come from.
#[derive(Clone, Copy, Debug, PartialEq, Eq, Structural)]
pub enum InputOrigin {
    Keystroke,
    Text,
    Paste,
    Mouse,
    Scroll,
    Focus,
    Clipboard,
    System,
    Programmatic,
}

pub open spec fn esc() -> char {
    '\u{1b}'
}

/// The bracketed-paste start marker `ESC [200~`.
pub open spec fn paste_start() -> Seq<char> {
    seq![esc(), '[', '2', '0', '0', '~']
}

/// The bracketed-paste end marker `ESC [201~`.
pub open spec fn paste_end() -> Seq<char> {
    seq![esc(), '[', '2', '0', '1', '~']
}

/// `s` with every escape character removed.
pub open spec fn without_esc(s: Seq<char>) -> Seq<char>
    decreases s.len(),
{
    if s.len() == 0 {
        s
    } else {
        let rest = without_esc(s.drop_last());
        if s.last() == esc() {
            rest
        } else {
            rest.push(s.last())
        }
    }
}

/// `s` with each `\r\n`, taken left to right, replaced by `\r`.
pub open spec fn crlf_to_cr(s: Seq<char>) -> Seq<char>
    decreases s.len(),
{
    if s.len() >= 2 && s[0] == '\r' && s[1] == '\n' {
        seq!['\r'] + crlf_to_cr(s.subrange(2, s.len() as int))
    } else if s.len() >= 1 {
        seq![s[0]] + crlf_to_cr(s.drop_first())
    } else {
        s
    }
}

/// `s` with each `\n` replaced by `\r`.
pub open spec fn lf_to_cr(s: Seq<char>) -> Seq<char> {
    s.map_values(|c: char| if c == '\n' { '\r' } else { c })
}

/// What pasting `text` sends: in bracketed-paste mode the text without its
/// escape characters between the two markers, else the text with line
/// breaks turned into carriage returns.
pub open spec fn spec_paste_text(text: Seq<char>, bracketed: bool) -> Seq<char> {
    if bracketed {
        paste_start() + without_esc(text) + paste_end()
    } else {
        lf_to_cr(crlf_to_cr(text))
    }
}

fn push_marker(out: &mut String, last: char)
    ensures
        final(out)@ == old(out)@ + seq![esc(), '[', '2', '0', last, '~'],
{
    push_char(out, '\u{1b}');
    push_char(out, '[');
    push_char(out, '2');
    push_char(out, '0');
    push_char(out, last);
    push_char(out, '~');
    assert(out@ =~= old(out)@ + seq![esc(), '[', '2', '0', last, '~']);
}

proof fn lemma_crlf_step(s: Seq<char>, i: int)
    requires
        0 <= i < s.len(),
    ensures
        s.len() - i >= 2 && s[i] == '\r' && s[i + 1] == '\n' ==> crlf_to_cr(s.subrange(i, s.len() as int))
            == seq!['\r'] + crlf_to_cr(s.subrange(i + 2, s.len() as int)),
        !(s.len() - i >= 2 && s[i] == '\r' && s[i + 1] == '\n') ==> crlf_to_cr(s.subrange(i, s.len() as int))
            == seq![s[i]] + crlf_to_cr(s.subrange(i + 1, s.len() as int)),
{
    let t = s.subrange(i, s.len() as int);
    if s.len() - i >= 2 {
        assert(t.subrange(2, t.len() as int) =~= s.subrange(i + 2, s.len() as int));
    }
    assert(t.drop_first() =~= s.subrange(i + 1, s.len() as int));
}

/// The characters that pasting `text` sends to the terminal.
pub fn paste_text(text: &str, bracketed: bool) -> (res: String)
    ensures
        res@ == spec_paste_text(text@, bracketed),
{
    let chars = chars_of(text);
    let n = chars.len();
    let mut out = String::new();
    if bracketed {
        push_marker(&mut out, '0');
        let ghost head = out@;
        let mut i: usize = 0;
        while i < n
            invariant
                n == chars@.len(),
                chars@ == text@,
                i <= n,
                out@ == head + without_esc(chars@.subrange(0, i as int)),
            decreases n - i,
        {
            let c = chars[i];
            proof {
                let p = chars@.subrange(0, i + 1);
                assert(p.drop_last() =~= chars@.subrange(0, i as int));
                assert(p.last() == c);
            }
            if c != '\u{1b}' {
                push_char(&mut out, c);
                assert(out@ =~= head + without_esc(chars@.subrange(0, i + 1)));
            }
            i = i + 1;
        }
        assert(chars@.subrange(0, n as int) =~= text@);
        push_marker(&mut out, '1');
        assert(out@ =~= spec_paste_text(text@, bracketed));
    } else {
        let mut i: usize = 0;
        assert(chars@.subrange(0, n as int) =~= text@);
        assert(out@ + lf_to_cr(crlf_to_cr(text@)) =~= lf_to_cr(crlf_to_cr(text@)));
        while i < n
            invariant
                n == chars@.len(),
                chars@ == text@,
                i <= n,
                lf_to_cr(crlf_to_cr(text@)) == out@ + lf_to_cr(crlf_to_cr(chars@.subrange(i as int, n as int))),
            decreases n - i,
        {
            proof {
                lemma_crlf_step(chars@, i as int);
            }
            if i + 1 < n && chars[i] == '\r' && chars[i + 1] == '\n' {
                let ghost rest = crlf_to_cr(chars@.subrange(i + 2, n as int));
                push_char(&mut out, '\r');
                proof {
                    assert(lf_to_cr(seq!['\r'] + rest) =~= seq!['\r'] + lf_to_cr(rest));
                }
                i = i + 2;
            } else {
                let c = chars[i];
                let ghost rest = crlf_to_cr(chars@.subrange(i + 1, n as int));
                let d = if c == '\n' { '\r' } else { c };
                push_char(&mut out, d);
                proof {
                    assert(lf_to_cr(seq![c] + rest) =~= seq![d] + lf_to_cr(rest));
                }
                i = i + 1;
            }
        }
        assert(chars@.subrange(n as int, n as int) =~= Seq::<char>::empty());
        assert(out@ =~= spec_paste_text(text@, bracketed));
    }
    out
}

/// What the terminal reports when it gains (`ESC [I`) or loses (`ESC [O`)
/// focus, if the program asked for focus reports.
pub open spec fn spec_focus_report(focus_in_out: bool, gained: bool) -> Option<Seq<char>> {
    if focus_in_out {
        Some(seq![esc(), '[', if gained { 'I' } else { 'O' }])
    } else {
        None
    }
}

/// The focus report to send, if any.
pub fn focus_report(focus_in_out: bool, gained: bool) -> (res: Option<String>)
    ensures
        match res {
            Some(s) => spec_focus_report(focus_in_out, gained) == Some(s@),
            None => spec_focus_report(focus_in_out, gained) is None,
        },
{
    if focus_in_out {
        let mut out = String::new();
        push_char(&mut out, '\u{1b}');
        push_char(&mut out, '[');
        push_char(&mut out, if gained { 'I' } else { 'O' });
        assert(out@ =~= seq![esc(), '[', if gained { 'I' } else { 'O' }]);
        Some(out)
    } else {
        None
    }
}

/// The text of grid rows: each row without trailing white space, ended by a
/// newline.
pub open spec fn rows_text(rows: Seq<Seq<char>>) -> Seq<char>
    decreases rows.len(),
{
    if rows.len() == 0 {
        Seq::empty()
    } else {
        rows_text(rows.drop_last()) + trim_end(rows.last()).push('\n')
    }
}

pub open spec fn rows_view(rows: Seq<Vec<char>>) -> Seq<Seq<char>> {
    rows.map_values(|r: Vec<char>| r@)
}

/// The text of the rows of a grid, top to bottom.
pub fn grid_text(rows: &Vec<Vec<char>>) -> (text: String)
    ensures
        text@ == rows_text(rows_view(rows@)),
{
    let mut text = String::new();
    let mut k: usize = 0;
    while k < rows.len()
        invariant
            k <= rows@.len(),
            text@ == rows_text(rows_view(rows@).subrange(0, k as int)),
        decreases rows@.len() - k,
    {
        let row = &rows[k];
        let mut e: usize = row.len();
        while e > 0 && char_is_white_space(row[e - 1])
            invariant
                e <= row@.len(),
                forall|j: int| e <= j < row@.len() ==> is_white_space(#[trigger] row@[j]),
            decreases e,
        {
            e = e - 1;
        }
        proof {
            lemma_trim_end_skip(row@, e as int);
            let kept = row@.subrange(0, e as int);
            if e > 0 {
                assert(kept.last() == row@[e - 1]);
            }
            assert(trim_end(kept) == kept);
        }
        let ghost before = text@;
        let mut j: usize = 0;
        while j < e
            invariant
                j <= e <= row@.len(),
                text@ == before + row@.subrange(0, j as int),
            decreases e - j,
        {
            push_char(&mut text, row[j]);
            assert(row@.subrange(0, j + 1) =~= row@.subrange(0, j as int).push(row@[j as int]));
            j = j + 1;
        }
        push_char(&mut text, '\n');
        proof {
            let rv = rows_view(rows@);
            assert(rv.subrange(0, k + 1).drop_last() =~= rv.subrange(0, k as int));
            assert(rv.subrange(0, k + 1).last() == row@);
            assert(text@ =~= before + trim_end(row@).push('\n'));
        }
        k = k + 1;
    }
    assert(rows_view(rows@).subrange(0, rows@.len() as int) =~= rows_view(rows@));
    text
}

/// A lone carriage return typed by the user: a command being submitted.
pub open spec fn spec_is_command_submit(input: Seq<u8>, origin: InputOrigin) -> bool {
    (origin == InputOrigin::Keystroke || origin == InputOrigin::Text) && input == seq![0x0du8]
}

/// Whether input from `origin` submits a command.
pub fn is_command_submit(input: &[u8], origin: InputOrigin) -> (res: bool)
    ensures
        res == spec_is_command_submit(input@, origin),
{
    let user = match origin {
        InputOrigin::Keystroke | InputOrigin::Text => true,
        _ => false,
    };
    if user && input.len() == 1 && input[0] == 0x0d {
        assert(input@ =~= seq![0x0du8]);
        true
    } else {
        proof {
            if input@ == seq![0x0du8] {
                assert(input@[0] == 0x0d);
            }
        }
        false
    }
}

proof fn lemma_without_esc_has_none(s: Seq<char>)
    ensures
        forall|i: int| 0 <= i < without_esc(s).len() ==> #[trigger] without_esc(s)[i] != esc(),
    decreases s.len(),
{
    if s.len() > 0 {
        lemma_without_esc_has_none(s.drop_last());
        let rest = without_esc(s.drop_last());
        if s.last() != esc() {
            assert forall|i: int| 0 <= i < rest.push(s.last()).len() implies #[trigger] rest.push(s.last())[i] != esc() by {
                if i < rest.len() {
                    assert(rest.push(s.last())[i] == rest[i]);
                }
            }
        }
    }
}

/// Pasted text cannot end bracketed paste early: between the markers there
/// is no escape character.
pub proof fn lemma_bracketed_paste_body_has_no_escape(text: Seq<char>)
    ensures
        spec_paste_text(text, true) == paste_start() + without_esc(text) + paste_end(),
        forall|i: int| 0 <= i < without_esc(text).len() ==> #[trigger] without_esc(text)[i] != esc(),
{
    lemma_without_esc_has_none(text);
}

/// Outside bracketed-paste mode, pasted text reaches the program with no
/// line feed: every line break arrives as a carriage return.
pub proof fn lemma_plain_paste_has_no_line_feed(text: Seq<char>)
    ensures
        forall|i: int| 0 <= i < spec_paste_text(text, false).len() ==> #[trigger] spec_paste_text(text, false)[i] != '\n',
{
}

} // verus!
