//! Terminal task model: the output region renderer and the foreground
//! session loop's state machine. Every drawing decision is computed here as
//! a list of terminal commands; the transport that owns the real terminal
//! executes them.

use vstd::prelude::*;

verus! {

use vstd::arithmetic::div_mod::{lemma_mod_division_less_than_divisor, lemma_small_mod};
use vstd::string::StrSliceExecFns;
use crate::request::RequestTaskMessage;
use crate::scanner::OutputMetadata;
use crate::userin::{prompt_line, prompt_rows, UserIn};
use crate::width::{char_width, display_width, wrap_state, wrapped_rows, StrExt};

/// The two polling modes of the terminal loop: block for a keystroke, or
/// wait briefly for a network update and then look for a keystroke.
#[derive(PartialEq, Eq, Structural, Clone, Copy, Debug)]
pub enum PollingMode {
    AwaitUserin,
    AwaitRequestUpdate,
}

/// What the terminal task sends to the orchestrator.
pub enum TermTaskMessage {
    ReceivedUserPrompt { user_prompt: String, llm_answer_prev: Option<String> },
    Die,
}

/// Keyboard input surface, already mapped from the terminal's raw events;
/// only presses and repeats reach the model, never releases.
#[derive(Clone, Copy, Debug)]
pub enum KeyInput {
    Char(char),
    Enter { shift: bool },
    Backspace,
    Up,
    Down,
    CtrlC,
    Other,
}

/// One terminal drawing command.
#[derive(PartialEq, Eq, Clone, Copy, Debug)]
pub enum DrawCmd {
    MoveTo(u16, u16),
    MoveToRow(u16),
    MoveToColumn(u16),
    SavePosition,
    RestorePosition,
    Print(char),
    PrintStyled(char, bool),
    ClearCurrentLine,
}

/// Commands that force a one-row scroll of the whole viewport: a newline
/// printed at the last physical row pushes everything up, and the cursor
/// returns to column 0 of the row it was on.
pub open spec fn scroll_cmds(th: int) -> Seq<DrawCmd> {
    seq![
        DrawCmd::SavePosition,
        DrawCmd::MoveToRow((th - 1) as u16),
        DrawCmd::Print('\n'),
        DrawCmd::RestorePosition,
        DrawCmd::MoveToColumn(0),
    ]
}

/// One character of a piece being written: `st` is the commands so far and
/// the current column. A newline only scrolls; a character that would exceed
/// the width scrolls and then prints at column 0.
pub open spec fn print_step(st: (Seq<DrawCmd>, int), c: char, tw: int, th: int) -> (
    Seq<DrawCmd>,
    int,
) {
    let w = char_width(c) as int;
    if c == '\n' {
        (st.0 + scroll_cmds(th), 0)
    } else if st.1 + w > tw {
        (st.0 + scroll_cmds(th) + seq![DrawCmd::Print(c)], w)
    } else {
        (st.0 + seq![DrawCmd::Print(c)], st.1 + w)
    }
}

/// The write of a whole piece starting at column `col`: the commands and the
/// final column.
pub open spec fn print_walk(s: Seq<char>, col: int, tw: int, th: int) -> (Seq<DrawCmd>, int)
    decreases s.len(),
{
    if s.len() == 0 {
        (Seq::empty(), col)
    } else {
        print_step(print_walk(s.drop_last(), col, tw, th), s.last(), tw, th)
    }
}

/// Commands that clear the rows `top ..= bot`.
pub open spec fn clear_rows_cmds(top: int, bot: int) -> Seq<DrawCmd>
    decreases bot + 1 - top,
{
    if top > bot {
        Seq::empty()
    } else {
        clear_rows_cmds(top, bot - 1) + seq![DrawCmd::MoveToRow(bot as u16), DrawCmd::ClearCurrentLine]
    }
}

/// A print of one character.
pub open spec fn print_of(c: char) -> DrawCmd {
    DrawCmd::Print(c)
}

/// Each character printed in place.
pub open spec fn plain_prints(s: Seq<char>) -> Seq<DrawCmd> {
    Seq::new(s.len(), |i: int| print_of(s[i]))
}

proof fn lemma_plain_prints_push(s: Seq<char>, c: char)
    ensures
        plain_prints(s.push(c)) == plain_prints(s).push(DrawCmd::Print(c)),
{
    assert forall|k: int| 0 <= k < s.push(c).len() implies plain_prints(s.push(c))[k]
        == plain_prints(s).push(DrawCmd::Print(c))[k] by {
        if k < s.len() {
            assert(s.push(c)[k] == s[k]);
        } else {
            assert(s.push(c)[k] == c);
        }
    }
    assert(plain_prints(s.push(c)) =~= plain_prints(s).push(DrawCmd::Print(c)));
}

/// Total display width of a line.
pub open spec fn text_width(s: Seq<char>) -> int
    decreases s.len(),
{
    if s.len() == 0 {
        0
    } else {
        text_width(s.drop_last()) + char_width(s.last())
    }
}

/// The lines of a span, split at newlines; a trailing newline closes the
/// last line without opening an empty one.
pub open spec fn lines_of(s: Seq<char>) -> Seq<Seq<char>>
    decreases s.len(),
{
    if s.len() == 0 {
        Seq::empty()
    } else {
        let k = crate::scanner::line_len(s) as int;
        if k >= s.len() {
            seq![s]
        } else {
            seq![s.take(k)] + lines_of(s.subrange(k + 1, s.len() as int))
        }
    }
}

/// A line's width capped at the terminal width.
pub open spec fn clamped_width(l: Seq<char>, tw: int) -> int {
    let w = text_width(l);
    if w > tw {
        tw
    } else {
        w
    }
}

/// The widest capped line of a span: the width the highlight rectangle is
/// padded to.
pub open spec fn longest_width(ls: Seq<Seq<char>>, tw: int) -> int
    decreases ls.len(),
{
    if ls.len() == 0 {
        0
    } else {
        let m = longest_width(ls.drop_last(), tw);
        let c = clamped_width(ls.last(), tw);
        if c > m {
            c
        } else {
            m
        }
    }
}

/// A styled print of one character.
pub open spec fn styled_of(c: char, hl: bool) -> DrawCmd {
    DrawCmd::PrintStyled(c, hl)
}

/// Each character of a line printed with the highlight style.
pub open spec fn styled_prints(s: Seq<char>, hl: bool) -> Seq<DrawCmd> {
    Seq::new(s.len(), |i: int| styled_of(s[i], hl))
}

/// `k` styled spaces, padding a highlighted row.
pub open spec fn pad_cmds(k: int, hl: bool) -> Seq<DrawCmd> {
    Seq::new(
        if k >= 0 {
            k as nat
        } else {
            0
        },
        |i: int| styled_of(' ', hl),
    )
}

/// One highlighted row: the line's characters, padding up to the widest line
/// of the span, then a newline back at column 0.
pub open spec fn highlight_line_cmds(line: Seq<char>, tw: int, longest: int, hl: bool) -> Seq<
    DrawCmd,
> {
    styled_prints(line, hl) + pad_cmds(longest - text_width(line) % tw, hl) + seq![
        DrawCmd::Print('\n'),
        DrawCmd::MoveToColumn(0),
    ]
}

/// All rows of the highlighted span, in order.
pub open spec fn highlight_lines_cmds(ls: Seq<Seq<char>>, tw: int, longest: int, hl: bool) -> Seq<
    DrawCmd,
>
    decreases ls.len(),
{
    if ls.len() == 0 {
        Seq::empty()
    } else {
        highlight_lines_cmds(ls.drop_last(), tw, longest, hl) + highlight_line_cmds(
            ls.last(),
            tw,
            longest,
            hl,
        )
    }
}

/// The full command list of one highlight application: anchor the cursor at
/// the span's first character and recolor each of its rows.
pub open spec fn highlight_span_cmds(
    s: Seq<char>,
    tw: int,
    th: int,
    userin_rows: int,
    start: int,
    end: int,
    hl: bool,
) -> Seq<DrawCmd> {
    let span = s.subrange(start, end);
    let ls = lines_of(span);
    let longest = longest_width(ls, tw);
    let p = wrap_state(s.take(start), tw);
    let rel = {
        let v = th - (userin_rows + wrapped_rows(s, tw)) + p.0;
        if v < 0 {
            0
        } else if v > u16::MAX {
            u16::MAX as int
        } else {
            v
        }
    };
    seq![DrawCmd::SavePosition, DrawCmd::MoveTo(p.1 as u16, rel as u16)] + highlight_lines_cmds(
        ls,
        tw,
        longest,
        hl,
    ) + seq![DrawCmd::RestorePosition]
}

/// The commands of a highlight request as the key handler issues it: a span
/// that does not lie inside the buffer is ignored.
pub open spec fn guarded_highlight_cmds(
    s: Seq<char>,
    tw: int,
    th: int,
    userin_rows: int,
    b: crate::scanner::SpecBlock,
    hl: bool,
) -> Seq<DrawCmd> {
    if 0 <= b.start <= b.end <= s.len() {
        highlight_span_cmds(s, tw, th, userin_rows, b.start, b.end, hl)
    } else {
        Seq::empty()
    }
}

proof fn lemma_longest_bound(ls: Seq<Seq<char>>, tw: int, i: int)
    requires
        0 <= i < ls.len(),
    ensures
        longest_width(ls, tw) >= clamped_width(ls[i], tw),
    decreases ls.len(),
{
    if i == ls.len() - 1 {
    } else {
        let p = ls.drop_last();
        assert(p[i] == ls[i]);
        lemma_longest_bound(p, tw, i);
    }
}

/// The terminal task's state: the input region, the accumulated output text,
/// the scanner results, the highlighted block, and the terminal size.
pub struct TermTask {
    pub userin: UserIn,
    pub llmout_buf: String,
    pub polling_mode: PollingMode,
    pub metadata: OutputMetadata,
    pub selected_code_block: usize,
    pub tsize: (u16, u16),
}

impl TermTask {
    pub fn new() -> (r: Self)
        ensures
            r.userin.buf@ == Seq::<char>::empty(),
            r.userin.dist_to_output == 1,
            r.userin.lines_info.numlines == 1,
            r.userin.lines_info.last_ln_width == 0,
            r.llmout_buf@ == Seq::<char>::empty(),
            r.polling_mode == PollingMode::AwaitRequestUpdate,
            r.metadata.blocks_view() == Seq::<crate::scanner::SpecBlock>::empty(),
            r.selected_code_block == 0,
            r.tsize == (0u16, 0u16),
    {
        Self {
            userin: UserIn::new(),
            llmout_buf: String::new(),
            polling_mode: PollingMode::AwaitRequestUpdate,
            metadata: OutputMetadata::new(),
            selected_code_block: 0,
            tsize: (0, 0),
        }
    }

    /// Commands that write a piece on screen at a position with proper
    /// wrapping and cursor movement, scrolling the viewport at each newline
    /// or wrap.
    pub fn print(&self, s: &str, col: u16, row: u16) -> (cmds: Vec<DrawCmd>)
        requires
            self.tsize.1 >= 1,
        ensures
            cmds@ == seq![DrawCmd::MoveTo(col, row)] + print_walk(
                s@,
                col as int,
                self.tsize.0 as int,
                self.tsize.1 as int,
            ).0,
    {
        let tw = self.tsize.0;
        let th = self.tsize.1;
        let mut cmds: Vec<DrawCmd> = Vec::new();
        cmds.push(DrawCmd::MoveTo(col, row));
        let n = s.unicode_len();
        let mut curcol = col;
        let mut i: usize = 0;
        proof {
            assert(cmds@ =~= seq![DrawCmd::MoveTo(col, row)] + print_walk(
                s@.take(0),
                col as int,
                tw as int,
                th as int,
            ).0);
        }
        while i < n
            invariant
                i <= n == s@.len(),
                tw == self.tsize.0,
                th == self.tsize.1,
                th >= 1,
                ({
                    let w = print_walk(s@.take(i as int), col as int, tw as int, th as int);
                    cmds@ == seq![DrawCmd::MoveTo(col, row)] + w.0 && curcol as int == w.1
                }),
            decreases n - i,
        {
            proof {
                assert(s@.take(i as int + 1).drop_last() =~= s@.take(i as int));
                assert(s@.take(i as int + 1).last() == s@[i as int]);
            }
            let c = s.get_char(i);
            if c == '\n' {
                cmds.push(DrawCmd::SavePosition);
                cmds.push(DrawCmd::MoveToRow(th - 1));
                cmds.push(DrawCmd::Print('\n'));
                cmds.push(DrawCmd::RestorePosition);
                cmds.push(DrawCmd::MoveToColumn(0));
                curcol = 0;
            } else {
                let w = display_width(c);
                if curcol as usize + w > tw as usize {
                    cmds.push(DrawCmd::SavePosition);
                    cmds.push(DrawCmd::MoveToRow(th - 1));
                    cmds.push(DrawCmd::Print('\n'));
                    cmds.push(DrawCmd::RestorePosition);
                    cmds.push(DrawCmd::MoveToColumn(0));
                    cmds.push(DrawCmd::Print(c));
                    curcol = w as u16;
                } else {
                    cmds.push(DrawCmd::Print(c));
                    curcol = curcol + w as u16;
                }
            }
            proof {
                let wlk = print_walk(s@.take(i as int + 1), col as int, tw as int, th as int);
                assert(cmds@ =~= seq![DrawCmd::MoveTo(col, row)] + wlk.0);
            }
            i = i + 1;
        }
        proof {
            assert(s@.take(n as int) =~= s@);
        }
        cmds
    }

    /// Commands that clear the input region's rows, leaving the cursor where
    /// it was. The redraw distance must still lie on screen.
    pub fn clear_userin(&self) -> (cmds: Vec<DrawCmd>)
        requires
            self.userin.dist_to_output <= self.tsize.1,
            self.tsize.1 < u16::MAX,
        ensures
            cmds@ == seq![DrawCmd::SavePosition] + clear_rows_cmds(
                self.tsize.1 - self.userin.dist_to_output,
                self.tsize.1 as int,
            ) + seq![DrawCmd::RestorePosition],
    {
        let mut cmds: Vec<DrawCmd> = Vec::new();
        cmds.push(DrawCmd::SavePosition);
        let dist = self.userin.dist_to_output as u16;
        let userin_top = self.tsize.1 - dist;
        let mut n = userin_top;
        proof {
            assert(cmds@ =~= seq![DrawCmd::SavePosition] + clear_rows_cmds(
                userin_top as int,
                userin_top as int - 1,
            ));
        }
        while n <= self.tsize.1
            invariant
                userin_top <= n <= self.tsize.1 + 1,
                self.tsize.1 < u16::MAX,
                cmds@ == seq![DrawCmd::SavePosition] + clear_rows_cmds(
                    userin_top as int,
                    n as int - 1,
                ),
            decreases self.tsize.1 + 1 - n,
        {
            cmds.push(DrawCmd::MoveToRow(n));
            cmds.push(DrawCmd::ClearCurrentLine);
            proof {
                assert(cmds@ =~= seq![DrawCmd::SavePosition] + clear_rows_cmds(
                    userin_top as int,
                    n as int,
                ));
            }
            n = n + 1;
        }
        cmds.push(DrawCmd::RestorePosition);
        proof {
            assert(cmds@ =~= seq![DrawCmd::SavePosition] + clear_rows_cmds(
                userin_top as int,
                self.tsize.1 as int,
            ) + seq![DrawCmd::RestorePosition]);
        }
        cmds
    }

    /// Commands that redraw the whole input region at its anchored row: the
    /// old rows are cleared and the prompt line is printed afresh.
    pub fn refresh_userin(&self) -> (cmds: Vec<DrawCmd>)
        requires
            self.userin.dist_to_output <= self.tsize.1,
            self.tsize.1 < u16::MAX,
        ensures
            cmds@ == seq![DrawCmd::SavePosition] + clear_rows_cmds(
                self.tsize.1 - self.userin.dist_to_output,
                self.tsize.1 as int,
            ) + seq![
                DrawCmd::RestorePosition,
                DrawCmd::MoveTo(0, (self.tsize.1 - self.userin.dist_to_output) as u16),
            ] + plain_prints(prompt_line(self.userin.buf@)),
    {
        let mut cmds = self.clear_userin();
        let dist = self.userin.dist_to_output as u16;
        cmds.push(DrawCmd::MoveTo(0, self.tsize.1 - dist));
        let ghost base = cmds@;
        cmds.push(DrawCmd::Print('>'));
        cmds.push(DrawCmd::Print(' '));
        let n = self.userin.buf.as_str().unicode_len();
        let mut i: usize = 0;
        proof {
            let t0 = prompt_line(self.userin.buf@.take(0));
            assert(t0.len() == 2 && t0[0] == '>' && t0[1] == ' ');
            assert(plain_prints(t0).len() == 2);
            assert(plain_prints(t0)[0] == DrawCmd::Print('>'));
            assert(plain_prints(t0)[1] == DrawCmd::Print(' '));
            assert(cmds@ =~= base + plain_prints(t0));
        }
        while i < n
            invariant
                i <= n == self.userin.buf@.len(),
                cmds@ == base + plain_prints(prompt_line(self.userin.buf@.take(i as int))),
            decreases n - i,
        {
            let c = self.userin.buf.as_str().get_char(i);
            cmds.push(DrawCmd::Print(c));
            proof {
                let t0 = prompt_line(self.userin.buf@.take(i as int));
                let t1 = prompt_line(self.userin.buf@.take(i as int + 1));
                assert(t1 =~= t0.push(self.userin.buf@[i as int]));
                lemma_plain_prints_push(t0, self.userin.buf@[i as int]);
                assert(cmds@ =~= base + plain_prints(t1));
            }
            i = i + 1;
        }
        proof {
            assert(self.userin.buf@.take(n as int) =~= self.userin.buf@);
        }
        cmds
    }

    /// The on-screen row and column at which the character at
    /// `output_str_idx` of the output buffer lands, found by replaying the
    /// one width-model walk over the buffer up to that offset: a newline
    /// returns to column 0, a wrapping character restarts at its own width.
    pub fn output_idx_to_term_pos(&self, tsize: (u16, u16), output_str_idx: usize) -> (r: (
        u16,
        u16,
    ))
        requires
            self.llmout_buf@.len() < u16::MAX,
        ensures
            ({
                let k = if output_str_idx <= self.llmout_buf@.len() {
                    output_str_idx as int
                } else {
                    self.llmout_buf@.len() as int
                };
                let p = wrap_state(self.llmout_buf@.take(k), tsize.0 as int);
                r.0 == p.0 && r.1 == p.1
            }),
    {
        let n = self.llmout_buf.as_str().unicode_len();
        let upto = if output_str_idx <= n {
            output_str_idx
        } else {
            n
        };
        let mut idx_row: u16 = 0;
        let mut idx_col: u16 = 0;
        let mut i: usize = 0;
        while i < upto
            invariant
                i <= upto <= n == self.llmout_buf@.len() < u16::MAX,
                idx_row <= i,
                ({
                    let p = wrap_state(self.llmout_buf@.take(i as int), tsize.0 as int);
                    idx_row as int == p.0 && idx_col as int == p.1
                }),
            decreases upto - i,
        {
            proof {
                assert(self.llmout_buf@.take(i as int + 1).drop_last() =~= self.llmout_buf@.take(
                    i as int,
                ));
                assert(self.llmout_buf@.take(i as int + 1).last() == self.llmout_buf@[i as int]);
            }
            let c = self.llmout_buf.as_str().get_char(i);
            if c == '\n' {
                idx_row = idx_row + 1;
                idx_col = 0;
            } else {
                let w = display_width(c);
                if idx_col as usize + w > tsize.0 as usize {
                    idx_row = idx_row + 1;
                    idx_col = w as u16;
                } else {
                    idx_col = idx_col + w as u16;
                }
            }
            i = i + 1;
        }
        (idx_row, idx_col)
    }

    /// Commands that apply or remove the highlight on the span
    /// `start .. end` of the output buffer: the span's on-screen anchor is
    /// found by replaying the width computation, and every physical row of
    /// the span is recolored, padded to the widest line so the rectangle is
    /// visually uniform.
    pub fn set_highlight(&self, highlight: bool, start: usize, end: usize) -> (cmds: Vec<DrawCmd>)
        requires
            start <= end <= self.llmout_buf@.len(),
            self.llmout_buf@.len() < u16::MAX,
            self.tsize.0 >= 1,
        ensures
            cmds@ == highlight_span_cmds(
                self.llmout_buf@,
                self.tsize.0 as int,
                self.tsize.1 as int,
                self.userin.lines_info.numlines as int,
                start as int,
                end as int,
                highlight,
            ),
    {
        let ghost s = self.llmout_buf@;
        let tw = self.tsize.0;
        let ghost span = s.subrange(start as int, end as int);
        let (start_row, start_col) = self.output_idx_to_term_pos(self.tsize, start);
        let userin_ln = self.userin.get_lines_info().numlines;
        let (out_ln, _) = self.llmout_buf.as_str().wrapped_width(tw);
        let t_height = self.tsize.1 as i64;
        let block_height = userin_ln as i64 + out_ln as i64;
        let mut rel64: i64 = t_height - block_height + start_row as i64;
        if rel64 < 0 {
            rel64 = 0;
        }
        if rel64 > 65535 {
            rel64 = 65535;
        }
        let start_row_rel = rel64 as u16;

        // First pass: the span's lines, as offsets into the buffer.
        let mut spans: Vec<(usize, usize)> = Vec::new();
        let mut pos = start;
        proof {
            assert(lines_of(span) =~= spans@.map_values(
                |p: (usize, usize)| s.subrange(p.0 as int, p.1 as int),
            ) + lines_of(s.subrange(pos as int, end as int)));
        }
        while pos < end
            invariant
                start <= pos <= end <= s.len() < u16::MAX,
                s == self.llmout_buf@,
                span == s.subrange(start as int, end as int),
                forall|q: int|
                    0 <= q < spans@.len() ==> start <= #[trigger] spans@[q].0 <= spans@[q].1 <= end,
                lines_of(span) == spans@.map_values(
                    |p: (usize, usize)| s.subrange(p.0 as int, p.1 as int),
                ) + lines_of(s.subrange(pos as int, end as int)),
            decreases end - pos,
        {
            let ghost spans0 = spans@;
            let ghost rem = s.subrange(pos as int, end as int);
            let mut e: usize = pos;
            while e < end && self.llmout_buf.as_str().get_char(e) != '\n'
                invariant
                    pos <= e <= end <= s.len(),
                    s == self.llmout_buf@,
                    forall|m: int| pos <= m < e ==> s[m] != '\n',
                decreases end - e,
            {
                e = e + 1;
            }
            proof {
                assert(forall|j: int| 0 <= j < rem.len() ==> rem[j] == s[pos + j]);
                crate::scanner::lemma_line_len_at(rem, e - pos);
                assert(rem.take((e - pos) as int) =~= s.subrange(pos as int, e as int));
            }
            spans.push((pos, e));
            proof {
                let f = |p: (usize, usize)| s.subrange(p.0 as int, p.1 as int);
                assert(spans@.map_values(f) =~= spans0.map_values(f).push(
                    s.subrange(pos as int, e as int),
                ));
                if e < end {
                    assert(rem.subrange((e - pos) as int + 1, rem.len() as int) =~= s.subrange(
                        e as int + 1,
                        end as int,
                    ));
                    assert(lines_of(span) =~= spans@.map_values(f) + lines_of(
                        s.subrange(e as int + 1, end as int),
                    ));
                } else {
                    assert(s.subrange(end as int, end as int) =~= Seq::<char>::empty());
                    assert(lines_of(span) =~= spans@.map_values(f) + lines_of(
                        s.subrange(end as int, end as int),
                    ));
                }
            }
            if e == end {
                pos = end;
            } else {
                pos = e + 1;
            }
        }
        proof {
            assert(s.subrange(end as int, end as int) =~= Seq::<char>::empty());
            assert(lines_of(span) =~= spans@.map_values(
                |p: (usize, usize)| s.subrange(p.0 as int, p.1 as int),
            ));
        }
        let ghost ls = lines_of(span);

        // Second pass: each line's full display width and the widest capped
        // line.
        let mut widths: Vec<usize> = Vec::new();
        let mut longest: usize = 0;
        let nlines = spans.len();
        let mut i: usize = 0;
        while i < nlines
            invariant
                i <= nlines == spans@.len(),
                s == self.llmout_buf@,
                ls == lines_of(span),
                ls.len() == nlines,
                forall|q: int|
                    0 <= q < nlines ==> start <= #[trigger] spans@[q].0 <= spans@[q].1 <= end,
                end <= s.len() < u16::MAX,
                forall|q: int|
                    0 <= q < nlines ==> ls[q] == s.subrange(
                        #[trigger] spans@[q].0 as int,
                        spans@[q].1 as int,
                    ),
                widths@.len() == i,
                forall|q: int| 0 <= q < i ==> #[trigger] widths@[q] == text_width(ls[q]),
                longest == longest_width(ls.take(i as int), tw as int),
                longest <= tw,
            decreases nlines - i,
        {
            let (a, b) = spans[i];
            let mut w: usize = 0;
            let mut j: usize = a;
            while j < b
                invariant
                    a <= j <= b <= s.len() < u16::MAX,
                    s == self.llmout_buf@,
                    w == text_width(s.subrange(a as int, j as int)),
                    w <= 3 * (j - a),
                decreases b - j,
            {
                proof {
                    assert(s.subrange(a as int, j as int + 1).drop_last() =~= s.subrange(
                        a as int,
                        j as int,
                    ));
                }
                let c = self.llmout_buf.as_str().get_char(j);
                w = w + display_width(c);
                j = j + 1;
            }
            let clamped = if w > tw as usize {
                tw as usize
            } else {
                w
            };
            if clamped > longest {
                longest = clamped;
            }
            widths.push(w);
            proof {
                assert(ls.take(i as int + 1).drop_last() =~= ls.take(i as int));
                assert(ls.take(i as int + 1).last() == ls[i as int]);
            }
            i = i + 1;
        }
        proof {
            assert(ls.take(nlines as int) =~= ls);
        }

        // Third pass: the commands.
        let mut cmds: Vec<DrawCmd> = Vec::new();
        cmds.push(DrawCmd::SavePosition);
        cmds.push(DrawCmd::MoveTo(start_col, start_row_rel));
        let ghost base = cmds@;
        let mut i: usize = 0;
        while i < nlines
            invariant
                i <= nlines == spans@.len(),
                s == self.llmout_buf@,
                ls == lines_of(span),
                ls.len() == nlines,
                forall|q: int|
                    0 <= q < nlines ==> start <= #[trigger] spans@[q].0 <= spans@[q].1 <= end,
                end <= s.len() < u16::MAX,
                forall|q: int|
                    0 <= q < nlines ==> ls[q] == s.subrange(
                        #[trigger] spans@[q].0 as int,
                        spans@[q].1 as int,
                    ),
                widths@.len() == nlines,
                forall|q: int| 0 <= q < nlines ==> #[trigger] widths@[q] == text_width(ls[q]),
                longest == longest_width(ls, tw as int),
                longest <= tw,
                tw == self.tsize.0,
                tw >= 1,
                cmds@ == base + highlight_lines_cmds(
                    ls.take(i as int),
                    tw as int,
                    longest as int,
                    highlight,
                ),
            decreases nlines - i,
        {
            let ghost cmds0 = cmds@;
            let (a, b) = spans[i];
            let mut j: usize = a;
            proof {
                assert(styled_prints(ls[i as int].take(0), highlight) =~= Seq::<DrawCmd>::empty());
                assert(cmds@ =~= cmds0 + styled_prints(ls[i as int].take(0), highlight));
            }
            while j < b
                invariant
                    a <= j <= b <= s.len(),
                    s == self.llmout_buf@,
                    ls[i as int] == s.subrange(a as int, b as int),
                    0 <= i < ls.len(),
                    cmds@ == cmds0 + styled_prints(ls[i as int].take(j - a), highlight),
                decreases b - j,
            {
                let c = self.llmout_buf.as_str().get_char(j);
                cmds.push(DrawCmd::PrintStyled(c, highlight));
                proof {
                    let t1 = ls[i as int].take(j - a + 1);
                    assert(t1.drop_last() =~= ls[i as int].take(j - a));
                    assert(t1.last() == s[j as int]);
                    assert(styled_prints(t1, highlight) =~= styled_prints(
                        ls[i as int].take(j - a),
                        highlight,
                    ).push(DrawCmd::PrintStyled(s[j as int], highlight)));
                    assert(cmds@ =~= cmds0 + styled_prints(t1, highlight));
                }
                j = j + 1;
            }
            proof {
                assert(ls[i as int].take(b - a) =~= ls[i as int]);
            }
            // Pad the row to the widest line of the span.
            let full_w = widths[i];
            let last_w = full_w % tw as usize;
            proof {
                lemma_longest_bound(ls, tw as int, i as int);
                if full_w < tw as usize {
                    lemma_small_mod(full_w as nat, tw as nat);
                } else {
                    lemma_mod_division_less_than_divisor(full_w as int, tw as int);
                }
            }
            let pad = longest - last_w;
            let ghost before_pad = cmds@;
            let mut k: usize = 0;
            while k < pad
                invariant
                    k <= pad,
                    cmds@ == before_pad + pad_cmds(k as int, highlight),
                decreases pad - k,
            {
                cmds.push(DrawCmd::PrintStyled(' ', highlight));
                proof {
                    assert(pad_cmds(k as int + 1, highlight) =~= pad_cmds(
                        k as int,
                        highlight,
                    ).push(DrawCmd::PrintStyled(' ', highlight)));
                }
                k = k + 1;
            }
            cmds.push(DrawCmd::Print('\n'));
            cmds.push(DrawCmd::MoveToColumn(0));
            proof {
                assert(ls.take(i as int + 1).drop_last() =~= ls.take(i as int));
                assert(ls.take(i as int + 1).last() == ls[i as int]);
                assert(cmds@ =~= base + highlight_lines_cmds(
                    ls.take(i as int + 1),
                    tw as int,
                    longest as int,
                    highlight,
                ));
            }
            i = i + 1;
        }
        proof {
            assert(ls.take(nlines as int) =~= ls);
        }
        cmds.push(DrawCmd::RestorePosition);
        proof {
            assert(cmds@ =~= base + highlight_lines_cmds(
                ls,
                tw as int,
                longest as int,
                highlight,
            ) + seq![DrawCmd::RestorePosition]);
        }
        cmds
    }

    /// The commands that remove or apply the highlight of the block at
    /// `sel`, when such a block exists and its span lies inside the buffer.
    fn highlight_block_at(&self, sel: usize, highlight: bool) -> (cmds: Vec<DrawCmd>)
        requires
            self.llmout_buf@.len() < u16::MAX,
            self.tsize.0 >= 1,
        ensures
            ({
                let bs = self.metadata.blocks_view();
                if sel < bs.len() {
                    cmds@ == guarded_highlight_cmds(
                        self.llmout_buf@,
                        self.tsize.0 as int,
                        self.tsize.1 as int,
                        self.userin.lines_info.numlines as int,
                        bs[sel as int],
                        highlight,
                    )
                } else {
                    cmds@ == Seq::<DrawCmd>::empty()
                }
            }),
    {
        let blocks = self.metadata.code_blocks();
        if sel < blocks.len() {
            let bstart = blocks[sel].start;
            let bend = blocks[sel].end;
            proof {
                assert(self.metadata.blocks_view()[sel as int] == blocks@.map_values(
                    |b: crate::scanner::CodeBlock| b@,
                )[sel as int]);
            }
            if bstart <= bend && bend <= self.llmout_buf.as_str().unicode_len() {
                self.set_highlight(highlight, bstart, bend)
            } else {
                let r: Vec<DrawCmd> = Vec::new();
                proof {
                    assert(r@ =~= Seq::<DrawCmd>::empty());
                }
                r
            }
        } else {
            let r: Vec<DrawCmd> = Vec::new();
            proof {
                assert(r@ =~= Seq::<DrawCmd>::empty());
            }
            r
        }
    }

    /// The next selection for cyclic block navigation: up and down wrap
    /// around at both ends; with no blocks the selection stays put.
    pub open spec fn next_selection(bs_len: int, sel: int, up: bool) -> int {
        if bs_len == 0 {
            sel
        } else if up {
            if sel == 0 {
                bs_len - 1
            } else {
                sel - 1
            }
        } else {
            if sel == bs_len - 1 {
                0
            } else {
                sel + 1
            }
        }
    }

    /// Moves the highlighted code block one step up or down, removing the old
    /// highlight and applying the new one.
    fn toggle_selection(&mut self, up: bool) -> (cmds: Vec<DrawCmd>)
        requires
            old(self).llmout_buf@.len() < u16::MAX,
            old(self).tsize.0 >= 1,
            old(self).selected_code_block < usize::MAX,
        ensures
            final(self).userin == old(self).userin,
            final(self).llmout_buf == old(self).llmout_buf,
            final(self).metadata == old(self).metadata,
            final(self).polling_mode == old(self).polling_mode,
            final(self).tsize == old(self).tsize,
            final(self).selected_code_block as int == Self::next_selection(
                old(self).metadata.blocks_view().len() as int,
                old(self).selected_code_block as int,
                up,
            ),
            ({
                let bs = old(self).metadata.blocks_view();
                let s = old(self).llmout_buf@;
                let tw = old(self).tsize.0 as int;
                let th = old(self).tsize.1 as int;
                let rows = old(self).userin.lines_info.numlines as int;
                let sel0 = old(self).selected_code_block as int;
                let sel1 = Self::next_selection(bs.len() as int, sel0, up);
                let off = if sel0 < bs.len() {
                    guarded_highlight_cmds(s, tw, th, rows, bs[sel0], false)
                } else {
                    Seq::<DrawCmd>::empty()
                };
                let on = if sel1 < bs.len() {
                    guarded_highlight_cmds(s, tw, th, rows, bs[sel1], true)
                } else {
                    Seq::<DrawCmd>::empty()
                };
                cmds@ == off + on
            }),
    {
        let mut cmds = self.highlight_block_at(self.selected_code_block, false);
        let n = self.metadata.code_blocks().len();
        let cur = self.selected_code_block;
        let sel1 = if n == 0 {
            cur
        } else if up {
            if cur == 0 {
                n - 1
            } else {
                cur - 1
            }
        } else {
            if cur == n - 1 {
                0
            } else {
                cur + 1
            }
        };
        self.selected_code_block = sel1;
        let mut on = self.highlight_block_at(sel1, true);
        cmds.append(&mut on);
        cmds
    }

    /// Submits the buffered prompt: the selected highlight is removed, two
    /// newlines shift the finished answer up and leave a blank row, both
    /// buffers and the scanner state are cleared, the fresh prompt prefix is
    /// drawn, and the snapshots travel to the orchestrator — the prior
    /// streamed text as exactly one assistant entry, then the prompt.
    fn submit_prompt(&mut self) -> (r: (Vec<DrawCmd>, TermTaskMessage))
        requires
            old(self).tsize.0 >= 1,
            old(self).tsize.1 >= 1,
            old(self).tsize.1 < u16::MAX,
            old(self).llmout_buf@.len() < u16::MAX,
            old(self).userin.lines_info.numlines + 1 <= old(self).tsize.1,
        ensures
            final(self).llmout_buf@ == Seq::<char>::empty(),
            final(self).metadata.blocks_view() == Seq::<crate::scanner::SpecBlock>::empty(),
            final(self).metadata.cur_view() == Option::<crate::scanner::SpecBlock>::None,
            final(self).userin.buf@ == Seq::<char>::empty(),
            final(self).userin.geometry_ok(old(self).tsize.0 as int),
            final(self).userin.lines_info.numlines as int == prompt_rows(
                Seq::<char>::empty(),
                old(self).tsize.0 as int,
            ),
            final(self).userin.dist_to_output as int == (if prompt_rows(
                Seq::<char>::empty(),
                old(self).tsize.0 as int,
            ) > 1 {
                prompt_rows(Seq::<char>::empty(), old(self).tsize.0 as int)
            } else {
                1
            }),
            final(self).selected_code_block == old(self).selected_code_block,
            final(self).polling_mode == old(self).polling_mode,
            final(self).tsize == old(self).tsize,
            ({
                let msg = r.1;
                match msg {
                    TermTaskMessage::ReceivedUserPrompt { user_prompt, llm_answer_prev } => {
                        &&& user_prompt@ == old(self).userin.buf@
                        &&& match llm_answer_prev {
                            Option::Some(a) => a@ == old(self).llmout_buf@,
                            Option::None => false,
                        }
                    },
                    TermTaskMessage::Die => false,
                }
            }),
            ({
                let bs = old(self).metadata.blocks_view();
                let s = old(self).llmout_buf@;
                let tw = old(self).tsize.0 as int;
                let th = old(self).tsize.1 as int;
                let rows = old(self).userin.lines_info.numlines as int;
                let sel = old(self).selected_code_block as int;
                let off = if sel < bs.len() {
                    guarded_highlight_cmds(s, tw, th, rows, bs[sel], false)
                } else {
                    Seq::<DrawCmd>::empty()
                };
                r.0@ == off + seq![DrawCmd::MoveTo(0, (th - rows - 1) as u16)] + print_walk(
                    "\n\n"@,
                    0,
                    tw,
                    th,
                ).0 + seq![DrawCmd::MoveTo(0, th as u16)] + print_walk(
                    prompt_line(Seq::<char>::empty()),
                    0,
                    tw,
                    th,
                ).0
            }),
    {
        let mut cmds = self.highlight_block_at(self.selected_code_block, false);
        let th = self.tsize.1;
        let numlines = self.userin.get_lines_info().numlines;
        let mut pc = self.print("\n\n", 0, th - (numlines as u16) - 1);
        cmds.append(&mut pc);
        let llmout_saved = self.llmout_buf.clone();
        let userin_saved = self.userin.buf.clone();
        self.llmout_buf = String::new();
        self.metadata.clear();
        self.userin.reset();
        let mut userin_str = String::from_str("> ");
        userin_str.append(self.userin.buf.as_str());
        proof {
            reveal_strlit("> ");
            assert(userin_str@ =~= prompt_line(Seq::<char>::empty()));
        }
        let mut uc = self.print(userin_str.as_str(), 0, th);
        cmds.append(&mut uc);
        let msg = TermTaskMessage::ReceivedUserPrompt {
            user_prompt: userin_saved,
            llm_answer_prev: Some(llmout_saved),
        };
        let _ = self.userin.count_lines(self.tsize);
        (cmds, msg)
    }

    /// The effect of one message from the orchestrator. A finished transfer
    /// finalizes the output text — the scanner re-runs over it — and moves
    /// the loop to blocking keyboard waits; a piece is appended to the
    /// output region and drawn above the untouched input region.
    pub fn handle_message(&mut self, message: RequestTaskMessage) -> (r: (
        Vec<DrawCmd>,
        Option<PollingMode>,
    ))
        requires
            old(self).tsize.1 >= 1,
            old(self).tsize.1 < u16::MAX,
            old(self).userin.dist_to_output <= old(self).tsize.1,
            old(self).llmout_buf@.len() + 4 < u32::MAX,
            old(self).userin.lines_info.numlines + 1 <= old(self).tsize.1,
        ensures
            final(self).userin == old(self).userin,
            final(self).selected_code_block == old(self).selected_code_block,
            final(self).tsize == old(self).tsize,
            final(self).polling_mode == old(self).polling_mode,
            match message {
                RequestTaskMessage::Done => {
                    &&& final(self).llmout_buf == old(self).llmout_buf
                    &&& final(self).metadata.blocks_view() == crate::scanner::scan(
                        old(self).llmout_buf@,
                    ).blocks
                    &&& final(self).metadata.cur_view() == crate::scanner::scan(
                        old(self).llmout_buf@,
                    ).cur
                    &&& r.0@ == Seq::<DrawCmd>::empty()
                    &&& r.1 == Option::Some(PollingMode::AwaitUserin)
                },
                RequestTaskMessage::ReceivedPiece(piece) => {
                    let s = old(self).llmout_buf@;
                    let tw = old(self).tsize.0 as int;
                    let th = old(self).tsize.1 as int;
                    let rows = old(self).userin.lines_info.numlines as int;
                    let curscol = crate::width::wrapped_last_width(s, tw);
                    &&& final(self).llmout_buf@ == s + piece@
                    &&& final(self).metadata == old(self).metadata
                    &&& r.1 is None
                    &&& r.0@ == seq![DrawCmd::SavePosition] + clear_rows_cmds(
                        th - old(self).userin.dist_to_output,
                        th,
                    ) + seq![
                        DrawCmd::RestorePosition,
                        DrawCmd::MoveTo(curscol as u16, (th - rows - 1) as u16),
                    ] + print_walk(piece@, curscol, tw, th).0 + seq![DrawCmd::MoveTo(0, th as u16)]
                        + print_walk(prompt_line(old(self).userin.buf@), 0, tw, th).0
                },
            },
    {
        match message {
            RequestTaskMessage::Done => {
                let content = self.llmout_buf.clone();
                self.metadata.generate(content.as_str());
                (Vec::new(), Some(PollingMode::AwaitUserin))
            },
            RequestTaskMessage::ReceivedPiece(piece) => {
                let mut cmds = self.clear_userin();
                let userin_ln = self.userin.get_lines_info().numlines;
                let (_, curscol) = self.llmout_buf.as_str().wrapped_width(self.tsize.0);
                let current_row = self.tsize.1 - (userin_ln as u16) - 1;
                let mut pc = self.print(piece.as_str(), curscol as u16, current_row);
                cmds.append(&mut pc);
                self.llmout_buf.append(piece.as_str());
                let mut userin_str = String::from_str("> ");
                userin_str.append(self.userin.buf.as_str());
                proof {
                    reveal_strlit("> ");
                    assert(userin_str@ =~= prompt_line(self.userin.buf@));
                }
                let mut uc = self.print(userin_str.as_str(), 0, self.tsize.1);
                cmds.append(&mut uc);
                (cmds, None)
            },
        }
    }
}

/// What one keystroke asks the surrounding loop to do: commands to draw, a
/// message for the orchestrator, whether the loop ends, and the polling mode
/// to switch to.
pub struct KeyOutcome {
    pub cmds: Vec<DrawCmd>,
    pub message: Option<TermTaskMessage>,
    pub exit: bool,
    pub next_polling: Option<PollingMode>,
}

impl TermTask {
    /// The effect of one keystroke. Enter submits a non-empty prompt; on an
    /// unmodified empty buffer it ends the session only while no transfer is
    /// in flight, and is ignored mid-stream; the interrupt combination ends
    /// the session in any state; Enter with shift, printable characters and
    /// backspace edit the input region; up and down cycle the highlighted
    /// code block.
    pub fn handle_key(&mut self, key: KeyInput) -> (r: KeyOutcome)
        requires
            old(self).tsize.0 >= 1,
            old(self).tsize.1 >= 1,
            old(self).tsize.1 < u16::MAX,
            old(self).userin.buf@.len() + 3 < u32::MAX,
            old(self).llmout_buf@.len() < u16::MAX,
            old(self).userin.dist_to_output <= old(self).tsize.1,
            old(self).selected_code_block < usize::MAX,
            old(self).userin.lines_info.numlines + 1 <= old(self).tsize.1,
            match key {
                KeyInput::Backspace => {
                    let nb = if old(self).userin.buf@.len() == 0 {
                        old(self).userin.buf@
                    } else {
                        old(self).userin.buf@.drop_last()
                    };
                    crate::userin::prompt_rows(nb, old(self).tsize.0 as int) <= old(self).tsize.1
                },
                _ => true,
            },
        ensures
            final(self).tsize == old(self).tsize,
            final(self).polling_mode == old(self).polling_mode,
            match key {
                KeyInput::CtrlC => {
                    &&& *final(self) == *old(self)
                    &&& r.cmds@ == Seq::<DrawCmd>::empty()
                    &&& r.message matches Option::Some(TermTaskMessage::Die)
                    &&& r.exit
                    &&& r.next_polling is None
                },
                KeyInput::Char(c) => {
                    &&& final(self).userin.buf@ == old(self).userin.buf@.push(c)
                    &&& final(self).llmout_buf == old(self).llmout_buf
                    &&& final(self).metadata == old(self).metadata
                    &&& final(self).selected_code_block == old(self).selected_code_block
                    &&& final(self).userin.geometry_ok(old(self).tsize.0 as int)
                    &&& r.cmds@ == seq![DrawCmd::Print(c)]
                    &&& r.message is None
                    &&& !r.exit
                    &&& r.next_polling is None
                },
                KeyInput::Backspace => {
                    &&& final(self).userin.buf@ == (if old(self).userin.buf@.len() == 0 {
                        old(self).userin.buf@
                    } else {
                        old(self).userin.buf@.drop_last()
                    })
                    &&& final(self).llmout_buf == old(self).llmout_buf
                    &&& final(self).metadata == old(self).metadata
                    &&& final(self).selected_code_block == old(self).selected_code_block
                    &&& r.cmds@ == seq![DrawCmd::SavePosition] + clear_rows_cmds(
                        final(self).tsize.1 - final(self).userin.dist_to_output,
                        final(self).tsize.1 as int,
                    ) + seq![
                        DrawCmd::RestorePosition,
                        DrawCmd::MoveTo(
                            0,
                            (final(self).tsize.1 - final(self).userin.dist_to_output) as u16,
                        ),
                    ] + plain_prints(prompt_line(final(self).userin.buf@))
                    &&& final(self).userin.geometry_ok(old(self).tsize.0 as int)
                    &&& final(self).userin.lines_info.numlines as int == prompt_rows(
                        final(self).userin.buf@,
                        old(self).tsize.0 as int,
                    )
                    &&& final(self).userin.dist_to_output as int == (if prompt_rows(
                        final(self).userin.buf@,
                        old(self).tsize.0 as int,
                    ) > old(self).userin.dist_to_output as int {
                        prompt_rows(final(self).userin.buf@, old(self).tsize.0 as int)
                    } else {
                        old(self).userin.dist_to_output as int
                    })
                    &&& r.message is None
                    &&& !r.exit
                    &&& r.next_polling is None
                },
                KeyInput::Up => {
                    &&& final(self).selected_code_block as int == Self::next_selection(
                        old(self).metadata.blocks_view().len() as int,
                        old(self).selected_code_block as int,
                        true,
                    )
                    &&& final(self).llmout_buf == old(self).llmout_buf
                    &&& final(self).userin == old(self).userin
                    &&& final(self).metadata == old(self).metadata
                    &&& ({
                        let bs = old(self).metadata.blocks_view();
                        let s = old(self).llmout_buf@;
                        let tw = old(self).tsize.0 as int;
                        let th = old(self).tsize.1 as int;
                        let rows = old(self).userin.lines_info.numlines as int;
                        let sel0 = old(self).selected_code_block as int;
                        let sel1 = Self::next_selection(bs.len() as int, sel0, true);
                        let off = if sel0 < bs.len() {
                            guarded_highlight_cmds(s, tw, th, rows, bs[sel0], false)
                        } else {
                            Seq::<DrawCmd>::empty()
                        };
                        let on = if sel1 < bs.len() {
                            guarded_highlight_cmds(s, tw, th, rows, bs[sel1], true)
                        } else {
                            Seq::<DrawCmd>::empty()
                        };
                        r.cmds@ == off + on
                    })
                    &&& r.message is None
                    &&& !r.exit
                    &&& r.next_polling is None
                },
                KeyInput::Down => {
                    &&& final(self).selected_code_block as int == Self::next_selection(
                        old(self).metadata.blocks_view().len() as int,
                        old(self).selected_code_block as int,
                        false,
                    )
                    &&& final(self).llmout_buf == old(self).llmout_buf
                    &&& final(self).userin == old(self).userin
                    &&& final(self).metadata == old(self).metadata
                    &&& ({
                        let bs = old(self).metadata.blocks_view();
                        let s = old(self).llmout_buf@;
                        let tw = old(self).tsize.0 as int;
                        let th = old(self).tsize.1 as int;
                        let rows = old(self).userin.lines_info.numlines as int;
                        let sel0 = old(self).selected_code_block as int;
                        let sel1 = Self::next_selection(bs.len() as int, sel0, false);
                        let off = if sel0 < bs.len() {
                            guarded_highlight_cmds(s, tw, th, rows, bs[sel0], false)
                        } else {
                            Seq::<DrawCmd>::empty()
                        };
                        let on = if sel1 < bs.len() {
                            guarded_highlight_cmds(s, tw, th, rows, bs[sel1], true)
                        } else {
                            Seq::<DrawCmd>::empty()
                        };
                        r.cmds@ == off + on
                    })
                    &&& r.message is None
                    &&& !r.exit
                    &&& r.next_polling is None
                },
                KeyInput::Enter { shift } => {
                    if !shift && old(self).userin.buf@.len() == 0 {
                        if old(self).polling_mode == PollingMode::AwaitUserin {
                            // No transfer is in flight: the session ends.
                            &&& *final(self) == *old(self)
                            &&& r.cmds@ == Seq::<DrawCmd>::empty()
                            &&& r.message matches Option::Some(TermTaskMessage::Die)
                            &&& r.exit
                            &&& r.next_polling is None
                        } else {
                            // A transfer is streaming: the empty submission
                            // is ignored.
                            &&& *final(self) == *old(self)
                            &&& r.cmds@ == Seq::<DrawCmd>::empty()
                            &&& r.message is None
                            &&& !r.exit
                            &&& r.next_polling is None
                        }
                    } else if shift {
                        &&& final(self).userin.buf@ == old(self).userin.buf@.push('\n')
                        &&& final(self).llmout_buf == old(self).llmout_buf
                        &&& final(self).metadata == old(self).metadata
                        &&& final(self).selected_code_block == old(self).selected_code_block
                        &&& final(self).userin.geometry_ok(old(self).tsize.0 as int)
                        &&& r.cmds@ == seq![DrawCmd::Print('\n'), DrawCmd::MoveToColumn(0)]
                        &&& r.message is None
                        &&& !r.exit
                        &&& r.next_polling is None
                    } else {
                        &&& final(self).llmout_buf@ == Seq::<char>::empty()
                        &&& final(self).metadata.blocks_view() == Seq::<
                            crate::scanner::SpecBlock,
                        >::empty()
                        &&& final(self).metadata.cur_view() == Option::<
                            crate::scanner::SpecBlock,
                        >::None
                        &&& final(self).userin.buf@ == Seq::<char>::empty()
                        &&& final(self).userin.geometry_ok(old(self).tsize.0 as int)
                        &&& final(self).userin.dist_to_output as int == (if prompt_rows(
                            Seq::<char>::empty(),
                            old(self).tsize.0 as int,
                        ) > 1 {
                            prompt_rows(Seq::<char>::empty(), old(self).tsize.0 as int)
                        } else {
                            1
                        })
                        &&& final(self).selected_code_block == old(self).selected_code_block
                        &&& (match r.message {
                            Option::Some(
                                TermTaskMessage::ReceivedUserPrompt {
                                    user_prompt,
                                    llm_answer_prev,
                                },
                            ) => user_prompt@ == old(self).userin.buf@ && (llm_answer_prev
                                matches Option::Some(a) && a@ == old(self).llmout_buf@),
                            _ => false,
                        })
                        &&& ({
                            let bs = old(self).metadata.blocks_view();
                            let s = old(self).llmout_buf@;
                            let tw = old(self).tsize.0 as int;
                            let th = old(self).tsize.1 as int;
                            let rows = old(self).userin.lines_info.numlines as int;
                            let sel = old(self).selected_code_block as int;
                            let off = if sel < bs.len() {
                                guarded_highlight_cmds(s, tw, th, rows, bs[sel], false)
                            } else {
                                Seq::<DrawCmd>::empty()
                            };
                            r.cmds@ == off + seq![DrawCmd::MoveTo(0, (th - rows - 1) as u16)]
                                + print_walk("\n\n"@, 0, tw, th).0 + seq![
                                DrawCmd::MoveTo(0, th as u16),
                            ] + print_walk(prompt_line(Seq::<char>::empty()), 0, tw, th).0
                        })
                        &&& r.next_polling == Option::Some(PollingMode::AwaitRequestUpdate)
                        &&& !r.exit
                    }
                },
                KeyInput::Other => {
                    &&& *final(self) == *old(self)
                    &&& r.cmds@ == Seq::<DrawCmd>::empty()
                    &&& r.message is None
                    &&& !r.exit
                    &&& r.next_polling is None
                },
            },
    {
        match key {
            KeyInput::CtrlC => KeyOutcome {
                cmds: Vec::new(),
                message: Some(TermTaskMessage::Die),
                exit: true,
                next_polling: None,
            },
            KeyInput::Char(c) => {
                let _ = self.userin.insert_char(c, self.tsize);
                let mut cmds: Vec<DrawCmd> = Vec::new();
                cmds.push(DrawCmd::Print(c));
                proof {
                    assert(cmds@ =~= seq![DrawCmd::Print(c)]);
                }
                KeyOutcome { cmds, message: None, exit: false, next_polling: None }
            },
            KeyInput::Backspace => {
                let _ = self.userin.delete_last(self.tsize);
                let cmds = self.refresh_userin();
                KeyOutcome { cmds, message: None, exit: false, next_polling: None }
            },
            KeyInput::Up => {
                let cmds = self.toggle_selection(true);
                KeyOutcome { cmds, message: None, exit: false, next_polling: None }
            },
            KeyInput::Down => {
                let cmds = self.toggle_selection(false);
                KeyOutcome { cmds, message: None, exit: false, next_polling: None }
            },
            KeyInput::Enter { shift } => {
                if !shift && self.userin.buf.as_str().unicode_len() == 0 {
                    match self.polling_mode {
                        PollingMode::AwaitUserin => KeyOutcome {
                            cmds: Vec::new(),
                            message: Some(TermTaskMessage::Die),
                            exit: true,
                            next_polling: None,
                        },
                        PollingMode::AwaitRequestUpdate => KeyOutcome {
                            cmds: Vec::new(),
                            message: None,
                            exit: false,
                            next_polling: None,
                        },
                    }
                } else if shift {
                    let _ = self.userin.insert_newline(self.tsize);
                    let mut cmds: Vec<DrawCmd> = Vec::new();
                    cmds.push(DrawCmd::Print('\n'));
                    cmds.push(DrawCmd::MoveToColumn(0));
                    proof {
                        assert(cmds@ =~= seq![DrawCmd::Print('\n'), DrawCmd::MoveToColumn(0)]);
                    }
                    KeyOutcome { cmds, message: None, exit: false, next_polling: None }
                } else {
                    let (cmds, msg) = self.submit_prompt();
                    KeyOutcome {
                        cmds,
                        message: Some(msg),
                        exit: false,
                        next_polling: Some(PollingMode::AwaitRequestUpdate),
                    }
                }
            },
            KeyInput::Other => KeyOutcome {
                cmds: Vec::new(),
                message: None,
                exit: false,
                next_polling: None,
            },
        }
    }
}

} // verus!
