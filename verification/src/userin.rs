//! Input region model: the raw keystroke buffer, its wrapped geometry, and
//! the edit operations that keep the two consistent.

use vstd::prelude::*;

verus! {

use vstd::string::StringExecFns;
use crate::strutil::{string_pop, string_push};
use crate::width::{wrapped_last_width, wrapped_rows, StrExt};

/// Wrapped geometry of the input region: how many visual rows it occupies
/// and the width of its last row.
#[derive(Clone, Copy, Debug)]
pub struct LinesInfo {
    pub numlines: u32,
    pub last_ln_width: usize,
}

/// The prompt prefix and the keystroke buffer as one logical line.
pub open spec fn prompt_line(buf: Seq<char>) -> Seq<char> {
    seq!['>', ' '] + buf
}

/// Rows the input region occupies: its wrapped extent, but at least the one
/// row reserved for the prompt prefix.
pub open spec fn prompt_rows(buf: Seq<char>, w: int) -> int {
    let r = wrapped_rows(prompt_line(buf), w);
    if r == 0 {
        1
    } else {
        r
    }
}

/// The editable input region.
pub struct UserIn {
    pub buf: String,
    /// Distance from the bottom terminal row up to the first row of the
    /// input region. It only grows while the user edits, so the redraw
    /// anchor never climbs back down into the output region; only an
    /// explicit reset shrinks it.
    pub dist_to_output: u32,
    pub lines_info: LinesInfo,
}

impl UserIn {
    /// The cached geometry is the one derived from the buffer at width `w`.
    pub open spec fn geometry_ok(&self, w: int) -> bool {
        &&& self.lines_info.numlines == prompt_rows(self.buf@, w)
        &&& self.lines_info.last_ln_width == wrapped_last_width(prompt_line(self.buf@), w)
    }

    /// A fresh input region: empty, with the one row reserved for the
    /// prompt prefix already counted, so the redraw distance never falls
    /// below the row count.
    pub fn new() -> (r: Self)
        ensures
            r.buf@ == Seq::<char>::empty(),
            r.dist_to_output == 1,
            r.lines_info.numlines == 1,
            r.lines_info.last_ln_width == 0,
    {
        Self {
            buf: String::new(),
            lines_info: LinesInfo { numlines: 1, last_ln_width: 0 },
            dist_to_output: 1,
        }
    }

    /// Empties the buffer and gives the redraw anchor back one reserved row.
    pub fn reset(&mut self)
        ensures
            final(self).buf@ == Seq::<char>::empty(),
            final(self).dist_to_output == 1,
            final(self).lines_info.numlines == 1,
            final(self).lines_info.last_ln_width == 0,
    {
        self.buf = String::new();
        self.dist_to_output = 1;
        self.lines_info.numlines = 1;
        self.lines_info.last_ln_width = 0;
    }

    /// Recounts the wrapped geometry after the buffer changed. The redraw
    /// distance is raised to the new row count when that is larger and is
    /// never lowered.
    pub fn count_lines(&mut self, tsize: (u16, u16)) -> (r: LinesInfo)
        requires
            old(self).buf@.len() + 2 < u32::MAX,
        ensures
            final(self).buf@ == old(self).buf@,
            r.numlines == prompt_rows(old(self).buf@, tsize.0 as int),
            r.last_ln_width == wrapped_last_width(prompt_line(old(self).buf@), tsize.0 as int),
            r.last_ln_width <= u16::MAX,
            final(self).lines_info == r,
            final(self).geometry_ok(tsize.0 as int),
            final(self).dist_to_output == if r.numlines > old(self).dist_to_output {
                r.numlines as u32
            } else {
                old(self).dist_to_output
            },
            final(self).dist_to_output >= old(self).dist_to_output,
    {
        let mut line = String::from_str("> ");
        line.append(self.buf.as_str());
        proof {
            reveal_strlit("> ");
            assert(line@ =~= prompt_line(self.buf@));
        }
        let (mut numrows, last_ln_width) = line.as_str().wrapped_width(tsize.0);
        if numrows == 0 {
            numrows = 1;
        }
        if numrows > self.dist_to_output {
            self.dist_to_output = numrows;
        }
        let lines_info = LinesInfo { numlines: numrows, last_ln_width };
        self.lines_info = lines_info;
        lines_info
    }

    /// The geometry cached by the last recount.
    pub fn get_lines_info(&self) -> (r: LinesInfo)
        ensures
            r == self.lines_info,
    {
        self.lines_info
    }

    /// Appends one typed character and recounts the geometry.
    pub fn insert_char(&mut self, c: char, tsize: (u16, u16)) -> (r: LinesInfo)
        requires
            old(self).buf@.len() + 3 < u32::MAX,
        ensures
            final(self).buf@ == old(self).buf@.push(c),
            r.numlines == prompt_rows(old(self).buf@.push(c), tsize.0 as int),
            r.last_ln_width == wrapped_last_width(
                prompt_line(old(self).buf@.push(c)),
                tsize.0 as int,
            ),
            final(self).lines_info == r,
            final(self).geometry_ok(tsize.0 as int),
            final(self).dist_to_output == if r.numlines > old(self).dist_to_output {
                r.numlines as u32
            } else {
                old(self).dist_to_output
            },
            final(self).dist_to_output >= old(self).dist_to_output,
    {
        string_push(&mut self.buf, c);
        self.count_lines(tsize)
    }

    /// Appends a newline without submitting and recounts the geometry.
    pub fn insert_newline(&mut self, tsize: (u16, u16)) -> (r: LinesInfo)
        requires
            old(self).buf@.len() + 3 < u32::MAX,
        ensures
            final(self).buf@ == old(self).buf@.push('\n'),
            r.numlines == prompt_rows(old(self).buf@.push('\n'), tsize.0 as int),
            final(self).lines_info == r,
            final(self).geometry_ok(tsize.0 as int),
            final(self).dist_to_output == if r.numlines > old(self).dist_to_output {
                r.numlines as u32
            } else {
                old(self).dist_to_output
            },
            final(self).dist_to_output >= old(self).dist_to_output,
    {
        string_push(&mut self.buf, '\n');
        self.count_lines(tsize)
    }

    /// Removes the last character, if any — popping a newline merges the
    /// region back onto the previous visual line — and recounts the
    /// geometry.
    pub fn delete_last(&mut self, tsize: (u16, u16)) -> (r: LinesInfo)
        requires
            old(self).buf@.len() + 2 < u32::MAX,
        ensures
            final(self).buf@ == if old(self).buf@.len() == 0 {
                old(self).buf@
            } else {
                old(self).buf@.drop_last()
            },
            r.numlines == prompt_rows(final(self).buf@, tsize.0 as int),
            final(self).lines_info == r,
            final(self).dist_to_output == if r.numlines > old(self).dist_to_output {
                r.numlines as u32
            } else {
                old(self).dist_to_output
            },
            final(self).geometry_ok(tsize.0 as int),
            final(self).dist_to_output >= old(self).dist_to_output,
    {
        let _ = string_pop(&mut self.buf);
        self.count_lines(tsize)
    }
}

} // verus!
