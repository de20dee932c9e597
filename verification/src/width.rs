//! Width model: how many visual rows a string occupies when wrapped at a
//! terminal width, and the column position after its last character.

use vstd::prelude::*;

verus! {

use vstd::arithmetic::div_mod::{
    lemma_fundamental_div_mod,
    lemma_fundamental_div_mod_converse,
    lemma_mod_division_less_than_divisor,
};

/// Display width in columns of one character: 0 for control characters and
/// zero-width marks, up to 3 columns otherwise.
pub uninterp spec fn char_width(c: char) -> nat;

/// Relies on unicode_width::UnicodeWidthChar::width: the displayed column
/// width of a character, `None` for control characters. The result depends on
/// the character alone; its source shows that no width exceeds 3 and that the
/// printable ASCII range is single width.
#[verifier::external_body]
pub(crate) fn display_width(c: char) -> (w: usize)
    ensures
        w == char_width(c),
        w <= 3,
        0x20 <= (c as u32) && (c as u32) < 0x7f ==> w == 1,
{
    unicode_width::UnicodeWidthChar::width(c).unwrap_or(0)
}

/// One step of the layout walk: `st` is (breaks so far, current column).
/// A newline returns the column to 0; a character that would exceed the
/// terminal width starts a fresh row holding only that character; a column
/// exactly equal to the width is a valid non-wrapping fit.
pub open spec fn wrap_step(st: (int, int), c: char, width: int) -> (int, int) {
    if c == '\n' {
        (st.0 + 1, 0)
    } else if st.1 + char_width(c) > width {
        (st.0 + 1, char_width(c) as int)
    } else {
        (st.0, st.1 + char_width(c))
    }
}

/// Layout walk over a whole string, left to right: the number of row breaks
/// taken (newlines and wraps) and the final column.
pub open spec fn wrap_state(s: Seq<char>, width: int) -> (int, int)
    decreases s.len(),
{
    if s.len() == 0 {
        (0, 0)
    } else {
        wrap_step(wrap_state(s.drop_last(), width), s.last(), width)
    }
}

/// Number of visual rows `s` occupies: none when empty, otherwise one plus
/// the breaks of the walk, except that a trailing newline does not open a row
/// of its own.
pub open spec fn wrapped_rows(s: Seq<char>, width: int) -> int {
    if s.len() == 0 {
        0
    } else if s.last() == '\n' {
        wrap_state(s, width).0
    } else {
        1 + wrap_state(s, width).0
    }
}

/// Column width of the last visual row of `s`.
pub open spec fn wrapped_last_width(s: Seq<char>, width: int) -> int {
    wrap_state(s, width).1
}

pub trait StrExt: View<V = Seq<char>> {
    /// The total number of visual rows, wrapped rows included, and the width
    /// of the last row.
    fn wrapped_width(&self, t_width: u16) -> (r: (u32, usize))
        requires
            self.view().len() < u32::MAX,
        ensures
            r.0 == wrapped_rows(self.view(), t_width as int),
            r.1 == wrapped_last_width(self.view(), t_width as int),
            r.1 <= u16::MAX,
    ;
}

impl StrExt for str {
    fn wrapped_width(&self, t_width: u16) -> (r: (u32, usize)) {
        let n = self.unicode_len();
        if n == 0 {
            return (0, 0);
        }
        let mut breaks: u32 = 0;
        let mut col: usize = 0;
        let mut last_is_nl = false;
        let mut i: usize = 0;
        while i < n
            invariant
                0 < n == self@.len() < u32::MAX,
                i <= n,
                breaks <= i,
                col <= u16::MAX,
                (breaks as int, col as int) == wrap_state(self@.take(i as int), t_width as int),
                last_is_nl == (i > 0 && self@[i as int - 1] == '\n'),
            decreases n - i,
        {
            let c = self.get_char(i);
            assert(self@.take(i as int + 1).drop_last() =~= self@.take(i as int));
            assert(self@.take(i as int + 1).last() == self@[i as int]);
            if c == '\n' {
                breaks = breaks + 1;
                col = 0;
                last_is_nl = true;
            } else {
                let w = display_width(c);
                if col + w > t_width as usize {
                    breaks = breaks + 1;
                    col = w;
                } else {
                    col = col + w;
                }
                last_is_nl = false;
            }
            i = i + 1;
        }
        assert(self@.take(n as int) =~= self@);
        let rows = if last_is_nl {
            breaks
        } else {
            breaks + 1
        };
        (rows, col)
    }
}

/// Every character of `s` occupies exactly one column and none is a newline.
pub open spec fn uniform_single_width(s: Seq<char>) -> bool {
    forall|i: int| 0 <= i < s.len() ==> s[i] != '\n' && char_width(s[i]) == 1
}

/// Law: the empty string occupies no rows and ends at column 0, whatever the
/// terminal width.
pub proof fn lemma_wrapped_extent_empty(w: int)
    requires
        w >= 1,
    ensures
        wrapped_rows(Seq::<char>::empty(), w) == 0,
        wrapped_last_width(Seq::<char>::empty(), w) == 0,
{
}

proof fn lemma_wrap_state_uniform(s: Seq<char>, w: int)
    requires
        w >= 1,
        s.len() >= 1,
        uniform_single_width(s),
    ensures
        wrap_state(s, w).0 == (s.len() - 1) as int / w,
        wrap_state(s, w).1 == (s.len() - 1) as int % w + 1,
    decreases s.len(),
{
    let n = s.len() as int;
    assert(s[n - 1] != '\n' && char_width(s[n - 1]) == 1);
    if n == 1 {
        lemma_fundamental_div_mod_converse(0, w, 0, 0);
    } else {
        let p = s.drop_last();
        assert(uniform_single_width(p)) by {
            assert(forall|i: int| 0 <= i < p.len() ==> p[i] == s[i]);
        }
        lemma_wrap_state_uniform(p, w);
        let a = n - 2;
        let q = a / w;
        let r = a % w;
        lemma_fundamental_div_mod(a, w);
        lemma_mod_division_less_than_divisor(a, w);
        if r == w - 1 {
            assert(n - 1 == (q + 1) * w + 0) by (nonlinear_arith)
                requires
                    a == q * w + r,
                    r == w - 1,
                    n - 2 == a,
            ;
            lemma_fundamental_div_mod_converse(n - 1, w, q + 1, 0);
        } else {
            assert(n - 1 == q * w + (r + 1)) by (nonlinear_arith)
                requires
                    a == q * w + r,
                    n - 2 == a,
            ;
            lemma_fundamental_div_mod_converse(n - 1, w, q, r + 1);
        }
    }
}

/// Law: a string of single-width characters with no newline occupies
/// ceil(len / w) rows, and its last row holds len mod w columns, or w
/// columns when the length is a nonzero multiple of w.
pub proof fn lemma_wrapped_extent_uniform(s: Seq<char>, w: int)
    requires
        w >= 1,
        s.len() >= 1,
        uniform_single_width(s),
    ensures
        wrapped_rows(s, w) == (s.len() + w - 1) as int / w,
        wrapped_last_width(s, w) == if s.len() as int % w == 0 {
            w as int
        } else {
            s.len() as int % w
        },
{
    lemma_wrap_state_uniform(s, w);
    let n = s.len() as int;
    let a = n - 1;
    let q = a / w;
    let r = a % w;
    lemma_fundamental_div_mod(a, w);
    lemma_mod_division_less_than_divisor(a, w);
    assert(a + w == (q + 1) * w + r) by (nonlinear_arith)
        requires
            a == q * w + r,
    ;
    lemma_fundamental_div_mod_converse(a + w, w, q + 1, r);
    if r == w - 1 {
        assert(n == (q + 1) * w + 0) by (nonlinear_arith)
            requires
                a == q * w + r,
                r == w - 1,
                n == a + 1,
        ;
        lemma_fundamental_div_mod_converse(n, w, q + 1, 0);
    } else {
        assert(n == q * w + (r + 1)) by (nonlinear_arith)
            requires
                a == q * w + r,
                n == a + 1,
        ;
        lemma_fundamental_div_mod_converse(n, w, q, r + 1);
    }
}

/// Law: for every string ending in a newline, the width of the last visual
/// row is 0.
pub proof fn lemma_trailing_newline_width(s: Seq<char>, w: int)
    requires
        s.len() >= 1,
        s.last() == '\n',
    ensures
        wrapped_last_width(s, w) == 0,
{
}

} // verus!
