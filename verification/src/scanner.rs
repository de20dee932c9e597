//! Structured-span scanner: detects fenced code regions in the accumulated
//! output text and records their character-offset spans and optional
//! language tag.

use vstd::prelude::*;

verus! {

use vstd::string::StrSliceExecFns;
use vstd::string::StringExecFns;

/// A fenced code region: the character offsets of its body and the label
/// that followed the opening fence, if any.
#[derive(Debug)]
pub struct CodeBlock {
    pub lang: Option<String>,
    pub start: usize,
    pub end: usize,
}

/// Mathematical image of a [`CodeBlock`].
pub struct SpecBlock {
    pub lang: Option<Seq<char>>,
    pub start: int,
    pub end: int,
}

impl View for CodeBlock {
    type V = SpecBlock;

    open spec fn view(&self) -> SpecBlock {
        SpecBlock {
            lang: match self.lang {
                Option::Some(s) => Option::Some(s@),
                Option::None => Option::None,
            },
            start: self.start as int,
            end: self.end as int,
        }
    }
}

/// Whitespace that is trimmed from a line before the fence test; lines never
/// hold a newline themselves.
pub open spec fn is_space(c: char) -> bool {
    c == ' ' || c == '\t' || c == '\r'
}

/// Number of leading whitespace characters of a line.
pub open spec fn ltrim_idx(line: Seq<char>) -> nat
    decreases line.len(),
{
    if line.len() == 0 {
        0
    } else if is_space(line[0]) {
        1 + ltrim_idx(line.drop_first())
    } else {
        0
    }
}

/// Length of a line once trailing whitespace is dropped.
pub open spec fn rtrim_len(line: Seq<char>) -> nat
    decreases line.len(),
{
    if line.len() == 0 {
        0
    } else if is_space(line.last()) {
        rtrim_len(line.drop_last())
    } else {
        line.len()
    }
}

/// A line whose content, after trimming, begins with a triple-backtick fence.
pub open spec fn is_fence(line: Seq<char>) -> bool {
    let a = ltrim_idx(line) as int;
    let b = rtrim_len(line) as int;
    b >= a + 3 && line[a] == '`' && line[a + 1] == '`' && line[a + 2] == '`'
}

/// The language label of an opening fence line: the text following the
/// backticks on the trimmed line, kept verbatim, or nothing when the fence
/// stands alone.
pub open spec fn fence_lang(line: Seq<char>) -> Option<Seq<char>> {
    let a = ltrim_idx(line) as int;
    let b = rtrim_len(line) as int;
    let rest = line.subrange(a + 3, b);
    if rest.len() == 0 {
        Option::None
    } else {
        Option::Some(rest)
    }
}

/// Scanner state: the blocks published so far and the block still open, if
/// any.
pub struct ScanState {
    pub blocks: Seq<SpecBlock>,
    pub cur: Option<SpecBlock>,
}

/// Effect of one line on the scanner state. `line_start` is the character
/// offset of the line's first character; a fence line toggles between
/// outside and inside a block, publishing the open block on the second
/// fence; any line reached while a block is open pushes the block's `end` to
/// the line's last offset.
pub open spec fn scan_line(st: ScanState, line: Seq<char>, line_start: int) -> ScanState {
    let end_idx = line_start + line.len();
    let st1 = if is_fence(line) {
        match st.cur {
            Option::None => ScanState {
                blocks: st.blocks,
                cur: Option::Some(
                    SpecBlock { lang: fence_lang(line), start: end_idx + 1, end: 0 },
                ),
            },
            Option::Some(b) => ScanState { blocks: st.blocks.push(b), cur: Option::None },
        }
    } else {
        st
    };
    match st1.cur {
        Option::Some(b) => ScanState {
            blocks: st1.blocks,
            cur: Option::Some(SpecBlock { lang: b.lang, start: b.start, end: end_idx }),
        },
        Option::None => st1,
    }
}

/// Length of the first line of `s`: the characters before the first newline,
/// or all of `s` when it has none.
pub open spec fn line_len(s: Seq<char>) -> nat
    decreases s.len(),
{
    if s.len() == 0 {
        0
    } else if s[0] == '\n' {
        0
    } else {
        1 + line_len(s.drop_first())
    }
}

/// Scan of the text starting at character offset `pos`, line by line. A
/// final line ending is optional: text after the last newline forms one more
/// line, but a trailing newline does not open an empty one.
pub open spec fn scan_from(st: ScanState, s: Seq<char>, pos: int) -> ScanState
    decreases s.len(),
{
    if s.len() == 0 {
        st
    } else {
        let k = line_len(s) as int;
        let st1 = scan_line(st, s.subrange(0, k), pos);
        if k >= s.len() {
            st1
        } else {
            scan_from(st1, s.subrange(k + 1, s.len() as int), pos + k + 1)
        }
    }
}

/// Scan of a whole text from a fresh state.
pub open spec fn scan(content: Seq<char>) -> ScanState {
    scan_from(ScanState { blocks: Seq::empty(), cur: Option::None }, content, 0)
}

pub(crate) proof fn lemma_line_len_at(s: Seq<char>, k: int)
    requires
        0 <= k <= s.len(),
        forall|j: int| 0 <= j < k ==> s[j] != '\n',
        k < s.len() ==> s[k] == '\n',
    ensures
        line_len(s) == k,
    decreases s.len(),
{
    if s.len() == 0 {
    } else if k == 0 {
    } else {
        let p = s.drop_first();
        assert(forall|j: int| 0 <= j < k - 1 ==> p[j] == s[j + 1]);
        lemma_line_len_at(p, k - 1);
    }
}

proof fn lemma_ltrim_at(s: Seq<char>, k: int)
    requires
        0 <= k <= s.len(),
        forall|j: int| 0 <= j < k ==> is_space(s[j]),
        k < s.len() ==> !is_space(s[k]),
    ensures
        ltrim_idx(s) == k,
    decreases s.len(),
{
    if s.len() == 0 {
    } else if k == 0 {
    } else {
        let p = s.drop_first();
        assert(forall|j: int| 0 <= j < k - 1 ==> p[j] == s[j + 1]);
        lemma_ltrim_at(p, k - 1);
    }
}

proof fn lemma_rtrim_at(s: Seq<char>, k: int)
    requires
        0 <= k <= s.len(),
        forall|j: int| k <= j < s.len() ==> is_space(s[j]),
        k > 0 ==> !is_space(s[k - 1]),
    ensures
        rtrim_len(s) == k,
    decreases s.len(),
{
    if s.len() == 0 {
    } else if k == s.len() {
    } else {
        let p = s.drop_last();
        assert(forall|j: int| 0 <= j < p.len() ==> p[j] == s[j]);
        lemma_rtrim_at(p, k);
    }
}

/// Number of fence lines in `s`, counted over the same lines that the scan
/// visits.
pub open spec fn fence_lines(s: Seq<char>) -> nat
    decreases s.len(),
{
    if s.len() == 0 {
        0
    } else {
        let k = line_len(s) as int;
        let f: nat = if is_fence(s.subrange(0, k)) {
            1
        } else {
            0
        };
        if k >= s.len() {
            f
        } else {
            f + fence_lines(s.subrange(k + 1, s.len() as int))
        }
    }
}

proof fn lemma_scan_from_count(st: ScanState, s: Seq<char>, pos: int)
    ensures
        st.cur is None ==> scan_from(st, s, pos).blocks.len() == st.blocks.len() + fence_lines(s)
            / 2,
        st.cur is None ==> (scan_from(st, s, pos).cur is Some <==> fence_lines(s) % 2 == 1),
        st.cur is Some ==> scan_from(st, s, pos).blocks.len() == st.blocks.len() + (fence_lines(s)
            + 1) / 2,
        st.cur is Some ==> (scan_from(st, s, pos).cur is Some <==> fence_lines(s) % 2 == 0),
    decreases s.len(),
{
    if s.len() == 0 {
    } else {
        let k = line_len(s) as int;
        let line = s.subrange(0, k);
        let st1 = scan_line(st, line, pos);
        let f = fence_lines(s) as int;
        let frest: int = if k >= s.len() {
            0
        } else {
            fence_lines(s.subrange(k + 1, s.len() as int)) as int
        };
        assert(f == frest + if is_fence(line) {
            1int
        } else {
            0int
        });
        if k >= s.len() {
        } else {
            lemma_scan_from_count(st1, s.subrange(k + 1, s.len() as int), pos + k + 1);
            assert((frest + 2) / 2 == frest / 2 + 1 && (frest + 2) % 2 == frest % 2)
                by (nonlinear_arith)
                requires
                    frest >= 0,
            ;
        }
    }
}

/// Law: scanning a text with exactly `2 * n` fence lines — `n` well-formed
/// open/close pairs, bodies holding no bare fence — publishes exactly `n`
/// blocks and leaves none open.
pub proof fn lemma_scan_publishes_pairs(content: Seq<char>, n: int)
    requires
        n >= 0,
        fence_lines(content) == 2 * n,
    ensures
        scan(content).blocks.len() == n,
        scan(content).cur is None,
{
    let st = ScanState { blocks: Seq::empty(), cur: Option::None };
    lemma_scan_from_count(st, content, 0);
    assert((2 * n) / 2 == n && (2 * n) % 2 == 0) by (nonlinear_arith)
        requires
            n >= 0,
    ;
}

/// Law: a text whose trailing fence is unterminated — `2 * n - 1` fence
/// lines — publishes exactly `n - 1` blocks, never `n`: the open trailing
/// block is held back.
pub proof fn lemma_unterminated_fence_unpublished(content: Seq<char>, n: int)
    requires
        n >= 1,
        fence_lines(content) == 2 * n - 1,
    ensures
        scan(content).blocks.len() == n - 1,
        scan(content).cur is Some,
{
    let st = ScanState { blocks: Seq::empty(), cur: Option::None };
    lemma_scan_from_count(st, content, 0);
    assert((2 * n - 1) / 2 == n - 1 && (2 * n - 1) % 2 == 1) by (nonlinear_arith)
        requires
            n >= 1,
    ;
}

proof fn lemma_scan_from_ordered(st: ScanState, s: Seq<char>, pos: int)
    requires
        forall|i: int, j: int|
            0 <= i < j < st.blocks.len() ==> st.blocks[i].end < st.blocks[j].start,
        forall|i: int| 0 <= i < st.blocks.len() ==> st.blocks[i].end < pos,
        match st.cur {
            Option::Some(c) => c.end < pos && forall|i: int|
                0 <= i < st.blocks.len() ==> st.blocks[i].end < c.start,
            Option::None => true,
        },
    ensures
        forall|i: int, j: int|
            0 <= i < j < scan_from(st, s, pos).blocks.len() ==> scan_from(st, s, pos).blocks[i].end
                < scan_from(st, s, pos).blocks[j].start,
        forall|i: int|
            0 <= i < scan_from(st, s, pos).blocks.len() ==> scan_from(st, s, pos).blocks[i].end
                < pos + s.len() + 1,
    decreases s.len(),
{
    if s.len() == 0 {
    } else {
        let k = line_len(s) as int;
        let line = s.subrange(0, k);
        let st1 = scan_line(st, line, pos);
        let pos1 = pos + k + 1;
        assert(forall|i: int| 0 <= i < st1.blocks.len() ==> st1.blocks[i].end < pos1);
        if k >= s.len() {
        } else {
            lemma_scan_from_ordered(st1, s.subrange(k + 1, s.len() as int), pos1);
        }
    }
}

/// Law: every published span lies inside the scanned text: its `end` offset
/// never passes the end of the text, so no block points past what was
/// finalized.
pub proof fn lemma_scan_spans_bounded(content: Seq<char>)
    ensures
        forall|i: int|
            0 <= i < scan(content).blocks.len() ==> scan(content).blocks[i].end <= content.len(),
{
    let st = ScanState { blocks: Seq::empty(), cur: Option::None };
    lemma_scan_from_ordered(st, content, 0);
}

/// Law: blocks are published in document order: each earlier block's span
/// ends before the next one's begins.
pub proof fn lemma_scan_ordered(content: Seq<char>)
    ensures
        forall|i: int, j: int|
            0 <= i < j < scan(content).blocks.len() ==> scan(content).blocks[i].end < scan(
                content,
            ).blocks[j].start,
{
    let st = ScanState { blocks: Seq::empty(), cur: Option::None };
    lemma_scan_from_ordered(st, content, 0);
}

/// Law: the scan is a function of the finalized text alone, so running it
/// twice on the same text yields identical span lists.
pub proof fn lemma_scan_idempotent(content: Seq<char>, first: Seq<SpecBlock>, second: Seq<SpecBlock>)
    requires
        first == scan(content).blocks,
        second == scan(content).blocks,
    ensures
        first == second,
{
}

/// Owner of the scan results for the accumulated output text.
#[derive(Debug)]
pub struct OutputMetadata {
    code_blocks: Vec<CodeBlock>,
    curr: Option<CodeBlock>,
}

impl OutputMetadata {
    /// The published blocks, as their mathematical images.
    pub closed spec fn blocks_view(&self) -> Seq<SpecBlock> {
        self.code_blocks@.map_values(|b: CodeBlock| b@)
    }

    /// The still-open block, if any, as its mathematical image.
    pub closed spec fn cur_view(&self) -> Option<SpecBlock> {
        match self.curr {
            Option::Some(b) => Option::Some(b@),
            Option::None => Option::None,
        }
    }

    pub fn new() -> (r: Self)
        ensures
            r.blocks_view() == Seq::<SpecBlock>::empty(),
            r.cur_view() == Option::<SpecBlock>::None,
    {
        let r = Self { code_blocks: Vec::new(), curr: None };
        proof {
            assert(r.blocks_view() =~= Seq::<SpecBlock>::empty());
        }
        r
    }

    pub fn clear(&mut self)
        ensures
            final(self).blocks_view() == Seq::<SpecBlock>::empty(),
            final(self).cur_view() == Option::<SpecBlock>::None,
    {
        self.code_blocks = Vec::new();
        self.curr = None;
        proof {
            assert(self.blocks_view() =~= Seq::<SpecBlock>::empty());
        }
    }

    /// The published blocks, in document order.
    pub fn code_blocks(&self) -> (r: &[CodeBlock])
        ensures
            r@.map_values(|b: CodeBlock| b@) == self.blocks_view(),
    {
        self.code_blocks.as_slice()
    }

    /// Re-scans `content` from scratch: afterwards the published blocks and
    /// the open block are exactly those of the specification scan.
    pub fn generate(&mut self, content: &str)
        requires
            content@.len() + 4 < usize::MAX,
        ensures
            final(self).blocks_view() == scan(content@).blocks,
            final(self).cur_view() == scan(content@).cur,
    {
        self.code_blocks = Vec::new();
        self.curr = None;
        let ghost s = content@;
        let n = content.unicode_len();
        let mut pos: usize = 0;
        proof {
            assert(self.blocks_view() =~= Seq::<SpecBlock>::empty());
            assert(s.subrange(0, n as int) =~= s);
        }
        while pos < n
            invariant
                pos <= n,
                n == s.len(),
                s == content@,
                n + 4 < usize::MAX,
                scan(s) == scan_from(
                    ScanState { blocks: self.blocks_view(), cur: self.cur_view() },
                    s.subrange(pos as int, n as int),
                    pos as int,
                ),
            decreases n - pos,
        {
            let ghost st0 = ScanState { blocks: self.blocks_view(), cur: self.cur_view() };
            let ghost rem = s.subrange(pos as int, n as int);
            // Find the end of the current line.
            let mut e: usize = pos;
            while e < n && content.get_char(e) != '\n'
                invariant
                    pos <= e <= n,
                    n == s.len(),
                    s == content@,
                    forall|m: int| pos <= m < e ==> s[m] != '\n',
                decreases n - e,
            {
                e = e + 1;
            }
            let ghost line = s.subrange(pos as int, e as int);
            proof {
                assert(forall|j: int| 0 <= j < rem.len() ==> rem[j] == s[pos + j]);
                lemma_line_len_at(rem, e - pos);
                assert(rem.subrange(0, (e - pos) as int) =~= line);
            }
            // Trim the line.
            let mut a: usize = pos;
            while a < e && is_space_ch(content.get_char(a))
                invariant
                    pos <= a <= e <= n,
                    n == s.len(),
                    s == content@,
                    forall|m: int| pos <= m < a ==> is_space(s[m]),
                decreases e - a,
            {
                a = a + 1;
            }
            let mut b: usize = e;
            while b > pos && is_space_ch(content.get_char(b - 1))
                invariant
                    pos <= b <= e <= n,
                    n == s.len(),
                    s == content@,
                    forall|m: int| b <= m < e ==> is_space(s[m]),
                decreases b,
            {
                b = b - 1;
            }
            proof {
                assert(forall|j: int| 0 <= j < line.len() ==> line[j] == s[pos + j]);
                lemma_ltrim_at(line, a - pos);
                lemma_rtrim_at(line, b - pos);
            }
            // Fence test and state update, mirroring `scan_line`.
            let fence = a + 3 <= b && content.get_char(a) == '`' && content.get_char(a + 1) == '`'
                && content.get_char(a + 2) == '`';
            proof {
                assert(fence == is_fence(line));
            }
            if fence {
                if self.curr.is_none() {
                    // Opening fence: remember the language label and where the
                    // body will begin.
                    let ghost rest = line.subrange(a - pos + 3, b - pos as int);
                    let lang = if a + 3 == b {
                        None
                    } else {
                        let tag = content.substring_char(a + 3, b);
                        proof {
                            assert(tag@ =~= rest);
                        }
                        Some(String::from_str(tag))
                    };
                    self.curr = Some(CodeBlock { lang, start: e + 1, end: 0 });
                } else {
                    // Closing fence: publish the open block as it stands.
                    let mut taken: Option<CodeBlock> = None;
                    core::mem::swap(&mut self.curr, &mut taken);
                    if let Some(blk) = taken {
                        self.code_blocks.push(blk);
                    }
                }
            }
            match &mut self.curr {
                Some(blk) => {
                    blk.end = e;
                },
                None => {},
            }
            proof {
                let st1 = scan_line(st0, line, pos as int);
                assert(ScanState { blocks: self.blocks_view(), cur: self.cur_view() }.blocks
                    =~= st1.blocks);
                assert(ScanState { blocks: self.blocks_view(), cur: self.cur_view() } == st1);
                if e < n {
                    assert(rem.subrange((e - pos) as int + 1, rem.len() as int) =~= s.subrange(
                        e as int + 1,
                        n as int,
                    ));
                }
            }
            if e == n {
                pos = n;
                proof {
                    assert(s.subrange(n as int, n as int) =~= Seq::<char>::empty());
                }
            } else {
                pos = e + 1;
            }
        }
        proof {
            assert(s.subrange(pos as int, n as int) =~= Seq::<char>::empty());
        }
    }
}

fn is_space_ch(c: char) -> (r: bool)
    ensures
        r == is_space(c),
{
    c == ' ' || c == '\t' || c == '\r'
}

} // verus!
