//! Streamed-record decoder: assembles server-sent-event style records from
//! possibly partial network chunks and turns each complete record into at
//! most one piece of assistant text. A logical record is terminated by a
//! blank line; partial records are buffered across calls; a payload literal
//! `[DONE]` marks end-of-stream and is silently dropped.

use vstd::prelude::*;

verus! {

use crate::openai::{parse_record, spec_piece_of};

/// Whitespace trimmed from a data line's payload.
pub open spec fn is_bspace(b: u8) -> bool {
    b == 32 || b == 9 || b == 13
}

/// Number of leading whitespace bytes.
pub open spec fn bltrim(s: Seq<u8>) -> nat
    decreases s.len(),
{
    if s.len() == 0 {
        0
    } else if is_bspace(s[0]) {
        1 + bltrim(s.drop_first())
    } else {
        0
    }
}

/// Length of `s` once trailing whitespace is dropped.
pub open spec fn brtrim(s: Seq<u8>) -> nat
    decreases s.len(),
{
    if s.len() == 0 {
        0
    } else if is_bspace(s.last()) {
        brtrim(s.drop_last())
    } else {
        s.len()
    }
}

/// `s` with whitespace trimmed from both ends.
pub open spec fn btrim(s: Seq<u8>) -> Seq<u8> {
    let a = bltrim(s) as int;
    let b = brtrim(s) as int;
    if b <= a {
        Seq::empty()
    } else {
        s.subrange(a, b)
    }
}

/// A line with at most one trailing carriage return removed.
pub open spec fn strip_cr(l: Seq<u8>) -> Seq<u8> {
    if l.len() > 0 && l.last() == 13 {
        l.drop_last()
    } else {
        l
    }
}

/// A line that starts with the `data:` field name.
pub open spec fn is_data_line(l: Seq<u8>) -> bool {
    l.len() >= 5 && l[0] == 100 && l[1] == 97 && l[2] == 116 && l[3] == 97 && l[4] == 58
}

/// The end-of-stream payload `[DONE]`.
pub open spec fn is_done_marker(p: Seq<u8>) -> bool {
    p.len() == 6 && p[0] == 91 && p[1] == 68 && p[2] == 79 && p[3] == 78 && p[4] == 69 && p[5]
        == 93
}

/// Effect of one completed line on the record under assembly: a data line
/// contributes its trimmed payload unless it is the end-of-stream marker; a
/// blank line completes a nonempty record and emits it; other lines are
/// ignored.
pub open spec fn line_effect(record: Seq<u8>, l0: Seq<u8>) -> (Seq<u8>, Option<Seq<u8>>) {
    let l = strip_cr(l0);
    if is_data_line(l) {
        let payload = btrim(l.subrange(5, l.len() as int));
        if is_done_marker(payload) {
            (record, Option::None)
        } else {
            (record + payload, Option::None)
        }
    } else if l.len() == 0 && record.len() > 0 {
        (Seq::empty(), Option::Some(record))
    } else {
        (record, Option::None)
    }
}

/// Decoder state: the partial line and the record under assembly.
pub struct DecSt {
    pub line: Seq<u8>,
    pub record: Seq<u8>,
}

/// Effect of one byte: a newline completes the pending line, anything else
/// extends it.
pub open spec fn decode_byte(st: DecSt, b: u8) -> (DecSt, Option<Seq<u8>>) {
    if b == 10 {
        let (rec, emit) = line_effect(st.record, st.line);
        (DecSt { line: Seq::empty(), record: rec }, emit)
    } else {
        (DecSt { line: st.line.push(b), record: st.record }, Option::None)
    }
}

/// Fold of `decode_byte` over a chunk: the final state and the complete
/// records emitted, in order.
pub open spec fn decode_bytes(st: DecSt, data: Seq<u8>) -> (DecSt, Seq<Seq<u8>>)
    decreases data.len(),
{
    if data.len() == 0 {
        (st, Seq::empty())
    } else {
        let (st1, recs) = decode_bytes(st, data.drop_last());
        let (st2, emit) = decode_byte(st1, data.last());
        match emit {
            Option::Some(r) => (st2, recs.push(r)),
            Option::None => (st2, recs),
        }
    }
}

/// The pieces of assistant text contributed by a run of records: one for
/// each record that decodes to content or a refusal, in order.
pub open spec fn pieces_of(recs: Seq<Seq<u8>>) -> Seq<Seq<char>>
    decreases recs.len(),
{
    if recs.len() == 0 {
        Seq::empty()
    } else {
        let p = pieces_of(recs.drop_last());
        match spec_piece_of(recs.last()) {
            Option::Some(c) => p.push(c),
            Option::None => p,
        }
    }
}

proof fn lemma_bltrim_at(s: Seq<u8>, k: int)
    requires
        0 <= k <= s.len(),
        forall|j: int| 0 <= j < k ==> is_bspace(s[j]),
        k < s.len() ==> !is_bspace(s[k]),
    ensures
        bltrim(s) == k,
    decreases s.len(),
{
    if s.len() == 0 {
    } else if k == 0 {
    } else {
        let p = s.drop_first();
        assert(forall|j: int| 0 <= j < k - 1 ==> p[j] == s[j + 1]);
        lemma_bltrim_at(p, k - 1);
    }
}

proof fn lemma_brtrim_at(s: Seq<u8>, k: int)
    requires
        0 <= k <= s.len(),
        forall|j: int| k <= j < s.len() ==> is_bspace(s[j]),
        k > 0 ==> !is_bspace(s[k - 1]),
    ensures
        brtrim(s) == k,
    decreases s.len(),
{
    if s.len() == 0 {
    } else if k == s.len() {
    } else {
        let p = s.drop_last();
        assert(forall|j: int| 0 <= j < p.len() ==> p[j] == s[j]);
        lemma_brtrim_at(p, k);
    }
}

/// The stateful decoder, owned by the request orchestrator for the lifetime
/// of one transfer.
pub struct Decoder {
    line: Vec<u8>,
    record: Vec<u8>,
}

impl View for Decoder {
    type V = DecSt;

    closed spec fn view(&self) -> DecSt {
        DecSt { line: self.line@, record: self.record@ }
    }
}

impl Decoder {
    pub fn new() -> (r: Self)
        ensures
            r@.line == Seq::<u8>::empty(),
            r@.record == Seq::<u8>::empty(),
    {
        Self { line: Vec::new(), record: Vec::new() }
    }

    /// Feeds one network chunk: buffers partial lines and records, and
    /// returns the pieces of the records this chunk completed, in order.
    pub fn decode_chunk(&mut self, data: &[u8]) -> (pieces: Vec<String>)
        ensures
            ({
                let (st, recs) = decode_bytes(old(self)@, data@);
                &&& final(self)@ == st
                &&& pieces@.map_values(|s: String| s@) == pieces_of(recs)
            }),
    {
        let ghost st0 = self@;
        let mut pieces: Vec<String> = Vec::new();
        let n = data.len();
        let mut i: usize = 0;
        proof {
            assert(data@.take(0) =~= Seq::<u8>::empty());
            assert(pieces@.map_values(|s: String| s@) =~= Seq::<Seq<char>>::empty());
        }
        while i < n
            invariant
                i <= n == data@.len(),
                ({
                    let (st, recs) = decode_bytes(st0, data@.take(i as int));
                    self@ == st && pieces@.map_values(|s: String| s@) == pieces_of(recs)
                }),
            decreases n - i,
        {
            let ghost (st_pre, recs_pre) = decode_bytes(st0, data@.take(i as int));
            proof {
                assert(data@.take(i as int + 1).drop_last() =~= data@.take(i as int));
                assert(data@.take(i as int + 1).last() == data@[i as int]);
            }
            let b = data[i];
            if b == 10 {
                let ghost emit = line_effect(st_pre.record, st_pre.line).1;
                let piece = self.finish_line();
                proof {
                    if emit is Some {
                        assert(recs_pre.push(emit->0).drop_last() =~= recs_pre);
                        assert(recs_pre.push(emit->0).last() == emit->0);
                    }
                }
                match piece {
                    Some(p) => {
                        pieces.push(p);
                        proof {
                            assert(pieces@.map_values(|s: String| s@) =~= pieces_of(
                                recs_pre,
                            ).push(spec_piece_of(emit->0)->0));
                        }
                    },
                    None => {},
                }
            } else {
                self.line.push(b);
            }
            proof {
                let stepped = decode_byte(st_pre, data@[i as int]);
                assert(self@ == stepped.0);
                let next = decode_bytes(st0, data@.take(i as int + 1));
                assert(next.0 == stepped.0);
                assert(pieces@.map_values(|s: String| s@) == pieces_of(next.1));
            }
            i = i + 1;
        }
        proof {
            assert(data@.take(n as int) =~= data@);
        }
        pieces
    }

    /// Completes the pending line and applies its effect on the record under
    /// assembly, handing back the piece of the record the line completed, if
    /// any.
    fn finish_line(&mut self) -> (piece: Option<String>)
        ensures
            ({
                let (rec, emit) = line_effect(old(self)@.record, old(self)@.line);
                &&& final(self)@.line == Seq::<u8>::empty()
                &&& final(self)@.record == rec
                &&& match emit {
                    Option::Some(r) => match (piece, spec_piece_of(r)) {
                        (Option::Some(s), Option::Some(p)) => s@ == p,
                        (Option::None, Option::None) => true,
                        _ => false,
                    },
                    Option::None => piece is None,
                }
            }),
    {
        let ghost rec0 = self@.record;
        let ghost l0 = self@.line;
        let mut line: Vec<u8> = Vec::new();
        core::mem::swap(&mut self.line, &mut line);
        if line.len() > 0 && line[line.len() - 1] == 13 {
            let _ = line.pop();
        }
        proof {
            assert(line@ == strip_cr(l0));
        }
        let e = line.len();
        if e >= 5 && line[0] == 100 && line[1] == 97 && line[2] == 116 && line[3] == 97 && line[4]
            == 58 {
            // A data line: append its trimmed payload to the record.
            let mut a: usize = 5;
            while a < e && is_bspace_x(line[a])
                invariant
                    5 <= a <= e == line@.len(),
                    forall|m: int| 5 <= m < a ==> is_bspace(line@[m]),
                decreases e - a,
            {
                a = a + 1;
            }
            let mut bb: usize = e;
            while bb > 5 && is_bspace_x(line[bb - 1])
                invariant
                    5 <= bb <= e == line@.len(),
                    forall|m: int| bb <= m < e ==> is_bspace(line@[m]),
                decreases bb,
            {
                bb = bb - 1;
            }
            let ghost payload_all = line@.subrange(5, e as int);
            proof {
                assert(forall|j: int|
                    0 <= j < payload_all.len() ==> payload_all[j] == line@[5 + j]);
                lemma_bltrim_at(payload_all, a - 5);
                lemma_brtrim_at(payload_all, bb - 5);
                if bb > a {
                    assert(btrim(payload_all) =~= line@.subrange(a as int, bb as int));
                }
            }
            let is_done = bb >= a && bb - a == 6 && line[a] == 91 && line[a + 1] == 68 && line[a
                + 2] == 79 && line[a + 3] == 78 && line[a + 4] == 69 && line[a + 5] == 93;
            proof {
                assert(is_done == is_done_marker(btrim(payload_all)));
            }
            if !is_done && a < bb {
                proof {
                    assert(rec0 + line@.subrange(a as int, a as int) =~= rec0);
                }
                let mut j: usize = a;
                while j < bb
                    invariant
                        a <= j <= bb <= line@.len(),
                        self.record@ == rec0 + line@.subrange(a as int, j as int),
                        self.line@ == Seq::<u8>::empty(),
                    decreases bb - j,
                {
                    let byte = line[j];
                    self.record.push(byte);
                    proof {
                        assert(rec0 + line@.subrange(a as int, j as int + 1) =~= (rec0
                            + line@.subrange(a as int, j as int)).push(line@[j as int]));
                    }
                    j = j + 1;
                }
            } else if !is_done {
                proof {
                    assert(btrim(payload_all) =~= Seq::<u8>::empty());
                    assert(self.record@ =~= rec0 + btrim(payload_all));
                }
            }
            None
        } else if e == 0 && self.record.len() > 0 {
            // A blank line: the record is complete; emit its piece.
            let piece = extract_piece(&self.record);
            self.record.clear();
            piece
        } else {
            None
        }
    }
}

/// The piece one complete record contributes, if any: the verified half of
/// the decode, applied to whatever the record parser returned.
pub fn extract_piece(record: &Vec<u8>) -> (r: Option<String>)
    ensures
        match (r, spec_piece_of(record@)) {
            (Option::Some(s), Option::Some(p)) => s@ == p,
            (Option::None, Option::None) => true,
            _ => false,
        },
{
    match parse_record(record) {
        Some(m) => m.content_or_refusal(),
        None => None,
    }
}

fn is_bspace_x(b: u8) -> (r: bool)
    ensures
        r == is_bspace(b),
{
    b == 32 || b == 9 || b == 13
}

/// Law: decoding is insensitive to how the stream is cut into chunks:
/// feeding `a` and then `b` leaves the same state and emits the same records,
/// in order, as feeding `a + b` at once. In particular a chunk cut mid-record
/// only buffers, and the call that supplies the remainder emits the record of
/// the concatenation.
pub proof fn lemma_decode_chunks_concat(st: DecSt, a: Seq<u8>, b: Seq<u8>)
    ensures
        ({
            let (st1, r1) = decode_bytes(st, a);
            let (st2, r2) = decode_bytes(st1, b);
            let (st3, r3) = decode_bytes(st, a + b);
            st3 == st2 && r3 == r1 + r2
        }),
    decreases b.len(),
{
    let (st1, r1) = decode_bytes(st, a);
    if b.len() == 0 {
        assert(a + b =~= a);
        assert(r1 + Seq::<Seq<u8>>::empty() =~= r1);
    } else {
        lemma_decode_chunks_concat(st, a, b.drop_last());
        assert((a + b).drop_last() =~= a + b.drop_last());
        assert((a + b).last() == b.last());
        let (st2p, r2p) = decode_bytes(st1, b.drop_last());
        let (st2, emit) = decode_byte(st2p, b.last());
        match emit {
            Option::Some(r) => {
                assert(r1 + r2p.push(r) =~= (r1 + r2p).push(r));
            },
            Option::None => {},
        }
    }
}

/// Law: a chunk holding no newline completes no record and emits nothing; it
/// is buffered whole onto the pending line.
pub proof fn lemma_partial_chunk_buffers(st: DecSt, data: Seq<u8>)
    requires
        forall|i: int| 0 <= i < data.len() ==> data[i] != 10,
    ensures
        decode_bytes(st, data).0.record == st.record,
        decode_bytes(st, data).0.line == st.line + data,
        decode_bytes(st, data).1 == Seq::<Seq<u8>>::empty(),
    decreases data.len(),
{
    if data.len() == 0 {
        assert(st.line + data =~= st.line);
    } else {
        let p = data.drop_last();
        assert(forall|i: int| 0 <= i < p.len() ==> p[i] == data[i]);
        lemma_partial_chunk_buffers(st, p);
        assert((st.line + p).push(data.last()) =~= st.line + data);
    }
}

} // verus!
