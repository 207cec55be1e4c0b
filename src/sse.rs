//! Incremental decoding of a vendor's event stream: bytes are split on
//! newlines (a line may arrive across several chunks), `data: ` lines carry a
//! JSON event, `data: [DONE]` ends the stream, and each event is read the
//! vendor's way. An event that cannot be read is skipped; empty fragments
//! are suppressed.

use vstd::prelude::*;
use vstd::slice::slice_subrange;
use crate::json::{json_text_at, lookup_text};
use crate::provider::Provider;
use crate::text::{chars_of, same_text};

verus! {

/// `data: `
pub open spec fn data_prefix() -> Seq<u8> {
    seq![100u8, 97u8, 116u8, 97u8, 58u8, 32u8]
}

/// `[DONE]`
pub open spec fn done_marker() -> Seq<u8> {
    seq![91u8, 68u8, 79u8, 78u8, 69u8, 93u8]
}

pub open spec fn is_data_line(line: Seq<u8>) -> bool {
    line.len() >= 6 && line.take(6) == data_prefix()
}

pub open spec fn is_done_line(line: Seq<u8>) -> bool {
    is_data_line(line) && line.skip(6) == done_marker()
}

/// Index of the first newline at or after `i`, or `b.len()`.
pub open spec fn next_newline(b: Seq<u8>, i: int) -> int
    decreases b.len() - i,
{
    if 0 <= i < b.len() {
        if b[i] == 10u8 {
            i
        } else {
            next_newline(b, i + 1)
        }
    } else {
        b.len() as int
    }
}

proof fn lemma_next_newline_bounds(b: Seq<u8>, i: int)
    requires
        0 <= i <= b.len(),
    ensures
        i <= next_newline(b, i) <= b.len(),
    decreases b.len() - i,
{
    if i < b.len() && b[i] != 10u8 {
        lemma_next_newline_bounds(b, i + 1);
    }
}

pub open spec fn nonempty_text(r: Option<Option<Seq<char>>>) -> Option<Seq<char>> {
    match r {
        Some(Some(t)) => if t.len() > 0 {
            Some(t)
        } else {
            None
        },
        _ => None,
    }
}

/// The text fragment a vendor's event payload carries, if any.
pub open spec fn event_delta(p: Provider, data: Seq<u8>) -> Option<Seq<char>> {
    match p {
        Provider::Anthropic => if json_text_at(data, "/type"@) == Some(
            Some("content_block_delta"@),
        ) {
            nonempty_text(json_text_at(data, "/delta/text"@))
        } else {
            None
        },
        Provider::Gemini => nonempty_text(json_text_at(data, "/candidates/0/content/parts/0/text"@)),
        _ => nonempty_text(json_text_at(data, "/choices/0/delta/content"@)),
    }
}

pub open spec fn line_delta(p: Provider, line: Seq<u8>) -> Option<Seq<char>> {
    if is_data_line(line) {
        event_delta(p, line.skip(6))
    } else {
        None
    }
}

/// Decoding the complete lines of `b` from index `i`: the fragments, whether
/// the end marker was seen, and where the unread rest starts.
pub open spec fn decode_from(p: Provider, b: Seq<u8>, i: int) -> (Seq<Seq<char>>, bool, int)
    decreases b.len() - i,
    via decode_from_decreases
{
    if i < 0 || i > b.len() || next_newline(b, i) >= b.len() {
        (seq![], false, i)
    } else {
        let nl = next_newline(b, i);
        let line = b.subrange(i, nl);
        if is_done_line(line) {
            (seq![], true, nl + 1)
        } else {
            let rest = decode_from(p, b, nl + 1);
            (
                match line_delta(p, line) {
                    Some(t) => seq![t] + rest.0,
                    None => rest.0,
                },
                rest.1,
                rest.2,
            )
        }
    }
}

#[via_fn]
proof fn decode_from_decreases(p: Provider, b: Seq<u8>, i: int) {
    if 0 <= i <= b.len() {
        lemma_next_newline_bounds(b, i);
    }
}

proof fn lemma_newline_append(a: Seq<u8>, b: Seq<u8>, i: int)
    requires
        0 <= i <= a.len(),
    ensures
        next_newline(a, i) < a.len() ==> next_newline(a + b, i) == next_newline(a, i),
        next_newline(a, i) >= a.len() ==> next_newline(a + b, i) == next_newline(
            a + b,
            a.len() as int,
        ),
    decreases a.len() - i,
{
    if i < a.len() {
        assert((a + b)[i] == a[i]);
        if a[i] != 10u8 {
            lemma_newline_append(a, b, i + 1);
        }
    }
}

proof fn lemma_decode_append(p: Provider, a: Seq<u8>, b: Seq<u8>, i: int)
    requires
        0 <= i <= a.len(),
    ensures
        ({
            let d = decode_from(p, a, i);
            let e = decode_from(p, a + b, d.2);
            &&& d.1 ==> decode_from(p, a + b, i) == d
            &&& !d.1 ==> decode_from(p, a + b, i) == (d.0 + e.0, e.1, e.2)
            &&& i <= d.2 <= a.len() + 1
            &&& !d.1 ==> d.2 <= a.len()
        }),
    decreases a.len() - i,
{
    lemma_newline_append(a, b, i);
    lemma_next_newline_bounds(a, i);
    lemma_next_newline_bounds(a + b, i);
    let nl = next_newline(a, i);
    let d = decode_from(p, a, i);
    if nl >= a.len() {
        let e = decode_from(p, a + b, i);
        assert(Seq::<Seq<char>>::empty() + e.0 =~= e.0);
    } else {
        let line = a.subrange(i, nl);
        assert((a + b).subrange(i, nl) =~= line);
        if !is_done_line(line) {
            lemma_decode_append(p, a, b, nl + 1);
            let rest = decode_from(p, a, nl + 1);
            if !rest.1 {
                let e = decode_from(p, a + b, rest.2);
                match line_delta(p, line) {
                    Some(t) => {
                        assert(seq![t] + (rest.0 + e.0) =~= (seq![t] + rest.0) + e.0);
                    },
                    None => {},
                }
            }
        }
    }
}

proof fn lemma_newline_shift(s: Seq<u8>, i: int, j: int)
    requires
        0 <= i <= j <= s.len(),
    ensures
        next_newline(s, j) == next_newline(s.skip(i), j - i) + i,
    decreases s.len() - j,
{
    if j < s.len() {
        assert(s.skip(i)[j - i] == s[j]);
        if s[j] != 10u8 {
            lemma_newline_shift(s, i, j + 1);
        }
    }
}

proof fn lemma_decode_shift(p: Provider, s: Seq<u8>, i: int, j: int)
    requires
        0 <= i <= j <= s.len(),
    ensures
        ({
            let d = decode_from(p, s, j);
            let e = decode_from(p, s.skip(i), j - i);
            d.0 == e.0 && d.1 == e.1 && d.2 == e.2 + i
        }),
    decreases s.len() - j,
{
    lemma_newline_shift(s, i, j);
    lemma_next_newline_bounds(s, j);
    let nl = next_newline(s, j);
    if nl < s.len() {
        assert(s.skip(i).subrange(j - i, nl - i) =~= s.subrange(j, nl));
        if !is_done_line(s.subrange(j, nl)) {
            lemma_decode_shift(p, s, i, nl + 1);
        }
    }
}

/// Where the byte feed is cut into chunks does not matter: decoding `a`,
/// then its unread rest followed by `b`, gives the fragments, end flag and
/// unread rest that decoding `a + b` at once gives.
pub proof fn law_chunk_boundaries(p: Provider, a: Seq<u8>, b: Seq<u8>)
    ensures
        ({
            let d = decode_from(p, a, 0);
            let e = decode_from(p, a.skip(d.2) + b, 0);
            &&& d.1 ==> decode_from(p, a + b, 0) == d
            &&& !d.1 ==> decode_from(p, a + b, 0) == (d.0 + e.0, e.1, e.2 + d.2)
        }),
{
    lemma_decode_append(p, a, b, 0);
    let d = decode_from(p, a, 0);
    if !d.1 {
        lemma_decode_shift(p, a + b, d.2, d.2);
        assert((a + b).skip(d.2) =~= a.skip(d.2) + b);
    }
}

pub struct DecoderView {
    pub provider: Provider,
    pub pending: Seq<u8>,
    pub done: bool,
}

/// Decoder of one vendor's event stream.
pub struct SseDecoder {
    provider: Provider,
    buffer: Vec<u8>,
    done: bool,
}

impl View for SseDecoder {
    type V = DecoderView;

    closed spec fn view(&self) -> DecoderView {
        DecoderView { provider: self.provider, pending: self.buffer@, done: self.done }
    }
}

pub open spec fn texts_view(v: Seq<String>) -> Seq<Seq<char>> {
    v.map_values(|s: String| s@)
}

fn is_data_line_exec(line: &[u8]) -> (r: bool)
    ensures
        r == is_data_line(line@),
{
    let r = line.len() >= 6 && line[0] == 100u8 && line[1] == 97u8 && line[2] == 116u8 && line[3]
        == 97u8 && line[4] == 58u8 && line[5] == 32u8;
    proof {
        if line@.len() >= 6 {
            if r {
                assert(line@.take(6) =~= data_prefix());
            } else {
                if line@.take(6) == data_prefix() {
                    assert(line@.take(6)[0] == 100u8);
                    assert(line@.take(6)[1] == 97u8);
                    assert(line@.take(6)[2] == 116u8);
                    assert(line@.take(6)[3] == 97u8);
                    assert(line@.take(6)[4] == 58u8);
                    assert(line@.take(6)[5] == 32u8);
                }
            }
        }
    }
    r
}

fn is_done_payload(data: &[u8]) -> (r: bool)
    ensures
        r == (data@ == done_marker()),
{
    let r = data.len() == 6 && data[0] == 91u8 && data[1] == 68u8 && data[2] == 79u8 && data[3]
        == 78u8 && data[4] == 69u8 && data[5] == 93u8;
    proof {
        if r {
            assert(data@ =~= done_marker());
        } else if data@ == done_marker() {
            assert(data@[0] == 91u8);
        }
    }
    r
}

fn nonempty(r: Option<Option<String>>) -> (t: Option<String>)
    ensures
        match t {
            Some(s) => nonempty_text(crate::json::lookup_view(r)) == Some(s@),
            None => nonempty_text(crate::json::lookup_view(r)) is None,
        },
{
    match r {
        Some(Some(s)) => {
            let cs = chars_of(s.as_str());
            if cs.len() > 0 {
                Some(s)
            } else {
                None
            }
        },
        _ => None,
    }
}

/// The fragment one event payload carries for vendor `p`.
fn event_delta_exec(p: Provider, data: &[u8]) -> (t: Option<String>)
    ensures
        match t {
            Some(s) => event_delta(p, data@) == Some(s@),
            None => event_delta(p, data@) is None,
        },
{
    match p {
        Provider::Anthropic => {
            let kind = lookup_text(data, "/type");
            let is_delta = match &kind {
                Some(Some(k)) => same_text(k.as_str(), "content_block_delta"),
                _ => false,
            };
            if is_delta {
                nonempty(lookup_text(data, "/delta/text"))
            } else {
                None
            }
        },
        Provider::Gemini => nonempty(lookup_text(data, "/candidates/0/content/parts/0/text")),
        _ => nonempty(lookup_text(data, "/choices/0/delta/content")),
    }
}

impl SseDecoder {
    pub fn new(provider: Provider) -> (r: SseDecoder)
        ensures
            r@ == (DecoderView { provider, pending: seq![], done: false }),
    {
        SseDecoder { provider, buffer: Vec::new(), done: false }
    }

    /// Whether the end marker has been seen.
    pub fn is_done(&self) -> (r: bool)
        ensures
            r == self@.done,
    {
        self.done
    }

    /// Takes the next chunk of the body and returns the fragments of the
    /// lines it completes, in order. An incomplete last line waits for the
    /// next chunk; after the end marker everything is ignored.
    pub fn feed(&mut self, chunk: &[u8]) -> (out: Vec<String>)
        ensures
            old(self)@.done ==> out.len() == 0 && final(self)@ == old(self)@,
            !old(self)@.done ==> ({
                let b = old(self)@.pending + chunk@;
                let d = decode_from(old(self)@.provider, b, 0);
                &&& texts_view(out@) == d.0
                &&& final(self)@.provider == old(self)@.provider
                &&& final(self)@.done == d.1
                &&& final(self)@.pending == if d.1 {
                    seq![]
                } else {
                    b.subrange(d.2, b.len() as int)
                }
            }),
    {
        let mut out: Vec<String> = Vec::new();
        if self.done {
            return out;
        }
        let mut b: Vec<u8> = Vec::new();
        b.append(&mut self.buffer);
        let mut k: usize = 0;
        while k < chunk.len()
            invariant
                k <= chunk.len(),
                b@ == old(self).buffer@ + chunk@.take(k as int),
            decreases chunk.len() - k,
        {
            b.push(chunk[k]);
            assert(chunk@.take(k + 1) =~= chunk@.take(k as int).push(chunk@[k as int]));
            k = k + 1;
        }
        assert(chunk@.take(chunk.len() as int) =~= chunk@);
        let ghost bb = b@;
        let ghost p = self.provider;
        let mut start: usize = 0;
        let mut done = false;
        loop
            invariant_except_break
                !done,
                decode_from(p, bb, 0) == ({
                    let rest = decode_from(p, bb, start as int);
                    (texts_view(out@) + rest.0, rest.1, rest.2)
                }),
            invariant
                bb == b@,
                p == self.provider,
                start <= b.len(),
            ensures
                decode_from(p, bb, 0) == (texts_view(out@), done, start as int),
            decreases b.len() - start,
        {
            let mut nl: usize = start;
            while nl < b.len() && b[nl] != 10u8
                invariant
                    start <= nl <= b.len(),
                    next_newline(bb, start as int) == next_newline(bb, nl as int),
                    bb == b@,
                decreases b.len() - nl,
            {
                nl = nl + 1;
            }
            if nl >= b.len() {
                assert(texts_view(out@) + Seq::<Seq<char>>::empty() =~= texts_view(out@));
                break;
            }
            let line = slice_subrange(b.as_slice(), start, nl);
            let ghost rest = decode_from(p, bb, nl + 1);
            if is_data_line_exec(line) {
                let data = slice_subrange(line, 6, line.len());
                assert(data@ == line@.skip(6));
                if is_done_payload(data) {
                    assert(texts_view(out@) + Seq::<Seq<char>>::empty() =~= texts_view(out@));
                    start = nl + 1;
                    done = true;
                    break;
                }
                let t = event_delta_exec(self.provider, data);
                match t {
                    Some(s) => {
                        let ghost before = out@;
                        out.push(s);
                        assert(texts_view(out@) =~= texts_view(before).push(s@));
                        assert(texts_view(before) + seq![s@] + rest.0 =~= texts_view(before) + (
                        seq![s@] + rest.0));
                    },
                    None => {},
                }
            }
            start = nl + 1;
        }
        if done {
            self.buffer = Vec::new();
            self.done = true;
        } else {
            let mut rest: Vec<u8> = Vec::new();
            let mut j: usize = start;
            while j < b.len()
                invariant
                    start <= j <= b.len(),
                    rest@ == b@.subrange(start as int, j as int),
                decreases b.len() - j,
            {
                rest.push(b[j]);
                assert(b@.subrange(start as int, j + 1) =~= b@.subrange(start as int, j as int).push(
                    b@[j as int],
                ));
                j = j + 1;
            }
            self.buffer = rest;
        }
        out
    }
}

} // verus!
