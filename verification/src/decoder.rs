//! The stream decoder: from the bytes of a server-sent-event stream, in
//! whatever pieces they arrive, to the payloads of its `data: ` lines.

use crate::text::{
    decode_lossy, from_chars, has_prefix, matches_at, same_chars, slice_chars, texts, to_chars, trim,
    trim_bounds, utf8_lossy,
};
use vstd::prelude::*;

verus! {

/// What one line of the stream amounts to.
#[derive(Debug)]
pub enum LineEvent {
    /// The sentinel that ends the stream.
    Done,
    /// An event, with the text that follows the prefix.
    Payload(String),
    /// Anything else: blank lines, comments, other fields.
    Skip,
}

/// The mathematical content of a [`LineEvent`].
pub ghost enum LineEventView {
    Done,
    Payload(Seq<char>),
    Skip,
}

impl View for LineEvent {
    type V = LineEventView;

    open spec fn view(&self) -> LineEventView {
        match self {
            LineEvent::Done => LineEventView::Done,
            LineEvent::Payload(p) => LineEventView::Payload(p@),
            LineEvent::Skip => LineEventView::Skip,
        }
    }
}

/// The prefix that marks a line as an event.
pub open spec fn event_prefix() -> Seq<char> {
    "data: "@
}

/// The line that ends the stream.
pub open spec fn done_line() -> Seq<char> {
    "data: [DONE]"@
}

/// What a line amounts to, once white space around it is gone: the sentinel
/// ends the stream, a line that starts with the prefix carries what follows
/// the prefix, and every other line is passed over.
pub open spec fn classify(line: Seq<char>) -> LineEventView {
    let t = trim(line);
    if t == done_line() {
        LineEventView::Done
    } else if has_prefix(t, event_prefix()) {
        LineEventView::Payload(t.skip(event_prefix().len() as int))
    } else {
        LineEventView::Skip
    }
}

/// Classifies one line of the stream, given as text.
pub fn classify_line(line: &str) -> (event: LineEvent)
    ensures
        event@ == classify(line@),
{
    let chars = to_chars(line);
    let (start, end) = trim_bounds(&chars);
    let trimmed = slice_chars(&chars, start, end);
    let sentinel = to_chars("data: [DONE]");
    if same_chars(&trimmed, &sentinel) {
        return LineEvent::Done;
    }
    let prefix = to_chars("data: ");
    if matches_at(&trimmed, &prefix, 0) {
        let n: usize = prefix.len();
        let payload = slice_chars(&trimmed, n, trimmed.len());
        assert(payload@ =~= trimmed@.skip(n as int));
        LineEvent::Payload(from_chars(payload.as_slice()))
    } else {
        LineEvent::Skip
    }
}

/// The first index at or after `from` that holds a line feed, or the length
/// of the bytes.
pub open spec fn next_newline(bytes: Seq<u8>, from: int) -> int
    decreases bytes.len() - from,
{
    if 0 <= from < bytes.len() && bytes[from] != 10u8 {
        next_newline(bytes, from + 1)
    } else {
        from
    }
}

/// The index of the first line feed, or the length of the bytes.
pub open spec fn first_newline(bytes: Seq<u8>) -> int {
    next_newline(bytes, 0)
}

/// What a run of bytes decodes to.
pub ghost struct Decoded {
    /// The payloads of the event lines, in order.
    pub payloads: Seq<Seq<char>>,
    /// Whether the sentinel was met.
    pub done: bool,
    /// The bytes after the last line feed, kept for the next chunk; empty
    /// once the sentinel was met.
    pub rest: Seq<u8>,
}

impl Decoded {
    /// The decoding with `earlier` payloads put before its own.
    pub open spec fn after(self, earlier: Seq<Seq<char>>) -> Decoded {
        Decoded { payloads: earlier + self.payloads, done: self.done, rest: self.rest }
    }
}

/// The decoding of a run of bytes: each complete line is read as text and
/// classified, up to and without the sentinel; what follows the sentinel is
/// discarded, and without a sentinel the unfinished last line is kept.
pub open spec fn decode(bytes: Seq<u8>) -> Decoded
    decreases bytes.len(),
{
    let nl = first_newline(bytes);
    if !(0 <= nl < bytes.len()) {
        Decoded { payloads: Seq::empty(), done: false, rest: bytes }
    } else {
        match classify(utf8_lossy(bytes.subrange(0, nl))) {
            LineEventView::Done => Decoded { payloads: Seq::empty(), done: true, rest: Seq::empty() },
            LineEventView::Payload(p) => decode(bytes.skip(nl + 1)).after(seq![p]),
            LineEventView::Skip => decode(bytes.skip(nl + 1)),
        }
    }
}

/// `next_newline` finds the first line feed at or after its start.
pub proof fn lemma_next_newline(bytes: Seq<u8>, from: int)
    requires
        0 <= from <= bytes.len(),
    ensures
        from <= next_newline(bytes, from) <= bytes.len(),
        forall|j: int| from <= j < next_newline(bytes, from) ==> bytes[j] != 10u8,
        next_newline(bytes, from) < bytes.len() ==> bytes[next_newline(bytes, from)] == 10u8,
    decreases bytes.len() - from,
{
    if from < bytes.len() && bytes[from] != 10u8 {
        lemma_next_newline(bytes, from + 1);
    }
}

/// An index before which no line feed stands, and which holds one or is the
/// end, is where `next_newline` arrives.
pub proof fn lemma_newline_found(bytes: Seq<u8>, from: int, at: int)
    requires
        0 <= from <= at <= bytes.len(),
        forall|j: int| from <= j < at ==> bytes[j] != 10u8,
        at < bytes.len() ==> bytes[at] == 10u8,
    ensures
        next_newline(bytes, from) == at,
    decreases at - from,
{
    if from < at {
        lemma_newline_found(bytes, from + 1, at);
    }
}

/// The state of a decoder between chunks.
pub ghost struct DecoderView {
    /// The bytes of the unfinished last line.
    pub pending: Seq<u8>,
    /// Whether decoding has ended, by the sentinel or by cancellation.
    pub done: bool,
}

impl DecoderView {
    /// A decoder holds no complete line between chunks, and nothing at all
    /// once it is done.
    pub open spec fn wf(self) -> bool {
        &&& first_newline(self.pending) == self.pending.len()
        &&& self.done ==> self.pending.len() == 0
    }
}

impl Decoded {
    /// The decoding continued with more bytes: nothing is added once the
    /// sentinel was met, and otherwise the bytes that were kept are decoded
    /// together with the new ones.
    pub open spec fn resume(self, more: Seq<u8>) -> Decoded {
        if self.done {
            self
        } else {
            decode(self.rest + more).after(self.payloads)
        }
    }
}

/// What is kept after decoding holds no line feed, and nothing is kept after
/// the sentinel.
pub proof fn lemma_decode_rest(bytes: Seq<u8>)
    ensures
        first_newline(decode(bytes).rest) == decode(bytes).rest.len(),
        decode(bytes).done ==> decode(bytes).rest.len() == 0,
    decreases bytes.len(),
{
    let nl = first_newline(bytes);
    lemma_next_newline(bytes, 0);
    if 0 <= nl < bytes.len() {
        lemma_decode_rest(bytes.skip(nl + 1));
    }
}

/// Decoding a run of bytes in two parts yields what decoding it whole does.
pub proof fn lemma_decode_concat(a: Seq<u8>, b: Seq<u8>)
    ensures
        decode(a + b) == decode(a).resume(b),
    decreases a.len(),
{
    let nl = first_newline(a);
    lemma_next_newline(a, 0);
    if nl < a.len() {
        lemma_newline_found(a + b, 0, nl);
        assert((a + b).subrange(0, nl) =~= a.subrange(0, nl));
        assert((a + b).skip(nl + 1) =~= a.skip(nl + 1) + b);
        lemma_decode_concat(a.skip(nl + 1), b);
        let tail = decode(a.skip(nl + 1));
        match classify(utf8_lossy(a.subrange(0, nl))) {
            LineEventView::Done => {},
            LineEventView::Payload(p) => {
                if !tail.done {
                    let more = decode(tail.rest + b);
                    assert(seq![p] + (tail.payloads + more.payloads) =~= (seq![p] + tail.payloads)
                        + more.payloads);
                }
            },
            LineEventView::Skip => {},
        }
    } else {
        assert(Seq::<Seq<char>>::empty() + decode(a + b).payloads =~= decode(a + b).payloads);
    }
}

/// What feeding one chunk does: the state after it and the payloads it
/// yields. A decoder that is done yields nothing and stays as it is.
pub open spec fn feed_step(state: DecoderView, chunk: Seq<u8>) -> (DecoderView, Seq<Seq<char>>) {
    if state.done {
        (state, Seq::empty())
    } else {
        let d = decode(state.pending + chunk);
        (DecoderView { pending: d.rest, done: d.done }, d.payloads)
    }
}

/// What feeding a series of chunks does, one after the other.
pub open spec fn feed_all(state: DecoderView, chunks: Seq<Seq<u8>>) -> (DecoderView, Seq<Seq<char>>)
    decreases chunks.len(),
{
    if chunks.len() == 0 {
        (state, Seq::empty())
    } else {
        let (next, first) = feed_step(state, chunks[0]);
        let (last, others) = feed_all(next, chunks.drop_first());
        (last, first + others)
    }
}

/// The bytes of a series of chunks, joined.
pub open spec fn joined(chunks: Seq<Seq<u8>>) -> Seq<u8>
    decreases chunks.len(),
{
    if chunks.len() == 0 {
        Seq::empty()
    } else {
        chunks[0] + joined(chunks.drop_first())
    }
}

/// Feeding a decoder keeps it well formed.
pub proof fn lemma_feed_step_wf(state: DecoderView, chunk: Seq<u8>)
    requires
        state.wf(),
    ensures
        feed_step(state, chunk).0.wf(),
{
    if !state.done {
        lemma_decode_rest(state.pending + chunk);
    }
}

/// A chunk may be split anywhere: feeding its two parts one after the other
/// leaves the decoder in the same state, and yields the same payloads in the
/// same order, as feeding it whole.
pub proof fn law_split_chunk(state: DecoderView, a: Seq<u8>, b: Seq<u8>)
    ensures
        ({
            let (mid, first) = feed_step(state, a);
            let (last, second) = feed_step(mid, b);
            feed_step(state, a + b) == (last, first + second)
        }),
{
    let (mid, first) = feed_step(state, a);
    let (last, second) = feed_step(mid, b);
    if state.done {
        assert(first + second =~= Seq::<Seq<char>>::empty());
    } else {
        assert(state.pending + (a + b) =~= (state.pending + a) + b);
        lemma_decode_concat(state.pending + a, b);
        if mid.done {
            assert(first + second =~= first);
        }
    }
}

/// What a decoder yields depends on the bytes of the stream and not on how
/// they are cut into chunks: feeding the chunks one by one is feeding their
/// bytes at once.
pub proof fn law_rechunking(state: DecoderView, chunks: Seq<Seq<u8>>)
    requires
        state.wf(),
    ensures
        feed_all(state, chunks) == feed_step(state, joined(chunks)),
    decreases chunks.len(),
{
    if chunks.len() == 0 {
        if !state.done {
            assert(state.pending + joined(chunks) =~= state.pending);
            lemma_next_newline(state.pending, 0);
        }
    } else {
        let (next, first) = feed_step(state, chunks[0]);
        lemma_feed_step_wf(state, chunks[0]);
        law_rechunking(next, chunks.drop_first());
        law_split_chunk(state, chunks[0], joined(chunks.drop_first()));
    }
}

/// Two ways of cutting the same bytes into chunks yield the same payloads and
/// leave the decoder in the same state.
pub proof fn law_same_bytes_same_payloads(
    state: DecoderView,
    one: Seq<Seq<u8>>,
    other: Seq<Seq<u8>>,
)
    requires
        state.wf(),
        joined(one) == joined(other),
    ensures
        feed_all(state, one) == feed_all(state, other),
{
    law_rechunking(state, one);
    law_rechunking(state, other);
}

/// Once the sentinel has been met nothing more is yielded, whatever bytes
/// follow it, in the same chunk or in later ones.
pub proof fn law_done_is_final(bytes: Seq<u8>, more: Seq<u8>)
    requires
        decode(bytes).done,
    ensures
        decode(bytes + more) == decode(bytes),
        decode(bytes).rest.len() == 0,
{
    lemma_decode_concat(bytes, more);
    lemma_decode_rest(bytes);
}

/// The sentinel line, as it stands, ends the stream.
pub proof fn law_sentinel_is_recognised()
    ensures
        classify(done_line()) == LineEventView::Done,
{
    reveal_strlit("data: [DONE]");
    let line = done_line();
    assert(!crate::text::is_space(line[0]));
    assert(!crate::text::is_space(line[11]));
    assert(crate::text::skip_spaces(line, 0) == 0);
    assert(crate::text::drop_spaces(line, 0, 12) == 12);
    assert(line.subrange(0, 12) =~= line);
}

/// A line that reads as the sentinel ends the stream where it stands: what
/// was decoded before it is all that is yielded, and the bytes after it are
/// discarded, whatever they are.
pub proof fn law_sentinel_ends_stream(before: Seq<u8>, line: Seq<u8>, after: Seq<u8>)
    requires
        !decode(before).done,
        decode(before).rest.len() == 0,
        first_newline(line) == line.len(),
        classify(utf8_lossy(line)) == LineEventView::Done,
    ensures
        decode(before + line + seq![10u8] + after) == (Decoded {
            payloads: decode(before).payloads,
            done: true,
            rest: Seq::empty(),
        }),
{
    let tail = line + seq![10u8] + after;
    assert(before + line + seq![10u8] + after =~= before + tail);
    lemma_decode_concat(before, tail);
    assert(decode(before).rest + tail =~= tail);
    lemma_next_newline(line, 0);
    lemma_newline_found(tail, 0, line.len() as int);
    assert(tail.subrange(0, line.len() as int) =~= line);
    assert(decode(before).payloads + Seq::<Seq<char>>::empty() =~= decode(before).payloads);
}

/// A decoder that is done yields nothing for any further chunks and does not
/// change.
pub proof fn law_done_yields_nothing(state: DecoderView, chunks: Seq<Seq<u8>>)
    requires
        state.done,
    ensures
        feed_all(state, chunks) == (state, Seq::<Seq<char>>::empty()),
    decreases chunks.len(),
{
    if chunks.len() > 0 {
        law_done_yields_nothing(state, chunks.drop_first());
        assert(Seq::<Seq<char>>::empty() + Seq::<Seq<char>>::empty() =~= Seq::<Seq<char>>::empty());
    }
}

/// The bytes of `bytes` from `from` up to `to`.
fn slice_bytes(bytes: &Vec<u8>, from: usize, to: usize) -> (part: Vec<u8>)
    requires
        from <= to <= bytes.len(),
    ensures
        part@ == bytes@.subrange(from as int, to as int),
{
    let mut part: Vec<u8> = Vec::new();
    let mut i: usize = from;
    while i < to
        invariant
            from <= i <= to <= bytes.len(),
            part@ == bytes@.subrange(from as int, i as int),
        decreases to - i,
    {
        part.push(bytes[i]);
        i += 1;
        assert(part@ =~= bytes@.subrange(from as int, i as int));
    }
    part
}

/// An incremental decoder of one event stream.
pub struct StreamDecoder {
    pending: Vec<u8>,
    done: bool,
}

impl View for StreamDecoder {
    type V = DecoderView;

    closed spec fn view(&self) -> DecoderView {
        DecoderView { pending: self.pending@, done: self.done }
    }
}

impl StreamDecoder {
    /// A decoder at the start of a stream.
    pub fn new() -> (decoder: StreamDecoder)
        ensures
            decoder@ == (DecoderView { pending: Seq::empty(), done: false }),
            decoder@.wf(),
    {
        StreamDecoder { pending: Vec::new(), done: false }
    }

    /// Whether decoding has ended.
    pub fn is_done(&self) -> (done: bool)
        ensures
            done == self@.done,
    {
        self.done
    }

    /// Takes the next chunk of the stream and returns the payloads of the
    /// event lines that it completes, in order.
    pub fn feed(&mut self, chunk: &[u8]) -> (payloads: Vec<String>)
        ensures
            (final(self)@, texts(payloads@)) == feed_step(old(self)@, chunk@),
            old(self)@.wf() ==> final(self)@.wf(),
    {
        proof {
            if old(self)@.wf() {
                lemma_feed_step_wf(old(self)@, chunk@);
            }
        }
        let mut out: Vec<String> = Vec::new();
        if self.done {
            assert(texts(out@) =~= Seq::<Seq<char>>::empty());
            return out;
        }
        self.pending.extend_from_slice(chunk);
        let ghost whole = self.pending@;
        let n: usize = self.pending.len();
        let mut start: usize = 0;
        let mut i: usize = 0;
        assert(whole.skip(0) =~= whole);
        assert(texts(out@) + decode(whole).payloads =~= decode(whole).payloads);
        while i < n
            invariant
                n == self.pending.len(),
                self.pending@ == whole,
                whole == old(self)@.pending + chunk@,
                start <= i <= n,
                forall|j: int| start <= j < i ==> whole[j] != 10u8,
                !self.done,
                !old(self)@.done,
                decode(whole) == decode(whole.skip(start as int)).after(texts(out@)),
            decreases n - i,
        {
            if self.pending[i] == 10u8 {
                let line = slice_bytes(&self.pending, start, i);
                let text = decode_lossy(line.as_slice());
                let event = classify_line(text.as_str());
                let ghost tail = whole.skip(start as int);
                let ghost before = texts(out@);
                proof {
                    lemma_newline_found(tail, 0, i - start);
                    assert(tail.subrange(0, i - start) =~= whole.subrange(start as int, i as int));
                    assert(tail.skip(i - start + 1) =~= whole.skip(i + 1));
                }
                match event {
                    LineEvent::Done => {
                        self.done = true;
                        self.pending.clear();
                        proof {
                            assert(before + Seq::<Seq<char>>::empty() =~= before);
                        }
                        return out;
                    },
                    LineEvent::Payload(p) => {
                        out.push(p);
                        proof {
                            assert(texts(out@) =~= before + seq![p@]);
                            let d = decode(whole.skip(i + 1));
                            assert(before + (seq![p@] + d.payloads) =~= (before + seq![p@])
                                + d.payloads);
                        }
                    },
                    LineEvent::Skip => {},
                }
                start = i + 1;
            }
            i += 1;
        }
        proof {
            let tail = whole.skip(start as int);
            lemma_newline_found(tail, 0, n - start);
            assert(texts(out@) + Seq::<Seq<char>>::empty() =~= texts(out@));
            assert(tail =~= whole.subrange(start as int, n as int));
        }
        let rest = slice_bytes(&self.pending, start, n);
        self.pending = rest;
        out
    }

    /// The unfinished line that is still held, as text.
    pub fn residue(&self) -> (residue: String)
        ensures
            residue@ == utf8_lossy(self@.pending),
    {
        decode_lossy(self.pending.as_slice())
    }

    /// Ends decoding and hands out, as text, the unfinished line that was
    /// still held: a last record may stand there without a line feed.
    pub fn finish(&mut self) -> (residue: String)
        ensures
            residue@ == utf8_lossy(old(self)@.pending),
            final(self)@ == (DecoderView { pending: Seq::empty(), done: true }),
    {
        let residue = decode_lossy(self.pending.as_slice());
        self.pending.clear();
        self.done = true;
        residue
    }

    /// Ends decoding at once and discards what was still held.
    pub fn cancel(&mut self)
        ensures
            final(self)@ == (DecoderView { pending: Seq::empty(), done: true }),
    {
        self.pending.clear();
        self.done = true;
    }
}

} // verus!
