//! The stream adapter: a pull-based state machine from byte chunks to items.
use vstd::prelude::*;
use vstd::utf8::{decode_utf8, valid_utf8};
use crate::event::{classify_line, event_of, yields_item, Event, EventView, DATA_PREFIX, KEEP_ALIVE, TERMINATOR};
use crate::text::trimmed;
use crate::line::{lemma_lines_grow, lines_of, scan, LineAssembler};

verus! {

/// Why a pull produced an error instead of a value.
#[derive(Debug, Clone, PartialEq, Eq)]
pub enum DecodeError {
    /// A line lacked the `data: ` prefix; holds the trimmed line.
    Format(String),
    /// The decoder rejected a payload; holds the payload and its diagnostic.
    Syntax { payload: String, reason: String },
    /// A line was not valid UTF-8; holds its bytes.
    InvalidUtf8(Vec<u8>),
    /// The byte source failed. Nothing follows this error.
    Transport(String),
}

/// A description of a decode error.
pub open spec fn decode_error_message(e: DecodeError) -> Seq<char> {
    match e {
        DecodeError::Format(line) => line@ + " Missing 'data: ' prefix"@,
        DecodeError::Syntax { payload, reason } => "jsonstr: "@ + payload@ + " reason "@ + reason@,
        DecodeError::InvalidUtf8(_) => "stream did not contain valid UTF-8"@,
        DecodeError::Transport(reason) => reason@,
    }
}

impl DecodeError {
    /// A description of the error.
    pub fn to_string(&self) -> (r: String)
        ensures
            r@ == decode_error_message(*self),
    {
        match self {
            DecodeError::Format(line) => line.clone().concat(" Missing 'data: ' prefix"),
            DecodeError::Syntax { payload, reason } => String::from_str("jsonstr: ").concat(
                payload.as_str(),
            ).concat(" reason ").concat(reason.as_str()),
            DecodeError::InvalidUtf8(_) => String::from_str("stream did not contain valid UTF-8"),
            DecodeError::Transport(reason) => reason.clone(),
        }
    }
}

/// The outcome of one pull.
#[derive(Debug)]
pub enum Pull<T> {
    /// The next item.
    Item(Result<T, DecodeError>),
    /// No item can be produced until more bytes arrive, or the source ends.
    NeedMore,
    /// The sequence is over.
    Ended,
}

/// Whether one of `lines` is the terminator.
pub open spec fn has_terminator(lines: Seq<Seq<u8>>) -> bool {
    exists|i: int| 0 <= i < lines.len() && (#[trigger] event_of(lines[i])) is Terminator
}

/// The events that yield items, in order: those before the first terminator,
/// with blank and keep-alive lines left out.
pub open spec fn item_events(lines: Seq<Seq<u8>>) -> Seq<EventView>
    decreases lines.len(),
{
    if lines.len() == 0 {
        Seq::empty()
    } else {
        let e = event_of(lines[0]);
        if e is Terminator {
            Seq::empty()
        } else if yields_item(e) {
            seq![e] + item_events(lines.drop_first())
        } else {
            item_events(lines.drop_first())
        }
    }
}

/// The events that yield items for a whole byte source.
pub open spec fn stream_events(bytes: Seq<u8>) -> Seq<EventView> {
    item_events(lines_of(bytes, true))
}

/// The item for a payload, given what the decoder returned on it.
pub open spec fn decoded_item<T>(
    payload: Seq<char>,
    d: Result<T, String>,
    item: Result<T, DecodeError>,
) -> bool {
    match d {
        Ok(v) => item == Ok::<T, DecodeError>(v),
        Err(reason) => item matches Err(DecodeError::Syntax { payload: p, reason: r }) && p@
            == payload && r@ == reason@,
    }
}

/// `item` is what event `e` gives with `decode` as the payload decoder.
pub open spec fn item_matches<T, F: Fn(&str) -> Result<T, String>>(
    decode: F,
    e: EventView,
    item: Result<T, DecodeError>,
) -> bool {
    match e {
        EventView::Data(p) => exists|s: &str, d: Result<T, String>|
            s@ == p && #[trigger] call_ensures(decode, (s,), d) && decoded_item(p, d, item),
        EventView::Unprefixed(t) => item matches Err(DecodeError::Format(l)) && l@ == t,
        EventView::NotUtf8(b) => item matches Err(DecodeError::InvalidUtf8(v)) && v@ == b,
        _ => false,
    }
}

/// The item events of a concatenation of lines.
pub proof fn lemma_item_events_concat(a: Seq<Seq<u8>>, b: Seq<Seq<u8>>)
    ensures
        item_events(a + b) == (if has_terminator(a) {
            item_events(a)
        } else {
            item_events(a) + item_events(b)
        }),
        has_terminator(a + b) == (has_terminator(a) || has_terminator(b)),
    decreases a.len(),
{
    if a.len() == 0 {
        assert(a + b =~= b);
        assert(Seq::<EventView>::empty() + item_events(b) =~= item_events(b));
    } else {
        let t = a.drop_first();
        lemma_item_events_concat(t, b);
        assert((a + b).drop_first() =~= t + b);
        assert((a + b)[0] == a[0]);
        assert(has_terminator(a) == (event_of(a[0]) is Terminator || has_terminator(t))) by {
            if has_terminator(t) {
                let i = choose|i: int| 0 <= i < t.len() && (#[trigger] event_of(t[i])) is Terminator;
                assert(a[i + 1] == t[i]);
            }
            if has_terminator(a) {
                let i = choose|i: int| 0 <= i < a.len() && (#[trigger] event_of(a[i])) is Terminator;
                if i > 0 {
                    assert(t[i - 1] == a[i]);
                }
            }
        }
        assert(has_terminator(a + b) == (event_of(a[0]) is Terminator || has_terminator(t + b))) by {
            let ab = a + b;
            if has_terminator(t + b) {
                let i = choose|i: int| 0 <= i < (t + b).len() && (#[trigger] event_of((t + b)[i])) is Terminator;
                assert(ab[i + 1] == (t + b)[i]);
            }
            if has_terminator(ab) {
                let i = choose|i: int| 0 <= i < ab.len() && (#[trigger] event_of(ab[i])) is Terminator;
                if i > 0 {
                    assert((t + b)[i - 1] == ab[i]);
                }
            }
        }
        let e = event_of(a[0]);
        if !(e is Terminator) && yields_item(e) && !has_terminator(t) {
            assert(seq![e] + (item_events(t) + item_events(b)) =~= (seq![e] + item_events(t))
                + item_events(b));
        }
    }
}

/// The item events after one more line.
pub proof fn lemma_item_events_push(a: Seq<Seq<u8>>, l: Seq<u8>)
    ensures
        has_terminator(a.push(l)) == (has_terminator(a) || event_of(l) is Terminator),
        item_events(a.push(l)) == (if has_terminator(a) || event_of(l) is Terminator || !yields_item(event_of(l)) {
            item_events(a)
        } else {
            item_events(a).push(event_of(l))
        }),
{
    lemma_item_events_concat(a, seq![l]);
    assert(a + seq![l] =~= a.push(l));
    let one = seq![l];
    assert(one[0] == l);
    assert(one.drop_first() =~= Seq::<Seq<u8>>::empty());
    assert(item_events(one.drop_first()) == Seq::<EventView>::empty());
    assert(has_terminator(one) == event_of(l) is Terminator) by {
        if has_terminator(one) {
            let i = choose|i: int| 0 <= i < one.len() && (#[trigger] event_of(one[i])) is Terminator;
        }
        if event_of(l) is Terminator {
            assert(event_of(one[0]) is Terminator);
        }
    }
    if !has_terminator(a) && !(event_of(l) is Terminator) && yields_item(event_of(l)) {
        assert(seq![event_of(l)] + Seq::<EventView>::empty() =~= seq![event_of(l)]);
        assert(item_events(a) + seq![event_of(l)] =~= item_events(a).push(event_of(l)));
    }
    if !has_terminator(a) && !(event_of(l) is Terminator) && !yields_item(event_of(l)) {
        assert(item_events(a) + Seq::<EventView>::empty() =~= item_events(a));
    }
}

/// The item events of lines that start with a terminated prefix are those of
/// the prefix.
pub proof fn lemma_item_events_after_terminator(x: Seq<Seq<u8>>, y: Seq<Seq<u8>>)
    requires
        x.is_prefix_of(y),
        has_terminator(x),
    ensures
        item_events(y) == item_events(x),
{
    let rest = y.subrange(x.len() as int, y.len() as int);
    assert(y =~= x + rest);
    lemma_item_events_concat(x, rest);
}

/// The item events of a prefix of lines start the item events of the whole.
pub proof fn lemma_item_events_grow(x: Seq<Seq<u8>>, y: Seq<Seq<u8>>)
    requires
        x.is_prefix_of(y),
    ensures
        item_events(x).is_prefix_of(item_events(y)),
{
    let rest = y.subrange(x.len() as int, y.len() as int);
    assert(y =~= x + rest);
    lemma_item_events_concat(x, rest);
}

/// All bytes of `chunks`, in order.
pub open spec fn chunk_bytes(chunks: Seq<Vec<u8>>) -> Seq<u8>
    decreases chunks.len(),
{
    if chunks.len() == 0 {
        Seq::empty()
    } else {
        chunk_bytes(chunks.drop_last()) + chunks.last()@
    }
}

/// The decoder state of one stream: buffered bytes, and whether the sequence
/// is over.
pub struct StreamState {
    lines: LineAssembler,
    terminated: bool,
}

impl StreamState {
    /// Every byte accepted so far.
    pub closed spec fn received(&self) -> Seq<u8> {
        self.lines.received()
    }

    /// Whether the byte source has reported its end.
    pub closed spec fn source_ended(&self) -> bool {
        self.lines.source_ended()
    }

    /// Whether the sequence is over.
    pub closed spec fn is_terminated(&self) -> bool {
        self.terminated
    }

    /// The lines that the received bytes make up.
    pub open spec fn lines(&self) -> Seq<Seq<u8>> {
        lines_of(self.received(), self.source_ended())
    }

    /// The bytes kept for lines not yet complete or not yet pulled.
    pub closed spec fn buffered(&self) -> Seq<u8> {
        self.lines.pending()
    }

    /// How many bytes the decoder holds.
    pub closed spec fn held(&self) -> nat {
        self.lines.held()
    }

    /// The events whose items have been handed out.
    pub closed spec fn emitted(&self) -> Seq<EventView> {
        item_events(self.lines.taken())
    }

    pub closed spec fn wf(&self) -> bool {
        &&& self.lines.wf()
        &&& !self.terminated ==> !has_terminator(self.lines.taken())
    }

    /// What has been handed out is the start of what the received lines yield.
    pub proof fn lemma_emitted_prefix(&self)
        requires
            self.wf(),
        ensures
            self.emitted().is_prefix_of(item_events(self.lines())),
    {
        self.lines.lemma_taken_prefix();
        let t = self.lines.taken();
        let all = self.lines.lines();
        let rest = all.subrange(t.len() as int, all.len() as int);
        assert(all =~= t + rest);
        lemma_item_events_concat(t, rest);
    }

    pub fn new() -> (r: Self)
        ensures
            r.wf(),
            r.received() == Seq::<u8>::empty(),
            !r.source_ended(),
            !r.is_terminated(),
            r.emitted() == Seq::<EventView>::empty(),
    {
        let r = StreamState { lines: LineAssembler::new(), terminated: false };
        proof {
            assert(!has_terminator(r.lines.taken()));
        }
        r
    }

    /// Accepts the next chunk of bytes. After the end of the sequence or of
    /// the source, the chunk is dropped.
    pub fn feed(&mut self, chunk: &[u8])
        requires
            old(self).wf(),
        ensures
            final(self).wf(),
            final(self).source_ended() == old(self).source_ended(),
            final(self).is_terminated() == old(self).is_terminated(),
            final(self).emitted() == old(self).emitted(),
            final(self).received() == (if old(self).is_terminated() || old(self).source_ended() {
                old(self).received()
            } else {
                old(self).received() + chunk@
            }),
    {
        if self.terminated {
            return;
        }
        self.lines.push_chunk(chunk);
    }

    /// Records that the byte source is exhausted.
    pub fn end_of_source(&mut self)
        requires
            old(self).wf(),
        ensures
            final(self).wf(),
            final(self).source_ended(),
            final(self).received() == old(self).received(),
            final(self).is_terminated() == old(self).is_terminated(),
            final(self).emitted() == old(self).emitted(),
    {
        self.lines.end_of_source();
    }

    /// Records that the byte source failed: the failure is the last item.
    pub fn transport_failure<T>(&mut self, reason: String) -> (r: Pull<T>)
        requires
            old(self).wf(),
        ensures
            final(self).wf(),
            final(self).is_terminated(),
            final(self).received() == old(self).received(),
            final(self).source_ended() == old(self).source_ended(),
            final(self).emitted() == old(self).emitted(),
            old(self).is_terminated() ==> r is Ended,
            !old(self).is_terminated() ==> (r matches Pull::Item(Err(DecodeError::Transport(m)))
                && m@ == reason@),
    {
        if self.terminated {
            return Pull::Ended;
        }
        self.terminated = true;
        Pull::Item(Err(DecodeError::Transport(reason)))
    }

    /// Produces the next item from the buffered lines, skipping blank and
    /// keep-alive lines; payloads go through `decode`.
    pub fn pull<T, F: Fn(&str) -> Result<T, String>>(&mut self, decode: &F) -> (r: Pull<T>)
        requires
            old(self).wf(),
            forall|s: &str| call_requires(*decode, (s,)),
        ensures
            final(self).wf(),
            final(self).received() == old(self).received(),
            final(self).source_ended() == old(self).source_ended(),
            old(self).is_terminated() ==> r is Ended && final(self).is_terminated()
                && final(self).emitted() == old(self).emitted(),
            !old(self).is_terminated() ==> {
                &&& (r is Item <==> old(self).emitted().len() < item_events(old(self).lines()).len())
                &&& (r is Ended <==> old(self).emitted().len() == item_events(old(self).lines()).len()
                    && (old(self).source_ended() || has_terminator(old(self).lines())))
                &&& final(self).is_terminated() == r is Ended
            },
            r matches Pull::Item(x) ==> {
                let e = item_events(old(self).lines())[old(self).emitted().len() as int];
                &&& final(self).emitted() == old(self).emitted().push(e)
                &&& item_matches(*decode, e, x)
            },
            !(r is Item) ==> final(self).emitted() == old(self).emitted(),
            r is NeedMore ==> final(self).buffered() == scan(final(self).received()).1
                && final(self).held() == final(self).buffered().len(),
    {
        if self.terminated {
            return Pull::Ended;
        }
        let ghost taken0 = self.lines.taken();
        let ghost all = self.lines.lines();
        proof {
            self.lemma_emitted_prefix();
        }
        loop
            invariant
                self.wf(),
                !self.terminated,
                !old(self).is_terminated(),
                forall|s: &str| call_requires(*decode, (s,)),
                self.lines.lines() == all,
                all == old(self).lines(),
                self.received() == old(self).received(),
                self.source_ended() == old(self).source_ended(),
                item_events(self.lines.taken()) == item_events(taken0),
                taken0 == old(self).lines.taken(),
            decreases all.len() - self.lines.taken().len(),
        {
            proof {
                self.lines.lemma_taken_prefix();
            }
            let ghost before = self.lines.taken();
            match self.lines.next_line() {
                None => {
                    proof {
                        assert(before =~= all);
                    }
                    if self.lines.is_source_ended() {
                        self.terminated = true;
                        return Pull::Ended;
                    } else {
                        return Pull::NeedMore;
                    }
                },
                Some(line) => {
                    let ghost l = line@;
                    let ghost after = self.lines.taken();
                    proof {
                        lemma_item_events_push(before, l);
                        self.lines.lemma_taken_prefix();
                        let rest = all.subrange(after.len() as int, all.len() as int);
                        assert(all =~= after + rest);
                        lemma_item_events_concat(after, rest);
                        assert(after[before.len() as int] == l);
                        if event_of(l) is Terminator {
                            assert(event_of(all[before.len() as int]) is Terminator);
                        }
                    }
                    match classify_line(line) {
                        Event::Blank => {},
                        Event::KeepAlive => {},
                        Event::Terminator => {
                            self.terminated = true;
                            return Pull::Ended;
                        },
                        Event::Data(p) => {
                            let s = p.as_str();
                            let d = decode(s);
                            proof {
                                assert(s@ == p@ && call_ensures(*decode, (s,), d));
                            }
                            let item = match d {
                                Ok(v) => Ok(v),
                                Err(reason) => Err(DecodeError::Syntax { payload: p, reason }),
                            };
                            return Pull::Item(item);
                        },
                        Event::Unprefixed(t) => {
                            return Pull::Item(Err(DecodeError::Format(t)));
                        },
                        Event::NotUtf8(b) => {
                            return Pull::Item(Err(DecodeError::InvalidUtf8(b)));
                        },
                    }
                },
            }
        }
    }
}

/// Pulls every item that the buffered lines yield, appending them to `out`.
fn drain<T, F: Fn(&str) -> Result<T, String>>(
    state: &mut StreamState,
    out: &mut Vec<Result<T, DecodeError>>,
    decode: &F,
)
    requires
        old(state).wf(),
        forall|s: &str| call_requires(*decode, (s,)),
        old(out)@.len() == old(state).emitted().len(),
        forall|i: int|
            0 <= i < old(out)@.len() ==> item_matches(*decode, old(state).emitted()[i], #[trigger] old(out)@[i]),
        old(state).is_terminated() ==> old(state).emitted() == item_events(old(state).lines()),
    ensures
        final(state).wf(),
        final(state).received() == old(state).received(),
        final(state).source_ended() == old(state).source_ended(),
        final(state).emitted() == item_events(final(state).lines()),
        final(out)@.len() == final(state).emitted().len(),
        forall|i: int|
            0 <= i < final(out)@.len() ==> item_matches(*decode, final(state).emitted()[i], #[trigger] final(out)@[i]),
        final(state).is_terminated() ==> old(state).is_terminated() || final(state).source_ended()
            || has_terminator(final(state).lines()),
        old(state).is_terminated() ==> final(state).is_terminated(),
        final(state).source_ended() ==> final(state).is_terminated(),
{
    loop
        invariant
            state.wf(),
            forall|s: &str| call_requires(*decode, (s,)),
            state.received() == old(state).received(),
            state.source_ended() == old(state).source_ended(),
            out@.len() == state.emitted().len(),
            forall|i: int| 0 <= i < out@.len() ==> item_matches(*decode, state.emitted()[i], #[trigger] out@[i]),
            state.is_terminated() == old(state).is_terminated(),
            state.is_terminated() ==> state.emitted() == item_events(state.lines()),
        decreases item_events(state.lines()).len() - state.emitted().len(),
    {
        proof {
            state.lemma_emitted_prefix();
        }
        let ghost before = state.emitted();
        match state.pull(decode) {
            Pull::Item(x) => {
                out.push(x);
                proof {
                    assert forall|i: int| 0 <= i < out@.len() implies item_matches(
                        *decode,
                        state.emitted()[i],
                        #[trigger] out@[i],
                    ) by {
                        if i < before.len() {
                            assert(state.emitted()[i] == before[i]);
                        }
                    }
                }
            },
            _ => {
                proof {
                    state.lemma_emitted_prefix();
                    assert(state.emitted() =~= item_events(state.lines()));
                }
                return;
            },
        }
    }
}

/// Decodes a whole byte source held in memory, chunk by chunk, with `decode`
/// as the payload decoder. The items depend on the concatenated bytes alone.
pub fn decode_chunks<T, F: Fn(&str) -> Result<T, String>>(chunks: &Vec<Vec<u8>>, decode: &F) -> (r: Vec<
    Result<T, DecodeError>,
>)
    requires
        forall|s: &str| call_requires(*decode, (s,)),
    ensures
        r@.len() == stream_events(chunk_bytes(chunks@)).len(),
        forall|i: int|
            0 <= i < r@.len() ==> item_matches(*decode, stream_events(chunk_bytes(chunks@))[i], #[trigger] r@[i]),
{
    let mut state = StreamState::new();
    let mut out: Vec<Result<T, DecodeError>> = Vec::new();
    let mut k: usize = 0;
    proof {
        assert(chunks@.subrange(0, 0) =~= Seq::<Vec<u8>>::empty());
        assert(item_events(lines_of(Seq::<u8>::empty(), false)) =~= Seq::<EventView>::empty()) by {
            assert(lines_of(Seq::<u8>::empty(), false) =~= Seq::<Seq<u8>>::empty());
        }
    }
    while k < chunks.len()
        invariant
            state.wf(),
            !state.source_ended(),
            forall|s: &str| call_requires(*decode, (s,)),
            k <= chunks@.len(),
            state.received().is_prefix_of(chunk_bytes(chunks@.subrange(0, k as int))),
            !state.is_terminated() ==> state.received() == chunk_bytes(chunks@.subrange(0, k as int)),
            state.is_terminated() ==> has_terminator(state.lines()),
            state.emitted() == item_events(state.lines()),
            out@.len() == state.emitted().len(),
            forall|i: int| 0 <= i < out@.len() ==> item_matches(*decode, state.emitted()[i], #[trigger] out@[i]),
        decreases chunks@.len() - k,
    {
        let ghost prev = chunk_bytes(chunks@.subrange(0, k as int));
        state.feed(chunks[k].as_slice());
        drain(&mut state, &mut out, decode);
        k = k + 1;
        proof {
            assert(chunks@.subrange(0, k as int).drop_last() =~= chunks@.subrange(0, k - 1));
            let now = chunk_bytes(chunks@.subrange(0, k as int));
            assert(now == prev + chunks@[k - 1]@);
            assert(prev.is_prefix_of(now));
        }
    }
    let ghost p = state.received();
    let ghost all = chunk_bytes(chunks@);
    proof {
        assert(chunks@.subrange(0, chunks@.len() as int) =~= chunks@);
        let q = all.subrange(p.len() as int, all.len() as int);
        assert(all =~= p + q);
        lemma_lines_grow(p, q, true);
        lemma_lines_grow(p, Seq::empty(), true);
        assert(p + Seq::<u8>::empty() =~= p);
        if state.is_terminated() {
            lemma_item_events_after_terminator(lines_of(p, false), lines_of(p, true));
            lemma_item_events_after_terminator(lines_of(p, false), lines_of(all, true));
        }
    }
    state.end_of_source();
    drain(&mut state, &mut out, decode);
    out
}

/// Chunk boundaries never change items, only when they become available:
/// whatever a prefix of the bytes yields before the source ends is the start
/// of what the whole input yields, wherever the prefix is cut.
pub proof fn partial_input_yields_prefix(p: Seq<u8>, q: Seq<u8>)
    ensures
        item_events(lines_of(p, false)).is_prefix_of(stream_events(p + q)),
{
    lemma_lines_grow(p, q, true);
    lemma_item_events_grow(lines_of(p, false), lines_of(p + q, true));
}

/// Two chunkings of the same bytes yield the same items.
pub proof fn chunking_invariance(a: Seq<Vec<u8>>, b: Seq<Vec<u8>>)
    requires
        chunk_bytes(a) == chunk_bytes(b),
    ensures
        stream_events(chunk_bytes(a)) == stream_events(chunk_bytes(b)),
{
}

/// No line after a terminator yields an item.
pub proof fn terminator_is_final(before: Seq<Seq<u8>>, t: Seq<u8>, after: Seq<Seq<u8>>)
    requires
        event_of(t) is Terminator,
    ensures
        item_events(before.push(t) + after) == item_events(before),
{
    lemma_item_events_push(before, t);
    lemma_item_events_concat(before.push(t), after);
}

/// A blank or keep-alive line yields nothing and leaves the other items as
/// they are.
pub proof fn skipped_lines_are_invisible(before: Seq<Seq<u8>>, s: Seq<u8>, after: Seq<Seq<u8>>)
    requires
        event_of(s) is Blank || event_of(s) is KeepAlive,
    ensures
        item_events(before.push(s) + after) == item_events(before + after),
{
    lemma_item_events_push(before, s);
    lemma_item_events_concat(before.push(s), after);
    lemma_item_events_concat(before, after);
}

/// A payload line before any terminator yields exactly one item, and the
/// lines after it are decoded as if it were not there.
pub proof fn payload_yields_one_item(before: Seq<Seq<u8>>, d: Seq<u8>, after: Seq<Seq<u8>>)
    requires
        !has_terminator(before),
        event_of(d) is Data,
    ensures
        item_events(before.push(d) + after) == item_events(before).push(event_of(d)) + item_events(
            after,
        ),
{
    lemma_item_events_push(before, d);
    lemma_item_events_concat(before.push(d), after);
}

/// The item of a payload is the decoded value, or a syntax error that carries
/// the payload; it never ends the stream.
pub proof fn payload_item<T, F: Fn(&str) -> Result<T, String>>(
    decode: F,
    p: Seq<char>,
    item: Result<T, DecodeError>,
)
    requires
        item_matches(decode, EventView::Data(p), item),
    ensures
        item is Ok || (item matches Err(DecodeError::Syntax { payload, reason: _ }) && payload@ == p),
{
    let (s, d) = choose|s: &str, d: Result<T, String>|
        s@ == p && #[trigger] call_ensures(decode, (s,), d) && decoded_item(p, d, item);
}

/// A line that is neither blank, nor the keep-alive comment, nor the
/// terminator, and lacks the `data: ` prefix, yields a format error that
/// carries the trimmed line.
pub proof fn missing_prefix_is_format_error<T, F: Fn(&str) -> Result<T, String>>(
    decode: F,
    line: Seq<u8>,
    item: Result<T, DecodeError>,
)
    requires
        valid_utf8(line),
        trimmed(decode_utf8(line)).len() > 0,
        trimmed(decode_utf8(line)) != TERMINATOR@,
        trimmed(decode_utf8(line)) != KEEP_ALIVE@,
        !DATA_PREFIX@.is_prefix_of(trimmed(decode_utf8(line))),
        item_matches(decode, event_of(line), item),
    ensures
        event_of(line) == EventView::Unprefixed(trimmed(decode_utf8(line))),
        yields_item(event_of(line)),
        item matches Err(DecodeError::Format(l)) && l@ == trimmed(decode_utf8(line)),
{
}

} // verus!
