//! Line assembly: turns byte chunks, split anywhere, into newline-delimited lines.
use vstd::prelude::*;

verus! {

/// The byte that ends a line.
pub const NEWLINE: u8 = 0x0a;

/// Splits `b` at each newline: the completed lines (each without its newline),
/// and the bytes after the last newline.
pub open spec fn scan(b: Seq<u8>) -> (Seq<Seq<u8>>, Seq<u8>)
    decreases b.len(),
{
    if b.len() == 0 {
        (Seq::empty(), Seq::empty())
    } else {
        let prev = scan(b.drop_last());
        if b.last() == NEWLINE {
            (prev.0.push(prev.1), Seq::empty())
        } else {
            (prev.0, prev.1.push(b.last()))
        }
    }
}

/// The lines that `b` holds. Once the source has ended, bytes after the last
/// newline form one more line, if there are any.
pub open spec fn lines_of(b: Seq<u8>, at_end: bool) -> Seq<Seq<u8>> {
    if at_end && scan(b).1.len() > 0 {
        scan(b).0.push(scan(b).1)
    } else {
        scan(b).0
    }
}

/// `b` is empty or ends a line.
pub open spec fn at_line_start(b: Seq<u8>) -> bool {
    b.len() == 0 || b.last() == NEWLINE
}

pub open spec fn has_no_newline(b: Seq<u8>) -> bool {
    forall|i: int| 0 <= i < b.len() ==> b[i] != NEWLINE
}

proof fn lemma_scan_no_newline(b: Seq<u8>)
    requires
        has_no_newline(b),
    ensures
        scan(b) == (Seq::<Seq<u8>>::empty(), b),
    decreases b.len(),
{
    if b.len() > 0 {
        lemma_scan_no_newline(b.drop_last());
        assert(b.drop_last().push(b.last()) =~= b);
    } else {
        assert(b =~= Seq::<u8>::empty());
    }
}

proof fn lemma_scan_concat(a: Seq<u8>, b: Seq<u8>)
    requires
        at_line_start(a),
    ensures
        scan(a + b) == (scan(a).0 + scan(b).0, scan(b).1),
    decreases b.len(),
{
    if b.len() == 0 {
        assert(a + b =~= a);
        assert(scan(a).0 + scan(b).0 =~= scan(a).0);
        if a.len() > 0 {
            assert(scan(a).1 == Seq::<u8>::empty());
        }
    } else {
        lemma_scan_concat(a, b.drop_last());
        assert((a + b).drop_last() =~= a + b.drop_last());
        let p = scan(b.drop_last());
        if b.last() == NEWLINE {
            assert(scan(a).0 + p.0.push(p.1) =~= (scan(a).0 + p.0).push(p.1));
        }
    }
}

/// Lines of a concatenation whose first part ends a line.
pub proof fn lemma_lines_of_concat(a: Seq<u8>, b: Seq<u8>, at_end: bool)
    requires
        at_line_start(a),
    ensures
        lines_of(a + b, at_end) == scan(a).0 + lines_of(b, at_end),
{
    lemma_scan_concat(a, b);
    if at_end && scan(b).1.len() > 0 {
        assert(scan(a).0 + scan(b).0.push(scan(b).1) =~= (scan(a).0 + scan(b).0).push(scan(b).1));
    }
}

/// A line of bytes without a newline, followed by one.
proof fn lemma_scan_one_line(x: Seq<u8>)
    requires
        has_no_newline(x),
    ensures
        scan(x.push(NEWLINE)).0 == seq![x],
        at_line_start(x.push(NEWLINE)),
{
    lemma_scan_no_newline(x);
    assert(x.push(NEWLINE).drop_last() =~= x);
    assert(Seq::<Seq<u8>>::empty().push(x) =~= seq![x]);
}

/// Bytes without a newline hold one line at the end of the source (if not
/// empty), and none before.
proof fn lemma_lines_of_no_newline(x: Seq<u8>, at_end: bool)
    requires
        has_no_newline(x),
    ensures
        lines_of(x, at_end) == (if at_end && x.len() > 0 {
            seq![x]
        } else {
            Seq::<Seq<u8>>::empty()
        }),
{
    lemma_scan_no_newline(x);
    assert(Seq::<Seq<u8>>::empty().push(x) =~= seq![x]);
}

proof fn lemma_scan_grows(p: Seq<u8>, q: Seq<u8>)
    ensures
        scan(p).0.is_prefix_of(scan(p + q).0),
    decreases q.len(),
{
    if q.len() == 0 {
        assert(p + q =~= p);
    } else {
        lemma_scan_grows(p, q.drop_last());
        assert((p + q).drop_last() =~= p + q.drop_last());
    }
}

/// The lines completed by a prefix of the bytes start the lines of the whole.
pub proof fn lemma_lines_grow(p: Seq<u8>, q: Seq<u8>, at_end: bool)
    ensures
        lines_of(p, false).is_prefix_of(lines_of(p + q, at_end)),
{
    lemma_scan_grows(p, q);
}

/// Buffers byte chunks and hands out complete lines in arrival order.
pub struct LineAssembler {
    buf: Vec<u8>,
    start: usize,
    ended: bool,
    received: Ghost<Seq<u8>>,
    consumed: Ghost<Seq<u8>>,
    taken: Ghost<Seq<Seq<u8>>>,
}

impl LineAssembler {
    /// Every byte accepted so far, in order.
    pub closed spec fn received(&self) -> Seq<u8> {
        self.received@
    }

    /// Whether the source has reported its end.
    pub closed spec fn source_ended(&self) -> bool {
        self.ended
    }

    /// The lines handed out so far.
    pub closed spec fn taken(&self) -> Seq<Seq<u8>> {
        self.taken@
    }

    /// The lines that the bytes received so far make up.
    pub open spec fn lines(&self) -> Seq<Seq<u8>> {
        lines_of(self.received(), self.source_ended())
    }

    /// The bytes received and not yet handed out as part of a line.
    pub closed spec fn pending(&self) -> Seq<u8> {
        self.rest()
    }

    /// How many bytes the buffer holds.
    pub closed spec fn held(&self) -> nat {
        self.buf@.len()
    }

    spec fn rest(&self) -> Seq<u8> {
        self.buf@.subrange(self.start as int, self.buf@.len() as int)
    }

    pub closed spec fn wf(&self) -> bool {
        &&& self.start <= self.buf.len()
        &&& self.lines() == self.taken@ + lines_of(self.rest(), self.ended)
        &&& !self.ended ==> {
            &&& self.received@ == self.consumed@ + self.rest()
            &&& at_line_start(self.consumed@)
            &&& self.taken@ == scan(self.consumed@).0
        }
    }

    /// The lines handed out so far come first among all lines.
    pub proof fn lemma_taken_prefix(&self)
        requires
            self.wf(),
        ensures
            self.taken().len() <= self.lines().len(),
            self.taken() == self.lines().subrange(0, self.taken().len() as int),
    {
        assert(self.taken@ =~= (self.taken@ + lines_of(self.rest(), self.ended)).subrange(
            0,
            self.taken@.len() as int,
        ));
    }

    pub fn is_source_ended(&self) -> (r: bool)
        ensures
            r == self.source_ended(),
    {
        self.ended
    }

    pub fn new() -> (r: Self)
        ensures
            r.wf(),
            r.received() == Seq::<u8>::empty(),
            !r.source_ended(),
            r.taken() == Seq::<Seq<u8>>::empty(),
    {
        let r = LineAssembler {
            buf: Vec::new(),
            start: 0,
            ended: false,
            received: Ghost(Seq::empty()),
            consumed: Ghost(Seq::empty()),
            taken: Ghost(Seq::empty()),
        };
        proof {
            assert(r.rest() =~= Seq::<u8>::empty());
            assert(Seq::<u8>::empty() + Seq::<u8>::empty() =~= Seq::<u8>::empty());
            assert(Seq::<Seq<u8>>::empty() + Seq::<Seq<u8>>::empty() =~= Seq::<Seq<u8>>::empty());
        }
        r
    }

    /// Accepts the next chunk of bytes. Once the source has ended, nothing
    /// more is accepted.
    pub fn push_chunk(&mut self, chunk: &[u8])
        requires
            old(self).wf(),
        ensures
            final(self).wf(),
            final(self).source_ended() == old(self).source_ended(),
            final(self).taken() == old(self).taken(),
            final(self).received() == (if old(self).source_ended() {
                old(self).received()
            } else {
                old(self).received() + chunk@
            }),
    {
        if self.ended {
            return;
        }
        if self.start > 0 {
            let tail = self.buf.split_off(self.start);
            self.buf = tail;
            self.start = 0;
        }
        let ghost old_rest = self.buf@;
        assert(old_rest == old(self).rest());
        let mut i: usize = 0;
        while i < chunk.len()
            invariant
                self.start == 0,
                !self.ended,
                self.consumed == old(self).consumed,
                self.received == old(self).received,
                self.taken == old(self).taken,
                i <= chunk@.len(),
                self.buf@ == old_rest + chunk@.subrange(0, i as int),
            decreases chunk@.len() - i,
        {
            self.buf.push(chunk[i]);
            i = i + 1;
            assert(self.buf@ =~= old_rest + chunk@.subrange(0, i as int));
        }
        self.received = Ghost(old(self).received() + chunk@);
        proof {
            assert(chunk@.subrange(0, chunk@.len() as int) =~= chunk@);
            assert(self.rest() =~= self.buf@);
            assert(self.received@ =~= self.consumed@ + self.rest());
            lemma_lines_of_concat(self.consumed@, self.rest(), false);
        }
    }

    /// Records that the source has no more bytes; a trailing partial line
    /// becomes the last line.
    pub fn end_of_source(&mut self)
        requires
            old(self).wf(),
        ensures
            final(self).wf(),
            final(self).source_ended(),
            final(self).received() == old(self).received(),
            final(self).taken() == old(self).taken(),
    {
        if self.ended {
            return;
        }
        self.ended = true;
        proof {
            lemma_lines_of_concat(self.consumed@, self.rest(), true);
        }
    }

    /// The next complete line, without its newline; `None` while no complete
    /// line is buffered.
    pub fn next_line(&mut self) -> (r: Option<Vec<u8>>)
        requires
            old(self).wf(),
        ensures
            final(self).wf(),
            final(self).received() == old(self).received(),
            final(self).source_ended() == old(self).source_ended(),
            r is Some <==> old(self).taken().len() < old(self).lines().len(),
            r matches Some(l) ==> l@ == old(self).lines()[old(self).taken().len() as int]
                && final(self).taken() == old(self).taken().push(l@),
            r is None ==> final(self).taken() == old(self).taken(),
            r is None && !final(self).source_ended() ==> final(self).pending() == scan(
                final(self).received(),
            ).1 && final(self).held() == final(self).pending().len(),
    {
        let ghost rest = self.rest();
        let mut line: Vec<u8> = Vec::new();
        let mut i: usize = self.start;
        while i < self.buf.len() && self.buf[i] != NEWLINE
            invariant
                self.start <= i <= self.buf.len(),
                *self == *old(self),
                line@ == self.buf@.subrange(self.start as int, i as int),
                has_no_newline(line@),
            decreases self.buf.len() - i,
        {
            line.push(self.buf[i]);
            i = i + 1;
            assert(line@ =~= self.buf@.subrange(self.start as int, i as int));
        }
        if i < self.buf.len() {
            let ghost k = i - self.start;
            proof {
                assert(rest.subrange(0, k + 1) =~= line@.push(NEWLINE));
                assert(rest =~= rest.subrange(0, k + 1) + rest.subrange(k + 1, rest.len() as int));
                lemma_scan_one_line(line@);
                lemma_lines_of_concat(rest.subrange(0, k + 1), rest.subrange(k + 1, rest.len() as int), self.ended);
                if !self.ended {
                    lemma_scan_concat(self.consumed@, rest.subrange(0, k + 1));
                    assert(self.consumed@ + rest =~= (self.consumed@ + rest.subrange(0, k + 1)) + rest.subrange(k + 1, rest.len() as int));
                }
            }
            self.start = i + 1;
            self.taken = Ghost(self.taken@.push(line@));
            self.consumed = Ghost(self.consumed@ + rest.subrange(0, k + 1));
            proof {
                assert(self.rest() =~= rest.subrange(k + 1, rest.len() as int));
                assert(seq![line@] + lines_of(self.rest(), self.ended) =~= lines_of(rest, self.ended));
                assert(old(self).taken@ + lines_of(rest, self.ended) =~= self.taken@ + lines_of(self.rest(), self.ended));
                if !self.ended {
                    assert(old(self).taken@ + seq![line@] =~= self.taken@);
                    assert(old(self).received@ =~= self.consumed@ + self.rest());
                    let c = self.consumed@;
                    assert(c.last() == NEWLINE);
                }
            }
            Some(line)
        } else {
            proof {
                assert(line@ =~= rest);
                lemma_lines_of_no_newline(rest, self.ended);
            }
            if self.ended && self.start < self.buf.len() {
                self.start = self.buf.len();
                self.taken = Ghost(self.taken@.push(line@));
                proof {
                    assert(self.rest() =~= Seq::<u8>::empty());
                    lemma_lines_of_no_newline(self.rest(), true);
                    assert(old(self).taken@ + seq![rest] =~= self.taken@ + Seq::<Seq<u8>>::empty());
                }
                Some(line)
            } else {
                proof {
                    assert(old(self).taken@ + lines_of(rest, self.ended) =~= old(self).taken@);
                }
                if !self.ended {
                    let tail = self.buf.split_off(self.start);
                    self.buf = tail;
                    self.start = 0;
                    proof {
                        assert(self.rest() =~= rest);
                        lemma_scan_concat(self.consumed@, rest);
                        lemma_scan_no_newline(rest);
                    }
                }
                None
            }
        }
    }
}

} // verus!
