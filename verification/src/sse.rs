//! Incremental parser for the streaming wire format: a growable byte
//! buffer fed by short reads, scanned for blank-line-delimited event
//! frames, each carrying a fixed field-name prefix and a payload, with a
//! terminal sentinel payload that ends the sequence.

use vstd::prelude::*;

verus! {

/// The byte length of the literal field-name prefix (`data: `) that
/// precedes the payload on every frame.
pub const PREFIX_LEN: usize = 6;

/// Whether a frame delimiter (a blank line: two newline bytes) starts at
/// position `i` of `s`.
pub open spec fn delim_at(s: Seq<u8>, i: int) -> bool {
    &&& 0 <= i
    &&& i + 1 < s.len()
    &&& s[i] == 10u8
    &&& s[i + 1] == 10u8
}

/// The position of the first frame delimiter in `s`, if any.
pub open spec fn find_delim(s: Seq<u8>) -> Option<int>
    decreases s.len(),
{
    if s.len() < 2 {
        None
    } else if s[0] == 10u8 && s[1] == 10u8 {
        Some(0)
    } else {
        match find_delim(s.drop_first()) {
            None => None,
            Some(p) => Some(p + 1),
        }
    }
}

/// `find_delim` returns exactly the first delimiter position.
pub proof fn lemma_find_delim(s: Seq<u8>)
    ensures
        match find_delim(s) {
            Some(p) => delim_at(s, p) && forall|q: int| 0 <= q < p ==> !delim_at(s, q),
            None => forall|q: int| !delim_at(s, q),
        },
    decreases s.len(),
{
    if s.len() < 2 {
    } else if s[0] == 10u8 && s[1] == 10u8 {
    } else {
        lemma_find_delim(s.drop_first());
        assert forall|q: int| 0 <= q + 1 implies delim_at(s.drop_first(), q) == delim_at(
            s,
            q + 1,
        ) by {
            if 0 <= q && q + 1 < s.drop_first().len() {
                assert(s.drop_first()[q] == s[q + 1]);
                assert(s.drop_first()[q + 1] == s[q + 2]);
            }
        }
        match find_delim(s) {
            Some(p) => {
                assert(delim_at(s.drop_first(), p - 1));
                assert forall|q: int| 0 <= q < p implies !delim_at(s, q) by {
                    if q == 0 {
                    } else {
                        assert(!delim_at(s.drop_first(), q - 1));
                    }
                }
            },
            None => {
                assert forall|q: int| !delim_at(s, q) by {
                    if 1 <= q {
                        assert(!delim_at(s.drop_first(), q - 1));
                    }
                }
            },
        }
    }
}

/// A delimiter found in a prefix stays the first delimiter after more
/// bytes arrive: later bytes can neither move nor precede it.
pub proof fn lemma_find_delim_prefix(b: Seq<u8>, ext: Seq<u8>)
    requires
        find_delim(b) is Some,
    ensures
        find_delim(b + ext) == find_delim(b),
{
    lemma_find_delim(b);
    lemma_find_delim(b + ext);
    match find_delim(b) {
        Some(p) => {
            assert(delim_at(b + ext, p));
            match find_delim(b + ext) {
                Some(p2) => {
                    if p2 < p {
                        assert(delim_at(b, p2));
                    } else if p < p2 {
                        assert(!delim_at(b + ext, p));
                    }
                },
                None => {
                    assert(!delim_at(b + ext, p));
                },
            }
        },
        None => {},
    }
}

/// The payload of a frame delimited at `p`: the bytes past the prefix, up
/// to the delimiter (empty when the frame is shorter than the prefix).
pub open spec fn payload_of(s: Seq<u8>, p: int) -> Seq<u8> {
    s.subrange(if p < PREFIX_LEN { p } else { PREFIX_LEN as int }, p)
}

/// The terminal sentinel payload, `[DONE]`, as bytes.
pub open spec fn done_payload() -> Seq<u8> {
    seq![91u8, 68u8, 79u8, 78u8, 69u8, 93u8]
}

/// The payload sequence that a byte stream delivered whole yields: frames
/// are split at blank lines, each payload is the frame minus its prefix,
/// and the sentinel payload ends the sequence without being yielded.
pub open spec fn stream_frames(s: Seq<u8>) -> Seq<Seq<u8>>
    decreases s.len(),
{
    match find_delim(s) {
        None => Seq::empty(),
        Some(p) => if 0 <= p && p + 2 <= s.len() {
            if payload_of(s, p) == done_payload() {
                Seq::empty()
            } else {
                seq![payload_of(s, p)] + stream_frames(s.skip(p + 2))
            }
        } else {
            Seq::empty()
        },
    }
}

/// The payload sequence yielded when the same bytes arrive split into
/// `chunks`: the buffered bytes `b` are re-scanned for complete frames
/// before each further chunk is appended.
pub open spec fn run(b: Seq<u8>, chunks: Seq<Seq<u8>>) -> Seq<Seq<u8>>
    decreases chunks.len(), b.len(),
{
    match find_delim(b) {
        Some(p) => if 0 <= p && p + 2 <= b.len() {
            if payload_of(b, p) == done_payload() {
                Seq::empty()
            } else {
                seq![payload_of(b, p)] + run(b.skip(p + 2), chunks)
            }
        } else {
            Seq::empty()
        },
        None => if chunks.len() > 0 {
            run(b + chunks[0], chunks.drop_first())
        } else {
            Seq::empty()
        },
    }
}

/// All chunks, concatenated in arrival order.
pub open spec fn concat_all(chunks: Seq<Seq<u8>>) -> Seq<u8>
    decreases chunks.len(),
{
    if chunks.len() == 0 {
        Seq::empty()
    } else {
        chunks[0] + concat_all(chunks.drop_first())
    }
}

/// Chunked parsing equals whole parsing: with `b` already buffered, the
/// payloads yielded while the remaining chunks arrive one by one are the
/// payloads of the single byte stream `b + concat_all(chunks)`.
pub proof fn lemma_run_is_stream_frames(b: Seq<u8>, chunks: Seq<Seq<u8>>)
    ensures
        run(b, chunks) == stream_frames(b + concat_all(chunks)),
    decreases chunks.len(), b.len(),
{
    let s = b + concat_all(chunks);
    match find_delim(b) {
        Some(p) => {
            lemma_find_delim(b);
            lemma_find_delim_prefix(b, concat_all(chunks));
            assert(payload_of(s, p) =~= payload_of(b, p));
            if payload_of(b, p) == done_payload() {
            } else {
                lemma_run_is_stream_frames(b.skip(p + 2), chunks);
                assert(s.skip(p + 2) =~= b.skip(p + 2) + concat_all(chunks));
            }
        },
        None => {
            if chunks.len() > 0 {
                lemma_run_is_stream_frames(b + chunks[0], chunks.drop_first());
                assert((b + chunks[0]) + concat_all(chunks.drop_first()) =~= s);
            } else {
                assert(s =~= b);
            }
        },
    }
}

/// Law: for any byte stream split into arbitrarily many chunks at
/// arbitrary boundaries, the parser yields exactly the payloads of the
/// stream delivered as one single chunk, the sentinel suppressed.
pub proof fn lemma_chunking_invariant(chunks: Seq<Seq<u8>>)
    ensures
        run(Seq::empty(), chunks) == stream_frames(concat_all(chunks)),
{
    lemma_run_is_stream_frames(Seq::empty(), chunks);
    assert(Seq::<u8>::empty() + concat_all(chunks) =~= concat_all(chunks));
}

/// Law: a read that returns zero bytes does not end the sequence; an
/// empty chunk anywhere in the arrival order leaves the yielded payloads
/// unchanged.
pub proof fn lemma_zero_read(b: Seq<u8>, chunks: Seq<Seq<u8>>)
    ensures
        run(b, seq![Seq::<u8>::empty()] + chunks) == run(b, chunks),
    decreases b.len(),
{
    let padded = seq![Seq::<u8>::empty()] + chunks;
    match find_delim(b) {
        Some(p) => {
            lemma_find_delim(b);
            if 0 <= p && p + 2 <= b.len() && payload_of(b, p) != done_payload() {
                lemma_zero_read(b.skip(p + 2), chunks);
            }
        },
        None => {
            assert(padded[0] =~= Seq::<u8>::empty());
            assert(padded.drop_first() =~= chunks);
            assert(b + padded[0] =~= b);
        },
    }
}

/// The buffer size after growing to hold `target` bytes: the size is
/// doubled, unless the doubling overflows the machine or still falls
/// short of the target. Growth happens only on demand, so over a whole
/// stream the number of reallocations stays logarithmic in the largest
/// frame.
pub open spec fn grown_capacity(cap: int, target: int) -> int {
    let doubled = if cap > usize::MAX as int / 2 {
        usize::MAX as int
    } else {
        2 * cap
    };
    if doubled > target {
        doubled
    } else {
        target
    }
}

/// What one advance of the parser produced.
pub enum FrameStep {
    /// One complete frame's payload.
    Frame(Vec<u8>),
    /// No complete frame is buffered yet; more bytes must be fed.
    NeedMore,
    /// The terminal sentinel was seen; the sequence has ended.
    Done,
}

/// The event-frame parser: a growable byte buffer with a fill mark, fed
/// by reads of arbitrary length, consumed one frame at a time.
pub struct SSEStream {
    buf: Vec<u8>,
    filled: usize,
    done: bool,
}

impl SSEStream {
    /// The parser's structural invariant: the fill mark never passes the
    /// end of the buffer. Established by [`SSEStream::new`] and preserved
    /// by every method.
    pub closed spec fn wf(&self) -> bool {
        self.filled <= self.buf@.len()
    }

    /// The bytes currently buffered and not yet consumed.
    pub closed spec fn buffered(&self) -> Seq<u8> {
        self.buf@.take(self.filled as int)
    }

    /// Whether the terminal sentinel has been observed.
    pub closed spec fn is_done(&self) -> bool {
        self.done
    }

    /// The buffer's current size in bytes, fill mark included.
    pub closed spec fn capacity(&self) -> int {
        self.buf@.len() as int
    }

    /// A fresh parser with nothing buffered.
    pub fn new() -> (r: Self)
        ensures
            r.wf(),
            r.buffered() == Seq::<u8>::empty(),
            !r.is_done(),
            r.capacity() == 4096,
    {
        let mut buf: Vec<u8> = Vec::new();
        buf.resize(4096, 0u8);
        let r = SSEStream { buf, filled: 0, done: false };
        proof {
            assert(r.buffered() =~= Seq::<u8>::empty());
        }
        r
    }

    /// How many bytes are currently buffered.
    pub fn buffered_len(&self) -> (n: usize)
        requires
            self.wf(),
        ensures
            n == self.buffered().len(),
    {
        self.filled
    }

    /// Appends one read's bytes behind the fill mark, doubling the buffer
    /// when the free space past the filled region is too small.
    pub fn feed(&mut self, chunk: &[u8])
        requires
            old(self).wf(),
            old(self).buffered().len() + chunk@.len() <= usize::MAX,
        ensures
            final(self).wf(),
            final(self).buffered() == old(self).buffered() + chunk@,
            final(self).is_done() == old(self).is_done(),
            final(self).capacity() == if old(self).capacity() - old(self).buffered().len()
                >= chunk@.len() {
                old(self).capacity()
            } else {
                grown_capacity(old(self).capacity(), old(self).buffered().len() + chunk@.len() as int)
            },
    {
        let ghost oldb = self.buffered();
        let need = chunk.len();
        if self.buf.len() - self.filled < need {
            let doubled = if self.buf.len() > usize::MAX / 2 {
                usize::MAX
            } else {
                self.buf.len() * 2
            };
            let target = self.filled + need;
            let newlen = if doubled > target {
                doubled
            } else {
                target
            };
            self.buf.resize(newlen, 0u8);
            proof {
                assert(self.buffered() =~= oldb);
            }
        }
        let ghost pre = self.buf@;
        let ghost start = self.filled as int;
        let ghost was_done = self.is_done();
        let mut j: usize = 0;
        while j < need
            invariant
                j <= need,
                need == chunk@.len(),
                self.filled as int == start,
                0 <= start,
                start + need <= self.buf@.len(),
                start + need <= usize::MAX,
                self.buf@.len() == pre.len(),
                self.is_done() == was_done,
                forall|q: int| 0 <= q < start ==> self.buf@[q] == pre[q],
                forall|q: int| 0 <= q < j ==> self.buf@[start + q] == chunk@[q],
            decreases need - j,
        {
            let pos = self.filled + j;
            self.buf[pos] = chunk[j];
            j = j + 1;
        }
        self.filled = self.filled + need;
        proof {
            assert(pre.take(start) =~= oldb);
            assert(self.buffered() =~= oldb + chunk@);
        }
    }

    /// Advances the parser by one step over the buffered bytes: yields the
    /// first complete frame's payload and compacts it out of the buffer,
    /// reports the end of the sequence on the sentinel payload, or asks
    /// for more bytes when no delimiter is buffered yet.
    pub fn next_frame(&mut self) -> (r: FrameStep)
        requires
            old(self).wf(),
        ensures
            final(self).wf(),
            final(self).capacity() == old(self).capacity(),
            old(self).is_done() ==> r is Done && final(self).is_done() && final(self).buffered()
                == old(self).buffered(),
            !old(self).is_done() ==> match find_delim(old(self).buffered()) {
                None => {
                    &&& r is NeedMore
                    &&& final(self).buffered() == old(self).buffered()
                    &&& !final(self).is_done()
                },
                Some(p) => {
                    if payload_of(old(self).buffered(), p) == done_payload() {
                        &&& r is Done
                        &&& final(self).is_done()
                        &&& final(self).buffered() == old(self).buffered()
                    } else {
                        &&& r matches FrameStep::Frame(f) && f@ == payload_of(
                            old(self).buffered(),
                            p,
                        )
                        &&& final(self).buffered() == old(self).buffered().skip(p + 2)
                        &&& !final(self).is_done()
                    }
                },
            },
    {
        if self.done {
            return FrameStep::Done;
        }
        let ghost b = self.buffered();
        proof {
            lemma_find_delim(b);
        }
        if self.filled < 2 {
            return FrameStep::NeedMore;
        }
        let mut i: usize = 0;
        let mut found = false;
        while !found && i < self.filled - 1
            invariant
                self.wf(),
                b == self.buffered(),
                !self.is_done(),
                2 <= self.filled,
                i <= self.filled - 1,
                found ==> delim_at(b, i as int),
                forall|q: int| 0 <= q < i ==> !delim_at(b, q),
            decreases self.filled - i + (if found {
                0int
            } else {
                1int
            }),
        {
            if self.buf[i] == 10u8 && self.buf[i + 1] == 10u8 {
                found = true;
            } else {
                i = i + 1;
            }
        }
        if !found {
            proof {
                assert forall|q: int| !delim_at(b, q) by {
                    if 0 <= q && q + 1 < b.len() {
                        assert(!delim_at(b, q));
                    }
                }
                assert(find_delim(b) is None);
            }
            return FrameStep::NeedMore;
        }
        let p = i;
        proof {
            assert(find_delim(b) == Some(p as int));
        }
        let start = if p < PREFIX_LEN {
            p
        } else {
            PREFIX_LEN
        };
        let mut pay: Vec<u8> = Vec::new();
        let mut j: usize = start;
        proof {
            assert(pay@ =~= b.subrange(start as int, start as int));
        }
        while j < p
            invariant
                self.wf(),
                b == self.buffered(),
                !self.is_done(),
                start <= j <= p,
                p + 1 < self.filled,
                pay@ == b.subrange(start as int, j as int),
            decreases p - j,
        {
            pay.push(self.buf[j]);
            j = j + 1;
            proof {
                assert(pay@ =~= b.subrange(start as int, j as int));
            }
        }
        if is_done_payload(&pay) {
            self.done = true;
            return FrameStep::Done;
        }
        let consumed = p + 2;
        let ghost pre = self.buf@;
        let ghost fill0 = self.filled as int;
        let mut k: usize = 0;
        while k < self.filled - consumed
            invariant
                consumed <= fill0,
                self.filled as int == fill0,
                fill0 <= self.buf@.len(),
                self.buf@.len() == pre.len(),
                !self.is_done(),
                b == pre.take(fill0),
                k <= fill0 - consumed,
                forall|q: int| 0 <= q < k ==> self.buf@[q] == pre[consumed + q],
                forall|q: int| k <= q < pre.len() ==> self.buf@[q] == pre[q],
            decreases fill0 - consumed - k,
        {
            let v = self.buf[consumed + k];
            self.buf[k] = v;
            k = k + 1;
        }
        self.filled = self.filled - consumed;
        proof {
            assert(self.buffered() =~= b.skip(consumed as int));
        }
        FrameStep::Frame(pay)
    }
}

/// Whether a payload equals the terminal sentinel `[DONE]`.
fn is_done_payload(pay: &Vec<u8>) -> (b: bool)
    ensures
        b == (pay@ == done_payload()),
{
    if pay.len() != 6 {
        proof {
            assert(pay@ != done_payload());
        }
        return false;
    }
    let eq = pay[0] == 91u8 && pay[1] == 68u8 && pay[2] == 79u8 && pay[3] == 78u8 && pay[4] == 69u8
        && pay[5] == 93u8;
    proof {
        if eq {
            assert(pay@ =~= done_payload());
        } else {
            assert(pay@ != done_payload());
        }
    }
    eq
}

} // verus!
