//! Decoding of the server-push event stream of an incremental reply.
//!
//! The response body of a streamed request is a sequence of push events.
//! A line ends at a line feed, at a carriage return, or at a carriage return
//! followed by a line feed; a line carrying the data field — `data:` with a
//! value, or the bare field name — contributes to an event's payload (several
//! such lines are joined with a line feed); an empty line dispatches the
//! event.  A payload equal to the sentinel `[DONE]` ends the stream; every
//! other payload is one chunk for the consumer to decode.
//!
//! The streaming path records nothing in the history store: callers that
//! want a streamed exchange persisted insert the two nodes themselves after
//! accumulating the full text.
use vstd::prelude::*;
use crate::error::ChatGPTError;
use crate::error::ChatGPTResult;
use crate::types::ChatStreamResponse;

verus! {

/// The bare field name of a data line: the bytes of `data`.
pub open spec fn data_name() -> Seq<u8> {
    seq![100u8, 97u8, 116u8, 97u8]
}

/// The field prefix of a data line with a value: the bytes of `data:`.
pub open spec fn data_prefix() -> Seq<u8> {
    seq![100u8, 97u8, 116u8, 97u8, 58u8]
}

/// Whether a complete line carries the data field: `data:` with a value, or
/// the bare field name with an empty one.
pub open spec fn is_data_line(l: Seq<u8>) -> bool {
    l == data_name() || (l.len() >= 5 && l.take(5) == data_prefix())
}

/// The payload of a data line: everything after `data:`, less one optional
/// leading space; a bare `data` line carries an empty payload.
pub open spec fn data_payload(l: Seq<u8>) -> Seq<u8> {
    if l == data_name() {
        Seq::empty()
    } else {
        let rest = l.skip(5);
        if rest.len() > 0 && rest[0] == 32 {
            rest.skip(1)
        } else {
            rest
        }
    }
}

/// The bytes of the terminal sentinel `[DONE]`.
pub open spec fn done_sentinel() -> Seq<u8> {
    seq![91u8, 68u8, 79u8, 78u8, 69u8, 93u8]
}

/// The lifecycle of one streamed reply.  `Completed` and `Failed` are
/// terminal: a stream is neither resumed nor restarted.
#[derive(Clone, Copy, PartialEq, Eq, Structural, Debug)]
pub enum StreamPhase {
    Idle,
    Connected,
    Streaming,
    Completed,
    Failed,
}

/// Mathematical view of a [`StreamDecoder`]: the unfinished line, the
/// gathered payload, whether a data field was seen in the current event,
/// whether the last byte was a carriage return, and the lifecycle phase.
pub struct DecoderView {
    pub line: Seq<u8>,
    pub data: Seq<u8>,
    pub has_data: bool,
    pub prev_cr: bool,
    pub phase: StreamPhase,
}

/// What closing the current line does: an empty line dispatches the gathered
/// payload — ending the stream if it is the sentinel — a data line extends
/// the payload, any other line is ignored.
pub open spec fn dispatch_line(v: DecoderView) -> (DecoderView, Option<Seq<u8>>) {
    let l = v.line;
    if l.len() == 0 {
        if v.has_data {
            if v.data == done_sentinel() {
                (DecoderView {
                    line: Seq::empty(),
                    data: Seq::empty(),
                    has_data: false,
                    prev_cr: v.prev_cr,
                    phase: StreamPhase::Completed,
                }, None)
            } else {
                (DecoderView {
                    line: Seq::empty(),
                    data: Seq::empty(),
                    has_data: false,
                    prev_cr: v.prev_cr,
                    phase: v.phase,
                }, Some(v.data))
            }
        } else {
            (v, None)
        }
    } else if is_data_line(l) {
        (DecoderView {
            line: Seq::empty(),
            data: if v.has_data {
                v.data + seq![10u8] + data_payload(l)
            } else {
                data_payload(l)
            },
            has_data: true,
            prev_cr: v.prev_cr,
            phase: v.phase,
        }, None)
    } else {
        (DecoderView {
            line: Seq::empty(),
            data: v.data,
            has_data: v.has_data,
            prev_cr: v.prev_cr,
            phase: v.phase,
        }, None)
    }
}

/// The same decoder, with the carriage-return mark set or cleared.
pub open spec fn with_cr(v: DecoderView, c: bool) -> DecoderView {
    DecoderView { line: v.line, data: v.data, has_data: v.has_data, prev_cr: c, phase: v.phase }
}

/// What one byte does to the decoder: a line feed right after a carriage
/// return is the tail of one line ending and is swallowed; a line feed or a
/// carriage return closes the current line; anything else extends it.  A
/// terminal decoder ignores input.
pub open spec fn step(v: DecoderView, b: u8) -> (DecoderView, Option<Seq<u8>>) {
    if v.phase is Completed || v.phase is Failed {
        (v, None)
    } else if b == 10 && v.prev_cr {
        (with_cr(v, false), None)
    } else if b == 10 || b == 13 {
        let d = dispatch_line(v);
        (with_cr(d.0, b == 13), d.1)
    } else {
        (DecoderView {
            line: v.line.push(b),
            data: v.data,
            has_data: v.has_data,
            prev_cr: false,
            phase: v.phase,
        }, None)
    }
}

/// The payloads one step emits: at most one.
pub open spec fn emitted(o: Option<Seq<u8>>) -> Seq<Seq<u8>> {
    match o {
        Some(p) => seq![p],
        None => Seq::empty(),
    }
}

/// Folding [`step`] over a byte sequence: the final decoder and every
/// dispatched payload, in order.
pub open spec fn run(v: DecoderView, bytes: Seq<u8>) -> (DecoderView, Seq<Seq<u8>>)
    decreases bytes.len(),
{
    if bytes.len() == 0 {
        (v, Seq::empty())
    } else {
        let s = step(v, bytes.first());
        let rest = run(s.0, bytes.drop_first());
        (rest.0, emitted(s.1) + rest.1)
    }
}

/// Feeding one more byte appends that byte's step to the run.
pub proof fn lemma_run_push(v: DecoderView, bytes: Seq<u8>, b: u8)
    ensures
        run(v, bytes.push(b)).0 == step(run(v, bytes).0, b).0,
        run(v, bytes.push(b)).1 == run(v, bytes).1 + emitted(step(run(v, bytes).0, b).1),
    decreases bytes.len(),
{
    if bytes.len() == 0 {
        reveal_with_fuel(run, 3);
        assert(bytes.push(b).first() == b);
        assert(bytes.push(b).drop_first() =~= Seq::<u8>::empty());
        assert(run(v, bytes.push(b)).1 =~= emitted(step(v, b).1));
        assert(run(v, bytes).1 + emitted(step(run(v, bytes).0, b).1) =~= emitted(step(v, b).1));
    } else {
        assert(bytes.push(b).first() == bytes.first());
        assert(bytes.push(b).drop_first() =~= bytes.drop_first().push(b));
        let s = step(v, bytes.first());
        lemma_run_push(s.0, bytes.drop_first(), b);
        assert(run(v, bytes.push(b)).1 =~= run(v, bytes).1 + emitted(
            step(run(v, bytes).0, b).1,
        ));
    }
}

/// `Completed` and `Failed` are terminal: a decoder in either phase yields
/// nothing and never changes, however many bytes it is fed.
pub proof fn lemma_terminal_absorbs(v: DecoderView, bytes: Seq<u8>)
    requires
        v.phase is Completed || v.phase is Failed,
    ensures
        run(v, bytes).0 == v,
        run(v, bytes).1 == Seq::<Seq<u8>>::empty(),
    decreases bytes.len(),
{
    if bytes.len() > 0 {
        lemma_terminal_absorbs(v, bytes.drop_first());
        assert(emitted(step(v, bytes.first()).1) + run(v, bytes.drop_first()).1 =~= Seq::<
            Seq<u8>,
        >::empty());
    }
}

/// The terminal sentinel is detected, never yielded: no step emits a payload
/// equal to it.
pub proof fn lemma_sentinel_not_yielded(v: DecoderView, b: u8)
    ensures
        step(v, b).1 is Some ==> step(v, b).1->0 != done_sentinel(),
{
}

/// The views of a sequence of payloads, in order.
pub open spec fn payloads_of(s: Seq<Vec<u8>>) -> Seq<Seq<u8>> {
    s.map_values(|v: Vec<u8>| v@)
}

/// Whether a payload is the terminal sentinel.
fn is_done(p: &Vec<u8>) -> (r: bool)
    ensures
        r == (p@ == done_sentinel()),
{
    if p.len() != 6 {
        proof {
            assert(p@ != done_sentinel());
        }
        return false;
    }
    let ok = p[0] == 91 && p[1] == 68 && p[2] == 79 && p[3] == 78 && p[4] == 69 && p[5] == 93;
    proof {
        if ok {
            assert(p@ =~= done_sentinel());
        } else {
            assert(p@ != done_sentinel());
        }
    }
    ok
}

/// An incremental decoder of one streamed reply, tracking its lifecycle.
pub struct StreamDecoder {
    line: Vec<u8>,
    data: Vec<u8>,
    has_data: bool,
    prev_cr: bool,
    phase: StreamPhase,
}

impl View for StreamDecoder {
    type V = DecoderView;

    closed spec fn view(&self) -> DecoderView {
        DecoderView {
            line: self.line@,
            data: self.data@,
            has_data: self.has_data,
            prev_cr: self.prev_cr,
            phase: self.phase,
        }
    }
}

/// The phase after a connection was established.
pub open spec fn connect_phase(p: StreamPhase) -> StreamPhase {
    if p is Idle {
        StreamPhase::Connected
    } else {
        p
    }
}

/// The phase after a chunk was decoded successfully.
pub open spec fn chunk_phase(p: StreamPhase) -> StreamPhase {
    if p is Connected || p is Streaming {
        StreamPhase::Streaming
    } else {
        p
    }
}

/// The phase after a transport or decode failure.
pub open spec fn fail_phase(p: StreamPhase) -> StreamPhase {
    if p is Completed || p is Failed {
        p
    } else {
        StreamPhase::Failed
    }
}

impl StreamDecoder {
    /// A decoder for a stream not yet connected.
    pub fn new() -> (d: StreamDecoder)
        ensures
            d@ == (DecoderView {
                line: Seq::empty(),
                data: Seq::empty(),
                has_data: false,
                prev_cr: false,
                phase: StreamPhase::Idle,
            }),
    {
        let d = StreamDecoder {
            line: Vec::new(),
            data: Vec::new(),
            has_data: false,
            prev_cr: false,
            phase: StreamPhase::Idle,
        };
        proof {
            assert(d@.line =~= Seq::<u8>::empty());
            assert(d@.data =~= Seq::<u8>::empty());
        }
        d
    }

    /// The current lifecycle phase.
    pub fn phase(&self) -> (p: StreamPhase)
        ensures
            p == self@.phase,
    {
        self.phase
    }

    /// Note that the connection was established: an idle stream becomes
    /// connected; nothing else changes.
    pub fn connect(&mut self)
        ensures
            final(self)@ == (DecoderView { phase: connect_phase(old(self)@.phase), ..old(self)@ }),
    {
        if let StreamPhase::Idle = self.phase {
            self.phase = StreamPhase::Connected;
        }
    }

    /// Note that a chunk was decoded successfully: the first one moves a
    /// connected stream to streaming; later ones keep it streaming.
    pub fn chunk_decoded(&mut self)
        ensures
            final(self)@ == (DecoderView { phase: chunk_phase(old(self)@.phase), ..old(self)@ }),
    {
        match self.phase {
            StreamPhase::Connected => {
                self.phase = StreamPhase::Streaming;
            },
            StreamPhase::Streaming => {},
            _ => {},
        }
    }

    /// Note a transport or chunk-decode failure: the stream fails terminally
    /// unless it had already completed; fragments already yielded stay valid.
    pub fn fail(&mut self)
        ensures
            final(self)@ == (DecoderView { phase: fail_phase(old(self)@.phase), ..old(self)@ }),
    {
        match self.phase {
            StreamPhase::Completed => {},
            StreamPhase::Failed => {},
            _ => {
                self.phase = StreamPhase::Failed;
            },
        }
    }

    /// Feed one byte of the response body; a dispatched chunk payload, if
    /// this byte completes one, is returned raw for the consumer to decode.
    pub fn on_byte(&mut self, b: u8) -> (r: Option<Vec<u8>>)
        ensures
            final(self)@ == step(old(self)@, b).0,
            match r {
                Some(p) => step(old(self)@, b).1 == Some(p@),
                None => step(old(self)@, b).1 is None,
            },
    {
        let ghost v = self@;
        match self.phase {
            StreamPhase::Completed => {
                return None;
            },
            StreamPhase::Failed => {
                return None;
            },
            _ => {},
        }
        if b == 10 && self.prev_cr {
            self.prev_cr = false;
            return None;
        }
        if b != 10 && b != 13 {
            self.line.push(b);
            self.prev_cr = false;
            proof {
                assert(self@ == step(v, b).0);
            }
            return None;
        }
        self.prev_cr = b == 13;
        let ghost l = v.line;
        if self.line.len() == 0 {
            proof {
                assert(self.line@ =~= Seq::<u8>::empty());
            }
            if self.has_data {
                self.has_data = false;
                let mut payload: Vec<u8> = Vec::new();
                core::mem::swap(&mut payload, &mut self.data);
                if is_done(&payload) {
                    self.phase = StreamPhase::Completed;
                    proof {
                        assert(self@ == step(v, b).0);
                    }
                    return None;
                }
                proof {
                    assert(self@ == step(v, b).0);
                }
                return Some(payload);
            }
            proof {
                assert(self@ == step(v, b).0);
            }
            return None;
        }
        let n = self.line.len();
        let is_data = (n == 4 && self.line[0] == 100 && self.line[1] == 97 && self.line[2] == 116
            && self.line[3] == 97) || (n >= 5 && self.line[0] == 100 && self.line[1] == 97
            && self.line[2] == 116 && self.line[3] == 97 && self.line[4] == 58);
        proof {
            if is_data {
                if l.len() == 4 {
                    assert(l =~= data_name());
                } else {
                    assert(l.take(5) =~= data_prefix());
                }
            } else {
                if l == data_name() {
                    assert(l[0] == 100 && l[1] == 97 && l[2] == 116 && l[3] == 97);
                }
                if l.len() >= 5 && l.take(5) == data_prefix() {
                    assert(l.take(5)[0] == 100 && l.take(5)[1] == 97 && l.take(5)[2] == 116
                        && l.take(5)[3] == 97 && l.take(5)[4] == 58);
                }
            }
            assert(is_data == is_data_line(l));
        }
        if is_data {
            let mut start: usize = if n == 4 {
                4
            } else {
                5
            };
            if n > 5 && self.line[5] == 32 {
                start = 6;
            }
            proof {
                assert(data_payload(l) =~= l.subrange(start as int, l.len() as int));
            }
            if self.has_data {
                self.data.push(10);
            } else {
                self.data.clear();
            }
            let ghost base = self.data@;
            proof {
                assert(base + self.line@.subrange(start as int, start as int) =~= base);
                if v.has_data {
                    assert(base =~= v.data + seq![10u8]);
                } else {
                    assert(base =~= Seq::<u8>::empty());
                }
            }
            let mut i: usize = start;
            while i < self.line.len()
                invariant
                    start <= i <= self.line@.len(),
                    self.line@ == l,
                    self.has_data == v.has_data,
                    self.phase == v.phase,
                    self.prev_cr == (b == 13),
                    self.data@ == base + self.line@.subrange(start as int, i as int),
                decreases self.line@.len() - i,
            {
                let byte = self.line[i];
                self.data.push(byte);
                proof {
                    assert(base + self.line@.subrange(start as int, i + 1) =~= (base
                        + self.line@.subrange(start as int, i as int)).push(self.line@[i as int]));
                }
                i += 1;
            }
            self.has_data = true;
            self.line.clear();
            proof {
                if v.has_data {
                    assert(self.data@ =~= v.data + seq![10u8] + data_payload(l));
                } else {
                    assert(self.data@ =~= data_payload(l));
                }
                assert(self.line@ =~= Seq::<u8>::empty());
                assert(self@ == step(v, b).0);
            }
            return None;
        }
        self.line.clear();
        proof {
            assert(self.line@ =~= Seq::<u8>::empty());
            assert(self@ == step(v, b).0);
        }
        None
    }

    /// Feed a slab of the response body, collecting every chunk payload it
    /// completes, in order.
    pub fn on_bytes(&mut self, bytes: &Vec<u8>) -> (out: Vec<Vec<u8>>)
        ensures
            final(self)@ == run(old(self)@, bytes@).0,
            payloads_of(out@) == run(old(self)@, bytes@).1,
    {
        let ghost v0 = self@;
        let mut out: Vec<Vec<u8>> = Vec::new();
        proof {
            assert(bytes@.take(0) =~= Seq::<u8>::empty());
            assert(payloads_of(out@) =~= Seq::<Seq<u8>>::empty());
        }
        let mut i: usize = 0;
        while i < bytes.len()
            invariant
                0 <= i <= bytes@.len(),
                v0 == old(self)@,
                self@ == run(v0, bytes@.take(i as int)).0,
                payloads_of(out@) == run(v0, bytes@.take(i as int)).1,
            decreases bytes@.len() - i,
        {
            let b = bytes[i];
            let ghost pre = self@;
            let r = self.on_byte(b);
            proof {
                assert(bytes@.take(i + 1) =~= bytes@.take(i as int).push(bytes@[i as int]));
                lemma_run_push(v0, bytes@.take(i as int), bytes@[i as int]);
            }
            match r {
                Some(p) => {
                    let ghost outs = payloads_of(out@);
                    out.push(p);
                    proof {
                        assert(payloads_of(out@) =~= outs + emitted(step(pre, b).1));
                    }
                },
                None => {
                    proof {
                        assert(payloads_of(out@) + emitted(step(pre, b).1) =~= payloads_of(out@));
                    }
                },
            }
            i += 1;
        }
        proof {
            assert(bytes@.take(bytes@.len() as int) =~= bytes@);
        }
        out
    }
}

/// The content fragment one decoded chunk carries: its first alternative's
/// delta content.  A chunk with no alternative is a protocol error.
pub fn fragment_of(resp: &ChatStreamResponse) -> (r: ChatGPTResult<String>)
    ensures
        resp.choices@.len() > 0 ==> (r matches Ok(s) && s@ == resp.choices@[0].delta.content@),
        resp.choices@.len() == 0 ==> (r matches Err(e) && e matches ChatGPTError::Protocol(m)
            && m@ == "no choices returned"@),
{
    if resp.choices.len() == 0 {
        Err(ChatGPTError::Protocol("no choices returned".to_owned()))
    } else {
        Ok(resp.choices[0].delta.content.clone())
    }
}

} // verus!
