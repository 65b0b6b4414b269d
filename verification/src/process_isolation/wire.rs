//! Framing of messages across a pipe between two processes.
//!
//! Four bytes of big-endian length, then that many bytes of message. The
//! length is checked before anything is set aside for the message. A stream
//! that ends between two frames was closed in order; one that ends inside a
//! frame was not.
use crate::bytes::{be_bytes, be_bytes_len, be_round_trip, be_value, big_endian, byte_span};
use crate::text::{decimal, decimal_text};
use vstd::prelude::*;
use vstd::string::*;

verus! {

/// Largest message either side writes or accepts, in bytes.
pub const MAX_FRAME_BYTES: usize = 1_048_576;

/// What kind of fault a frame met.
#[derive(Debug, Clone, Copy, PartialEq, Eq, Structural)]
pub enum FaultKind {
    /// The stream ended inside a frame.
    UnexpectedEof,
    /// The frame, or what it would have to carry, breaks the limit.
    InvalidData,
    /// The stream could not be read.
    Broken,
}

/// A fault, and what is said of it.
#[derive(Debug, Clone)]
pub struct FrameFault {
    /// Its kind.
    pub kind: FaultKind,
    /// What is said of it.
    pub message: String,
}

/// A message as it goes over the pipe.
pub open spec fn frame_of(body: Seq<u8>) -> Seq<u8> {
    be_bytes(body.len(), 4) + body
}

/// What is said of a message that is too large to frame.
pub open spec fn too_large_text(len: nat) -> Seq<char> {
    "message encodes to "@ + decimal_text(len) + " bytes, over the 1048576-byte frame limit"@
}

/// What is said of a frame that claims too much.
pub open spec fn claims_text(len: nat) -> Seq<char> {
    "frame claims "@ + decimal_text(len) + " bytes, over the 1048576-byte limit"@
}

/// What is said of a stream that ended inside a frame.
pub open spec fn cut_text(got: nat, want: nat, body: bool) -> Seq<char> {
    "stream ended after "@ + decimal_text(got) + " of "@ + decimal_text(want) + if body {
        " body bytes"@
    } else {
        " length bytes"@
    }
}

/// Frame one encoded message: its length and its bytes in one piece. A message
/// over the limit is refused, so that the reader never meets a frame it has to
/// reject.
pub fn write_frame(body: &[u8]) -> (r: Result<Vec<u8>, FrameFault>)
    ensures
        r is Ok <==> body@.len() <= MAX_FRAME_BYTES,
        r matches Ok(frame) ==> frame@ == frame_of(body@),
        r matches Err(f) ==> f.kind == FaultKind::InvalidData && f.message@ == too_large_text(
            body@.len(),
        ),
{
    if body.len() > MAX_FRAME_BYTES {
        let mut message = String::from_str("message encodes to ");
        message.append(decimal(body.len() as u64).as_str());
        message.append(" bytes, over the 1048576-byte frame limit");
        return Err(FrameFault { kind: FaultKind::InvalidData, message });
    }
    let mut frame: Vec<u8> = big_endian(body.len() as u128, 4);
    let ghost head = frame@;
    let mut i: usize = 0;
    while i < body.len()
        invariant
            i <= body.len(),
            frame@ =~= head + body@.take(i as int),
        decreases body.len() - i,
    {
        frame.push(body[i]);
        i += 1;
        assert(body@.take(i as int) =~= body@.take(i - 1).push(body@[i - 1]));
    }
    assert(body@.take(i as int) =~= body@);
    Ok(frame)
}

/// What reading from the pipe brought.
#[derive(Debug)]
pub enum ReadEvent {
    /// These bytes, at least one and no more than were asked for.
    Bytes(Vec<u8>),
    /// The end of the stream.
    End,
    /// Nothing, because the read was interrupted.
    Interrupted,
    /// An error, described.
    Failed(String),
}

/// How reading a frame goes on.
#[derive(Debug)]
pub enum FrameStep {
    /// Read on.
    More,
    /// This message is complete.
    Frame(Vec<u8>),
    /// The peer closed between two frames.
    CleanEnd,
    /// The frame cannot be read.
    Fault(FrameFault),
}

/// What the bytes of a stream say, from the beginning of a frame on.
pub ghost enum Progress {
    /// So far this is the beginning of a frame: of so many bytes wanted so
    /// many are there, and whether they are the message's or the length's.
    Partial {
        /// Bytes there.
        got: nat,
        /// Bytes wanted.
        want: nat,
        /// Whether they are the message's.
        body: bool,
    },
    /// The length is over the limit.
    TooLarge(nat),
    /// A whole message.
    Whole(Seq<u8>),
}

/// What the bytes taken in of a frame say.
pub open spec fn progress(taken: Seq<u8>) -> Progress {
    if taken.len() < 4 {
        Progress::Partial { got: taken.len(), want: 4, body: false }
    } else {
        let want = be_value(taken.take(4));
        if want > MAX_FRAME_BYTES {
            Progress::TooLarge(want)
        } else if taken.len() - 4 < want {
            Progress::Partial { got: (taken.len() - 4) as nat, want, body: true }
        } else {
            Progress::Whole(taken.skip(4).take(want as int))
        }
    }
}

/// Reads frames from a stream that arrives in pieces.
#[derive(Debug)]
pub struct FrameReader {
    head: Vec<u8>,
    body: Vec<u8>,
    want: usize,
}

impl View for FrameReader {
    type V = Seq<u8>;

    /// The bytes taken in of the current frame.
    closed spec fn view(&self) -> Seq<u8> {
        self.head@ + self.body@
    }
}

impl FrameReader {
    /// Whether the reader is inside a frame, or at the beginning of one.
    pub closed spec fn valid(self) -> bool {
        &&& self.head@.len() <= 4
        &&& self.head@.len() < 4 ==> self.body@.len() == 0
        &&& self.head@.len() == 4 ==> self.want == be_value(self.head@) && self.want
            <= MAX_FRAME_BYTES && self.body@.len() < self.want
    }

    /// Bytes the current part of the frame still wants.
    pub open spec fn wants_spec(self) -> nat {
        match progress(self@) {
            Progress::Partial { got, want, body } => (want - got) as nat,
            _ => 0,
        }
    }

    /// A reader at the beginning of a frame.
    pub fn new() -> (r: Self)
        ensures
            r@ == Seq::<u8>::empty(),
            r.valid(),
    {
        let r = FrameReader { head: Vec::new(), body: Vec::new(), want: 0 };
        assert(r@ =~= Seq::<u8>::empty());
        r
    }

    /// How many bytes to read at most, always at least one.
    pub fn wants(&self) -> (r: usize)
        requires
            self.valid(),
        ensures
            r == self.wants_spec(),
            0 < r <= MAX_FRAME_BYTES,
    {
        proof {
            self.parts();
        }
        if self.head.len() < 4 {
            4 - self.head.len()
        } else {
            self.want - self.body.len()
        }
    }

    /// How the bytes taken in split into length and message.
    proof fn parts(&self)
        requires
            self.valid(),
        ensures
            self.head@.len() == 4 ==> self@.take(4) == self.head@,
            self.head@.len() == 4 ==> self@.skip(4) == self.body@,
            self.head@.len() < 4 ==> self@ == self.head@,
            progress(self@) is Partial,
    {
        if self.head@.len() == 4 {
            assert(self@.take(4) =~= self.head@);
            assert(self@.skip(4) =~= self.body@);
        } else {
            assert(self@ =~= self.head@);
        }
    }

    /// Take in what reading brought.
    ///
    /// Bytes go to the frame, and an interrupted read changes nothing. The end
    /// of the stream is a clean one only where nothing of a frame has been
    /// taken in. After a message, a fault or the end the reader is at the
    /// beginning of a frame again.
    pub fn feed(&mut self, event: ReadEvent) -> (r: FrameStep)
        requires
            old(self).valid(),
            event matches ReadEvent::Bytes(b) ==> 0 < b@.len() <= old(self).wants_spec(),
        ensures
            final(self).valid(),
            match event {
                ReadEvent::Bytes(b) => match progress(old(self)@ + b@) {
                    Progress::Partial { .. } => r is More && final(self)@ == old(self)@ + b@,
                    Progress::TooLarge(n) => {
                        &&& r matches FrameStep::Fault(f) && f.kind == FaultKind::InvalidData
                            && f.message@ == claims_text(n)
                        &&& final(self)@ == Seq::<u8>::empty()
                    },
                    Progress::Whole(body) => {
                        &&& r matches FrameStep::Frame(m) && m@ == body
                        &&& old(self)@ + b@ == be_bytes(body.len(), 4) + body
                        &&& final(self)@ == Seq::<u8>::empty()
                    },
                },
                ReadEvent::End => {
                    &&& final(self)@ == Seq::<u8>::empty()
                    &&& if old(self)@.len() == 0 {
                        r is CleanEnd
                    } else {
                        r matches FrameStep::Fault(f) && f.kind == FaultKind::UnexpectedEof && (
                        progress(old(self)@) matches Progress::Partial { got, want, body }
                            && f.message@ == cut_text(got, want, body))
                    }
                },
                ReadEvent::Interrupted => r is More && final(self)@ == old(self)@,
                ReadEvent::Failed(e) => {
                    &&& r matches FrameStep::Fault(f) && f.kind == FaultKind::Broken && f.message
                        == e
                    &&& final(self)@ == Seq::<u8>::empty()
                },
            },
    {
        proof {
            self.parts();
        }
        match event {
            ReadEvent::Interrupted => FrameStep::More,
            ReadEvent::Failed(e) => {
                *self = FrameReader::new();
                FrameStep::Fault(FrameFault { kind: FaultKind::Broken, message: e })
            },
            ReadEvent::End => {
                let in_body: bool = self.head.len() == 4;
                let got: usize = if in_body {
                    self.body.len()
                } else {
                    self.head.len()
                };
                let want: usize = if in_body {
                    self.want
                } else {
                    4
                };
                if self.head.len() == 0 {
                    return FrameStep::CleanEnd;
                }
                *self = FrameReader::new();
                let mut message = String::from_str("stream ended after ");
                message.append(decimal(got as u64).as_str());
                message.append(" of ");
                message.append(decimal(want as u64).as_str());
                if in_body {
                    message.append(" body bytes");
                } else {
                    message.append(" length bytes");
                }
                FrameStep::Fault(FrameFault { kind: FaultKind::UnexpectedEof, message })
            },
            ReadEvent::Bytes(bytes) => {
                if self.head.len() < 4 {
                    self.take_length(bytes)
                } else {
                    self.take_body(bytes)
                }
            },
        }
    }

    /// Take in bytes of the length.
    fn take_length(&mut self, bytes: Vec<u8>) -> (r: FrameStep)
        requires
            old(self).valid(),
            old(self)@.len() < 4,
            0 < bytes@.len() <= 4 - old(self)@.len(),
        ensures
            final(self).valid(),
            match progress(old(self)@ + bytes@) {
                Progress::Partial { .. } => r is More && final(self)@ == old(self)@ + bytes@,
                Progress::TooLarge(n) => {
                    &&& r matches FrameStep::Fault(f) && f.kind == FaultKind::InvalidData
                        && f.message@ == claims_text(n)
                    &&& final(self)@ == Seq::<u8>::empty()
                },
                Progress::Whole(body) => {
                    &&& r matches FrameStep::Frame(m) && m@ == body
                    &&& old(self)@ + bytes@ == be_bytes(body.len(), 4) + body
                    &&& final(self)@ == Seq::<u8>::empty()
                },
            },
    {
        let mut bytes = bytes;
        let ghost taken = self@ + bytes@;
        proof {
            self.parts();
        }
        self.head.append(&mut bytes);
        assert(self.head@ =~= taken);
        assert(self@ =~= taken);
        if self.head.len() < 4 {
            return FrameStep::More;
        }
        let want: usize = self.head[0] as usize * 0x100_0000 + self.head[1] as usize * 0x1_0000
            + self.head[2] as usize * 0x100 + self.head[3] as usize;
        proof {
            let h = self.head@;
            reveal_with_fuel(be_value, 5);
            assert(h.drop_last().drop_last().drop_last().last() == h[0]);
            assert(h.drop_last().drop_last().last() == h[1]);
            assert(h.drop_last().last() == h[2]);
            assert(be_value(h) == want);
            assert(taken.take(4) =~= h);
        }
        if want > MAX_FRAME_BYTES {
            *self = FrameReader::new();
            let mut message = String::from_str("frame claims ");
            message.append(decimal(want as u64).as_str());
            message.append(" bytes, over the 1048576-byte limit");
            return FrameStep::Fault(FrameFault { kind: FaultKind::InvalidData, message });
        }
        if want == 0 {
            let body: Vec<u8> = Vec::new();
            proof {
                assert(taken.skip(4).take(0) =~= body@);
                crate::bytes::be_value_round_trip(taken);
                assert(be_bytes(0, 4) + body@ =~= taken);
            }
            *self = FrameReader::new();
            return FrameStep::Frame(body);
        }
        self.want = want;
        FrameStep::More
    }

    /// Take in bytes of the message.
    fn take_body(&mut self, bytes: Vec<u8>) -> (r: FrameStep)
        requires
            old(self).valid(),
            old(self)@.len() >= 4,
            0 < bytes@.len() <= old(self).wants_spec(),
        ensures
            final(self).valid(),
            match progress(old(self)@ + bytes@) {
                Progress::Partial { .. } => r is More && final(self)@ == old(self)@ + bytes@,
                Progress::TooLarge(n) => false,
                Progress::Whole(body) => {
                    &&& r matches FrameStep::Frame(m) && m@ == body
                    &&& old(self)@ + bytes@ == be_bytes(body.len(), 4) + body
                    &&& final(self)@ == Seq::<u8>::empty()
                },
            },
    {
        let mut bytes = bytes;
        let ghost taken = self@ + bytes@;
        proof {
            self.parts();
        }
        self.body.append(&mut bytes);
        assert(self@ =~= taken);
        assert(taken.take(4) =~= self.head@);
        assert(taken.skip(4) =~= self.body@);
        if self.body.len() < self.want {
            return FrameStep::More;
        }
        let mut body: Vec<u8> = Vec::new();
        proof {
            assert(taken.skip(4).take(self.want as int) =~= self.body@);
            crate::bytes::be_value_round_trip(self.head@);
            assert(be_bytes(self.body@.len(), 4) + self.body@ =~= taken);
        }
        core::mem::swap(&mut self.body, &mut body);
        *self = FrameReader::new();
        FrameStep::Frame(body)
    }
}

/// Read the first frame of a stream that is all there: its message and how many
/// bytes it took, or `None` where the stream is empty.
pub fn read_frame(stream: &[u8]) -> (r: Result<Option<(Vec<u8>, usize)>, FrameFault>)
    ensures
        match progress(stream@) {
            Progress::Whole(body) => r matches Ok(Some((m, n))) && m@ == body && n == 4
                + body.len(),
            Progress::TooLarge(n) => r matches Err(f) && f.kind == FaultKind::InvalidData
                && f.message@ == claims_text(n),
            Progress::Partial { got, want, body } => if stream@.len() == 0 {
                r matches Ok(None)
            } else {
                r matches Err(f) && f.kind == FaultKind::UnexpectedEof && f.message@ == cut_text(
                    got,
                    want,
                    body,
                )
            },
        },
{
    let mut reader = FrameReader::new();
    let mut at: usize = 0;
    assert(stream@.take(0) =~= Seq::<u8>::empty());
    loop
        invariant
            reader.valid(),
            at <= stream.len(),
            reader@ == stream@.take(at as int),
        decreases stream.len() - at,
    {
        if at == stream.len() {
            assert(stream@.take(at as int) =~= stream@);
            return match reader.feed(ReadEvent::End) {
                FrameStep::Fault(f) => Err(f),
                _ => Ok(None),
            };
        }
        let want: usize = reader.wants();
        let n: usize = if want <= stream.len() - at {
            want
        } else {
            stream.len() - at
        };
        let mut piece: Vec<u8> = Vec::new();
        let mut i: usize = 0;
        while i < n
            invariant
                i <= n,
                at + n <= stream.len(),
                piece@ =~= stream@.subrange(at as int, at + i),
            decreases n - i,
        {
            piece.push(stream[at + i]);
            i += 1;
        }
        let ghost taken = reader@ + piece@;
        assert(taken =~= stream@.take(at + n));
        proof {
            progress_is_settled(taken, stream@.skip(at + n));
            assert(taken + stream@.skip(at + n) =~= stream@);
        }
        match reader.feed(ReadEvent::Bytes(piece)) {
            FrameStep::More => {},
            FrameStep::Frame(m) => {
                proof {
                    be_bytes_len(m@.len(), 4);
                }
                return Ok(Some((m, at + n)));
            },
            FrameStep::Fault(f) => {
                return Err(f);
            },
            FrameStep::CleanEnd => {
                return Ok(None);
            },
        }
        at += n;
    }
}

/// Once the bytes of a frame say that it is whole or too large, what follows
/// on the stream changes nothing.
proof fn progress_is_settled(taken: Seq<u8>, rest: Seq<u8>)
    ensures
        !(progress(taken) is Partial) ==> progress(taken + rest) == progress(taken),
{
    let all = taken + rest;
    if taken.len() >= 4 {
        assert(all.take(4) =~= taken.take(4));
        if let Progress::Whole(body) = progress(taken) {
            assert(all.skip(4).take(body.len() as int) =~= body);
        }
    }
}

/// What a stream gives, frame after frame, until it ends or a frame cannot be
/// read.
pub open spec fn messages(stream: Seq<u8>) -> Seq<Seq<u8>>
    decreases stream.len(),
{
    match progress(stream) {
        Progress::Whole(body) => seq![body] + messages(stream.skip(4 + body.len() as int)),
        _ => seq![],
    }
}

/// The frames of a list of messages, one after the other.
pub open spec fn frames(bodies: Seq<Seq<u8>>) -> Seq<u8>
    decreases bodies.len(),
{
    if bodies.len() == 0 {
        seq![]
    } else {
        frame_of(bodies[0]) + frames(bodies.skip(1))
    }
}

/// A frame read back gives the message that was written, whatever follows it
/// on the stream.
pub proof fn a_frame_reads_back(body: Seq<u8>, rest: Seq<u8>)
    requires
        body.len() <= MAX_FRAME_BYTES,
    ensures
        progress(frame_of(body) + rest) == Progress::Whole(body),
{
    let s = frame_of(body) + rest;
    assert(byte_span(4) == 0x1_0000_0000) by {
        reveal_with_fuel(byte_span, 5);
    }
    be_round_trip(body.len(), 4);
    assert(s.take(4) =~= be_bytes(body.len(), 4));
    assert(s.skip(4).take(body.len() as int) =~= body);
}

/// Messages written one after the other are read one at a time, complete and
/// in order.
pub proof fn messages_read_back_in_order(bodies: Seq<Seq<u8>>)
    requires
        forall|i: int| 0 <= i < bodies.len() ==> (#[trigger] bodies[i]).len() <= MAX_FRAME_BYTES,
    ensures
        messages(frames(bodies)) == bodies,
    decreases bodies.len(),
{
    if bodies.len() == 0 {
        assert(messages(frames(bodies)) =~= bodies);
    } else {
        let body = bodies[0];
        let rest = frames(bodies.skip(1));
        let s = frames(bodies);
        a_frame_reads_back(body, rest);
        be_bytes_len(body.len(), 4);
        assert(s.skip(4 + body.len() as int) =~= rest);
        assert forall|i: int| 0 <= i < bodies.skip(1).len() implies (#[trigger] bodies.skip(
            1,
        )[i]).len() <= MAX_FRAME_BYTES by {
            assert(bodies.skip(1)[i] == bodies[i + 1]);
        }
        messages_read_back_in_order(bodies.skip(1));
        assert(messages(s) =~= bodies);
    }
}

/// No part of a frame is taken for a whole one: a stream cut anywhere inside a
/// frame gives no message.
pub proof fn a_cut_frame_gives_no_message(body: Seq<u8>, at: int)
    requires
        body.len() <= MAX_FRAME_BYTES,
        0 <= at < frame_of(body).len(),
    ensures
        progress(frame_of(body).take(at)) is Partial,
{
    let whole = frame_of(body);
    let cut = whole.take(at);
    be_bytes_len(body.len(), 4);
    if at >= 4 {
        assert(byte_span(4) == 0x1_0000_0000) by {
            reveal_with_fuel(byte_span, 5);
        }
        be_round_trip(body.len(), 4);
        assert(cut.take(4) =~= be_bytes(body.len(), 4));
    }
}

} // verus!
