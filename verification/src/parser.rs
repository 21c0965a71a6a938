//! Streaming frame assembler: a byte-at-a-time state machine that collects
//! 25-byte frames out of an undelimited stream, validates each completed
//! frame and hands it out parsed or raw.

use vstd::prelude::*;

use crate::codec::parsed_packet;
use crate::codec::RawSbusPacket;
use crate::codec::SbusPacket;
use crate::codec::SBUS_FLAG_BYTE_MASK;
use crate::codec::SBUS_HEADER;
use crate::codec::SBUS_PACKET_SIZE;

verus! {

/// Why a completed frame was rejected; carries the offending byte.
#[derive(Debug, PartialEq, Eq)]
pub enum SbusParserError {
    InvalidFooter(u8),
    InvalidFlags(u8),
}

/// Assembler state: waiting for a header byte, or `Reading(n)` with `n`
/// bytes of the current frame already placed in the scratch buffer.
#[derive(Debug, Ord, PartialOrd, Eq, PartialEq, Copy, Clone)]
pub enum State {
    AwaitingHead,
    Reading(usize),
}

impl Default for State {
    fn default() -> (r: Self)
        ensures
            r == State::AwaitingHead,
    {
        State::AwaitingHead
    }
}

/// Whether `b` is one of the five accepted footer byte values: end of frame,
/// or one of the four telemetry-slot markers.
pub open spec fn spec_is_footer(b: u8) -> bool {
    b == 0x00 || b == 0x04 || b == 0x14 || b == 0x24 || b == 0x34
}

fn is_sbus_footer(byte: u8) -> (r: bool)
    ensures
        r == spec_is_footer(byte),
{
    match byte {
        0x00 => true,  // SBUS packet end
        0x04 => true,  // SBUS telemetry slot 0 to slot 7
        0x14 => true,  // SBUS telemetry slot 8 to slot 15
        0x24 => true,  // SBUS telemetry slot 16 to slot 23
        0x34 => true,  // SBUS telemetry slot 24 to slot 31
        _ => false,
    }
}

/// The verdict on a completed frame `f`: the footer byte must be one of the
/// accepted values, and only then the high nibble of the flag byte must be
/// zero, so a frame with both defects reports only the footer.
pub open spec fn spec_validate(f: Seq<u8>) -> Result<(), SbusParserError>
    recommends
        f.len() == SBUS_PACKET_SIZE,
{
    if !spec_is_footer(f[24]) {
        Err(SbusParserError::InvalidFooter(f[24]))
    } else if f[23] & 0xF0 != 0 {
        Err(SbusParserError::InvalidFlags(f[23]))
    } else {
        Ok(())
    }
}

/// The assembler state after one input byte: a header byte starts a read,
/// any other byte in `AwaitingHead` is discarded, and the 25th byte of a
/// frame returns the machine to `AwaitingHead`.
pub open spec fn next_state(s: State, b: u8) -> State {
    match s {
        State::AwaitingHead => if b == SBUS_HEADER {
            State::Reading(1)
        } else {
            State::AwaitingHead
        },
        State::Reading(n) => if n < 24 {
            State::Reading((n + 1) as usize)
        } else {
            State::AwaitingHead
        },
    }
}

/// The scratch buffer after one input byte.
pub open spec fn next_buffer(s: State, buf: Seq<u8>, b: u8) -> Seq<u8> {
    match s {
        State::AwaitingHead => if b == SBUS_HEADER {
            buf.update(0, b)
        } else {
            buf
        },
        State::Reading(n) => buf.update(n as int, b),
    }
}

/// Whether the next input byte completes a frame and produces an output.
pub open spec fn emits_on(s: State) -> bool {
    s matches State::Reading(n) && n == 24
}

/// `r` is the raw outcome the assembler owes for the completed frame `f`:
/// the frame itself when it validates, the validation error otherwise.
pub open spec fn raw_frame_result(f: Seq<u8>, r: Result<RawSbusPacket, SbusParserError>) -> bool {
    match spec_validate(f) {
        Ok(()) => r matches Ok(p) && p@ == f,
        Err(e) => r == Err::<RawSbusPacket, SbusParserError>(e),
    }
}

/// `r` is the parsed outcome the assembler owes for the completed frame `f`:
/// the decoded packet when the frame validates, the validation error
/// otherwise.
pub open spec fn packet_frame_result(f: Seq<u8>, r: Result<SbusPacket, SbusParserError>) -> bool {
    match spec_validate(f) {
        Ok(()) => r matches Ok(p) && parsed_packet(f, p),
        Err(e) => r == Err::<SbusPacket, SbusParserError>(e),
    }
}

/// The assembler state after feeding every byte of `bytes` in order.
pub open spec fn run_state(s: State, bytes: Seq<u8>) -> State
    decreases bytes.len(),
{
    if bytes.len() == 0 {
        s
    } else {
        run_state(next_state(s, bytes[0]), bytes.drop_first())
    }
}

/// The scratch buffer after feeding every byte of `bytes` in order.
pub open spec fn run_buffer(s: State, buf: Seq<u8>, bytes: Seq<u8>) -> Seq<u8>
    decreases bytes.len(),
{
    if bytes.len() == 0 {
        buf
    } else {
        run_buffer(next_state(s, bytes[0]), next_buffer(s, buf, bytes[0]), bytes.drop_first())
    }
}

/// The complete frames emitted while feeding every byte of `bytes` in
/// order, as 25-byte sequences, oldest first.
pub open spec fn stream_frames(s: State, buf: Seq<u8>, bytes: Seq<u8>) -> Seq<Seq<u8>>
    decreases bytes.len(),
{
    if bytes.len() == 0 {
        Seq::empty()
    } else {
        let rest = stream_frames(
            next_state(s, bytes[0]),
            next_buffer(s, buf, bytes[0]),
            bytes.drop_first(),
        );
        if emits_on(s) {
            seq![next_buffer(s, buf, bytes[0])] + rest
        } else {
            rest
        }
    }
}

/// Feeding a single byte is one step of the stream model.
pub proof fn lemma_run_single(s: State, buf: Seq<u8>, b: u8)
    ensures
        run_state(s, seq![b]) == next_state(s, b),
        run_buffer(s, buf, seq![b]) == next_buffer(s, buf, b),
        stream_frames(s, buf, seq![b]) == if emits_on(s) {
            seq![next_buffer(s, buf, b)]
        } else {
            Seq::<Seq<u8>>::empty()
        },
{
    let bs = seq![b];
    assert(bs.len() == 1);
    assert(bs[0] == b);
    assert(bs.drop_first() =~= Seq::<u8>::empty());
    assert(run_state(next_state(s, b), bs.drop_first()) == next_state(s, b));
    assert(run_buffer(next_state(s, b), next_buffer(s, buf, b), bs.drop_first()) == next_buffer(
        s,
        buf,
        b,
    ));
    assert(stream_frames(next_state(s, b), next_buffer(s, buf, b), bs.drop_first())
        =~= Seq::<Seq<u8>>::empty());
    if emits_on(s) {
        assert(stream_frames(s, buf, bs) =~= seq![next_buffer(s, buf, b)]);
    }
}

/// Feeding a stream in two chunks reaches the same state and buffer and
/// emits the same frames, in the same order, as feeding it whole: the
/// assembler may be fed byte by byte, slice by slice, or all at once.
pub proof fn lemma_run_append(s: State, buf: Seq<u8>, a: Seq<u8>, b: Seq<u8>)
    ensures
        run_state(s, a + b) == run_state(run_state(s, a), b),
        run_buffer(s, buf, a + b) == run_buffer(run_state(s, a), run_buffer(s, buf, a), b),
        stream_frames(s, buf, a + b) == stream_frames(s, buf, a) + stream_frames(
            run_state(s, a),
            run_buffer(s, buf, a),
            b,
        ),
    decreases a.len(),
{
    if a.len() == 0 {
        assert(a + b =~= b);
        assert(stream_frames(s, buf, a) + stream_frames(
            run_state(s, a),
            run_buffer(s, buf, a),
            b,
        ) =~= stream_frames(s, buf, b));
    } else {
        let s1 = next_state(s, a[0]);
        let buf1 = next_buffer(s, buf, a[0]);
        assert((a + b)[0] == a[0]);
        assert((a + b).drop_first() =~= a.drop_first() + b);
        lemma_run_append(s1, buf1, a.drop_first(), b);
        if emits_on(s) {
            assert(stream_frames(s, buf, a + b) =~= stream_frames(s, buf, a) + stream_frames(
                run_state(s, a),
                run_buffer(s, buf, a),
                b,
            ));
        }
    }
}

/// A completed frame owes exactly one parsed outcome: two results that both
/// match one frame are equal.
proof fn lemma_packet_result_deterministic(
    f: Seq<u8>,
    r1: Result<SbusPacket, SbusParserError>,
    r2: Result<SbusPacket, SbusParserError>,
)
    requires
        packet_frame_result(f, r1),
        packet_frame_result(f, r2),
    ensures
        r1 == r2,
{
    match (r1, r2) {
        (Ok(p1), Ok(p2)) => {
            crate::codec::lemma_parse_deterministic(f, p1, p2);
        },
        _ => {},
    }
}

/// A completed frame owes exactly one raw outcome: two results that both
/// match one frame are equal.
proof fn lemma_raw_result_deterministic(
    f: Seq<u8>,
    r1: Result<RawSbusPacket, SbusParserError>,
    r2: Result<RawSbusPacket, SbusParserError>,
)
    requires
        raw_frame_result(f, r1),
        raw_frame_result(f, r2),
    ensures
        r1 == r2,
{
    match (r1, r2) {
        (Ok(p1), Ok(p2)) => {
            crate::codec::lemma_raw_view_injective(p1, p2);
        },
        _ => {},
    }
}

/// Chunking does not matter for parsed results: any two result sequences
/// that both match, frame for frame, the frames completed over one byte
/// stream are identical. `push_byte` and `iter_packets` each pin their
/// outputs against `stream_frames`, so feeding a stream byte by byte through
/// the assembler and feeding it as one slice through the adapter yield the
/// same results in the same order.
pub proof fn lemma_stream_results_agree(
    s: State,
    buf: Seq<u8>,
    bytes: Seq<u8>,
    rs1: Seq<Result<SbusPacket, SbusParserError>>,
    rs2: Seq<Result<SbusPacket, SbusParserError>>,
)
    requires
        rs1.len() == stream_frames(s, buf, bytes).len(),
        rs2.len() == stream_frames(s, buf, bytes).len(),
        forall|k: int|
            0 <= k < rs1.len() ==> packet_frame_result(
                stream_frames(s, buf, bytes)[k],
                #[trigger] rs1[k],
            ),
        forall|k: int|
            0 <= k < rs2.len() ==> packet_frame_result(
                stream_frames(s, buf, bytes)[k],
                #[trigger] rs2[k],
            ),
    ensures
        rs1 == rs2,
{
    assert forall|k: int| 0 <= k < rs1.len() implies rs1[k] == rs2[k] by {
        lemma_packet_result_deterministic(stream_frames(s, buf, bytes)[k], rs1[k], rs2[k]);
    }
    assert(rs1 =~= rs2);
}

/// As `lemma_stream_results_agree`, for the raw outcomes of `push_byte_raw`
/// and `iter_packets_raw`.
pub proof fn lemma_raw_stream_results_agree(
    s: State,
    buf: Seq<u8>,
    bytes: Seq<u8>,
    rs1: Seq<Result<RawSbusPacket, SbusParserError>>,
    rs2: Seq<Result<RawSbusPacket, SbusParserError>>,
)
    requires
        rs1.len() == stream_frames(s, buf, bytes).len(),
        rs2.len() == stream_frames(s, buf, bytes).len(),
        forall|k: int|
            0 <= k < rs1.len() ==> raw_frame_result(
                stream_frames(s, buf, bytes)[k],
                #[trigger] rs1[k],
            ),
        forall|k: int|
            0 <= k < rs2.len() ==> raw_frame_result(
                stream_frames(s, buf, bytes)[k],
                #[trigger] rs2[k],
            ),
    ensures
        rs1 == rs2,
{
    assert forall|k: int| 0 <= k < rs1.len() implies rs1[k] == rs2[k] by {
        lemma_raw_result_deterministic(stream_frames(s, buf, bytes)[k], rs1[k], rs2[k]);
    }
    assert(rs1 =~= rs2);
}

/// Resynchronization step: while awaiting a header, a header byte always
/// starts a new read, whatever came before; any other byte changes nothing.
pub proof fn lemma_awaiting_head_step(buf: Seq<u8>, b: u8)
    ensures
        b == SBUS_HEADER ==> next_state(State::AwaitingHead, b) == State::Reading(1),
        b != SBUS_HEADER ==> next_state(State::AwaitingHead, b) == State::AwaitingHead
            && next_buffer(State::AwaitingHead, buf, b) == buf,
        !emits_on(State::AwaitingHead),
{
}

/// From `Reading(n)`, the `25 - n` bytes still owed finish exactly one
/// frame: the scratch buffer keeps its first `n` bytes, takes the incoming
/// bytes at the positions from `n` on, is emitted as the one completed
/// frame, and the machine returns to `AwaitingHead`.
proof fn lemma_reading_completes(buf: Seq<u8>, rest: Seq<u8>, n: usize)
    requires
        buf.len() == SBUS_PACKET_SIZE,
        1 <= n <= 24,
        rest.len() == SBUS_PACKET_SIZE - n,
    ensures
        run_state(State::Reading(n), rest) == State::AwaitingHead,
        run_buffer(State::Reading(n), buf, rest).len() == SBUS_PACKET_SIZE,
        forall|i: int|
            0 <= i < SBUS_PACKET_SIZE ==> run_buffer(State::Reading(n), buf, rest)[i] == if i < n {
                buf[i]
            } else {
                rest[i - n]
            },
        stream_frames(State::Reading(n), buf, rest) == seq![
            run_buffer(State::Reading(n), buf, rest),
        ],
    decreases rest.len(),
{
    let b = rest[0];
    let s = State::Reading(n);
    let buf1 = next_buffer(s, buf, b);
    if n == 24 {
        lemma_run_single(s, buf, b);
        assert(rest =~= seq![b]);
    } else {
        lemma_reading_completes(buf1, rest.drop_first(), (n + 1) as usize);
    }
}

/// Reset, then a fresh frame: from `AwaitingHead` — the state `reset`
/// forces — feeding any 25 bytes that begin with the header byte completes
/// exactly one frame, and the emitted frame is those 25 bytes themselves:
/// nothing of a discarded partial read survives in it.
pub proof fn lemma_fresh_frame_after_reset(buf: Seq<u8>, f: Seq<u8>)
    requires
        buf.len() == SBUS_PACKET_SIZE,
        f.len() == SBUS_PACKET_SIZE,
        f[0] == SBUS_HEADER,
    ensures
        run_state(State::AwaitingHead, f) == State::AwaitingHead,
        stream_frames(State::AwaitingHead, buf, f) == seq![f],
{
    let buf1 = next_buffer(State::AwaitingHead, buf, f[0]);
    lemma_reading_completes(buf1, f.drop_first(), 1);
    let emitted = run_buffer(State::Reading(1), buf1, f.drop_first());
    assert(emitted =~= f);
    assert(run_state(State::AwaitingHead, f) == run_state(State::Reading(1), f.drop_first()));
    assert(stream_frames(State::AwaitingHead, buf, f) == stream_frames(
        State::Reading(1),
        buf1,
        f.drop_first(),
    ));
}

/// The streaming frame assembler. It consumes one byte at a time, keeps a
/// partially filled scratch buffer, and emits a result exactly when the 25th
/// byte of a frame arrives.
#[derive(Debug)]
pub struct SbusParser {
    pub buffer: [u8; SBUS_PACKET_SIZE],
    pub state: State,
}

impl SbusParser {
    /// The scratch buffer; bytes at positions already filled by the current
    /// read are meaningful, the rest are stale.
    pub open spec fn buf(&self) -> Seq<u8> {
        self.buffer@
    }

    /// Well-formedness: a read in progress has filled between 1 and 24
    /// bytes.
    pub open spec fn wf(&self) -> bool {
        &&& self.buf().len() == SBUS_PACKET_SIZE
        &&& self.state matches State::Reading(n) ==> 1 <= n <= 24
    }

    /// A fresh assembler, awaiting a header byte over a zeroed buffer.
    pub fn new() -> (p: Self)
        ensures
            p.wf(),
            p.state == State::AwaitingHead,
            p.buf() == Seq::new(SBUS_PACKET_SIZE as nat, |i: int| 0u8),
    {
        let p = Self { buffer: [0; SBUS_PACKET_SIZE], state: State::AwaitingHead };
        proof {
            assert(p.buf() =~= Seq::new(SBUS_PACKET_SIZE as nat, |i: int| 0u8));
        }
        p
    }

    /// Forces the assembler back to `AwaitingHead`, discarding any read in
    /// progress; the buffer is left as it is and nothing is emitted. This is
    /// the caller's resynchronization handle, e.g. after an inter-byte
    /// timeout.
    pub fn reset(&mut self)
        ensures
            final(self).state == State::AwaitingHead,
            final(self).buf() == old(self).buf(),
            final(self).wf(),
    {
        self.state = State::AwaitingHead;
    }

    /// Checks the two frame-integrity invariants on the scratch buffer:
    /// footer byte in the accepted set, then flag-byte high nibble zero.
    pub fn validate_frame(&self) -> (r: Result<(), SbusParserError>)
        requires
            self.wf(),
        ensures
            r == spec_validate(self.buf()),
    {
        let footer = self.buffer[SBUS_PACKET_SIZE - 1];
        let flags = self.buffer[SBUS_PACKET_SIZE - 2];

        if !is_sbus_footer(footer) {
            Err(SbusParserError::InvalidFooter(footer))
        } else if flags & SBUS_FLAG_BYTE_MASK != 0 {
            Err(SbusParserError::InvalidFlags(flags))
        } else {
            Ok(())
        }
    }

    /// The outcome for the completed frame in the scratch buffer: the raw
    /// frame if it validates, the validation error otherwise.
    fn try_parse(&self) -> (r: Result<RawSbusPacket, SbusParserError>)
        requires
            self.wf(),
        ensures
            raw_frame_result(self.buf(), r),
    {
        match self.validate_frame() {
            Ok(()) => Ok(RawSbusPacket::new(&self.buffer)),
            Err(e) => Err(e),
        }
    }

    /// Feeds one byte; emits the raw outcome of a frame exactly when this
    /// byte is the frame's 25th. A header byte seen in `AwaitingHead` starts
    /// a new read; any other byte there is discarded, which is how the
    /// assembler resynchronizes after noise.
    pub fn push_byte_raw(&mut self, byte: u8) -> (r: Option<
        Result<RawSbusPacket, SbusParserError>,
    >)
        requires
            old(self).wf(),
        ensures
            final(self).wf(),
            final(self).state == next_state(old(self).state, byte),
            final(self).buf() == next_buffer(old(self).state, old(self).buf(), byte),
            (r is Some) == emits_on(old(self).state),
            emits_on(old(self).state) ==> (r matches Some(res) && raw_frame_result(
                next_buffer(old(self).state, old(self).buf(), byte),
                res,
            )),
    {
        match self.state {
            State::AwaitingHead => {
                if byte == SBUS_HEADER {
                    self.buffer[0] = byte;
                    self.state = State::Reading(1);
                }
            },
            State::Reading(n) => {
                if n == SBUS_PACKET_SIZE - 1 {
                    self.buffer[n] = byte;
                    self.state = State::AwaitingHead;
                    return Some(self.try_parse());
                } else {
                    self.buffer[n] = byte;
                    self.state = State::Reading(n + 1);
                }
            },
        }
        None
    }

    /// Feeds every byte of `data` in order and returns the results of the
    /// frames completed along the way, oldest first, behind an iterator.
    /// The assembler keeps its state across calls, so a frame may straddle
    /// two slices.
    pub fn iter_packets(&mut self, data: &[u8]) -> (it: PacketIterator)
        requires
            old(self).wf(),
        ensures
            final(self).wf(),
            final(self).state == run_state(old(self).state, data@),
            final(self).buf() == run_buffer(old(self).state, old(self).buf(), data@),
            it.pending().len() == stream_frames(old(self).state, old(self).buf(), data@).len(),
            forall|k: int|
                0 <= k < it.pending().len() ==> packet_frame_result(
                    stream_frames(old(self).state, old(self).buf(), data@)[k],
                    #[trigger] it.pending()[k],
                ),
    {
        let ghost s0 = self.state;
        let ghost b0 = self.buf();
        let mut results: Vec<Result<SbusPacket, SbusParserError>> = Vec::new();
        let mut i: usize = 0;
        while i < data.len()
            invariant
                old(self).wf(),
                self.wf(),
                i <= data@.len(),
                s0 == old(self).state,
                b0 == old(self).buf(),
                self.state == run_state(s0, data@.take(i as int)),
                self.buf() == run_buffer(s0, b0, data@.take(i as int)),
                results@.len() == stream_frames(s0, b0, data@.take(i as int)).len(),
                forall|k: int|
                    0 <= k < results@.len() ==> packet_frame_result(
                        stream_frames(s0, b0, data@.take(i as int))[k],
                        #[trigger] results@[k],
                    ),
            decreases data@.len() - i,
        {
            let b = data[i];
            proof {
                assert(data@.take(i + 1) =~= data@.take(i as int) + seq![b]);
                lemma_run_append(s0, b0, data@.take(i as int), seq![b]);
                lemma_run_single(self.state, self.buf(), b);
            }
            match self.push_byte(b) {
                Some(r) => results.push(r),
                None => {},
            }
            i += 1;
        }
        proof {
            assert(data@.take(data@.len() as int) =~= data@);
        }
        PacketIterator::from_results(results)
    }

    /// As `iter_packets`, but each completed frame is handed out raw (or as
    /// its validation error).
    pub fn iter_packets_raw(&mut self, data: &[u8]) -> (it: RawPacketIterator)
        requires
            old(self).wf(),
        ensures
            final(self).wf(),
            final(self).state == run_state(old(self).state, data@),
            final(self).buf() == run_buffer(old(self).state, old(self).buf(), data@),
            it.pending().len() == stream_frames(old(self).state, old(self).buf(), data@).len(),
            forall|k: int|
                0 <= k < it.pending().len() ==> raw_frame_result(
                    stream_frames(old(self).state, old(self).buf(), data@)[k],
                    #[trigger] it.pending()[k],
                ),
    {
        let ghost s0 = self.state;
        let ghost b0 = self.buf();
        let mut results: Vec<Result<RawSbusPacket, SbusParserError>> = Vec::new();
        let mut i: usize = 0;
        while i < data.len()
            invariant
                old(self).wf(),
                self.wf(),
                i <= data@.len(),
                s0 == old(self).state,
                b0 == old(self).buf(),
                self.state == run_state(s0, data@.take(i as int)),
                self.buf() == run_buffer(s0, b0, data@.take(i as int)),
                results@.len() == stream_frames(s0, b0, data@.take(i as int)).len(),
                forall|k: int|
                    0 <= k < results@.len() ==> raw_frame_result(
                        stream_frames(s0, b0, data@.take(i as int))[k],
                        #[trigger] results@[k],
                    ),
            decreases data@.len() - i,
        {
            let b = data[i];
            proof {
                assert(data@.take(i + 1) =~= data@.take(i as int) + seq![b]);
                lemma_run_append(s0, b0, data@.take(i as int), seq![b]);
                lemma_run_single(self.state, self.buf(), b);
            }
            match self.push_byte_raw(b) {
                Some(r) => results.push(r),
                None => {},
            }
            i += 1;
        }
        proof {
            assert(data@.take(data@.len() as int) =~= data@);
        }
        RawPacketIterator::from_results(results)
    }

    /// As `push_byte_raw`, but a validated frame is emitted decoded.
    pub fn push_byte(&mut self, byte: u8) -> (r: Option<Result<SbusPacket, SbusParserError>>)
        requires
            old(self).wf(),
        ensures
            final(self).wf(),
            final(self).state == next_state(old(self).state, byte),
            final(self).buf() == next_buffer(old(self).state, old(self).buf(), byte),
            (r is Some) == emits_on(old(self).state),
            emits_on(old(self).state) ==> (r matches Some(res) && packet_frame_result(
                next_buffer(old(self).state, old(self).buf(), byte),
                res,
            )),
    {
        match self.push_byte_raw(byte) {
            None => None,
            Some(Ok(raw)) => Some(Ok(SbusPacket::parse(&raw))),
            Some(Err(e)) => Some(Err(e)),
        }
    }
}

impl Default for SbusParser {
    fn default() -> (p: Self)
        ensures
            p.wf(),
            p.state == State::AwaitingHead,
            p.buf() == Seq::new(SBUS_PACKET_SIZE as nat, |i: int| 0u8),
    {
        Self::new()
    }
}

/// The parsed results of the frames completed during one `iter_packets`
/// call, in stream order, handed out one at a time.
pub struct PacketIterator {
    rev_results: Vec<Result<SbusPacket, SbusParserError>>,
}

impl PacketIterator {
    /// The results not yet handed out, oldest first.
    pub closed spec fn pending(&self) -> Seq<Result<SbusPacket, SbusParserError>> {
        self.rev_results@.reverse()
    }

    /// Packs results collected in stream order for oldest-first hand-out.
    fn from_results(results: Vec<Result<SbusPacket, SbusParserError>>) -> (it: Self)
        ensures
            it.pending() == results@,
    {
        let ghost full = results@;
        let mut fwd = results;
        let mut rev: Vec<Result<SbusPacket, SbusParserError>> = Vec::new();
        proof {
            assert(fwd@ =~= full.take(fwd@.len() as int));
            assert(rev@.reverse() =~= full.skip(fwd@.len() as int));
        }
        while fwd.len() > 0
            invariant
                fwd@.len() <= full.len(),
                fwd@ == full.take(fwd@.len() as int),
                rev@.reverse() =~= full.skip(fwd@.len() as int),
            decreases fwd@.len(),
        {
            let ghost m = fwd@.len() as int;
            let ghost rev0 = rev@;
            let x = fwd.pop().unwrap();
            rev.push(x);
            proof {
                assert(fwd@ =~= full.take(m - 1));
                let lr = rev@.len() as int;
                assert(rev@ == rev0.push(x));
                assert(rev0.reverse().len() == rev0.len());
                assert(rev0.len() == full.len() - m);
                assert(full.skip(m - 1).len() == full.len() - m + 1);
                assert forall|i: int| 0 <= i < lr implies rev@.reverse()[i] == full.skip(m - 1)[i] by {
                    assert(rev@.reverse()[i] == rev@[lr - 1 - i]);
                    if i == 0 {
                        assert(rev@[lr - 1] == x);
                        assert(x == full[m - 1]);
                    } else {
                        assert(rev@[lr - 1 - i] == rev0[lr - 1 - i]);
                        assert(rev0.reverse()[i - 1] == rev0[(lr - 2) - (i - 1)]);
                        assert(rev0.reverse()[i - 1] == full.skip(m)[i - 1]);
                        assert(full.skip(m)[i - 1] == full[m + i - 1]);
                        assert(full.skip(m - 1)[i] == full[m - 1 + i]);
                    }
                }
                assert(rev@.reverse() =~= full.skip(m - 1));
            }
        }
        proof {
            assert(full.skip(0) =~= full);
        }
        PacketIterator { rev_results: rev }
    }

    /// Hands out the next pending result, oldest first, or `None` when all
    /// results of the originating call have been handed out.
    pub fn next(&mut self) -> (r: Option<Result<SbusPacket, SbusParserError>>)
        ensures
            old(self).pending().len() == 0 ==> r is None && final(self).pending() == old(
                self,
            ).pending(),
            old(self).pending().len() > 0 ==> (r matches Some(res) && res == old(self).pending()[0]
                && final(self).pending() == old(self).pending().drop_first()),
    {
        let r = self.rev_results.pop();
        proof {
            if old(self).pending().len() > 0 {
                assert(self.rev_results@.reverse() =~= old(self).pending().drop_first());
            } else {
                assert(self.rev_results@.reverse() =~= old(self).pending());
            }
        }
        r
    }
}

/// The raw results of the frames completed during one `iter_packets_raw`
/// call, in stream order, handed out one at a time.
pub struct RawPacketIterator {
    rev_results: Vec<Result<RawSbusPacket, SbusParserError>>,
}

impl RawPacketIterator {
    /// The results not yet handed out, oldest first.
    pub closed spec fn pending(&self) -> Seq<Result<RawSbusPacket, SbusParserError>> {
        self.rev_results@.reverse()
    }

    /// Packs results collected in stream order for oldest-first hand-out.
    fn from_results(results: Vec<Result<RawSbusPacket, SbusParserError>>) -> (it: Self)
        ensures
            it.pending() == results@,
    {
        let ghost full = results@;
        let mut fwd = results;
        let mut rev: Vec<Result<RawSbusPacket, SbusParserError>> = Vec::new();
        proof {
            assert(fwd@ =~= full.take(fwd@.len() as int));
            assert(rev@.reverse() =~= full.skip(fwd@.len() as int));
        }
        while fwd.len() > 0
            invariant
                fwd@.len() <= full.len(),
                fwd@ == full.take(fwd@.len() as int),
                rev@.reverse() =~= full.skip(fwd@.len() as int),
            decreases fwd@.len(),
        {
            let ghost m = fwd@.len() as int;
            let ghost rev0 = rev@;
            let x = fwd.pop().unwrap();
            rev.push(x);
            proof {
                assert(fwd@ =~= full.take(m - 1));
                let lr = rev@.len() as int;
                assert(rev@ == rev0.push(x));
                assert(rev0.reverse().len() == rev0.len());
                assert(rev0.len() == full.len() - m);
                assert(full.skip(m - 1).len() == full.len() - m + 1);
                assert forall|i: int| 0 <= i < lr implies rev@.reverse()[i] == full.skip(m - 1)[i] by {
                    assert(rev@.reverse()[i] == rev@[lr - 1 - i]);
                    if i == 0 {
                        assert(rev@[lr - 1] == x);
                        assert(x == full[m - 1]);
                    } else {
                        assert(rev@[lr - 1 - i] == rev0[lr - 1 - i]);
                        assert(rev0.reverse()[i - 1] == rev0[(lr - 2) - (i - 1)]);
                        assert(rev0.reverse()[i - 1] == full.skip(m)[i - 1]);
                        assert(full.skip(m)[i - 1] == full[m + i - 1]);
                        assert(full.skip(m - 1)[i] == full[m - 1 + i]);
                    }
                }
                assert(rev@.reverse() =~= full.skip(m - 1));
            }
        }
        proof {
            assert(full.skip(0) =~= full);
        }
        RawPacketIterator { rev_results: rev }
    }

    /// Hands out the next pending result, oldest first, or `None` when all
    /// results of the originating call have been handed out.
    pub fn next(&mut self) -> (r: Option<Result<RawSbusPacket, SbusParserError>>)
        ensures
            old(self).pending().len() == 0 ==> r is None && final(self).pending() == old(
                self,
            ).pending(),
            old(self).pending().len() > 0 ==> (r matches Some(res) && res == old(self).pending()[0]
                && final(self).pending() == old(self).pending().drop_first()),
    {
        let r = self.rev_results.pop();
        proof {
            if old(self).pending().len() > 0 {
                assert(self.rev_results@.reverse() =~= old(self).pending().drop_first());
            } else {
                assert(self.rev_results@.reverse() =~= old(self).pending());
            }
        }
        r
    }
}

} // verus!
