//! Wire framing: a 5-byte header (magic byte, big-endian `u32` length)
//! followed by the payload. Bytes that arrive in pieces are kept in a
//! per-connection buffer until a whole frame is there.
use vstd::prelude::*;

verus! {

/// The sentinel that opens every frame header.
pub const MAGIC: u8 = 97u8;

/// Payloads must be strictly shorter than this.
pub const MAX_DATA_SIZE: u32 = 16000;

/// Size of the frame header: magic byte and four length bytes.
pub const HEADER_LEN: usize = 5;

#[derive(Debug)]
pub enum InvalidHeaderReason {
    BadMagic(u8),
    TooLongPDU(usize),
}

#[derive(Debug)]
pub enum PDUReadOk {
    ReadPDU(Vec<u8>),
    NoPDU,
}

/// Framing failures; each one ends the connection.
#[derive(Debug)]
pub enum PDUReadErr {
    InvalidHeaderForPDU(InvalidHeaderReason),
    GotEOF,
    HeaderIoError,
    DataIoError,
}

/// What one non-blocking read attempt on the transport gave.
#[derive(Debug)]
pub enum ReadOutcome {
    /// Some bytes arrived (possibly fewer than a frame, possibly several frames).
    Received(Vec<u8>),
    /// Nothing to read right now.
    WouldBlock,
    /// The peer closed its side.
    EndOfStream,
    /// The transport reported an error.
    Failed,
}

/// The abstract result of one framing attempt.
pub enum ReadStep {
    Frame(Seq<u8>),
    NoFrame,
    BadMagic(u8),
    TooLong(nat),
    EndOfStream,
    HeaderIo,
    DataIo,
}

/// The length field of a header: bytes 1 to 4, big-endian.
pub open spec fn be_length(buf: Seq<u8>) -> nat
    recommends
        buf.len() >= 5,
{
    (buf[1] as nat) * 16777216 + (buf[2] as nat) * 65536 + (buf[3] as nat) * 256 + (buf[4] as nat)
}

/// What the bytes received so far yield, independent of how they arrived.
pub open spec fn frame_step(buf: Seq<u8>) -> ReadStep {
    if buf.len() == 0 {
        ReadStep::NoFrame
    } else if buf[0] != MAGIC {
        ReadStep::BadMagic(buf[0])
    } else if buf.len() < 5 {
        ReadStep::NoFrame
    } else if be_length(buf) >= MAX_DATA_SIZE {
        ReadStep::TooLong(be_length(buf))
    } else if buf.len() < 5 + be_length(buf) {
        ReadStep::NoFrame
    } else {
        ReadStep::Frame(buf.subrange(5, 5 + be_length(buf) as int))
    }
}

/// The bytes that stay buffered after `frame_step`: everything after a
/// complete frame, or the whole buffer otherwise.
pub open spec fn frame_rest(buf: Seq<u8>) -> Seq<u8> {
    match frame_step(buf) {
        ReadStep::Frame(p) => buf.skip(5 + p.len() as int),
        _ => buf,
    }
}

/// The wire form of a payload: header, then the payload bytes.
pub open spec fn encode_frame(payload: Seq<u8>) -> Seq<u8>
    recommends
        payload.len() < 0x1_0000_0000,
{
    let n = payload.len();
    seq![
        MAGIC,
        (n / 16777216) as u8,
        ((n / 65536) % 256) as u8,
        ((n / 256) % 256) as u8,
        (n % 256) as u8,
    ] + payload
}

/// The bytes that a read outcome adds to the buffer.
pub open spec fn received(input: ReadOutcome) -> Seq<u8> {
    match input {
        ReadOutcome::Received(b) => b@,
        _ => Seq::empty(),
    }
}

/// What `maybe_get_pdu` reports for a buffer (after the read's bytes were
/// added) and the kind of read outcome.
pub open spec fn expected_read(buf: Seq<u8>, input: ReadOutcome) -> ReadStep {
    match input {
        ReadOutcome::Failed => if buf.len() < 5 {
            ReadStep::HeaderIo
        } else {
            ReadStep::DataIo
        },
        ReadOutcome::EndOfStream => match frame_step(buf) {
            ReadStep::NoFrame => ReadStep::EndOfStream,
            s => s,
        },
        _ => frame_step(buf),
    }
}

/// The abstract view of a framing result.
pub open spec fn read_view(r: Result<PDUReadOk, PDUReadErr>) -> ReadStep {
    match r {
        Ok(PDUReadOk::ReadPDU(v)) => ReadStep::Frame(v@),
        Ok(PDUReadOk::NoPDU) => ReadStep::NoFrame,
        Err(PDUReadErr::InvalidHeaderForPDU(InvalidHeaderReason::BadMagic(b))) => ReadStep::BadMagic(b),
        Err(PDUReadErr::InvalidHeaderForPDU(InvalidHeaderReason::TooLongPDU(n))) => ReadStep::TooLong(
            n as nat,
        ),
        Err(PDUReadErr::GotEOF) => ReadStep::EndOfStream,
        Err(PDUReadErr::HeaderIoError) => ReadStep::HeaderIo,
        Err(PDUReadErr::DataIoError) => ReadStep::DataIo,
    }
}

/// Per-connection framing state: the bytes received and not yet handed out
/// as a frame. Nothing read is ever dropped while a frame is incomplete.
pub struct FrameReader {
    pending: Vec<u8>,
}

impl View for FrameReader {
    type V = Seq<u8>;

    closed spec fn view(&self) -> Seq<u8> {
        self.pending@
    }
}

impl FrameReader {
    pub fn new() -> (r: FrameReader)
        ensures
            r@ == Seq::<u8>::empty(),
    {
        FrameReader { pending: Vec::new() }
    }

    /// Number of buffered bytes.
    pub fn buffered(&self) -> (r: usize)
        ensures
            r == self@.len(),
    {
        self.pending.len()
    }

    /// Hands out the next complete frame from the buffer, if there is one,
    /// or reports the header's fault. Leaves the buffer as it is unless a
    /// frame was taken.
    fn take_frame(&mut self) -> (r: Result<PDUReadOk, PDUReadErr>)
        ensures
            read_view(r) == frame_step(old(self)@),
            final(self)@ == frame_rest(old(self)@),
    {
        let n = self.pending.len();
        if n == 0 {
            return Ok(PDUReadOk::NoPDU);
        }
        let magic = self.pending[0];
        if magic != MAGIC {
            return Err(PDUReadErr::InvalidHeaderForPDU(InvalidHeaderReason::BadMagic(magic)));
        }
        if n < HEADER_LEN {
            return Ok(PDUReadOk::NoPDU);
        }
        let len: u32 = (self.pending[1] as u32) * 16777216 + (self.pending[2] as u32) * 65536
            + (self.pending[3] as u32) * 256 + (self.pending[4] as u32);
        assert(len as nat == be_length(self@));
        if len >= MAX_DATA_SIZE {
            return Err(PDUReadErr::InvalidHeaderForPDU(InvalidHeaderReason::TooLongPDU(len as usize)));
        }
        let end: usize = HEADER_LEN + len as usize;
        if n < end {
            return Ok(PDUReadOk::NoPDU);
        }
        let rest = self.pending.split_off(end);
        let frame = self.pending.split_off(HEADER_LEN);
        self.pending = rest;
        assert(frame@ =~= old(self)@.subrange(5, 5 + be_length(old(self)@) as int));
        assert(self@ =~= old(self)@.skip(5 + frame@.len() as int));
        Ok(PDUReadOk::ReadPDU(frame))
    }
}

/// One framing attempt on a connection: adds what the read gave to the
/// connection's buffer, then hands out the next complete frame, reports
/// that none is complete yet, or reports a framing error. Would-block keeps
/// every buffered byte; end of stream with no complete frame is an error.
pub fn maybe_get_pdu(reader: &mut FrameReader, input: ReadOutcome) -> (r: Result<
    PDUReadOk,
    PDUReadErr,
>)
    requires
        old(reader)@.len() + received(input).len() <= usize::MAX,
    ensures
        read_view(r) == expected_read(old(reader)@ + received(input), input),
        final(reader)@ == (match input {
            ReadOutcome::Failed => old(reader)@,
            _ => frame_rest(old(reader)@ + received(input)),
        }),
{
    match input {
        ReadOutcome::Received(bytes) => {
            let mut bytes = bytes;
            reader.pending.append(&mut bytes);
            reader.take_frame()
        },
        ReadOutcome::WouldBlock => reader.take_frame(),
        ReadOutcome::EndOfStream => {
            let r = reader.take_frame();
            match r {
                Ok(PDUReadOk::NoPDU) => Err(PDUReadErr::GotEOF),
                other => other,
            }
        },
        ReadOutcome::Failed => {
            if reader.pending.len() < HEADER_LEN {
                Err(PDUReadErr::HeaderIoError)
            } else {
                Err(PDUReadErr::DataIoError)
            }
        },
    }
}

/// The wire form of a payload to send: header and payload, or `None` when
/// the payload is too long to be framed.
pub fn frame_pdu(payload: &Vec<u8>) -> (r: Option<Vec<u8>>)
    ensures
        payload@.len() < MAX_DATA_SIZE ==> (r matches Some(v) && v@ == encode_frame(payload@)),
        payload@.len() >= MAX_DATA_SIZE ==> r is None,
{
    let n = payload.len();
    if n >= MAX_DATA_SIZE as usize {
        return None;
    }
    let mut out: Vec<u8> = Vec::new();
    out.push(MAGIC);
    out.push(0u8);
    out.push(0u8);
    out.push((n / 256) as u8);
    out.push((n % 256) as u8);
    let ghost header = out@;
    proof {
        let m = n as int;
        assert(m / 16777216 == 0 && m / 65536 == 0 && (m / 256) % 256 == m / 256) by (
        nonlinear_arith)
            requires
                0 <= m < 16000,
        ;
        assert(header =~= encode_frame(payload@).subrange(0, 5));
    }
    let mut i: usize = 0;
    while i < n
        invariant
            n == payload@.len(),
            i <= n,
            out@ == header + payload@.subrange(0, i as int),
        decreases n - i,
    {
        out.push(payload[i]);
        i = i + 1;
        assert(out@ =~= header + payload@.subrange(0, i as int));
    }
    assert(out@ =~= encode_frame(payload@));
    Some(out)
}

/// All the bytes of a sequence of chunks, in order.
pub open spec fn flatten(chunks: Seq<Seq<u8>>) -> Seq<u8>
    decreases chunks.len(),
{
    if chunks.len() == 0 {
        Seq::empty()
    } else {
        chunks[0] + flatten(chunks.drop_first())
    }
}

/// The results of one framing attempt per chunk, starting from buffer `buf`.
/// An empty chunk stands for a read that would block.
pub open spec fn feed_all(buf: Seq<u8>, chunks: Seq<Seq<u8>>) -> Seq<ReadStep>
    decreases chunks.len(),
{
    if chunks.len() == 0 {
        Seq::empty()
    } else {
        let b = buf + chunks[0];
        seq![frame_step(b)] + feed_all(frame_rest(b), chunks.drop_first())
    }
}

/// The buffer left after feeding every chunk, starting from `buf`.
pub open spec fn feed_rest(buf: Seq<u8>, chunks: Seq<Seq<u8>>) -> Seq<u8>
    decreases chunks.len(),
{
    if chunks.len() == 0 {
        buf
    } else {
        feed_rest(frame_rest(buf + chunks[0]), chunks.drop_first())
    }
}

proof fn lemma_header_length(payload: Seq<u8>)
    requires
        payload.len() < MAX_DATA_SIZE,
    ensures
        encode_frame(payload).len() == 5 + payload.len(),
        encode_frame(payload)[0] == MAGIC,
        be_length(encode_frame(payload)) == payload.len(),
        encode_frame(payload).skip(5) == payload,
{
    let f = encode_frame(payload);
    let n = payload.len() as int;
    assert(n / 16777216 == 0) by (nonlinear_arith)
        requires
            0 <= n < 16000,
    ;
    assert(n / 65536 == 0) by (nonlinear_arith)
        requires
            0 <= n < 16000,
    ;
    assert(0 <= n / 256 < 256 && (n / 256) * 256 + n % 256 == n && 0 <= n % 256 < 256) by (
    nonlinear_arith)
        requires
            0 <= n < 16000,
    ;
    assert(f.skip(5) =~= payload);
}

/// A complete frame followed by any bytes yields exactly its payload, and
/// leaves the following bytes buffered, untouched.
pub proof fn lemma_frame_then_rest(payload: Seq<u8>, rest: Seq<u8>)
    requires
        payload.len() < MAX_DATA_SIZE,
    ensures
        frame_step(encode_frame(payload) + rest) == ReadStep::Frame(payload),
        frame_rest(encode_frame(payload) + rest) == rest,
{
    let f = encode_frame(payload);
    let b = f + rest;
    lemma_header_length(payload);
    assert(b.subrange(1, 5) == f.subrange(1, 5));
    assert(be_length(b) == be_length(f));
    assert(b.subrange(5, 5 + payload.len() as int) =~= payload);
    assert(b.skip(5 + payload.len() as int) =~= rest);
}

/// A header whose length field is at or above the bound is a framing error,
/// whatever bytes follow it; nothing is taken from the buffer.
pub proof fn lemma_oversized_rejected(header: Seq<u8>, rest: Seq<u8>)
    requires
        header.len() == 5,
        header[0] == MAGIC,
        be_length(header) >= MAX_DATA_SIZE,
    ensures
        frame_step(header + rest) == ReadStep::TooLong(be_length(header)),
        frame_rest(header + rest) == header + rest,
{
    let b = header + rest;
    assert(b[1] == header[1] && b[2] == header[2] && b[3] == header[3] && b[4] == header[4]);
}

/// A first byte other than the magic is a framing error, decided before any
/// length byte is looked at (even when fewer than five bytes are there).
pub proof fn lemma_bad_magic_rejected(buf: Seq<u8>)
    requires
        buf.len() >= 1,
        buf[0] != MAGIC,
    ensures
        frame_step(buf) == ReadStep::BadMagic(buf[0]),
        frame_rest(buf) == buf,
{
}

proof fn lemma_proper_prefix_incomplete(payload: Seq<u8>, p: Seq<u8>)
    requires
        payload.len() < MAX_DATA_SIZE,
        p.len() < encode_frame(payload).len(),
        p == encode_frame(payload).subrange(0, p.len() as int),
    ensures
        frame_step(p) == ReadStep::NoFrame,
        frame_rest(p) == p,
{
    let f = encode_frame(payload);
    lemma_header_length(payload);
    if p.len() > 0 {
        assert(p[0] == f[0]);
    }
    if p.len() >= 5 {
        assert(p[1] == f[1] && p[2] == f[2] && p[3] == f[3] && p[4] == f[4]);
        assert(be_length(p) == be_length(f));
    }
}

proof fn lemma_flatten_cons(chunks: Seq<Seq<u8>>)
    requires
        chunks.len() > 0,
    ensures
        flatten(chunks) == chunks[0] + flatten(chunks.drop_first()),
{
}

proof fn lemma_feed_nothing(chunks: Seq<Seq<u8>>)
    requires
        flatten(chunks).len() == 0,
    ensures
        feed_all(Seq::empty(), chunks).len() == chunks.len(),
        forall|j: int|
            0 <= j < chunks.len() ==> #[trigger] feed_all(Seq::empty(), chunks)[j]
                == ReadStep::NoFrame,
        feed_rest(Seq::empty(), chunks) == Seq::<u8>::empty(),
    decreases chunks.len(),
{
    if chunks.len() > 0 {
        let tail = chunks.drop_first();
        lemma_flatten_cons(chunks);
        let b = Seq::<u8>::empty() + chunks[0];
        assert(b =~= Seq::<u8>::empty());
        lemma_feed_nothing(tail);
        let outs = feed_all(Seq::empty(), chunks);
        assert(outs == seq![ReadStep::NoFrame] + feed_all(Seq::empty(), tail));
        assert forall|j: int| 0 <= j < chunks.len() implies #[trigger] outs[j]
            == ReadStep::NoFrame by {
            if j > 0 {
                assert(outs[j] == feed_all(Seq::<u8>::empty(), tail)[j - 1]);
            }
        }
    }
}

proof fn lemma_feed_from_prefix(payload: Seq<u8>, buf: Seq<u8>, chunks: Seq<Seq<u8>>)
    requires
        payload.len() < MAX_DATA_SIZE,
        buf.len() < encode_frame(payload).len(),
        buf + flatten(chunks) == encode_frame(payload),
    ensures
        feed_all(buf, chunks).len() == chunks.len(),
        exists|i: int|
            0 <= i < chunks.len() && feed_all(buf, chunks)[i] == ReadStep::Frame(payload) && (
            forall|j: int|
                0 <= j < chunks.len() && j != i ==> #[trigger] feed_all(buf, chunks)[j]
                    == ReadStep::NoFrame),
        feed_rest(buf, chunks) == Seq::<u8>::empty(),
    decreases chunks.len(),
{
    let f = encode_frame(payload);
    if chunks.len() == 0 {
        assert(buf + flatten(chunks) =~= buf);
    } else {
        let tail = chunks.drop_first();
        lemma_flatten_cons(chunks);
        let b = buf + chunks[0];
        assert(b + flatten(tail) =~= f);
        let outs = feed_all(buf, chunks);
        if b.len() < f.len() {
            assert(b =~= f.subrange(0, b.len() as int));
            lemma_proper_prefix_incomplete(payload, b);
            lemma_feed_from_prefix(payload, b, tail);
            let i = choose|i: int|
                0 <= i < tail.len() && feed_all(b, tail)[i] == ReadStep::Frame(payload) && (
                forall|j: int|
                    0 <= j < tail.len() && j != i ==> #[trigger] feed_all(b, tail)[j]
                        == ReadStep::NoFrame);
            assert(outs == seq![ReadStep::NoFrame] + feed_all(b, tail));
            assert(outs[i + 1] == ReadStep::Frame(payload));
            assert forall|j: int| 0 <= j < chunks.len() && j != i + 1 implies #[trigger] outs[j]
                == ReadStep::NoFrame by {
                if j > 0 {
                    assert(outs[j] == feed_all(b, tail)[j - 1]);
                }
            }
        } else {
            assert(b =~= f);
            assert(flatten(tail).len() == 0);
            lemma_frame_then_rest(payload, Seq::empty());
            assert(f + Seq::<u8>::empty() =~= f);
            lemma_feed_nothing(tail);
            assert(outs == seq![ReadStep::Frame(payload)] + feed_all(Seq::empty(), tail));
            assert(outs[0] == ReadStep::Frame(payload));
            assert forall|j: int| 0 <= j < chunks.len() && j != 0 implies #[trigger] outs[j]
                == ReadStep::NoFrame by {
                assert(outs[j] == feed_all(Seq::<u8>::empty(), tail)[j - 1]);
            }
        }
    }
}

/// However a frame's bytes are split into chunks (single bytes, empty
/// would-block ticks in between), feeding them to a fresh reader yields the
/// payload exactly once, "no frame yet" at every other tick, and leaves
/// nothing buffered.
pub proof fn lemma_framing_round_trip(payload: Seq<u8>, chunks: Seq<Seq<u8>>)
    requires
        payload.len() < MAX_DATA_SIZE,
        flatten(chunks) == encode_frame(payload),
    ensures
        feed_all(Seq::empty(), chunks).len() == chunks.len(),
        exists|i: int|
            0 <= i < chunks.len() && feed_all(Seq::empty(), chunks)[i] == ReadStep::Frame(payload)
                && (forall|j: int|
                0 <= j < chunks.len() && j != i ==> #[trigger] feed_all(Seq::empty(), chunks)[j]
                    == ReadStep::NoFrame),
        feed_rest(Seq::empty(), chunks) == Seq::<u8>::empty(),
{
    lemma_header_length(payload);
    assert(Seq::<u8>::empty() + flatten(chunks) =~= flatten(chunks));
    lemma_feed_from_prefix(payload, Seq::empty(), chunks);
}

} // verus!
