//! The wire protocol: the message envelope and frame chunking.
//!
//! An envelope is one version byte, the payload's length as a little-endian
//! `u32`, then the payload. The payload is the encoded [`Message`], which the
//! surrounding program produces and reads.
use vstd::prelude::*;
use vstd::arithmetic::div_mod::lemma_fundamental_div_mod;
use crate::types::{holds_image, image_len, Frame, QualityConfig};

verus! {

/// The protocol version written into and expected in every envelope.
pub const PROTOCOL_VERSION: u8 = 1;

/// The largest chunk of frame data carried by one message (4 MiB).
pub const MAX_FRAME_SIZE: usize = 4 * 1024 * 1024;

/// The largest payload that one envelope carries (64 KiB).
pub const MAX_MESSAGE_SIZE: usize = 64 * 1024;

/// Length of the envelope header: version byte and payload length.
pub const HEADER_LEN: usize = 5;

/// A message exchanged between the two ends of a connection.
///
/// `timestamp` is in milliseconds since the Unix epoch.
#[derive(Clone, Debug)]
pub enum Message {
    FrameData { frame_id: u64, timestamp: u64, data: Vec<u8> },
    FrameAck { frame_id: u64 },
    KeepAlive,
    QualityConfig(QualityConfig),
    Error(String),
}

/// Errors of the wire protocol.
#[derive(Clone, Copy, Debug, PartialEq, Eq, Structural)]
pub enum ProtocolError {
    /// The payload is larger than [`MAX_MESSAGE_SIZE`].
    MessageTooLarge,
    /// Fewer bytes than the envelope header.
    MessageTooShort,
    /// The version byte is not [`PROTOCOL_VERSION`].
    VersionMismatch,
    /// Fewer payload bytes than the header announces.
    Truncated,
    /// No frame data among the messages.
    IncompleteFrame,
    /// The reassembled data does not fit the given width and height.
    FrameSizeMismatch,
}

/// The four little-endian bytes of `n`.
pub open spec fn le_u32_bytes(n: nat) -> Seq<u8> {
    seq![
        (n % 256) as u8,
        ((n / 256) % 256) as u8,
        ((n / 65536) % 256) as u8,
        ((n / 16777216) % 256) as u8,
    ]
}

/// The little-endian `u32` stored in `b` at `at`.
pub open spec fn le_u32_at(b: Seq<u8>, at: int) -> nat {
    (b[at] + 256 * b[at + 1] + 65536 * b[at + 2] + 16777216 * b[at + 3]) as nat
}

/// The envelope around `payload`, or why there is none.
pub open spec fn seal_envelope(payload: Seq<u8>) -> Result<Seq<u8>, ProtocolError> {
    if payload.len() > MAX_MESSAGE_SIZE {
        Err(ProtocolError::MessageTooLarge)
    } else {
        Ok(seq![PROTOCOL_VERSION] + le_u32_bytes(payload.len()) + payload)
    }
}

/// The payload inside the envelope at the start of `b`, or why there is none.
/// Bytes after the payload are not read.
pub open spec fn open_envelope(b: Seq<u8>) -> Result<Seq<u8>, ProtocolError> {
    if b.len() < HEADER_LEN {
        Err(ProtocolError::MessageTooShort)
    } else if b[0] != PROTOCOL_VERSION {
        Err(ProtocolError::VersionMismatch)
    } else if le_u32_at(b, 1) > MAX_MESSAGE_SIZE {
        Err(ProtocolError::MessageTooLarge)
    } else if b.len() - HEADER_LEN < le_u32_at(b, 1) {
        Err(ProtocolError::Truncated)
    } else {
        Ok(b.subrange(HEADER_LEN as int, HEADER_LEN + le_u32_at(b, 1)))
    }
}

/// Reading back the four little-endian bytes of `n` gives `n`.
pub proof fn lemma_le_u32_round_trip(n: nat)
    requires
        n <= u32::MAX,
    ensures
        le_u32_at(le_u32_bytes(n), 0) == n,
{
    let b = le_u32_bytes(n);
    let q1 = n / 256;
    let q2 = q1 / 256;
    let q3 = q2 / 256;
    lemma_fundamental_div_mod(n as int, 256);
    lemma_fundamental_div_mod(q1 as int, 256);
    lemma_fundamental_div_mod(q2 as int, 256);
    assert(n / 65536 == q2) by {
        vstd::arithmetic::div_mod::lemma_div_denominator(n as int, 256, 256);
    }
    assert(n / 16777216 == q3) by {
        vstd::arithmetic::div_mod::lemma_div_denominator(n as int, 65536, 256);
    }
    assert(q3 < 256) by {
        vstd::arithmetic::div_mod::lemma_div_denominator(n as int, 65536, 256);
        vstd::arithmetic::div_mod::lemma_div_is_ordered(n as int, u32::MAX as int, 16777216);
    }
    assert(q3 % 256 == q3) by {
        vstd::arithmetic::div_mod::lemma_small_mod(q3 as nat, 256);
    }
    assert(b[0] == n % 256);
    assert(b[1] == q1 % 256);
    assert(b[2] == q2 % 256);
    assert(b[3] == q3);
}

/// Opening a sealed envelope gives back the payload.
pub proof fn lemma_envelope_round_trip(payload: Seq<u8>)
    requires
        payload.len() <= MAX_MESSAGE_SIZE,
    ensures
        seal_envelope(payload) matches Ok(b) && open_envelope(b) == Ok::<Seq<u8>, ProtocolError>(payload),
{
    let b = seq![PROTOCOL_VERSION] + le_u32_bytes(payload.len()) + payload;
    lemma_le_u32_round_trip(payload.len());
    let h = le_u32_bytes(payload.len());
    assert(le_u32_at(b, 1) == le_u32_at(h, 0));
    assert(b.subrange(HEADER_LEN as int, HEADER_LEN + payload.len()) =~= payload);
}

/// The bytes of `v` from `start` up to `end`.
pub fn copy_range(v: &[u8], start: usize, end: usize) -> (r: Vec<u8>)
    requires
        start <= end <= v@.len(),
    ensures
        r@ == v@.subrange(start as int, end as int),
{
    let mut out: Vec<u8> = Vec::new();
    let mut i: usize = start;
    while i < end
        invariant
            start <= i <= end <= v@.len(),
            out@ == v@.subrange(start as int, i as int),
        decreases end - i,
    {
        out.push(v[i]);
        i = i + 1;
        assert(out@ =~= v@.subrange(start as int, i as int));
    }
    out
}

/// Wraps an encoded message in an envelope.
pub fn serialize_payload(payload: &[u8]) -> (r: Result<Vec<u8>, ProtocolError>)
    ensures
        match r {
            Ok(v) => seal_envelope(payload@) == Ok::<Seq<u8>, ProtocolError>(v@),
            Err(e) => seal_envelope(payload@) == Err::<Seq<u8>, ProtocolError>(e),
        },
{
    let n = payload.len();
    if n > MAX_MESSAGE_SIZE {
        return Err(ProtocolError::MessageTooLarge);
    }
    let len = n as u32;
    let mut out: Vec<u8> = Vec::new();
    out.push(PROTOCOL_VERSION);
    out.push((len % 256) as u8);
    out.push(((len / 256) % 256) as u8);
    out.push(((len / 65536) % 256) as u8);
    out.push(((len / 16777216) % 256) as u8);
    let mut i: usize = 0;
    while i < n
        invariant
            n == payload@.len(),
            i <= n,
            out@ == seq![PROTOCOL_VERSION] + le_u32_bytes(n as nat) + payload@.subrange(0, i as int),
        decreases n - i,
    {
        out.push(payload[i]);
        i = i + 1;
        assert(out@ =~= seq![PROTOCOL_VERSION] + le_u32_bytes(n as nat) + payload@.subrange(0, i as int));
    }
    assert(payload@.subrange(0, n as int) =~= payload@);
    Ok(out)
}

/// Takes the payload out of the envelope at the start of `bytes`.
pub fn deserialize_payload(bytes: &[u8]) -> (r: Result<Vec<u8>, ProtocolError>)
    ensures
        match r {
            Ok(v) => open_envelope(bytes@) == Ok::<Seq<u8>, ProtocolError>(v@),
            Err(e) => open_envelope(bytes@) == Err::<Seq<u8>, ProtocolError>(e),
        },
{
    if bytes.len() < HEADER_LEN {
        return Err(ProtocolError::MessageTooShort);
    }
    if bytes[0] != PROTOCOL_VERSION {
        return Err(ProtocolError::VersionMismatch);
    }
    let len: u64 = bytes[1] as u64 + 256 * (bytes[2] as u64) + 65536 * (bytes[3] as u64)
        + 16777216 * (bytes[4] as u64);
    if len > MAX_MESSAGE_SIZE as u64 {
        return Err(ProtocolError::MessageTooLarge);
    }
    let n = len as usize;
    if bytes.len() - HEADER_LEN < n {
        return Err(ProtocolError::Truncated);
    }
    Ok(copy_range(bytes, HEADER_LEN, HEADER_LEN + n))
}

/// The frame fields of a `FrameData` message: id, timestamp and chunk.
pub open spec fn frame_chunk(m: Message) -> Option<(u64, u64, Seq<u8>)> {
    match m {
        Message::FrameData { frame_id, timestamp, data } => Some((frame_id, timestamp, data@)),
        _ => None,
    }
}

/// Number of chunks that `len` bytes of frame data are split into: one for
/// data that fits in a chunk, an empty frame included.
pub open spec fn chunk_count(len: nat) -> nat {
    if len <= MAX_FRAME_SIZE {
        1
    } else {
        ((len - 1) / MAX_FRAME_SIZE as int + 1) as nat
    }
}

/// Chunk `i` of `data`: at most [`MAX_FRAME_SIZE`] bytes from `i` times that size.
pub open spec fn nth_chunk(data: Seq<u8>, i: int) -> Seq<u8> {
    let start = i * MAX_FRAME_SIZE;
    let end = if start + MAX_FRAME_SIZE <= data.len() { start + MAX_FRAME_SIZE } else { data.len() as int };
    data.subrange(start, end)
}

/// `msgs` are the `FrameData` messages that carry `data` of frame `id`
/// taken at `timestamp`, chunk after chunk.
pub open spec fn is_chunking(msgs: Seq<Message>, id: u64, timestamp: u64, data: Seq<u8>) -> bool {
    &&& msgs.len() == chunk_count(data.len())
    &&& forall|i: int| 0 <= i < msgs.len() ==> #[trigger] frame_chunk(msgs[i]) == Some((id, timestamp, nth_chunk(data, i)))
}

/// Id and timestamp of the first `FrameData` message among `msgs`.
pub open spec fn first_frame_header(msgs: Seq<Message>) -> Option<(u64, u64)>
    decreases msgs.len(),
{
    if msgs.len() == 0 {
        None
    } else {
        match first_frame_header(msgs.drop_last()) {
            Some(h) => Some(h),
            None => match frame_chunk(msgs.last()) {
                Some(c) => Some((c.0, c.1)),
                None => None,
            },
        }
    }
}

/// The chunks of the `FrameData` messages of frame `id` at `timestamp`, in order.
pub open spec fn frame_bytes(msgs: Seq<Message>, id: u64, timestamp: u64) -> Seq<u8>
    decreases msgs.len(),
{
    if msgs.len() == 0 {
        Seq::empty()
    } else {
        let before = frame_bytes(msgs.drop_last(), id, timestamp);
        match frame_chunk(msgs.last()) {
            Some(c) => if c.0 == id && c.1 == timestamp { before + c.2 } else { before },
            None => before,
        }
    }
}

/// Reassembling the chunks of a frame gives back the frame's id, timestamp and data.
pub proof fn lemma_chunks_reassemble(msgs: Seq<Message>, id: u64, timestamp: u64, data: Seq<u8>)
    requires
        is_chunking(msgs, id, timestamp, data),
    ensures
        first_frame_header(msgs) == Some((id, timestamp)),
        frame_bytes(msgs, id, timestamp) == data,
{
    let k = msgs.len() as int;
    let m = MAX_FRAME_SIZE as int;
    let n = data.len() as int;
    lemma_chunk_prefix(msgs, id, timestamp, data, k);
    assert(msgs.subrange(0, k) =~= msgs);
    if n > m {
        let q = (n - 1) / m;
        lemma_fundamental_div_mod(n - 1, m);
        assert(k == q + 1);
        assert(k * m >= n) by (nonlinear_arith)
            requires k == q + 1, n - 1 == m * q + (n - 1) % m, (n - 1) % m < m, 0 < m;
    } else {
        assert(k == 1);
        assert(k * m >= n) by (nonlinear_arith)
            requires k == 1, n <= m;
    }
    assert(prefix_end(k, n) == n);
    assert(data.subrange(0, n) =~= data);
}

/// Bytes covered by the first `k` chunks of `n` bytes.
pub open spec fn prefix_end(k: int, n: int) -> int {
    if k * MAX_FRAME_SIZE <= n { k * MAX_FRAME_SIZE } else { n }
}

/// The first `k` messages of a chunking hold the data up to `k` chunks.
proof fn lemma_chunk_prefix(msgs: Seq<Message>, id: u64, timestamp: u64, data: Seq<u8>, k: int)
    requires
        is_chunking(msgs, id, timestamp, data),
        0 <= k <= msgs.len(),
    ensures
        k > 0 ==> first_frame_header(msgs.subrange(0, k)) == Some((id, timestamp)),
        frame_bytes(msgs.subrange(0, k), id, timestamp) == data.subrange(0, prefix_end(k, data.len() as int)),
    decreases k,
{
    let pre = msgs.subrange(0, k);
    let m = MAX_FRAME_SIZE as int;
    let n = data.len() as int;
    if k == 0 {
        assert(0 * m == 0);
        assert(prefix_end(0, n) == 0);
        assert(data.subrange(0, 0) =~= Seq::<u8>::empty());
    } else {
        lemma_chunk_prefix(msgs, id, timestamp, data, k - 1);
        assert(pre.drop_last() =~= msgs.subrange(0, k - 1));
        assert(pre.last() == msgs[k - 1]);
        let c = nth_chunk(data, k - 1);
        assert(frame_chunk(msgs[k - 1]) == Some((id, timestamp, c)));
        assert(frame_bytes(pre, id, timestamp) == frame_bytes(msgs.subrange(0, k - 1), id, timestamp) + c);
        assert((k - 1) * m + m == k * m) by (nonlinear_arith);
        assert((k - 1) * m <= n) by {
            if n > m {
                let q = (n - 1) / m;
                lemma_fundamental_div_mod(n - 1, m);
                assert(k <= q + 1);
                assert((k - 1) * m <= q * m) by (nonlinear_arith)
                    requires k - 1 <= q, 0 < m;
                assert(q * m <= n - 1) by (nonlinear_arith)
                    requires n - 1 == m * q + (n - 1) % m, 0 <= (n - 1) % m;
            } else {
                assert(k == 1);
                assert((k - 1) * m == 0) by (nonlinear_arith)
                    requires k == 1;
            }
        }
        let lo = (k - 1) * m;
        let hi = prefix_end(k, n);
        assert(prefix_end(k - 1, n) == lo);
        assert(c == data.subrange(lo, hi));
        assert(data.subrange(0, lo) + data.subrange(lo, hi) =~= data.subrange(0, hi));
    }
}

/// Splits frames into `FrameData` messages and joins them again.
pub struct FrameProtocol;

impl FrameProtocol {
    /// The `FrameData` messages that carry `frame`'s data, in chunks of at
    /// most [`MAX_FRAME_SIZE`] bytes; a frame that fits in one chunk gives
    /// exactly one message.
    pub fn encode_frame(frame: &Frame) -> (r: Vec<Message>)
        ensures
            is_chunking(r@, frame.id, frame.timestamp, frame.data@),
    {
        let n = frame.data.len();
        let count: usize = if n <= MAX_FRAME_SIZE { 1 } else { (n - 1) / MAX_FRAME_SIZE + 1 };
        let mut out: Vec<Message> = Vec::new();
        let mut i: usize = 0;
        while i < count
            invariant
                n == frame.data@.len(),
                count == chunk_count(n as nat),
                i <= count,
                out@.len() == i,
                forall|j: int| 0 <= j < i ==> #[trigger] frame_chunk(out@[j]) == Some((frame.id, frame.timestamp, nth_chunk(frame.data@, j))),
            decreases count - i,
        {
            proof {
                if n > MAX_FRAME_SIZE {
                    lemma_fundamental_div_mod(n - 1, MAX_FRAME_SIZE as int);
                    assert(i * MAX_FRAME_SIZE <= n) by (nonlinear_arith)
                        requires
                            i < (n - 1) / (MAX_FRAME_SIZE as int) + 1,
                            n - 1 == MAX_FRAME_SIZE * ((n - 1) / (MAX_FRAME_SIZE as int)) + (n - 1) % (MAX_FRAME_SIZE as int),
                            0 <= (n - 1) % (MAX_FRAME_SIZE as int);
                } else {
                    assert(i == 0);
                }
            }
            let start: usize = i * MAX_FRAME_SIZE;
            let end: usize = if MAX_FRAME_SIZE <= n - start { start + MAX_FRAME_SIZE } else { n };
            let chunk = copy_range(frame.data.as_slice(), start, end);
            out.push(Message::FrameData { frame_id: frame.id, timestamp: frame.timestamp, data: chunk });
            assert(frame_chunk(out@[i as int]) == Some((frame.id, frame.timestamp, nth_chunk(frame.data@, i as int))));
            i = i + 1;
        }
        out
    }

    /// The frame carried by the `FrameData` messages among `messages` that
    /// share the first one's id and timestamp, joined in order, with the given
    /// size; fails when there is no `FrameData` message or the joined data
    /// does not hold `width` by `height` pixels.
    pub fn decode_frame(messages: Vec<Message>, width: u32, height: u32) -> (r: Result<Frame, ProtocolError>)
        ensures
            match first_frame_header(messages@) {
                None => r == Err::<Frame, ProtocolError>(ProtocolError::IncompleteFrame),
                Some(h) => {
                    let data = frame_bytes(messages@, h.0, h.1);
                    if data.len() == image_len(width as int, height as int) {
                        r matches Ok(f) && f.id == h.0 && f.timestamp == h.1 && f.width == width
                            && f.height == height && f.data@ == data
                    } else {
                        r == Err::<Frame, ProtocolError>(ProtocolError::FrameSizeMismatch)
                    }
                },
            },
    {
        let mut header: Option<(u64, u64)> = None;
        let mut i: usize = 0;
        while i < messages.len()
            invariant
                i <= messages@.len(),
                header == first_frame_header(messages@.subrange(0, i as int)),
            decreases messages@.len() - i,
        {
            proof {
                assert(messages@.subrange(0, i + 1).drop_last() =~= messages@.subrange(0, i as int));
            }
            if header.is_none() {
                if let Message::FrameData { frame_id, timestamp, .. } = &messages[i] {
                    header = Some((*frame_id, *timestamp));
                }
            }
            i = i + 1;
        }
        assert(messages@.subrange(0, messages@.len() as int) =~= messages@);
        let (id, ts) = match header {
            Some(h) => h,
            None => {
                return Err(ProtocolError::IncompleteFrame);
            },
        };
        let mut data: Vec<u8> = Vec::new();
        let mut j: usize = 0;
        while j < messages.len()
            invariant
                j <= messages@.len(),
                data@ == frame_bytes(messages@.subrange(0, j as int), id, ts),
            decreases messages@.len() - j,
        {
            proof {
                assert(messages@.subrange(0, j + 1).drop_last() =~= messages@.subrange(0, j as int));
            }
            if let Message::FrameData { frame_id, timestamp, data: chunk } = &messages[j] {
                if *frame_id == id && *timestamp == ts {
                    data.extend_from_slice(chunk.as_slice());
                }
            }
            j = j + 1;
        }
        assert(messages@.subrange(0, messages@.len() as int) =~= messages@);
        if !holds_image(data.len(), width, height) {
            return Err(ProtocolError::FrameSizeMismatch);
        }
        Ok(Frame { id, timestamp: ts, width, height, data })
    }
}

} // verus!