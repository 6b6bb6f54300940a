//! Discord IPC framing.
//!
//! Transport-independent: every frame is an 8-byte little-endian header
//! (opcode, then body byte length) followed by the JSON body.
use crate::discord::client::{frame_reason, frame_reason_of, opt_str};
use vstd::prelude::*;

verus! {

/// A length at or past this is treated as a protocol violation rather than an
/// allocation request.
pub const MAX_PAYLOAD_LEN: u32 = 1_000_000;

pub const HEADER_LEN: usize = 8;

#[derive(Debug, Clone, Copy, PartialEq, Eq, Structural)]
pub enum Opcode {
    Handshake,
    Frame,
    Close,
    Ping,
    Pong,
}

/// The opcode's number on the wire.
pub open spec fn opcode_raw(op: Opcode) -> u32 {
    match op {
        Opcode::Handshake => 0,
        Opcode::Frame => 1,
        Opcode::Close => 2,
        Opcode::Ping => 3,
        Opcode::Pong => 4,
    }
}

/// The opcode a number on the wire stands for, if any.
pub open spec fn opcode_of_raw(raw: u32) -> Option<Opcode> {
    if raw == 0 {
        Some(Opcode::Handshake)
    } else if raw == 1 {
        Some(Opcode::Frame)
    } else if raw == 2 {
        Some(Opcode::Close)
    } else if raw == 3 {
        Some(Opcode::Ping)
    } else if raw == 4 {
        Some(Opcode::Pong)
    } else {
        None
    }
}

impl Opcode {
    pub fn raw_value(self) -> (r: u32)
        ensures
            r == opcode_raw(self),
    {
        match self {
            Opcode::Handshake => 0,
            Opcode::Frame => 1,
            Opcode::Close => 2,
            Opcode::Ping => 3,
            Opcode::Pong => 4,
        }
    }

    pub fn from_raw(raw: u32) -> (r: Option<Self>)
        ensures
            r == opcode_of_raw(raw),
    {
        match raw {
            0 => Some(Opcode::Handshake),
            1 => Some(Opcode::Frame),
            2 => Some(Opcode::Close),
            3 => Some(Opcode::Ping),
            4 => Some(Opcode::Pong),
            _ => None,
        }
    }
}

/// Every opcode reads back from its number, and only the five numbers name one.
pub proof fn lemma_opcode_raw_round_trips(op: Opcode, raw: u32)
    ensures
        opcode_of_raw(opcode_raw(op)) == Some(op),
        opcode_of_raw(raw) matches Some(o) ==> opcode_raw(o) == raw,
        opcode_of_raw(raw) is Some <==> raw < 5,
{
}

#[derive(Debug, Clone, PartialEq)]
pub struct Frame {
    pub opcode: Opcode,
    pub payload: Vec<u8>,
}

// MARK: - Reading a frame's JSON body

/// The string `serde_json` finds at `key` in the JSON object `bytes` holds,
/// or `None` when the body is no JSON object or has no string there.
pub uninterp spec fn json_top_level_str(bytes: Seq<u8>, key: Seq<char>) -> Option<Seq<char>>;

/// As `json_top_level_str`, for a whole number that fits `i64`.
pub uninterp spec fn json_top_level_i64(bytes: Seq<u8>, key: Seq<char>) -> Option<i64>;

/// The member at `key` of the JSON object `bytes` holds, written out again,
/// when that member is itself an object.
pub uninterp spec fn json_object_member(bytes: Seq<u8>, key: Seq<char>) -> Option<Seq<u8>>;

/// The JSON `bytes` hold, written out again by `serde_json`; `null` when they
/// hold no JSON.
pub uninterp spec fn json_reencoded(bytes: Seq<u8>) -> Seq<u8>;

/// `bytes` as text, each invalid UTF-8 sequence replaced by U+FFFD.
pub uninterp spec fn utf8_lossy_text(bytes: Seq<u8>) -> Seq<char>;

/// Parses `bytes` with `serde_json::from_slice` and reads the string member
/// at `key`. The contract only names the answer; what JSON parsing accepts is
/// left to serde_json.
#[verifier::external_body]
fn top_level_str(bytes: &[u8], key: &str) -> (r: Option<String>)
    ensures
        opt_string_view(r) == json_top_level_str(bytes@, key@),
{
    let value = serde_json::from_slice::<serde_json::Value>(bytes).ok()?;
    value.get(key)?.as_str().map(|s| s.to_string())
}

/// Parses `bytes` with `serde_json::from_slice` and reads the member at `key`
/// as an `i64`. The contract only names the answer.
#[verifier::external_body]
fn top_level_i64(bytes: &[u8], key: &str) -> (r: Option<i64>)
    ensures
        r == json_top_level_i64(bytes@, key@),
{
    let value = serde_json::from_slice::<serde_json::Value>(bytes).ok()?;
    value.get(key)?.as_i64()
}

/// Parses `bytes` with `serde_json::from_slice` and, when the member at `key`
/// is an object, writes it out again with `serde_json::to_vec`. The contract
/// only names the answer.
#[verifier::external_body]
fn object_member(bytes: &[u8], key: &str) -> (r: Option<Vec<u8>>)
    ensures
        match r {
            Some(v) => json_object_member(bytes@, key@) == Some(v@),
            None => json_object_member(bytes@, key@) is None,
        },
{
    let value = serde_json::from_slice::<serde_json::Value>(bytes).ok()?;
    match value.get(key)? {
        serde_json::Value::Object(member) => serde_json::to_vec(member).ok(),
        _ => None,
    }
}

/// Parses `bytes` with `serde_json::from_slice`, taking `null` for what does
/// not parse, and writes the value out again with `serde_json::to_vec`. The
/// contract only names the answer.
#[verifier::external_body]
fn reencoded(bytes: &[u8]) -> (r: Vec<u8>)
    ensures
        r@ == json_reencoded(bytes@),
{
    let value = serde_json::from_slice::<serde_json::Value>(bytes).unwrap_or(serde_json::Value::Null);
    serde_json::to_vec(&value).unwrap_or_default()
}

/// Calls `String::from_utf8_lossy`. The contract only names the text.
#[verifier::external_body]
fn lossy_text(bytes: &[u8]) -> (r: String)
    ensures
        r@ == utf8_lossy_text(bytes@),
{
    String::from_utf8_lossy(bytes).into_owned()
}

pub open spec fn opt_string_view(o: Option<String>) -> Option<Seq<char>> {
    match o {
        Some(s) => Some(s@),
        None => None,
    }
}

/// A FRAME's `evt` field, e.g. `READY` or `ERROR`.
pub open spec fn frame_event_of(payload: Seq<u8>) -> Option<Seq<char>> {
    json_top_level_str(payload, "evt"@)
}

/// The `message` and `code` of a JSON object.
pub open spec fn reason_fields_of(bytes: Seq<u8>) -> (Option<Seq<char>>, Option<i64>) {
    (json_top_level_str(bytes, "message"@), json_top_level_i64(bytes, "code"@))
}

/// The reason a frame gives: its `data` object's message and code when
/// `data` is an object, the top level's otherwise, and the body as it
/// arrived when neither says anything.
pub open spec fn frame_error_of(payload: Seq<u8>) -> Seq<char> {
    frame_reason_of(
        reason_fields_of(payload),
        match json_object_member(payload, "data"@) {
            Some(d) => Some(reason_fields_of(d)),
            None => None,
        },
        utf8_lossy_text(payload),
    )
}

impl Frame {
    /// The `evt` field of a FRAME, e.g. `READY` or `ERROR`; `None` when the
    /// body is not JSON or carries none.
    pub fn event(&self) -> (r: Option<String>)
        ensures
            opt_string_view(r) == frame_event_of(self.payload@),
    {
        top_level_str(self.payload.as_slice(), "evt")
    }

    /// The reason an ERROR frame or a CLOSE gives, never empty of what
    /// arrived.
    pub fn error_message(&self) -> (r: String)
        ensures
            r@ == frame_error_of(self.payload@),
    {
        let body = self.payload.as_slice();
        let top_message = top_level_str(body, "message");
        let top_code = top_level_i64(body, "code");
        let data = object_member(body, "data");
        let raw = lossy_text(body);
        match data {
            Some(d) => {
                let inner_message = top_level_str(d.as_slice(), "message");
                let inner_code = top_level_i64(d.as_slice(), "code");
                let inner = match &inner_message {
                    Some(m) => Some(m.as_str()),
                    None => None,
                };
                let top = match &top_message {
                    Some(m) => Some(m.as_str()),
                    None => None,
                };
                frame_reason(top, top_code, Some((inner, inner_code)), raw.as_str())
            },
            None => {
                let top = match &top_message {
                    Some(m) => Some(m.as_str()),
                    None => None,
                };
                frame_reason(top, top_code, None, raw.as_str())
            },
        }
    }

    /// What a PING is answered with: its body, parsed and written out again,
    /// or `null` when it is not JSON.
    pub fn pong_payload(&self) -> (r: Vec<u8>)
        ensures
            r@ == json_reencoded(self.payload@),
    {
        reencoded(self.payload.as_slice())
    }
}

#[derive(Debug, Clone, PartialEq, Eq, Structural)]
pub enum ProtocolError {
    /// A length at or past `MAX_PAYLOAD_LEN`; the connection must be torn down.
    PayloadTooLarge(u32),
    UnknownOpcode(u32),
}

// MARK: - The wire format

/// The four little-endian bytes of `n`.
pub open spec fn le_bytes(n: u32) -> Seq<u8> {
    seq![
        (n % 256) as u8,
        ((n / 256) % 256) as u8,
        ((n / 65536) % 256) as u8,
        (n / 16777216) as u8,
    ]
}

/// The number four little-endian bytes spell.
pub open spec fn le_value(b: Seq<u8>) -> u32 {
    (b[0] + 256 * b[1] + 65536 * b[2] + 16777216 * b[3]) as u32
}

proof fn lemma_le_round_trip(n: u32)
    ensures
        le_value(le_bytes(n)) == n,
        le_bytes(n).len() == 4,
{
    let b0 = n % 256;
    let b1 = (n / 256) % 256;
    let b2 = (n / 65536) % 256;
    let b3 = n / 16777216;
    assert(b0 + 256 * b1 + 65536 * b2 + 16777216 * b3 == n) by (nonlinear_arith)
        requires
            b0 == n % 256,
            b1 == (n / 256) % 256,
            b2 == (n / 65536) % 256,
            b3 == n / 16777216,
            n <= 0xffff_ffff,
    ;
    assert(b3 < 256) by (nonlinear_arith)
        requires
            b3 == n / 16777216,
            n <= 0xffff_ffff,
    ;
}

/// One whole frame: the header, then the body.
pub open spec fn frame_bytes(op: Opcode, body: Seq<u8>) -> Seq<u8> {
    le_bytes(opcode_raw(op)) + le_bytes(body.len() as u32) + body
}

/// What the first frame in `pending` decodes to, and what is left pending
/// after it. Too few bytes leave everything pending; a length at or past the
/// limit, or an unknown opcode once the frame is whole, is an error that
/// consumes nothing.
pub open spec fn decode_step(pending: Seq<u8>) -> (Result<Option<(Opcode, Seq<u8>)>, ProtocolError>, Seq<u8>) {
    if pending.len() < HEADER_LEN {
        (Ok(None), pending)
    } else {
        let raw = le_value(pending.subrange(0, 4));
        let len = le_value(pending.subrange(4, 8));
        if len >= MAX_PAYLOAD_LEN {
            (Err(ProtocolError::PayloadTooLarge(len)), pending)
        } else if pending.len() < HEADER_LEN + len {
            (Ok(None), pending)
        } else {
            match opcode_of_raw(raw) {
                None => (Err(ProtocolError::UnknownOpcode(raw)), pending),
                Some(op) => (
                    Ok(Some((op, pending.subrange(HEADER_LEN as int, HEADER_LEN + len)))),
                    pending.skip(HEADER_LEN + len),
                ),
            }
        }
    }
}

fn append_bytes(out: &mut Vec<u8>, bytes: &[u8])
    ensures
        final(out)@ == old(out)@ + bytes@,
{
    let ghost start = out@;
    let mut i: usize = 0;
    while i < bytes.len()
        invariant
            i <= bytes@.len(),
            out@ == start + bytes@.subrange(0, i as int),
        decreases bytes@.len() - i,
    {
        out.push(bytes[i]);
        i = i + 1;
        proof {
            assert(out@ =~= start + bytes@.subrange(0, i as int));
        }
    }
    proof {
        assert(bytes@.subrange(0, bytes@.len() as int) =~= bytes@);
    }
}

fn copy_range(bytes: &[u8], lo: usize, hi: usize) -> (r: Vec<u8>)
    requires
        lo <= hi <= bytes@.len(),
    ensures
        r@ == bytes@.subrange(lo as int, hi as int),
{
    let mut out: Vec<u8> = Vec::new();
    let mut i = lo;
    while i < hi
        invariant
            lo <= i <= hi,
            hi <= bytes@.len(),
            out@ == bytes@.subrange(lo as int, i as int),
        decreases hi - i,
    {
        out.push(bytes[i]);
        i = i + 1;
        proof {
            assert(out@ =~= bytes@.subrange(lo as int, i as int));
        }
    }
    out
}

fn push_le(out: &mut Vec<u8>, n: u32)
    ensures
        final(out)@ == old(out)@ + le_bytes(n),
{
    let ghost start = out@;
    out.push((n % 256) as u8);
    out.push(((n / 256) % 256) as u8);
    out.push(((n / 65536) % 256) as u8);
    out.push((n / 16777216) as u8);
    proof {
        assert(out@ =~= start + le_bytes(n));
    }
}

fn read_le(bytes: &[u8], at: usize) -> (r: u32)
    requires
        at + 4 <= bytes@.len(),
    ensures
        r == le_value(bytes@.subrange(at as int, at + 4)),
{
    let v: u64 = bytes[at] as u64 + 256 * (bytes[at + 1] as u64) + 65536 * (bytes[at + 2] as u64)
        + 16777216 * (bytes[at + 3] as u64);
    proof {
        let s = bytes@.subrange(at as int, at + 4);
        assert(s[0] == bytes@[at as int]);
        assert(s[1] == bytes@[at + 1]);
        assert(s[2] == bytes@[at + 2]);
        assert(s[3] == bytes@[at + 3]);
    }
    v as u32
}

/// One frame around `payload`, which must be under the length limit the
/// other side enforces.
pub fn encode_frame(opcode: Opcode, payload: &[u8]) -> (r: Result<Vec<u8>, ProtocolError>)
    ensures
        payload@.len() < MAX_PAYLOAD_LEN ==> r == Ok::<Vec<u8>, ProtocolError>(r->Ok_0) && r->Ok_0@
            == frame_bytes(opcode, payload@),
        payload@.len() >= MAX_PAYLOAD_LEN ==> r == Err::<Vec<u8>, ProtocolError>(
            ProtocolError::PayloadTooLarge(
                if payload@.len() > u32::MAX {
                    u32::MAX
                } else {
                    payload@.len() as u32
                },
            ),
        ),
{
    let n = payload.len();
    if n >= MAX_PAYLOAD_LEN as usize {
        let reported: u32 = if n > u32::MAX as usize {
            u32::MAX
        } else {
            n as u32
        };
        return Err(ProtocolError::PayloadTooLarge(reported));
    }
    let mut out: Vec<u8> = Vec::new();
    push_le(&mut out, opcode.raw_value());
    push_le(&mut out, n as u32);
    append_bytes(&mut out, payload);
    Ok(out)
}

// MARK: - Decoding

/// Accumulates bytes off the transport and yields whole frames.
///
/// Reads are offset-based so a partially consumed buffer isn't shifted on
/// every frame; the consumed prefix is dropped once a read leaves nothing
/// more to take.
#[derive(Debug)]
pub struct FrameDecoder {
    buf: Vec<u8>,
    offset: usize,
}

impl View for FrameDecoder {
    type V = Seq<u8>;

    /// The bytes received and not yet taken as a frame.
    closed spec fn view(&self) -> Seq<u8> {
        self.buf@.skip(self.offset as int)
    }
}

impl FrameDecoder {
    pub closed spec fn wf(&self) -> bool {
        self.offset <= self.buf@.len()
    }

    /// How many bytes the decoder holds on to, consumed ones included.
    pub closed spec fn retained(&self) -> nat {
        self.buf@.len()
    }

    pub fn new() -> (d: Self)
        ensures
            d.wf(),
            d@ == Seq::<u8>::empty(),
            d.retained() == 0,
    {
        FrameDecoder { buf: Vec::new(), offset: 0 }
    }

    pub fn push(&mut self, bytes: &[u8])
        requires
            old(self).wf(),
        ensures
            final(self).wf(),
            final(self)@ == old(self)@ + bytes@,
            final(self).retained() == old(self).retained() + bytes@.len(),
    {
        let ghost before = self.buf@;
        append_bytes(&mut self.buf, bytes);
        proof {
            assert(self.buf@.skip(self.offset as int) =~= before.skip(self.offset as int) + bytes@);
        }
    }

    /// Drops what has been consumed, keeping exactly the pending bytes.
    fn compact(&mut self)
        requires
            old(self).wf(),
        ensures
            final(self).wf(),
            final(self)@ == old(self)@,
            final(self).offset == 0,
            final(self).retained() == old(self)@.len(),
    {
        if self.offset == 0 {
            proof {
                assert(self.buf@.skip(0) =~= self.buf@);
            }
            return;
        }
        let rest = copy_range(self.buf.as_slice(), self.offset, self.buf.len());
        proof {
            assert(rest@ =~= self.buf@.skip(self.offset as int));
            assert(rest@.skip(0) =~= rest@);
        }
        self.buf = rest;
        self.offset = 0;
    }

    /// The next complete frame, `None` when more bytes are needed, or the
    /// violation that means the connection must be torn down. A read that
    /// errs consumes nothing; one that succeeds leaves only the pending bytes
    /// held, so a long stream of frames never grows the buffer.
    pub fn next_frame(&mut self) -> (r: Result<Option<Frame>, ProtocolError>)
        requires
            old(self).wf(),
        ensures
            final(self).wf(),
            final(self)@ == decode_step(old(self)@).1,
            match (r, decode_step(old(self)@).0) {
                (Ok(None), Ok(None)) => true,
                (Ok(Some(frame)), Ok(Some((op, body)))) => frame.opcode == op && frame.payload@ == body,
                (Err(e), Err(expected)) => e == expected,
                _ => false,
            },
            r is Ok ==> final(self).retained() == final(self)@.len(),
    {
        let ghost pending = self@;
        let available = self.buf.len() - self.offset;
        if available < HEADER_LEN {
            self.compact();
            return Ok(None);
        }
        let raw_opcode = read_le(self.buf.as_slice(), self.offset);
        let len = read_le(self.buf.as_slice(), self.offset + 4);
        proof {
            assert(pending.subrange(0, 4) =~= self.buf@.subrange(self.offset as int, self.offset + 4));
            assert(pending.subrange(4, 8) =~= self.buf@.subrange(self.offset + 4, self.offset + 8));
        }
        if len >= MAX_PAYLOAD_LEN {
            return Err(ProtocolError::PayloadTooLarge(len));
        }
        let len = len as usize;
        if available < HEADER_LEN + len {
            self.compact();
            return Ok(None);
        }
        let opcode = match Opcode::from_raw(raw_opcode) {
            Some(opcode) => opcode,
            None => return Err(ProtocolError::UnknownOpcode(raw_opcode)),
        };
        let start = self.offset + HEADER_LEN;
        let payload = copy_range(self.buf.as_slice(), start, start + len);
        proof {
            assert(payload@ =~= pending.subrange(HEADER_LEN as int, HEADER_LEN + len));
        }
        self.offset = start + len;
        proof {
            assert(self@ =~= pending.skip(HEADER_LEN + len));
        }
        self.compact();
        Ok(Some(Frame { opcode, payload }))
    }
}

impl Default for FrameDecoder {
    fn default() -> (d: Self)
        ensures
            d.wf(),
            d@ == Seq::<u8>::empty(),
            d.retained() == 0,
    {
        FrameDecoder::new()
    }
}

// MARK: - Laws of the framing

/// A frame read back from what was written, with bytes of the next frame
/// behind it, is the frame that was written, and exactly those bytes are left.
pub proof fn lemma_frame_round_trips(op: Opcode, body: Seq<u8>, rest: Seq<u8>)
    requires
        body.len() < MAX_PAYLOAD_LEN,
    ensures
        decode_step(frame_bytes(op, body) + rest) == (
            Ok::<Option<(Opcode, Seq<u8>)>, ProtocolError>(Some((op, body))),
            rest,
        ),
{
    let bytes = frame_bytes(op, body) + rest;
    lemma_le_round_trip(opcode_raw(op));
    lemma_le_round_trip(body.len() as u32);
    assert(bytes.subrange(0, 4) =~= le_bytes(opcode_raw(op)));
    assert(bytes.subrange(4, 8) =~= le_bytes(body.len() as u32));
    assert(bytes.subrange(8, 8 + body.len() as int) =~= body);
    assert(bytes.skip(8 + body.len() as int) =~= rest);
}

/// Any strict prefix of a frame decodes to nothing yet and keeps every byte,
/// however the transport happened to split it.
pub proof fn lemma_partial_frame_waits(op: Opcode, body: Seq<u8>, k: int)
    requires
        body.len() < MAX_PAYLOAD_LEN,
        0 <= k < frame_bytes(op, body).len(),
    ensures
        decode_step(frame_bytes(op, body).take(k)) == (
            Ok::<Option<(Opcode, Seq<u8>)>, ProtocolError>(None),
            frame_bytes(op, body).take(k),
        ),
{
    let bytes = frame_bytes(op, body);
    let part = bytes.take(k);
    lemma_le_round_trip(opcode_raw(op));
    lemma_le_round_trip(body.len() as u32);
    if k >= 8 {
        assert(part.subrange(4, 8) =~= le_bytes(body.len() as u32));
    }
}

// MARK: - Reading a stream

/// The bytes of `frames` written one after another.
pub open spec fn stream_bytes(frames: Seq<(Opcode, Seq<u8>)>) -> Seq<u8>
    decreases frames.len(),
{
    if frames.len() == 0 {
        Seq::empty()
    } else {
        frame_bytes(frames[0].0, frames[0].1) + stream_bytes(frames.drop_first())
    }
}

/// Every body is under the length limit.
pub open spec fn bodies_fit(frames: Seq<(Opcode, Seq<u8>)>) -> bool {
    forall|i: int| 0 <= i < frames.len() ==> (#[trigger] frames[i]).1.len() < MAX_PAYLOAD_LEN
}

/// What reading frames out of `pending` gives, read after read, until no
/// whole frame is left: the frames in order, the bytes still pending, and
/// whether the reading stopped for want of bytes rather than at an error.
pub open spec fn drained(pending: Seq<u8>) -> (Seq<(Opcode, Seq<u8>)>, Seq<u8>, bool)
    decreases pending.len(),
{
    match decode_step(pending).0 {
        Ok(Some(frame)) => {
            let next = drained(decode_step(pending).1);
            (seq![frame] + next.0, next.1, next.2)
        },
        Ok(None) => (Seq::empty(), pending, true),
        Err(_) => (Seq::empty(), pending, false),
    }
}

/// Pushing `chunks` one after another behind `pending` and draining after
/// each push: every frame read, in order, the bytes pending at the end, and
/// whether every drain stopped for want of bytes.
pub open spec fn fed(pending: Seq<u8>, chunks: Seq<Seq<u8>>) -> (Seq<(Opcode, Seq<u8>)>, Seq<u8>, bool)
    decreases chunks.len(),
{
    if chunks.len() == 0 {
        (Seq::empty(), pending, true)
    } else {
        let now = drained(pending + chunks[0]);
        let later = fed(now.1, chunks.drop_first());
        (now.0 + later.0, later.1, now.2 && later.2)
    }
}

/// Draining any prefix of a stream gives the frames wholly inside it, in
/// order, and keeps the start of the next frame pending.
proof fn lemma_prefix_drains(frames: Seq<(Opcode, Seq<u8>)>, c: int)
    requires
        bodies_fit(frames),
        0 <= c <= stream_bytes(frames).len(),
    ensures
        ({
            let got = drained(stream_bytes(frames).take(c));
            &&& got.2
            &&& got.0.len() <= frames.len()
            &&& got.0 == frames.take(got.0.len() as int)
            &&& got.1 + stream_bytes(frames).skip(c) == stream_bytes(frames.skip(got.0.len() as int))
            &&& got.0.len() < frames.len() ==> got.1.len() < frame_bytes(
                frames[got.0.len() as int].0,
                frames[got.0.len() as int].1,
            ).len()
        }),
    decreases frames.len(),
{
    let s = stream_bytes(frames);
    let p = s.take(c);
    if frames.len() == 0 {
        assert(p =~= Seq::<u8>::empty());
        assert(frames.skip(0) =~= frames);
        assert(frames.take(0) =~= frames);
    } else {
        let (op, body) = frames[0];
        let first = frame_bytes(op, body);
        let tail = frames.drop_first();
        let rest = stream_bytes(tail);
        assert(s == first + rest);
        assert(frames.skip(0) =~= frames);
        if c < first.len() {
            assert(p =~= first.take(c));
            lemma_partial_frame_waits(op, body, c);
            assert(frames.take(0) =~= Seq::<(Opcode, Seq<u8>)>::empty());
            assert(p + s.skip(c) =~= s);
        } else {
            let k = c - first.len();
            assert(bodies_fit(tail)) by {
                assert forall|i: int| 0 <= i < tail.len() implies (#[trigger] tail[i]).1.len()
                    < MAX_PAYLOAD_LEN by {
                    assert(tail[i] == frames[i + 1]);
                }
            }
            assert(p =~= first + rest.take(k));
            lemma_frame_round_trips(op, body, rest.take(k));
            lemma_prefix_drains(tail, k);
            let inner = drained(rest.take(k));
            let got = drained(p);
            assert(got.0 == seq![(op, body)] + inner.0);
            let n = inner.0.len() as int;
            assert(got.0 =~= frames.take(n + 1));
            assert(s.skip(c) =~= rest.skip(k));
            assert(tail.skip(n) =~= frames.skip(n + 1));
            if n < tail.len() {
                assert(frames[n + 1] == tail[n]);
            }
        }
    }
}

/// Draining keeps going from wherever the last drain stopped: given the
/// start of a stream's first frame pending and the rest of the stream in
/// chunks, feeding them yields every frame with nothing left over.
proof fn lemma_feeding_finishes(frames: Seq<(Opcode, Seq<u8>)>, pending: Seq<u8>, chunks: Seq<Seq<u8>>)
    requires
        bodies_fit(frames),
        pending + chunks.flatten() == stream_bytes(frames),
        frames.len() > 0 ==> pending.len() < frame_bytes(frames[0].0, frames[0].1).len(),
    ensures
        fed(pending, chunks) == (frames, Seq::<u8>::empty(), true),
    decreases chunks.len(),
{
    let s = stream_bytes(frames);
    if chunks.len() == 0 {
        assert(pending =~= s);
        if frames.len() > 0 {
            assert(s == frame_bytes(frames[0].0, frames[0].1) + stream_bytes(frames.drop_first()));
        }
        assert(frames =~= Seq::<(Opcode, Seq<u8>)>::empty());
    } else {
        let c: int = (pending.len() + chunks[0].len()) as int;
        assert(chunks.flatten() == chunks[0] + chunks.drop_first().flatten());
        assert(pending + chunks[0] =~= s.take(c));
        assert(s.skip(c) =~= chunks.drop_first().flatten());
        lemma_prefix_drains(frames, c);
        let now = drained(s.take(c));
        let n = now.0.len() as int;
        let tail = frames.skip(n);
        assert(bodies_fit(tail)) by {
            assert forall|i: int| 0 <= i < tail.len() implies (#[trigger] tail[i]).1.len()
                < MAX_PAYLOAD_LEN by {
                assert(tail[i] == frames[i + n]);
            }
        }
        if n < frames.len() {
            assert(tail[0] == frames[n]);
        }
        lemma_feeding_finishes(tail, now.1, chunks.drop_first());
        assert(frames.take(n) + tail =~= frames);
    }
}

/// However the transport cuts a stream of frames into chunks, at any offset,
/// inside headers too, pushing the chunks one by one and reading frames until
/// none is whole after each push yields every frame in order and intact,
/// meets no error, and leaves nothing pending.
pub proof fn lemma_stream_reassembles(frames: Seq<(Opcode, Seq<u8>)>, chunks: Seq<Seq<u8>>)
    requires
        bodies_fit(frames),
        chunks.flatten() == stream_bytes(frames),
    ensures
        fed(Seq::empty(), chunks) == (frames, Seq::<u8>::empty(), true),
{
    assert(Seq::<u8>::empty() + chunks.flatten() =~= chunks.flatten());
    lemma_feeding_finishes(frames, Seq::empty(), chunks);
}

} // verus!
