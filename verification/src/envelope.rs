//! Message framing: each message in a stream travels in an envelope of one
//! byte of flags, four bytes of length and the payload.

use vstd::prelude::*;
use crate::compression::{CompressionPolicy, CompressionRegistry};
use crate::compression;
use crate::error::ConnectError;
use crate::error;

verus! {

/// The bytes of an envelope before the payload.
pub const HEADER_SIZE: usize = 5;

/// The most bytes one message may have unless the caller says otherwise.
pub const DEFAULT_MAX_MESSAGE_SIZE: usize = 4_194_304;

/// Room for a gRPC-Web trailer frame, or an END_STREAM envelope, next to a
/// message of the largest size in a response buffer.
pub const RESPONSE_BUFFER_TRAILER_SLACK: usize = 65_536;

/// Whether the flag for a compressed payload is set.
pub open spec fn has_compressed_flag(flags: u8) -> bool {
    flags & 1 != 0
}

/// Whether the flag for the end of a Connect stream is set.
pub open spec fn has_end_stream_flag(flags: u8) -> bool {
    flags & 2 != 0
}

/// Whether the flag for a gRPC-Web trailer frame is set.
pub open spec fn has_trailer_flag(flags: u8) -> bool {
    flags & 0x80 != 0
}

/// The length in the header of the frame that begins at `offset`.
pub open spec fn length_at(data: Seq<u8>, offset: int) -> nat {
    (data[offset + 1] * 16777216 + data[offset + 2] * 65536 + data[offset + 3] * 256 + data[offset
        + 4]) as nat
}

/// A length in four bytes, most significant first.
pub open spec fn length_bytes(n: nat) -> Seq<u8> {
    seq![
        (n / 16777216 % 256) as u8,
        (n / 65536 % 256) as u8,
        (n / 256 % 256) as u8,
        (n % 256) as u8,
    ]
}

/// A payload in its envelope.
pub open spec fn framed(flags: u8, payload: Seq<u8>) -> Seq<u8> {
    seq![flags] + length_bytes(payload.len()) + payload
}

/// What taking an envelope from the front of a buffer gives.
pub enum Taken {
    /// The buffer does not hold a whole envelope.
    Incomplete,
    /// The envelope's payload is over the limit.
    TooLarge(nat),
    /// An envelope, and what follows it.
    Frame { flags: u8, payload: Seq<u8>, rest: Seq<u8> },
}

/// Takes an envelope from the front of a buffer.
pub open spec fn take_envelope(buf: Seq<u8>, limit: nat) -> Taken {
    if buf.len() < HEADER_SIZE {
        Taken::Incomplete
    } else if length_at(buf, 0) > limit {
        Taken::TooLarge(length_at(buf, 0))
    } else if buf.len() < HEADER_SIZE + length_at(buf, 0) {
        Taken::Incomplete
    } else {
        let end = HEADER_SIZE + length_at(buf, 0);
        Taken::Frame {
            flags: buf[0],
            payload: buf.subrange(HEADER_SIZE as int, end as int),
            rest: buf.skip(end as int),
        }
    }
}

/// A message in its envelope.
#[derive(Debug)]
pub struct Envelope {
    pub flags: u8,
    pub data: Vec<u8>,
}

/// Reads the length in the header of the frame that begins at `offset`.
pub fn read_length(data: &[u8], offset: usize) -> (r: u32)
    requires
        offset + HEADER_SIZE <= data.len(),
    ensures
        r == length_at(data@, offset as int),
{
    data[offset + 1] as u32 * 16777216 + data[offset + 2] as u32 * 65536 + data[offset + 3] as u32
        * 256 + data[offset + 4] as u32
}

impl Envelope {
    /// Whether the payload is compressed.
    pub fn is_compressed(&self) -> (r: bool)
        ensures
            r == has_compressed_flag(self.flags),
    {
        self.flags & 1 != 0
    }

    /// Whether this is the envelope that ends a Connect stream.
    pub fn is_end_stream(&self) -> (r: bool)
        ensures
            r == has_end_stream_flag(self.flags),
    {
        self.flags & 2 != 0
    }

    /// Takes an envelope from the front of a buffer. Gives nothing, and leaves
    /// the buffer alone, when the buffer does not hold a whole envelope; fails
    /// as soon as the header shows a payload over the limit.
    pub fn decode_with_limit(buf: &mut Vec<u8>, limit: usize) -> (r: Result<
        Option<Envelope>,
        ConnectError,
    >)
        ensures
            match take_envelope(old(buf)@, limit as nat) {
                Taken::Incomplete => r == Ok::<Option<Envelope>, ConnectError>(None) && final(buf)@
                    == old(buf)@,
                Taken::TooLarge(size) => {
                    &&& r is Err
                    &&& r->Err_0@ == compression::too_large(size, limit as nat)
                    &&& final(buf)@ == old(buf)@
                },
                Taken::Frame { flags, payload, rest } => {
                    &&& r is Ok
                    &&& r->Ok_0 is Some
                    &&& r->Ok_0->Some_0.flags == flags
                    &&& r->Ok_0->Some_0.data@ == payload
                    &&& final(buf)@ == rest
                },
            },
    {
        if buf.len() < HEADER_SIZE {
            return Ok(None);
        }
        let length: usize = read_length(buf.as_slice(), 0) as usize;
        if length > limit {
            return Err(compression::too_large_error(length, limit));
        }
        if buf.len() - HEADER_SIZE < length {
            return Ok(None);
        }
        let end: usize = HEADER_SIZE + length;
        let flags: u8 = buf[0];
        let data = vstd::slice::slice_to_vec(
            vstd::slice::slice_subrange(buf.as_slice(), HEADER_SIZE, end),
        );
        let rest = vstd::slice::slice_to_vec(
            vstd::slice::slice_subrange(buf.as_slice(), end, buf.len()),
        );
        assert(rest@ =~= buf@.skip(end as int));
        *buf = rest;
        Ok(Some(Envelope { flags, data }))
    }

    /// An envelope with a message.
    pub fn data(data: Vec<u8>) -> (r: Self)
        ensures
            r == (Envelope { flags: 0, data }),
    {
        Envelope { flags: 0, data }
    }

    /// An envelope with a compressed message.
    pub fn compressed(data: Vec<u8>) -> (r: Self)
        ensures
            r == (Envelope { flags: 1, data }),
    {
        Envelope { flags: 1, data }
    }

    /// The envelope that ends a Connect stream.
    pub fn end_stream(data: Vec<u8>) -> (r: Self)
        ensures
            r == (Envelope { flags: 2, data }),
    {
        Envelope { flags: 2, data }
    }

    /// The bytes of the envelope.
    pub fn encode(&self) -> (r: Vec<u8>)
        requires
            self.data@.len() <= u32::MAX,
        ensures
            r@ == framed(self.flags, self.data@),
    {
        let n: u32 = self.data.len() as u32;
        let mut out: Vec<u8> = Vec::new();
        out.push(self.flags);
        out.push((n / 16777216 % 256) as u8);
        out.push((n / 65536 % 256) as u8);
        out.push((n / 256 % 256) as u8);
        out.push((n % 256) as u8);
        let mut tail = vstd::slice::slice_to_vec(self.data.as_slice());
        out.append(&mut tail);
        assert(out@ =~= framed(self.flags, self.data@));
        out
    }
}

/// A length is what its four bytes say.
pub proof fn length_bytes_round_trip(n: nat, flags: u8, tail: Seq<u8>)
    requires
        n <= u32::MAX,
    ensures
        length_at(seq![flags] + length_bytes(n) + tail, 0) == n,
{
    let s = seq![flags] + length_bytes(n) + tail;
    assert(s[1] == (n / 16777216 % 256) as u8);
    assert(s[2] == (n / 65536 % 256) as u8);
    assert(s[3] == (n / 256 % 256) as u8);
    assert(s[4] == (n % 256) as u8);
}

/// Taking an envelope gives back what was framed, and leaves what follows.
pub proof fn take_inverts_framing(flags: u8, payload: Seq<u8>, rest: Seq<u8>, limit: nat)
    requires
        payload.len() <= u32::MAX,
        payload.len() <= limit,
    ensures
        take_envelope(framed(flags, payload) + rest, limit) == (Taken::Frame {
            flags,
            payload,
            rest,
        }),
{
    let buf = framed(flags, payload) + rest;
    assert(buf =~= seq![flags] + length_bytes(payload.len()) + (payload + rest));
    length_bytes_round_trip(payload.len(), flags, payload + rest);
    assert(buf.subrange(5, 5 + payload.len() as int) =~= payload);
    assert(buf.skip(5 + payload.len() as int) =~= rest);
}

/// A payload over the limit is refused by its header alone.
pub proof fn take_refuses_large_payload(flags: u8, payload: Seq<u8>, rest: Seq<u8>, limit: nat)
    requires
        limit < payload.len() <= u32::MAX,
    ensures
        take_envelope(framed(flags, payload) + rest, limit) == Taken::TooLarge(payload.len()),
{
    let buf = framed(flags, payload) + rest;
    assert(buf =~= seq![flags] + length_bytes(payload.len()) + (payload + rest));
    length_bytes_round_trip(payload.len(), flags, payload + rest);
}

/// More bytes at the end of a buffer do not change the envelope at its front.
pub proof fn take_is_stable(buf: Seq<u8>, more: Seq<u8>, limit: nat)
    ensures
        match take_envelope(buf, limit) {
            Taken::Incomplete => true,
            Taken::TooLarge(n) => take_envelope(buf + more, limit) == Taken::TooLarge(n),
            Taken::Frame { flags, payload, rest } => take_envelope(buf + more, limit)
                == (Taken::Frame { flags, payload, rest: rest + more }),
        },
{
    if buf.len() >= HEADER_SIZE {
        assert(length_at(buf + more, 0) == length_at(buf, 0));
        if let Taken::Frame { flags, payload, rest } = take_envelope(buf, limit) {
            let end = (HEADER_SIZE + length_at(buf, 0)) as int;
            assert((buf + more).subrange(5, end) =~= payload);
            assert((buf + more).skip(end) =~= rest + more);
        }
    }
}

/// The end of the first complete gRPC-Web trailer frame at or after `offset`,
/// looking only at complete frames one after the other.
pub open spec fn trailer_frame_end(data: Seq<u8>, offset: nat) -> Option<nat>
    decreases data.len() - offset,
{
    if offset > data.len() || data.len() - offset < HEADER_SIZE {
        None
    } else {
        let end = offset + HEADER_SIZE as nat + length_at(data, offset as int);
        if end > data.len() {
            None
        } else if has_trailer_flag(data[offset as int]) {
            Some(end)
        } else {
            trailer_frame_end(data, end)
        }
    }
}

/// The end of the first complete gRPC-Web trailer frame, if there is one.
pub fn grpc_web_trailer_frame_end(data: &[u8]) -> (r: Option<usize>)
    ensures
        match r {
            Some(end) => trailer_frame_end(data@, 0) == Some(end as nat) && end <= data@.len(),
            None => trailer_frame_end(data@, 0) is None,
        },
{
    let mut offset: usize = 0;
    while data.len() - offset >= HEADER_SIZE
        invariant
            offset <= data@.len(),
            trailer_frame_end(data@, 0) == trailer_frame_end(data@, offset as nat),
        decreases data@.len() - offset,
    {
        let length: usize = read_length(data, offset) as usize;
        if data.len() - offset - HEADER_SIZE < length {
            return None;
        }
        let frame_end: usize = offset + HEADER_SIZE + length;
        if data[offset] & 0x80 != 0 {
            return Some(frame_end);
        }
        offset = frame_end;
    }
    None
}

/// Once a complete trailer frame is there, more bytes do not change where it
/// ends.
pub proof fn trailer_frame_end_is_stable(data: Seq<u8>, more: Seq<u8>, offset: nat)
    ensures
        trailer_frame_end(data, offset) matches Some(end) ==> {
            &&& end <= data.len()
            &&& trailer_frame_end(data + more, offset) == Some(end)
        },
    decreases data.len() - offset,
{
    if offset <= data.len() && data.len() - offset >= HEADER_SIZE {
        let end = offset + HEADER_SIZE as nat + length_at(data, offset as int);
        assert(length_at(data + more, offset as int) == length_at(data, offset as int));
        if end <= data.len() && !has_trailer_flag(data[offset as int]) {
            trailer_frame_end_is_stable(data, more, end);
        }
    }
}

/// A trailer frame is found by what comes up to its end alone.
pub proof fn trailer_frame_ends_inside(data: Seq<u8>, offset: nat)
    ensures
        trailer_frame_end(data, offset) matches Some(end) ==> {
            &&& offset + HEADER_SIZE <= end <= data.len()
            &&& trailer_frame_end(data.take(end as int), offset) == Some(end)
        },
    decreases data.len() - offset,
{
    if let Some(end) = trailer_frame_end(data, offset) {
        let frame_end = offset + HEADER_SIZE as nat + length_at(data, offset as int);
        if !has_trailer_flag(data[offset as int]) {
            trailer_frame_ends_inside(data, frame_end);
        }
        let cut = data.take(end as int);
        assert(length_at(cut, offset as int) == length_at(data, offset as int));
    }
}

/// Puts messages into envelopes, compressing them first where the policy says
/// so.
#[derive(Debug)]
pub struct EnvelopeEncoder {
    pub compression: Option<(CompressionRegistry, String)>,
    pub policy: CompressionPolicy,
}

/// An encoder in mathematical terms.
pub struct EncoderView {
    pub compression: Option<(CompressionRegistry, Seq<char>)>,
    pub policy: CompressionPolicy,
}

impl View for EnvelopeEncoder {
    type V = EncoderView;

    open spec fn view(&self) -> EncoderView {
        EncoderView {
            compression: match self.compression {
                Some(c) => Some((c.0, c.1@)),
                None => None,
            },
            policy: self.policy,
        }
    }
}

impl EncoderView {
    /// Whether a message of this size is compressed.
    pub open spec fn compresses(self, size: nat) -> bool {
        self.compression is Some && self.policy.applies(size)
    }

    /// The flags of the envelope of a message of this size.
    pub open spec fn flags_for(self, size: nat) -> u8 {
        if self.compresses(size) {
            1
        } else {
            0
        }
    }

    /// Whether `payload` is what a message travels as.
    pub open spec fn carries(self, message: Seq<u8>, payload: Seq<u8>) -> bool {
        if self.compresses(message.len()) {
            let c = self.compression->Some_0;
            c.0.is_packed(c.1, message, payload)
        } else {
            payload == message
        }
    }

    /// Whether a message of this size would have to be compressed with an
    /// encoding that is not known.
    pub open spec fn lacks_encoding(self, size: nat) -> bool {
        &&& self.compresses(size)
        &&& self.compression->Some_0.1 != "identity"@
        &&& !self.compression->Some_0.0.knows(self.compression->Some_0.1)
    }

    /// What encoding a message gives: the message, or its compressed form, in
    /// an envelope; or an error when the encoding is not known or the payload
    /// does not fit into an envelope.
    pub open spec fn encodes(
        self,
        message: Seq<u8>,
        r: Result<Seq<u8>, error::ErrorView>,
    ) -> bool {
        match r {
            Ok(out) => exists|payload: Seq<u8>|
                #![trigger self.carries(message, payload)]
                self.carries(message, payload) && payload.len() <= u32::MAX && out == framed(
                    self.flags_for(message.len()),
                    payload,
                ),
            Err(e) => {
                ||| self.lacks_encoding(message.len()) && e
                    == CompressionRegistry::unknown_encoding(self.compression->Some_0.1)
                ||| exists|payload: Seq<u8>|
                    #![trigger self.carries(message, payload)]
                    self.carries(message, payload) && payload.len() > u32::MAX && e
                        == compression::too_large(payload.len(), u32::MAX as nat)
            },
        }
    }
}

impl EnvelopeEncoder {
    /// An encoder with a compression and a policy.
    pub fn new(
        compression: Option<(CompressionRegistry, &str)>,
        policy: CompressionPolicy,
    ) -> (r: Self)
        ensures
            r@ == (EncoderView {
                compression: match compression {
                    Some(c) => Some((c.0, c.1@)),
                    None => None,
                },
                policy,
            }),
    {
        EnvelopeEncoder {
            compression: match compression {
                Some((registry, encoding)) => Some((registry, encoding.to_owned())),
                None => None,
            },
            policy,
        }
    }

    /// Puts a message into its envelope, compressed where the policy says so.
    pub fn encode(&self, message: &[u8]) -> (r: Result<Vec<u8>, ConnectError>)
        ensures
            self@.encodes(message@, compression::outcome_of(r)),
    {
        let envelope = match &self.compression {
            Some((registry, encoding)) if self.policy.should_compress(message.len()) => {
                match registry.compress(encoding.as_str(), message) {
                    Ok(packed) => Envelope::compressed(packed),
                    Err(e) => {
                        return Err(e);
                    },
                }
            },
            _ => Envelope::data(vstd::slice::slice_to_vec(message)),
        };
        assert(self@.carries(message@, envelope.data@));
        if envelope.data.len() as u64 > u32::MAX as u64 {
            return Err(compression::too_large_error(envelope.data.len(), u32::MAX as usize));
        }
        Ok(envelope.encode())
    }
}

/// What an encoder sends, a receiver that knows the encoding takes out of the
/// envelope and, if it was compressed, decompresses to the message that went
/// in, whatever follows in the buffer.
pub proof fn receiving_inverts_sending(
    encoder: EncoderView,
    message: Seq<u8>,
    sent: Seq<u8>,
    rest: Seq<u8>,
    payload_limit: nat,
    limit: usize,
)
    requires
        encoder.encodes(message, Ok(sent)),
        sent.len() <= HEADER_SIZE + payload_limit,
        message.len() <= limit,
    ensures
        (sent + rest).len() >= HEADER_SIZE,
        !has_trailer_flag((sent + rest)[0]),
        take_envelope(sent + rest, payload_limit) matches Taken::Frame {
            flags,
            payload,
            rest: remaining,
        } && {
            &&& remaining == rest
            &&& has_compressed_flag(flags) == encoder.compresses(message.len())
            &&& !has_end_stream_flag(flags)
            &&& !has_compressed_flag(flags) ==> payload == message
            &&& has_compressed_flag(flags) ==> encoder.compression->Some_0.0.decompressed(
                encoder.compression->Some_0.1,
                payload,
                limit,
            ) == Ok::<Seq<u8>, error::ErrorView>(message)
        },
{
    let flags = encoder.flags_for(message.len());
    let payload = choose|payload: Seq<u8>|
        #![trigger encoder.carries(message, payload)]
        encoder.carries(message, payload) && payload.len() <= u32::MAX && sent == framed(
            flags,
            payload,
        );
    assert((sent + rest)[0] == flags);
    take_inverts_framing(flags, payload, rest, payload_limit);
    assert(1u8 & 1 != 0 && 1u8 & 2 == 0 && 0u8 & 1 == 0 && 0u8 & 2 == 0) by (bit_vector);
    assert(1u8 & 0x80 == 0 && 0u8 & 0x80 == 0) by (bit_vector);
    if encoder.compresses(message.len()) {
        let c = encoder.compression->Some_0;
        c.0.decompression_inverts_compression(c.1, message, payload, limit);
    }
}

} // verus!
