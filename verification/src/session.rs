//! Session-level message decoder and encoder cores.
//!
//! The decoder owns one receive buffer and one codec: bytes read from the
//! stream are fed in, assembled messages come out. The encoder owns the
//! write-direction state: it turns outgoing messages into wire bytes and
//! tracks the half-closed state of the write direction. The stream reads
//! and writes themselves happen outside, in the host's event loop.

use crate::bytebuf::buf_bytes;
use crate::bytebuf::buf_contents;
use crate::bytebuf::buf_extend;
use crate::bytebuf::buf_new;
use crate::codec::decode_step;
use crate::codec::WebSocketCodec;
use crate::frame::be_bytes;
use crate::frame::be_val;
use crate::frame::close_payload_bytes;
use crate::frame::lemma_be_bytes_len;
use crate::frame::lemma_be_val_of_be_bytes;
use crate::frame::lemma_parse_unmasked_bytes;
use crate::frame::lemma_pow256_8;
use crate::frame::lemma_unmasked_frame_bytes;
use crate::frame::parse_failure;
use crate::frame::unmasked_frame_bytes;
use crate::frame::wire_frame_len;
use crate::frame::WebSocketError;
use crate::frame::WebSocketFrame;
use crate::frame::WebSocketOpcode;
use bytes::BytesMut;
use vstd::prelude::*;
use vstd::slice::slice_to_vec;
use vstd::string::StringExecFns;
use vstd::utf8::decode_utf8;
use vstd::utf8::encode_utf8;
use vstd::utf8::valid_utf8;

verus! {

/// How many bytes the read loop asks the stream for at a time.
pub const READ_CHUNK_SIZE: usize = 8192;

/// WebSocket message decoder core: a receive buffer and a codec that
/// assembles frames from it. The host feeds in whatever bytes the stream
/// yields and asks for the next message.
pub struct WebSocketDecoder {
    codec: WebSocketCodec,
    buffer: BytesMut,
}

impl WebSocketDecoder {
    /// The bytes received and not yet consumed by a parsed frame.
    pub closed spec fn buffered(self) -> Seq<u8> {
        buf_contents(self.buffer)
    }

    /// The fragmentation state of the codec.
    pub closed spec fn codec_view(self) -> WebSocketCodec {
        self.codec
    }

    /// The decoder is well formed when its codec is.
    pub closed spec fn wf(self) -> bool {
        self.codec.wf()
    }

    /// Create a new decoder with an empty buffer and an idle codec.
    pub fn new() -> (r: Self)
        ensures
            r.wf(),
            r.buffered() == Seq::<u8>::empty(),
            r.codec_view().frags().len() == 0,
            r.codec_view().pending_opcode() is None,
    {
        WebSocketDecoder { codec: WebSocketCodec::new(), buffer: buf_new() }
    }

    /// Append bytes read from the stream to the receive buffer.
    pub fn feed(&mut self, data: &[u8])
        ensures
            final(self).buffered() == old(self).buffered() + data@,
            final(self).codec_view() == old(self).codec_view(),
            final(self).wf() == old(self).wf(),
    {
        buf_extend(&mut self.buffer, data);
    }

    /// Try to decode the next message from the buffered bytes.
    ///
    /// Returns `Ok(Some(frame))` if a complete message or control frame
    /// was assembled, `Ok(None)` if more bytes are needed, and a fatal
    /// error if the buffered bytes violate the protocol; a fatal error
    /// aborts decoding and clears the fragmentation state.
    pub fn next_message(&mut self) -> (r: Result<Option<WebSocketFrame>, WebSocketError>)
        requires
            old(self).wf(),
        ensures
            final(self).wf(),
            ({
                let d = old(self).buffered();
                match parse_failure(d) {
                    Some(e) => {
                        &&& final(self).buffered() == d
                        &&& (if e is IncompleteFrame {
                            r == Ok::<Option<WebSocketFrame>, WebSocketError>(None)
                                && final(self).codec_view() == old(self).codec_view()
                        } else {
                            &&& r == Err::<Option<WebSocketFrame>, WebSocketError>(e)
                            &&& final(self).codec_view().frags().len() == 0
                            &&& final(self).codec_view().pending_opcode() is None
                        })
                    },
                    None => {
                        &&& final(self).buffered() == d.skip(wire_frame_len(d))
                        &&& decode_step(
                            old(self).codec_view(),
                            final(self).codec_view(),
                            d,
                            r,
                        )
                    },
                }
            }),
    {
        self.codec.decode(&mut self.buffer)
    }
}

/// WebSocket message encoder core: it turns outgoing messages into the
/// bytes to put on the wire and tracks whether the write direction has
/// been half-closed. Once closed, every further message write fails; the
/// host performs the actual stream writes and shutdown.
pub struct WebSocketEncoder {
    codec: WebSocketCodec,
    closed: bool,
}

impl WebSocketEncoder {
    /// Whether the write direction has been half-closed.
    pub closed spec fn is_closed(self) -> bool {
        self.closed
    }

    /// Create a new encoder with the write direction open.
    pub fn new() -> (r: Self)
        ensures
            !r.is_closed(),
    {
        WebSocketEncoder { codec: WebSocketCodec::new(), closed: false }
    }

    /// Encode a text message as a single final unmasked frame.
    ///
    /// Returns the wire bytes to write, or an error when the write
    /// direction is already closed.
    pub fn write_text(&mut self, text: &str) -> (r: Result<Vec<u8>, WebSocketError>)
        ensures
            final(self).is_closed() == old(self).is_closed(),
            old(self).is_closed() ==> (r matches Err(e) && closed_error(e)),
            !old(self).is_closed() ==> (r matches Ok(b) && b@ == unmasked_frame_bytes(
                true,
                WebSocketOpcode::Text,
                encode_utf8(text@),
            )),
    {
        if self.closed {
            return Err(closed_stream_error());
        }
        let frame = WebSocketFrame::new_text(String::from_str(text), true);
        let bytes = self.encode_frame(frame);
        Ok(bytes)
    }

    /// Encode a binary message as a single final unmasked frame.
    ///
    /// Returns the wire bytes to write, or an error when the write
    /// direction is already closed.
    pub fn write_binary(&mut self, data: &[u8]) -> (r: Result<Vec<u8>, WebSocketError>)
        ensures
            final(self).is_closed() == old(self).is_closed(),
            old(self).is_closed() ==> (r matches Err(e) && closed_error(e)),
            !old(self).is_closed() ==> (r matches Ok(b) && b@ == unmasked_frame_bytes(
                true,
                WebSocketOpcode::Binary,
                data@,
            )),
    {
        if self.closed {
            return Err(closed_stream_error());
        }
        let frame = WebSocketFrame::new_binary(slice_to_vec(data), true);
        let bytes = self.encode_frame(frame);
        Ok(bytes)
    }

    /// Encode a close frame with optional code and reason, and half-close
    /// the write direction: a second call must fail, not silently succeed.
    ///
    /// Returns the wire bytes to write before the host shuts the stream
    /// down, or an error when the write direction is already closed.
    pub fn write_close(&mut self, code: Option<u16>, reason: Option<&str>) -> (r: Result<
        Vec<u8>,
        WebSocketError,
    >)
        ensures
            old(self).is_closed() ==> (r matches Err(e) && closed_error(e)
                && final(self).is_closed()),
            !old(self).is_closed() ==> {
                &&& final(self).is_closed()
                &&& r matches Ok(b)
                &&& code is None ==> (r matches Ok(b) && b@ == unmasked_frame_bytes(
                    true,
                    WebSocketOpcode::Close,
                    close_payload_bytes(None, None),
                ))
                &&& code matches Some(c) ==> (reason is None ==> (r matches Ok(b) && b@
                    == unmasked_frame_bytes(
                    true,
                    WebSocketOpcode::Close,
                    close_payload_bytes(Some(c), None),
                )))
                &&& code matches Some(c) ==> (reason matches Some(text) ==> (r matches Ok(b) && b@
                    == unmasked_frame_bytes(
                    true,
                    WebSocketOpcode::Close,
                    close_payload_bytes(Some(c), Some(text@)),
                )))
            },
    {
        if self.closed {
            return Err(closed_stream_error());
        }
        let frame = WebSocketFrame::new_close(code, reason);
        let bytes = self.encode_frame(frame);
        self.closed = true;
        Ok(bytes)
    }

    /// Half-close the write direction without sending a close frame.
    ///
    /// Calling it more than once succeeds every time.
    pub fn end(&mut self) -> (r: Result<(), WebSocketError>)
        ensures
            r is Ok,
            final(self).is_closed(),
    {
        self.closed = true;
        Ok(())
    }

    /// Encode one outgoing frame through the codec into wire bytes.
    fn encode_frame(&mut self, frame: WebSocketFrame) -> (r: Vec<u8>)
        requires
            !frame.rsv1 && !frame.rsv2 && !frame.rsv3,
        ensures
            r@ == unmasked_frame_bytes(frame.fin, frame.opcode, frame.payload@),
            final(self).is_closed() == old(self).is_closed(),
    {
        proof {
            lemma_unmasked_frame_bytes(frame);
        }
        let mut out = buf_new();
        let ghost f = frame;
        let res = self.codec.encode(frame, &mut out);
        proof {
            assert(buf_contents(out) =~= unmasked_frame_bytes(f.fin, f.opcode, f.payload@));
        }
        let bytes = slice_to_vec(buf_bytes(&out));
        bytes
    }
}

/// The error reported for a write on a half-closed write direction.
pub open spec fn closed_error(e: WebSocketError) -> bool {
    e matches WebSocketError::IoError(m) && m@ == "stream is closed"@
}

/// Build the error for a write on a half-closed write direction.
fn closed_stream_error() -> (r: WebSocketError)
    ensures
        closed_error(r),
{
    WebSocketError::IoError(String::from_str("stream is closed"))
}

/// Over a connected pair: the bytes `write_text` puts on the wire,
/// decoded on the other side, parse without error and surface as one
/// final Text frame whose payload decodes to exactly the text written.
pub proof fn lemma_text_message_roundtrip(
    text: Seq<char>,
    pre: WebSocketCodec,
    post: WebSocketCodec,
    r: Result<Option<WebSocketFrame>, WebSocketError>,
)
    requires
        encode_utf8(text).len() <= usize::MAX,
        decode_step(
            pre,
            post,
            unmasked_frame_bytes(true, WebSocketOpcode::Text, encode_utf8(text)),
            r,
        ),
    ensures
        parse_failure(unmasked_frame_bytes(true, WebSocketOpcode::Text, encode_utf8(text)))
            is None,
        match r {
            Ok(Some(f)) => {
                &&& f.opcode is Text
                &&& f.fin
                &&& f.payload@ == encode_utf8(text)
                &&& valid_utf8(f.payload@)
                &&& decode_utf8(f.payload@) == text
            },
            _ => false,
        },
{
    vstd::utf8::encode_utf8_valid_utf8(text);
    vstd::utf8::encode_utf8_decode_utf8(text);
    lemma_parse_unmasked_bytes(true, WebSocketOpcode::Text, encode_utf8(text));
}

/// Over a connected pair: the bytes `write_close` puts on the wire for a
/// status code and reason, decoded on the other side, parse without
/// error and surface as a Close frame carrying exactly that code and
/// reason.
pub proof fn lemma_close_message_roundtrip(
    code: u16,
    reason: Seq<char>,
    pre: WebSocketCodec,
    post: WebSocketCodec,
    r: Result<Option<WebSocketFrame>, WebSocketError>,
)
    requires
        2 + encode_utf8(reason).len() <= 125,
        decode_step(
            pre,
            post,
            unmasked_frame_bytes(
                true,
                WebSocketOpcode::Close,
                close_payload_bytes(Some(code), Some(reason)),
            ),
            r,
        ),
    ensures
        parse_failure(
            unmasked_frame_bytes(
                true,
                WebSocketOpcode::Close,
                close_payload_bytes(Some(code), Some(reason)),
            ),
        ) is None,
        match r {
            Ok(Some(f)) => {
                &&& f.opcode is Close
                &&& f.payload@ == close_payload_bytes(Some(code), Some(reason))
                &&& f.payload@.len() >= 2
                &&& be_val(f.payload@.take(2)) == code
                &&& valid_utf8(f.payload@.skip(2))
                &&& decode_utf8(f.payload@.skip(2)) == reason
            },
            _ => false,
        },
{
    let rb = encode_utf8(reason);
    let payload = close_payload_bytes(Some(code), Some(reason));
    lemma_pow256_8();
    lemma_be_bytes_len(code as nat, 2);
    lemma_be_val_of_be_bytes(code as nat, 2);
    assert(payload.take(2) =~= be_bytes(code as nat, 2));
    assert(payload.skip(2) =~= rb);
    vstd::utf8::encode_utf8_valid_utf8(reason);
    vstd::utf8::encode_utf8_decode_utf8(reason);
    lemma_parse_unmasked_bytes(true, WebSocketOpcode::Close, payload);
}

} // verus!
