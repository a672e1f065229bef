//! WebSocket codec: turns a raw byte buffer into fully assembled message
//! frames (handling fragmentation) and turns outgoing frames into bytes.

use crate::bytebuf::buf_advance;
use crate::bytebuf::buf_bytes;
use crate::bytebuf::buf_contents;
use crate::bytebuf::buf_extend;
use crate::frame::frame_bytes;
use crate::frame::opcode_is_control;
use crate::frame::parse_failure;
use crate::frame::wire_fin;
use crate::frame::wire_frame_len;
use crate::frame::wire_masked;
use crate::frame::wire_opcode;
use crate::frame::wire_payload;
use crate::frame::WebSocketError;
use crate::frame::WebSocketFrame;
use crate::frame::WebSocketOpcode;
use bytes::BytesMut;
use vstd::prelude::*;

verus! {

/// The ordered view of a fragment list: one byte sequence per fragment.
pub open spec fn frags_view(v: Vec<Vec<u8>>) -> Seq<Seq<u8>> {
    Seq::new(v@.len(), |i: int| v@[i]@)
}

/// All fragments concatenated in arrival order.
pub open spec fn concat_frags(frags: Seq<Seq<u8>>) -> Seq<u8>
    decreases frags.len(),
{
    if frags.len() == 0 {
        Seq::empty()
    } else {
        concat_frags(frags.drop_last()) + frags.last()
    }
}

/// WebSocket codec holding the fragmentation state of one receive
/// direction: the pending payload fragments and the opcode of the
/// message's first frame.
pub struct WebSocketCodec {
    /// Fragments being assembled into a complete message
    fragments: Vec<Vec<u8>>,
    /// Opcode of the first fragment (determines final message type)
    message_opcode: Option<WebSocketOpcode>,
}

impl WebSocketCodec {
    /// The pending payload fragments, oldest first.
    pub closed spec fn frags(self) -> Seq<Seq<u8>> {
        frags_view(self.fragments)
    }

    /// The opcode of the message in progress, if any.
    pub closed spec fn pending_opcode(self) -> Option<WebSocketOpcode> {
        self.message_opcode
    }

    /// Fragments accumulate exactly while a text or binary message is in
    /// progress; both are cleared together.
    pub closed spec fn wf(self) -> bool {
        &&& self.message_opcode is Some <==> self.frags().len() > 0
        &&& (self.message_opcode matches Some(op) ==> (op is Text || op is Binary))
    }

    /// Create a new WebSocket codec with no message in progress.
    pub fn new() -> (r: Self)
        ensures
            r.wf(),
            r.frags().len() == 0,
            r.pending_opcode() is None,
    {
        let r = WebSocketCodec { fragments: Vec::new(), message_opcode: None };
        proof {
            assert(r.frags().len() == 0);
        }
        r
    }

    /// Decode one frame from the front of `src`, if a complete one is
    /// there, folding data frames into the fragmentation state.
    ///
    /// An incomplete frame leaves buffer and state untouched; a fatal
    /// protocol error is propagated, leaves the buffer untouched, and
    /// aborts decoding: the fragment accumulator and the pending opcode
    /// are cleared together.
    pub fn decode(&mut self, src: &mut BytesMut) -> (r: Result<
        Option<WebSocketFrame>,
        WebSocketError,
    >)
        requires
            old(self).wf(),
        ensures
            final(self).wf(),
            ({
                let d = buf_contents(*old(src));
                match parse_failure(d) {
                    Some(e) => {
                        &&& buf_contents(*final(src)) == d
                        &&& (if e is IncompleteFrame {
                            r == Ok::<Option<WebSocketFrame>, WebSocketError>(None) && *final(self)
                                == *old(self)
                        } else {
                            &&& r == Err::<Option<WebSocketFrame>, WebSocketError>(e)
                            &&& final(self).frags().len() == 0
                            &&& final(self).pending_opcode() is None
                        })
                    },
                    None => {
                        &&& buf_contents(*final(src)) == d.skip(wire_frame_len(d))
                        &&& decode_step(*old(self), *final(self), d, r)
                    },
                }
            }),
    {
        match WebSocketFrame::parse(buf_bytes(src)) {
            Ok((frame, consumed)) => {
                let ghost d = buf_contents(*old(src));
                proof {
                    assert(d.len() >= wire_frame_len(d));
                }
                // Advance the buffer by the number of bytes consumed
                buf_advance(src, consumed);

                // Control frames are never fragmented: return immediately
                if frame.opcode.is_control() {
                    return Ok(Some(frame));
                }
                match frame.opcode {
                    WebSocketOpcode::Text | WebSocketOpcode::Binary => {
                        if frame.fin {
                            // Single-frame message - complete immediately
                            self.message_opcode = None;
                            self.fragments.clear();
                            proof {
                                assert(self.frags().len() == 0);
                            }
                            Ok(Some(WebSocketFrame::new_data(frame.opcode, frame.payload, true)))
                        } else {
                            // First fragment: start the accumulator
                            self.message_opcode = Some(frame.opcode);
                            self.fragments.clear();
                            self.fragments.push(frame.payload);
                            proof {
                                assert(self.frags() =~= seq![wire_payload(d)]);
                            }
                            Ok(None)
                        }
                    },
                    WebSocketOpcode::Continuation => {
                        match self.message_opcode {
                            None => {
                                // Continuation without initial frame: wait
                                // for a message to begin
                                Ok(None)
                            },
                            Some(mop) => {
                                let ghost pre_frags = self.frags();
                                self.fragments.push(frame.payload);
                                proof {
                                    assert(self.frags() =~= pre_frags.push(wire_payload(d)));
                                }
                                if frame.fin {
                                    // Final fragment: assemble the message
                                    let payload = concat_fragments(&self.fragments);
                                    self.fragments.clear();
                                    self.message_opcode = None;
                                    proof {
                                        assert(self.frags().len() == 0);
                                    }
                                    Ok(Some(WebSocketFrame::new_data(mop, payload, true)))
                                } else {
                                    // More fragments coming, wait for them
                                    Ok(None)
                                }
                            },
                        }
                    },
                    WebSocketOpcode::Close | WebSocketOpcode::Ping | WebSocketOpcode::Pong => {
                        proof {
                            assert(false);
                        }
                        Ok(None)
                    },
                }
            },
            Err(e) => {
                match e {
                    WebSocketError::IncompleteFrame => Ok(None),
                    _ => {
                        // Fatal: abort decoding, clearing the fragment
                        // accumulator and the pending opcode together
                        self.message_opcode = None;
                        self.fragments.clear();
                        proof {
                            assert(self.frags().len() == 0);
                        }
                        Err(e)
                    },
                }
            },
        }
    }

    /// Append the unmasked encoding of `frame` to `dst`; outgoing frames
    /// from this side of the connection are never masked.
    pub fn encode(&mut self, frame: WebSocketFrame, dst: &mut BytesMut) -> (r: Result<
        (),
        WebSocketError,
    >)
        ensures
            r is Ok,
            *final(self) == *old(self),
            buf_contents(*final(dst)) == buf_contents(*old(dst)) + frame_bytes(frame, None),
    {
        let encoded = frame.encode(None);
        buf_extend(dst, encoded.as_slice());
        Ok(())
    }
}

impl Default for WebSocketCodec {
    /// A codec with no message in progress.
    fn default() -> (r: Self)
        ensures
            r.wf(),
            r.frags().len() == 0,
            r.pending_opcode() is None,
    {
        Self::new()
    }
}

/// What one successful decode step does: how the returned frame and the
/// new fragmentation state follow from the old state and the wire bytes.
pub open spec fn decode_step(
    pre: WebSocketCodec,
    post: WebSocketCodec,
    d: Seq<u8>,
    r: Result<Option<WebSocketFrame>, WebSocketError>,
) -> bool {
    let op = wire_opcode(d);
    let fin = wire_fin(d);
    let payload = wire_payload(d);
    if opcode_is_control(op) {
        // Control frames bypass the fragmentation state entirely
        &&& post == pre
        &&& match r {
            Ok(Some(f)) => {
                &&& f.fin == fin
                &&& !f.rsv1 && !f.rsv2 && !f.rsv3
                &&& f.opcode == op
                &&& f.masked == wire_masked(d)
                &&& f.payload@ == payload
            },
            _ => false,
        }
    } else if op is Text || op is Binary {
        if fin {
            // Single-frame message, emitted at once
            &&& post.frags().len() == 0
            &&& post.pending_opcode() is None
            &&& match r {
                Ok(Some(f)) => {
                    &&& f.fin
                    &&& !f.rsv1 && !f.rsv2 && !f.rsv3
                    &&& f.opcode == op
                    &&& !f.masked
                    &&& f.payload@ == payload
                },
                _ => false,
            }
        } else {
            // First fragment of a new message
            &&& post.frags() == seq![payload]
            &&& post.pending_opcode() == Some(op)
            &&& r == Ok::<Option<WebSocketFrame>, WebSocketError>(None)
        }
    } else {
        match pre.pending_opcode() {
            None => {
                // Continuation with no message in progress: ignored
                &&& post == pre
                &&& r == Ok::<Option<WebSocketFrame>, WebSocketError>(None)
            },
            Some(mop) => {
                if fin {
                    // Final fragment: the whole message is assembled
                    &&& post.frags().len() == 0
                    &&& post.pending_opcode() is None
                    &&& match r {
                        Ok(Some(f)) => {
                            &&& f.fin
                            &&& !f.rsv1 && !f.rsv2 && !f.rsv3
                            &&& f.opcode == mop
                            &&& !f.masked
                            &&& f.payload@ == concat_frags(pre.frags().push(payload))
                        },
                        _ => false,
                    }
                } else {
                    // One more fragment accumulated
                    &&& post.frags() == pre.frags().push(payload)
                    &&& post.pending_opcode() == Some(mop)
                    &&& r == Ok::<Option<WebSocketFrame>, WebSocketError>(None)
                }
            },
        }
    }
}

/// Concatenate all fragments in arrival order into one payload.
fn concat_fragments(frags: &Vec<Vec<u8>>) -> (r: Vec<u8>)
    ensures
        r@ == concat_frags(frags_view(*frags)),
{
    let ghost fv = frags_view(*frags);
    let mut out: Vec<u8> = Vec::new();
    let mut i: usize = 0;
    while i < frags.len()
        invariant
            i <= frags@.len(),
            fv == frags_view(*frags),
            out@ == concat_frags(fv.take(i as int)),
        decreases frags@.len() - i,
    {
        let ghost pre = out@;
        out.extend_from_slice(frags[i].as_slice());
        i = i + 1;
        proof {
            let t = fv.take(i as int);
            assert(t.drop_last() =~= fv.take(i - 1));
            assert(t.last() == fv[i - 1]);
            assert(out@ == concat_frags(t));
        }
    }
    proof {
        assert(fv.take(frags@.len() as int) =~= fv);
    }
    out
}

/// A control frame arriving mid-fragmented-message is surfaced at once
/// and leaves the fragment accumulator exactly as it was.
pub proof fn lemma_control_bypasses_fragments(
    pre: WebSocketCodec,
    post: WebSocketCodec,
    d: Seq<u8>,
    r: Result<Option<WebSocketFrame>, WebSocketError>,
)
    requires
        opcode_is_control(wire_opcode(d)),
        decode_step(pre, post, d, r),
    ensures
        post == pre,
        post.frags() == pre.frags(),
        post.pending_opcode() == pre.pending_opcode(),
        match r {
            Ok(Some(f)) => f.opcode == wire_opcode(d) && f.payload@ == wire_payload(d),
            _ => false,
        },
{
}

} // verus!
