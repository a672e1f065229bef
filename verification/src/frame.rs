//! WebSocket frame parsing and encoding conforming to RFC 6455.

use vstd::prelude::*;
use vstd::slice::slice_to_vec;
use vstd::utf8::decode_utf8;
use vstd::utf8::encode_utf8;
use vstd::utf8::valid_utf8;

verus! {

/// WebSocket opcodes as defined in RFC 6455 Section 5.2.
#[derive(Debug, Clone, Copy, PartialEq, Eq, Structural)]
pub enum WebSocketOpcode {
    /// Continuation frame (0x0)
    Continuation,
    /// Text data frame (0x1)
    Text,
    /// Binary data frame (0x2)
    Binary,
    /// Connection close frame (0x8)
    Close,
    /// Ping frame (0x9)
    Ping,
    /// Pong frame (0xA)
    Pong,
}

/// Errors that can occur during WebSocket frame parsing/encoding.
#[derive(Debug)]
pub enum WebSocketError {
    /// Invalid opcode value
    InvalidOpcode(u8),
    /// Incomplete frame data
    IncompleteFrame,
    /// Control frame exceeds maximum length (125 bytes)
    ControlFrameTooLarge,
    /// Control frame is fragmented (FIN=0)
    ControlFrameFragmented,
    /// Reserved bits are set without negotiated extension
    ReservedBitsSet,
    /// Invalid UTF-8 in text frame
    InvalidUtf8,
    /// Frame too large
    FrameTooLarge,
    /// I/O error
    IoError(String),
}

/// The 4-bit wire value of an opcode.
pub open spec fn opcode_value(op: WebSocketOpcode) -> u8 {
    match op {
        WebSocketOpcode::Continuation => 0x0,
        WebSocketOpcode::Text => 0x1,
        WebSocketOpcode::Binary => 0x2,
        WebSocketOpcode::Close => 0x8,
        WebSocketOpcode::Ping => 0x9,
        WebSocketOpcode::Pong => 0xA,
    }
}

/// The opcode a 4-bit wire value denotes, if any.
pub open spec fn opcode_of(value: u8) -> Option<WebSocketOpcode> {
    if value == 0x0 {
        Some(WebSocketOpcode::Continuation)
    } else if value == 0x1 {
        Some(WebSocketOpcode::Text)
    } else if value == 0x2 {
        Some(WebSocketOpcode::Binary)
    } else if value == 0x8 {
        Some(WebSocketOpcode::Close)
    } else if value == 0x9 {
        Some(WebSocketOpcode::Ping)
    } else if value == 0xA {
        Some(WebSocketOpcode::Pong)
    } else {
        None
    }
}

/// Close, Ping and Pong are control opcodes.
pub open spec fn opcode_is_control(op: WebSocketOpcode) -> bool {
    op is Close || op is Ping || op is Pong
}

/// Text, Binary and Continuation are data opcodes.
pub open spec fn opcode_is_data(op: WebSocketOpcode) -> bool {
    op is Text || op is Binary || op is Continuation
}

impl WebSocketOpcode {
    /// Parse opcode from 4-bit value.
    pub fn from_u8(value: u8) -> (r: Result<Self, WebSocketError>)
        ensures
            match r {
                Ok(op) => opcode_of(value) == Some(op),
                Err(e) => opcode_of(value) is None && e == WebSocketError::InvalidOpcode(value),
            },
    {
        match value {
            0x0 => Ok(WebSocketOpcode::Continuation),
            0x1 => Ok(WebSocketOpcode::Text),
            0x2 => Ok(WebSocketOpcode::Binary),
            0x8 => Ok(WebSocketOpcode::Close),
            0x9 => Ok(WebSocketOpcode::Ping),
            0xA => Ok(WebSocketOpcode::Pong),
            _ => Err(WebSocketError::InvalidOpcode(value)),
        }
    }

    /// Check if this is a control frame opcode.
    pub fn is_control(&self) -> (r: bool)
        ensures
            r == opcode_is_control(*self),
    {
        match self {
            WebSocketOpcode::Close | WebSocketOpcode::Ping | WebSocketOpcode::Pong => true,
            _ => false,
        }
    }

    /// Check if this is a data frame opcode.
    pub fn is_data(&self) -> (r: bool)
        ensures
            r == opcode_is_data(*self),
    {
        match self {
            WebSocketOpcode::Text | WebSocketOpcode::Binary | WebSocketOpcode::Continuation => true,
            _ => false,
        }
    }

    /// The 4-bit wire value of this opcode.
    pub fn value(&self) -> (r: u8)
        ensures
            r == opcode_value(*self),
    {
        match self {
            WebSocketOpcode::Continuation => 0x0,
            WebSocketOpcode::Text => 0x1,
            WebSocketOpcode::Binary => 0x2,
            WebSocketOpcode::Close => 0x8,
            WebSocketOpcode::Ping => 0x9,
            WebSocketOpcode::Pong => 0xA,
        }
    }
}

/// WebSocket frame structure per RFC 6455 Section 5.2.
#[derive(Debug, Clone)]
pub struct WebSocketFrame {
    /// FIN bit: indicates this is the final fragment of a message
    pub fin: bool,
    /// RSV1 bit: reserved for extensions
    pub rsv1: bool,
    /// RSV2 bit: reserved for extensions
    pub rsv2: bool,
    /// RSV3 bit: reserved for extensions
    pub rsv3: bool,
    /// Opcode: identifies the frame type
    pub opcode: WebSocketOpcode,
    /// Mask bit: indicates if the payload arrived masked
    pub masked: bool,
    /// Payload data
    pub payload: Vec<u8>,
}

/// A frame that respects the protocol invariants: reserved bits clear,
/// control frames final and short, final text frames valid UTF-8.
pub open spec fn frame_wf(f: WebSocketFrame) -> bool {
    &&& !f.rsv1 && !f.rsv2 && !f.rsv3
    &&& opcode_is_control(f.opcode) ==> f.fin && f.payload@.len() <= 125
    &&& (f.opcode is Text && f.fin) ==> valid_utf8(f.payload@)
}

// ------------------------------------------------------------------
// Big-endian integer fields
// ------------------------------------------------------------------
/// The value of a big-endian byte string.
pub open spec fn be_val(s: Seq<u8>) -> nat
    decreases s.len(),
{
    if s.len() == 0 {
        0
    } else {
        be_val(s.drop_last()) * 256 + s.last() as nat
    }
}

/// The `k`-byte big-endian encoding of `n` (mod 256^k).
pub open spec fn be_bytes(n: nat, k: nat) -> Seq<u8>
    decreases k,
{
    if k == 0 {
        Seq::empty()
    } else {
        be_bytes(n / 256, (k - 1) as nat).push((n % 256) as u8)
    }
}

/// 256 to the power `k`.
pub open spec fn pow256(k: nat) -> nat
    decreases k,
{
    if k == 0 {
        1
    } else {
        256 * pow256((k - 1) as nat)
    }
}

/// A `k`-byte big-endian encoding has `k` bytes.
pub proof fn lemma_be_bytes_len(n: nat, k: nat)
    ensures
        be_bytes(n, k).len() == k,
    decreases k,
{
    if k > 0 {
        lemma_be_bytes_len(n / 256, (k - 1) as nat);
    }
}

/// Reading back a `k`-byte big-endian encoding yields the value.
pub proof fn lemma_be_val_of_be_bytes(n: nat, k: nat)
    requires
        n < pow256(k),
    ensures
        be_val(be_bytes(n, k)) == n,
    decreases k,
{
    if k == 0 {
    } else {
        let hi = n / 256;
        let lo = n % 256;
        assert(n == hi * 256 + lo) by {
            vstd::arithmetic::div_mod::lemma_fundamental_div_mod(n as int, 256);
        }
        assert(hi < pow256((k - 1) as nat)) by (nonlinear_arith)
            requires
                n < 256 * pow256((k - 1) as nat),
                hi == n / 256,
        ;
        lemma_be_val_of_be_bytes(hi, (k - 1) as nat);
        lemma_be_bytes_len(hi, (k - 1) as nat);
        let s = be_bytes(n, k);
        assert(s == be_bytes(hi, (k - 1) as nat).push(lo as u8));
        assert(s.drop_last() =~= be_bytes(hi, (k - 1) as nat));
        assert(s.last() == lo as u8);
    }
}

/// Append the `k`-byte big-endian encoding of `n` to `out`.
fn push_be(out: &mut Vec<u8>, n: u64, k: usize)
    ensures
        final(out)@ == old(out)@ + be_bytes(n as nat, k as nat),
    decreases k,
{
    if k == 0 {
        assert(final(out)@ =~= old(out)@ + be_bytes(n as nat, 0));
    } else {
        let ghost pre = out@;
        push_be(out, n / 256, k - 1);
        out.push((n % 256) as u8);
        assert(final(out)@ =~= pre + be_bytes(n as nat, k as nat));
    }
}

/// The small powers of 256 the length fields need.
pub proof fn lemma_pow256_8()
    ensures
        pow256(2) == 0x1_0000,
        pow256(8) == 0x1_0000_0000_0000_0000,
{
    assert(pow256(0) == 1);
    assert(pow256(1) == 256);
    assert(pow256(2) == 0x1_0000);
    assert(pow256(3) == 0x100_0000);
    assert(pow256(4) == 0x1_0000_0000);
    assert(pow256(5) == 0x100_0000_0000);
    assert(pow256(6) == 0x1_0000_0000_0000);
    assert(pow256(7) == 0x100_0000_0000_0000);
    assert(pow256(8) == 0x1_0000_0000_0000_0000);
}

/// Read a `k`-byte big-endian value starting at `start`.
fn read_be(data: &[u8], start: usize, k: usize) -> (r: u64)
    requires
        k <= 8,
        start + k <= data@.len(),
    ensures
        r as nat == be_val(data@.subrange(start as int, start + k)),
{
    proof {
        lemma_pow256_8();
    }
    let dlen: usize = data.len();
    let mut val: u64 = 0;
    let mut i: usize = 0;
    while i < k
        invariant
            i <= k,
            k <= 8,
            dlen == data@.len(),
            start + k <= dlen,
            val as nat == be_val(data@.subrange(start as int, start + i)),
            (val as nat) < pow256(i as nat),
            pow256(8) == 0x1_0000_0000_0000_0000,
        decreases k - i,
    {
        proof {
            lemma_pow256_monotone(i as nat, 7);
            assert((val as nat) * 256 + 255 < pow256((i + 1) as nat)) by (nonlinear_arith)
                requires
                    (val as nat) < pow256(i as nat),
                    pow256((i + 1) as nat) == 256 * pow256(i as nat),
            ;
            lemma_pow256_monotone((i + 1) as nat, 8);
        }
        let b = data[start + i];
        let ghost prefix = data@.subrange(start as int, start + i);
        val = val * 256 + (b as u64);
        i = i + 1;
        proof {
            let cur = data@.subrange(start as int, start + i);
            assert(cur.drop_last() =~= prefix);
            assert(cur.last() == b);
        }
    }
    proof {
        assert(data@.subrange(start as int, start + k) == data@.subrange(
            start as int,
            start + i,
        ));
    }
    val
}

proof fn lemma_pow256_monotone(a: nat, b: nat)
    requires
        a <= b,
    ensures
        pow256(a) <= pow256(b),
    decreases b,
{
    if a < b {
        lemma_pow256_monotone(a, (b - 1) as nat);
        assert(pow256(b) == 256 * pow256((b - 1) as nat));
        assert(pow256((b - 1) as nat) <= 256 * pow256((b - 1) as nat)) by (nonlinear_arith)
            requires
                pow256((b - 1) as nat) >= 0,
        ;
    }
}

// ------------------------------------------------------------------
// Masking
// ------------------------------------------------------------------
/// `p` XOR-masked with the 4-byte key `key`, repeating cyclically.
pub open spec fn mask_seq(p: Seq<u8>, key: Seq<u8>) -> Seq<u8> {
    Seq::new(p.len(), |i: int| p[i] ^ key[i % 4])
}

/// Masking is involutive: XOR-masking twice with the same 4-byte key
/// returns the original payload, for any payload and any key.
pub proof fn lemma_mask_involutive(p: Seq<u8>, key: Seq<u8>)
    requires
        key.len() == 4,
    ensures
        mask_seq(mask_seq(p, key), key) == p,
{
    let twice = mask_seq(mask_seq(p, key), key);
    assert forall|i: int| 0 <= i < p.len() implies twice[i] == p[i] by {
        let b = p[i];
        let k = key[i % 4];
        assert((b ^ k) ^ k == b) by (bit_vector);
    }
    assert(twice =~= p);
}

// ------------------------------------------------------------------
// Wire layout of an incoming frame, read off the raw bytes
// ------------------------------------------------------------------
/// FIN bit of the first header byte.
pub open spec fn wire_fin(d: Seq<u8>) -> bool {
    d[0] & 0x80u8 != 0
}

/// RSV1 bit of the first header byte.
pub open spec fn wire_rsv1(d: Seq<u8>) -> bool {
    d[0] & 0x40u8 != 0
}

/// RSV2 bit of the first header byte.
pub open spec fn wire_rsv2(d: Seq<u8>) -> bool {
    d[0] & 0x20u8 != 0
}

/// RSV3 bit of the first header byte.
pub open spec fn wire_rsv3(d: Seq<u8>) -> bool {
    d[0] & 0x10u8 != 0
}

/// Low nibble of the first header byte: the opcode field.
pub open spec fn wire_opcode_bits(d: Seq<u8>) -> u8 {
    d[0] & 0x0fu8
}

/// The opcode the header declares (meaningful when it names one).
pub open spec fn wire_opcode(d: Seq<u8>) -> WebSocketOpcode {
    opcode_of(wire_opcode_bits(d))->0
}

/// MASK bit of the second header byte.
pub open spec fn wire_masked(d: Seq<u8>) -> bool {
    d[1] & 0x80u8 != 0
}

/// Low 7 bits of the second header byte: the length code.
pub open spec fn wire_len_code(d: Seq<u8>) -> u8 {
    d[1] & 0x7fu8
}

/// Number of extended-length bytes the length code calls for.
pub open spec fn wire_ext_len(d: Seq<u8>) -> int {
    if wire_len_code(d) == 126 {
        2
    } else if wire_len_code(d) == 127 {
        8
    } else {
        0
    }
}

/// Header length: two fixed bytes plus the extended-length bytes.
pub open spec fn wire_header_len(d: Seq<u8>) -> int {
    2 + wire_ext_len(d)
}

/// The declared payload length (meaningful when the header is present).
pub open spec fn wire_payload_len(d: Seq<u8>) -> nat {
    if wire_len_code(d) < 126 {
        wire_len_code(d) as nat
    } else {
        be_val(d.subrange(2, 2 + wire_ext_len(d)))
    }
}

/// Number of masking-key bytes: four when the MASK bit is set.
pub open spec fn wire_key_len(d: Seq<u8>) -> int {
    if wire_masked(d) {
        4
    } else {
        0
    }
}

/// Offset of the first payload byte.
pub open spec fn wire_payload_start(d: Seq<u8>) -> int {
    wire_header_len(d) + wire_key_len(d)
}

/// Total frame length: header, masking key and payload.
pub open spec fn wire_frame_len(d: Seq<u8>) -> int {
    wire_payload_start(d) + wire_payload_len(d)
}

/// The 4-byte masking key (meaningful when the MASK bit is set).
pub open spec fn wire_mask_key(d: Seq<u8>) -> Seq<u8> {
    d.subrange(wire_header_len(d), wire_header_len(d) + 4)
}

/// The payload bytes as they stand on the wire.
pub open spec fn wire_raw_payload(d: Seq<u8>) -> Seq<u8> {
    d.subrange(wire_payload_start(d), wire_frame_len(d))
}

/// The payload after unmasking, as the parser returns it.
pub open spec fn wire_payload(d: Seq<u8>) -> Seq<u8> {
    if wire_masked(d) {
        mask_seq(wire_raw_payload(d), wire_mask_key(d))
    } else {
        wire_raw_payload(d)
    }
}

/// The first error the parser reports on `d`, if any, following the
/// order in which the frame format is validated.
pub open spec fn parse_failure(d: Seq<u8>) -> Option<WebSocketError> {
    if d.len() < 2 {
        Some(WebSocketError::IncompleteFrame)
    } else if opcode_of(wire_opcode_bits(d)) is None {
        Some(WebSocketError::InvalidOpcode(wire_opcode_bits(d)))
    } else if d.len() < wire_header_len(d) {
        Some(WebSocketError::IncompleteFrame)
    } else if wire_payload_len(d) > usize::MAX as nat {
        Some(WebSocketError::FrameTooLarge)
    } else if opcode_is_control(wire_opcode(d)) && wire_payload_len(d) > 125 {
        Some(WebSocketError::ControlFrameTooLarge)
    } else if opcode_is_control(wire_opcode(d)) && !wire_fin(d) {
        Some(WebSocketError::ControlFrameFragmented)
    } else if wire_rsv1(d) || wire_rsv2(d) || wire_rsv3(d) {
        Some(WebSocketError::ReservedBitsSet)
    } else if d.len() < wire_payload_start(d) {
        Some(WebSocketError::IncompleteFrame)
    } else if d.len() < wire_frame_len(d) {
        Some(WebSocketError::IncompleteFrame)
    } else if wire_opcode(d) is Text && wire_fin(d) && !valid_utf8(wire_payload(d)) {
        Some(WebSocketError::InvalidUtf8)
    } else {
        None
    }
}

// ------------------------------------------------------------------
// Wire layout of an outgoing frame
// ------------------------------------------------------------------
/// First header byte: FIN, RSV1-3 and the opcode nibble.
pub open spec fn header_byte1(f: WebSocketFrame) -> u8 {
    opcode_value(f.opcode) | (if f.fin {
        0x80u8
    } else {
        0u8
    }) | (if f.rsv1 {
        0x40u8
    } else {
        0u8
    }) | (if f.rsv2 {
        0x20u8
    } else {
        0u8
    }) | (if f.rsv3 {
        0x10u8
    } else {
        0u8
    })
}

/// Length field: MASK bit and length code, then any extended-length bytes.
pub open spec fn len_field_bytes(masked: bool, n: nat) -> Seq<u8> {
    let mbit: u8 = if masked {
        0x80
    } else {
        0x00
    };
    if n < 126 {
        seq![mbit | (n as u8)]
    } else if n <= 65535 {
        seq![mbit | 126u8] + be_bytes(n, 2)
    } else {
        seq![mbit | 127u8] + be_bytes(n, 8)
    }
}

/// The view of an optional 4-byte masking key.
pub open spec fn mask_key_view(mask: Option<[u8; 4]>) -> Option<Seq<u8>> {
    match mask {
        Some(key) => Some(key@),
        None => None,
    }
}

/// The exact byte string `encode` emits for frame `f` under `mask`.
pub open spec fn frame_bytes(f: WebSocketFrame, mask: Option<Seq<u8>>) -> Seq<u8> {
    seq![header_byte1(f)] + len_field_bytes(mask is Some, f.payload@.len()) + (match mask {
        Some(key) => key + mask_seq(f.payload@, key),
        None => f.payload@,
    })
}

// ------------------------------------------------------------------
// Trusted UTF-8 conversions
// ------------------------------------------------------------------
/// What `String::from_utf8_lossy` decodes arbitrary bytes to.
pub uninterp spec fn lossy_utf8(bytes: Seq<u8>) -> Seq<char>;

/// Relies on core::str::from_utf8: it succeeds exactly on valid UTF-8.
#[verifier::external_body]
fn check_utf8(bytes: &[u8]) -> (r: bool)
    ensures
        r == valid_utf8(bytes@),
{
    core::str::from_utf8(bytes).is_ok()
}

/// Relies on String::from_utf8: it succeeds exactly on valid UTF-8 and
/// returns the string those bytes encode.
#[verifier::external_body]
fn string_from_utf8(bytes: Vec<u8>) -> (r: Option<String>)
    ensures
        r is Some <==> valid_utf8(bytes@),
        r matches Some(s) ==> s@ == decode_utf8(bytes@),
{
    String::from_utf8(bytes).ok()
}

/// Relies on String::from_utf8_lossy: the result depends on the bytes
/// alone, and valid UTF-8 decodes unchanged.
#[verifier::external_body]
fn string_from_utf8_lossy(bytes: &[u8]) -> (r: String)
    ensures
        r@ == lossy_utf8(bytes@),
        valid_utf8(bytes@) ==> r@ == decode_utf8(bytes@),
{
    String::from_utf8_lossy(bytes).to_string()
}

impl WebSocketFrame {
    /// Apply XOR mask to payload data per RFC 6455 Section 5.3.
    ///
    /// This operation is reversible (applying the same mask twice yields
    /// the original data).
    pub fn apply_mask(payload: &mut Vec<u8>, mask: &[u8; 4])
        ensures
            final(payload)@ == mask_seq(old(payload)@, mask@),
    {
        let n: usize = payload.len();
        let mut i: usize = 0;
        while i < n
            invariant
                i <= n,
                n == payload@.len(),
                payload@.len() == old(payload)@.len(),
                forall|j: int| i <= j < n ==> payload@[j] == old(payload)@[j],
                forall|j: int| 0 <= j < i ==> payload@[j] == mask_seq(old(payload)@, mask@)[j],
            decreases n - i,
        {
            let b = payload[i];
            let k = mask[i % 4];
            payload.set(i, b ^ k);
            i = i + 1;
        }
        assert(final(payload)@ =~= mask_seq(old(payload)@, mask@));
    }

    /// Encode a WebSocket frame to bytes.
    ///
    /// # Arguments
    ///
    /// * `mask` - Optional masking key. If provided, the payload will be
    ///   masked and the MASK bit set.
    #[verifier::spinoff_prover]
    #[verifier::rlimit(100)]
    pub fn encode(&self, mask: Option<[u8; 4]>) -> (r: Vec<u8>)
        ensures
            r@ == frame_bytes(*self, mask_key_view(mask)),
    {
        let mut out: Vec<u8> = Vec::new();

        // First byte: FIN, RSV1-3, Opcode
        let mut byte1: u8 = self.opcode.value();
        if self.fin {
            byte1 = byte1 | 0x80;
        } else {
            byte1 = byte1 | 0x00;
        }
        if self.rsv1 {
            byte1 = byte1 | 0x40;
        } else {
            byte1 = byte1 | 0x00;
        }
        if self.rsv2 {
            byte1 = byte1 | 0x20;
        } else {
            byte1 = byte1 | 0x00;
        }
        if self.rsv3 {
            byte1 = byte1 | 0x10;
        } else {
            byte1 = byte1 | 0x00;
        }
        out.push(byte1);
        assert(byte1 == header_byte1(*self));

        // Second byte: MASK, payload length code, then extended length
        let n: usize = self.payload.len();
        let mbit: u8 = if mask.is_some() {
            0x80
        } else {
            0x00
        };
        if n < 126 {
            out.push(mbit | (n as u8));
        } else if n <= 65535 {
            out.push(mbit | 126u8);
            push_be(&mut out, n as u64, 2);
        } else {
            out.push(mbit | 127u8);
            push_be(&mut out, n as u64, 8);
        }
        assert(out@ =~= seq![header_byte1(*self)] + len_field_bytes(
            mask_key_view(mask) is Some,
            self.payload@.len(),
        ));
        let ghost header = out@;

        // Masking key and payload
        match mask {
            Some(key) => {
                out.push(key[0]);
                out.push(key[1]);
                out.push(key[2]);
                out.push(key[3]);
                assert(out@ =~= header + key@);
                let mut masked_payload: Vec<u8> = slice_to_vec(self.payload.as_slice());
                Self::apply_mask(&mut masked_payload, &key);
                out.extend_from_slice(masked_payload.as_slice());
                assert(out@ =~= header + (key@ + mask_seq(self.payload@, key@)));
            },
            None => {
                out.extend_from_slice(self.payload.as_slice());
            },
        }
        assert(out@ =~= frame_bytes(*self, mask_key_view(mask)));
        out
    }

    /// Parse a WebSocket frame from bytes.
    ///
    /// Returns the parsed frame and the number of bytes consumed.
    /// Returns `Err(WebSocketError::IncompleteFrame)` if more data is
    /// needed; any other error is fatal.
    pub fn parse(data: &[u8]) -> (r: Result<(Self, usize), WebSocketError>)
        ensures
            ({
                let d = data@;
                match r {
                    Ok(p) => {
                        &&& parse_failure(d) is None
                        &&& p.1 == wire_frame_len(d)
                        &&& p.0.fin == wire_fin(d)
                        &&& p.0.rsv1 == false
                        &&& p.0.rsv2 == false
                        &&& p.0.rsv3 == false
                        &&& p.0.opcode == wire_opcode(d)
                        &&& p.0.masked == wire_masked(d)
                        &&& p.0.payload@ == wire_payload(d)
                    },
                    Err(e) => parse_failure(d) == Some(e),
                }
            }),
    {
        let dlen: usize = data.len();
        // Need at least 2 bytes for header
        if dlen < 2 {
            return Err(WebSocketError::IncompleteFrame);
        }
        // Parse first byte: FIN, RSV1-3, Opcode
        let byte1 = data[0];
        let fin = (byte1 & 0x80) != 0;
        let rsv1 = (byte1 & 0x40) != 0;
        let rsv2 = (byte1 & 0x20) != 0;
        let rsv3 = (byte1 & 0x10) != 0;
        let opcode = match WebSocketOpcode::from_u8(byte1 & 0x0f) {
            Ok(op) => op,
            Err(e) => {
                return Err(e);
            },
        };

        // Parse second byte: MASK, payload length code
        let byte2 = data[1];
        let masked = (byte2 & 0x80) != 0;
        let len_code = byte2 & 0x7f;

        proof {
            let b2 = data@[1];
            assert((b2 & 0x7f) <= 127) by (bit_vector);
        }
        let mut offset: usize = 2;
        let payload_len64: u64;

        // Parse extended payload length if needed
        if len_code == 126 {
            if dlen < 4 {
                return Err(WebSocketError::IncompleteFrame);
            }
            payload_len64 = read_be(data, 2, 2);
            offset = 4;
        } else if len_code == 127 {
            if dlen < 10 {
                return Err(WebSocketError::IncompleteFrame);
            }
            payload_len64 = read_be(data, 2, 8);
            offset = 10;
        } else {
            payload_len64 = len_code as u64;
            assert(payload_len64 as nat == wire_payload_len(data@));
        }
        assert(offset == wire_header_len(data@));
        assert(payload_len64 as nat == wire_payload_len(data@));

        // Validate payload length against the addressable size
        if payload_len64 > usize::MAX as u64 {
            return Err(WebSocketError::FrameTooLarge);
        }
        let payload_len = payload_len64 as usize;

        // Validate control frames
        if opcode.is_control() {
            if payload_len > 125 {
                return Err(WebSocketError::ControlFrameTooLarge);
            }
            if !fin {
                return Err(WebSocketError::ControlFrameFragmented);
            }
        }
        // Validate reserved bits (must be 0 unless extension is negotiated)
        if rsv1 || rsv2 || rsv3 {
            return Err(WebSocketError::ReservedBitsSet);
        }

        // Parse masking key if present
        let masking_key: Option<[u8; 4]> = if masked {
            if dlen < offset + 4 {
                return Err(WebSocketError::IncompleteFrame);
            }
            let key = [data[offset], data[offset + 1], data[offset + 2], data[offset + 3]];
            assert(key@ =~= wire_mask_key(data@));
            offset = offset + 4;
            Some(key)
        } else {
            None
        };
        assert(offset == wire_payload_start(data@));

        // Payload bytes must be fully present
        if dlen - offset < payload_len {
            return Err(WebSocketError::IncompleteFrame);
        }
        let mut payload: Vec<u8> = slice_to_vec(&data[offset..offset + payload_len]);
        assert(payload@ == wire_raw_payload(data@));
        let consumed = offset + payload_len;

        // Unmask payload if masked
        match &masking_key {
            Some(key) => {
                Self::apply_mask(&mut payload, key);
            },
            None => {},
        }
        assert(payload@ == wire_payload(data@));

        // Validate UTF-8 for final text frames
        if opcode.is_text_opcode() && fin && !check_utf8(payload.as_slice()) {
            return Err(WebSocketError::InvalidUtf8);
        }

        Ok((
            WebSocketFrame { fin, rsv1, rsv2, rsv3, opcode, masked, payload },
            consumed,
        ))
    }
}

impl WebSocketOpcode {
    /// Check if this opcode is Text.
    fn is_text_opcode(&self) -> (r: bool)
        ensures
            r == (*self is Text),
    {
        match self {
            WebSocketOpcode::Text => true,
            _ => false,
        }
    }
}

/// The payload `new_close` builds from an optional status code and an
/// optional reason. The reason is carried only together with a code.
pub open spec fn close_payload_bytes(code: Option<u16>, reason: Option<Seq<char>>) -> Seq<u8> {
    match code {
        None => Seq::empty(),
        Some(c) => be_bytes(c as nat, 2) + (match reason {
            None => Seq::empty(),
            Some(text) => encode_utf8(text),
        }),
    }
}

impl WebSocketFrame {
    /// Create a new data frame (text, binary or continuation).
    pub fn new_data(opcode: WebSocketOpcode, payload: Vec<u8>, fin: bool) -> (r: Self)
        requires
            opcode_is_data(opcode),
        ensures
            r.fin == fin,
            !r.rsv1 && !r.rsv2 && !r.rsv3,
            r.opcode == opcode,
            !r.masked,
            r.payload@ == payload@,
    {
        WebSocketFrame { fin, rsv1: false, rsv2: false, rsv3: false, opcode, masked: false, payload }
    }

    /// Create a new text frame.
    pub fn new_text(text: String, fin: bool) -> (r: Self)
        ensures
            r.fin == fin,
            !r.rsv1 && !r.rsv2 && !r.rsv3,
            r.opcode is Text,
            !r.masked,
            r.payload@ == encode_utf8(text@),
    {
        let payload = text.as_str().as_bytes_vec();
        Self::new_data(WebSocketOpcode::Text, payload, fin)
    }

    /// Create a new binary frame.
    pub fn new_binary(data: Vec<u8>, fin: bool) -> (r: Self)
        ensures
            r.fin == fin,
            !r.rsv1 && !r.rsv2 && !r.rsv3,
            r.opcode is Binary,
            !r.masked,
            r.payload@ == data@,
    {
        Self::new_data(WebSocketOpcode::Binary, data, fin)
    }

    /// Create a new continuation frame.
    pub fn new_continuation(data: Vec<u8>, fin: bool) -> (r: Self)
        ensures
            r.fin == fin,
            !r.rsv1 && !r.rsv2 && !r.rsv3,
            r.opcode is Continuation,
            !r.masked,
            r.payload@ == data@,
    {
        Self::new_data(WebSocketOpcode::Continuation, data, fin)
    }

    /// Create a new close frame with optional status code and reason.
    pub fn new_close(code: Option<u16>, reason: Option<&str>) -> (r: Self)
        ensures
            r.fin,
            !r.rsv1 && !r.rsv2 && !r.rsv3,
            r.opcode is Close,
            !r.masked,
            code is None ==> r.payload@ == close_payload_bytes(None, None),
            code matches Some(c) ==> (reason is None ==> r.payload@ == close_payload_bytes(
                Some(c),
                None,
            )),
            code matches Some(c) ==> (reason matches Some(text) ==> r.payload@
                == close_payload_bytes(Some(c), Some(text@))),
    {
        let mut payload: Vec<u8> = Vec::new();
        match code {
            Some(c) => {
                push_be(&mut payload, c as u64, 2);
                match reason {
                    Some(text) => {
                        payload.extend_from_slice(text.as_bytes());
                        assert(payload@ =~= close_payload_bytes(Some(c), Some(text@)));
                    },
                    None => {
                        assert(payload@ =~= close_payload_bytes(Some(c), None));
                    },
                }
            },
            None => {
                assert(payload@ =~= close_payload_bytes(None, None));
            },
        }
        WebSocketFrame {
            fin: true,
            rsv1: false,
            rsv2: false,
            rsv3: false,
            opcode: WebSocketOpcode::Close,
            masked: false,
            payload,
        }
    }

    /// Create a new ping frame.
    pub fn new_ping(data: Vec<u8>) -> (r: Self)
        ensures
            r.fin,
            !r.rsv1 && !r.rsv2 && !r.rsv3,
            r.opcode is Ping,
            !r.masked,
            r.payload@ == data@,
    {
        WebSocketFrame {
            fin: true,
            rsv1: false,
            rsv2: false,
            rsv3: false,
            opcode: WebSocketOpcode::Ping,
            masked: false,
            payload: data,
        }
    }

    /// Create a new pong frame.
    pub fn new_pong(data: Vec<u8>) -> (r: Self)
        ensures
            r.fin,
            !r.rsv1 && !r.rsv2 && !r.rsv3,
            r.opcode is Pong,
            !r.masked,
            r.payload@ == data@,
    {
        WebSocketFrame {
            fin: true,
            rsv1: false,
            rsv2: false,
            rsv3: false,
            opcode: WebSocketOpcode::Pong,
            masked: false,
            payload: data,
        }
    }

    /// Parse close frame payload to extract status code and reason.
    ///
    /// Returns the code and reason when this is a Close frame with at
    /// least 2 payload bytes, and nothing otherwise.
    pub fn parse_close_payload(&self) -> (r: Option<(u16, String)>)
        ensures
            r is Some <==> (self.opcode is Close && self.payload@.len() >= 2),
            r matches Some(p) ==> {
                &&& p.0 as nat == be_val(self.payload@.take(2))
                &&& p.1@ == lossy_utf8(self.payload@.skip(2))
                &&& valid_utf8(self.payload@.skip(2)) ==> p.1@ == decode_utf8(
                    self.payload@.skip(2),
                )
            },
    {
        match self.opcode {
            WebSocketOpcode::Close => {},
            _ => {
                return None;
            },
        }
        if self.payload.len() < 2 {
            return None;
        }
        let hi = self.payload[0];
        let lo = self.payload[1];
        let code: u16 = (hi as u16) * 256 + (lo as u16);
        proof {
            let two = self.payload@.take(2);
            assert(two.len() == 2);
            assert(two.drop_last() =~= seq![hi]);
            assert(seq![hi].drop_last() =~= Seq::<u8>::empty());
            assert(be_val(Seq::<u8>::empty()) == 0);
            assert(be_val(seq![hi]) == hi as nat);
            assert(two.last() == lo);
            assert(be_val(two) == be_val(seq![hi]) * 256 + lo as nat);
        }
        let reason = string_from_utf8_lossy(slice_subrange_bytes(
            self.payload.as_slice(),
            2,
            self.payload.len(),
        ));
        Some((code, reason))
    }

    /// Check if this is a text frame.
    pub fn is_text(&self) -> (r: bool)
        ensures
            r == (self.opcode is Text),
    {
        self.opcode.is_text_opcode()
    }

    /// Check if this is a binary frame.
    pub fn is_binary(&self) -> (r: bool)
        ensures
            r == (self.opcode is Binary),
    {
        match self.opcode {
            WebSocketOpcode::Binary => true,
            _ => false,
        }
    }

    /// Check if this is a close frame.
    pub fn is_close(&self) -> (r: bool)
        ensures
            r == (self.opcode is Close),
    {
        match self.opcode {
            WebSocketOpcode::Close => true,
            _ => false,
        }
    }

    /// Get the payload as a UTF-8 text string.
    ///
    /// Returns None if the frame is not a text frame or contains invalid
    /// UTF-8.
    pub fn payload_as_text(&self) -> (r: Option<String>)
        ensures
            r is Some <==> (self.opcode is Text && valid_utf8(self.payload@)),
            r matches Some(s) ==> s@ == decode_utf8(self.payload@),
    {
        if !self.is_text() {
            return None;
        }
        string_from_utf8(slice_to_vec(self.payload.as_slice()))
    }
}

/// The bytes of `s` from `i` (inclusive) to `j` (exclusive).
fn slice_subrange_bytes(s: &[u8], i: usize, j: usize) -> (r: &[u8])
    requires
        i <= j <= s@.len(),
    ensures
        r@ == s@.subrange(i as int, j as int),
{
    &s[i..j]
}

/// The byte string of an unmasked frame with clear reserved bits, given
/// by its parts: what this side of the connection puts on the wire.
pub open spec fn unmasked_frame_bytes(fin: bool, opcode: WebSocketOpcode, payload: Seq<u8>) -> Seq<
    u8,
> {
    seq![opcode_value(opcode) | (if fin {
        0x80u8
    } else {
        0u8
    })] + len_field_bytes(false, payload.len()) + payload
}

/// An unmasked encoding of a frame with clear reserved bits is the frame
/// bytes of its parts.
pub proof fn lemma_unmasked_frame_bytes(f: WebSocketFrame)
    requires
        !f.rsv1 && !f.rsv2 && !f.rsv3,
    ensures
        frame_bytes(f, None) == unmasked_frame_bytes(f.fin, f.opcode, f.payload@),
{
    let ov = opcode_value(f.opcode);
    let fb: u8 = if f.fin {
        0x80
    } else {
        0
    };
    assert(ov | fb | 0 | 0 | 0 == ov | fb) by (bit_vector);
    assert(frame_bytes(f, None) =~= unmasked_frame_bytes(f.fin, f.opcode, f.payload@));
}

/// Round trip at the byte level: the unmasked encoding of well-formed
/// frame parts parses without error, spans exactly the encoded bytes,
/// and reproduces the fin flag, opcode and payload.
pub proof fn lemma_parse_unmasked_bytes(fin: bool, opcode: WebSocketOpcode, payload: Seq<u8>)
    requires
        payload.len() <= usize::MAX,
        opcode_is_control(opcode) ==> fin && payload.len() <= 125,
        (opcode is Text && fin) ==> valid_utf8(payload),
    ensures
        ({
            let d = unmasked_frame_bytes(fin, opcode, payload);
            &&& parse_failure(d) is None
            &&& wire_frame_len(d) == d.len()
            &&& wire_fin(d) == fin
            &&& wire_opcode(d) == opcode
            &&& !wire_masked(d)
            &&& wire_payload(d) == payload
        }),
{
    let d = unmasked_frame_bytes(fin, opcode, payload);
    let n = payload.len();
    lemma_pow256_8();

    // First header byte
    let ov = opcode_value(opcode);
    let fb: u8 = if fin {
        0x80
    } else {
        0
    };
    let b1: u8 = ov | fb;
    assert((b1 & 0x80u8 != 0) == (fb == 0x80) && b1 & 0x40u8 == 0 && b1 & 0x20u8 == 0 && b1
        & 0x10u8 == 0 && b1 & 0x0fu8 == ov) by (bit_vector)
        requires
            ov < 16,
            fb == 0x80u8 || fb == 0u8,
            b1 == ov | fb,
    ;
    assert(opcode_of(ov) == Some(opcode));

    let lfb = len_field_bytes(false, n);
    assert(d =~= seq![b1] + lfb + payload);
    assert(d[0] == b1);
    assert(wire_fin(d) == fin);
    assert(!wire_rsv1(d) && !wire_rsv2(d) && !wire_rsv3(d));
    assert(wire_opcode_bits(d) == ov);
    assert(wire_opcode(d) == opcode);

    if n < 126 {
        let x: u8 = n as u8;
        assert(x as nat == n);
        assert((0u8 | x) == x && x & 0x80u8 == 0 && x & 0x7fu8 == x && x < 126) by (bit_vector)
            requires
                x < 126,
        ;
        assert(lfb =~= seq![x]);
        assert(d[1] == x);
        assert(!wire_masked(d));
        assert(wire_len_code(d) == x);
        assert(wire_ext_len(d) == 0);
        assert(wire_payload_len(d) == n);
        assert(wire_frame_len(d) == 2 + n);
        assert(d.len() == 2 + n);
        assert(wire_raw_payload(d) =~= payload);
    } else if n <= 65535 {
        assert((0u8 | 126u8) == 126u8 && 126u8 & 0x80u8 == 0 && 126u8 & 0x7fu8 == 126u8)
            by (bit_vector);
        lemma_be_bytes_len(n, 2);
        assert(lfb =~= seq![126u8] + be_bytes(n, 2));
        assert(d[1] == 126u8);
        assert(!wire_masked(d));
        assert(wire_len_code(d) == 126);
        assert(wire_ext_len(d) == 2);
        assert(wire_header_len(d) == 4);
        assert(d.subrange(2, 4) =~= be_bytes(n, 2));
        lemma_be_val_of_be_bytes(n, 2);
        assert(wire_payload_len(d) == n);
        assert(wire_frame_len(d) == 4 + n);
        assert(d.len() == 4 + n);
        assert(wire_raw_payload(d) =~= payload);
        assert(!opcode_is_control(opcode));
    } else {
        assert((0u8 | 127u8) == 127u8 && 127u8 & 0x80u8 == 0 && 127u8 & 0x7fu8 == 127u8)
            by (bit_vector);
        lemma_be_bytes_len(n, 8);
        assert(lfb =~= seq![127u8] + be_bytes(n, 8));
        assert(d[1] == 127u8);
        assert(!wire_masked(d));
        assert(wire_len_code(d) == 127);
        assert(wire_ext_len(d) == 8);
        assert(wire_header_len(d) == 10);
        assert(d.subrange(2, 10) =~= be_bytes(n, 8));
        assert(n < pow256(8));
        lemma_be_val_of_be_bytes(n, 8);
        assert(wire_payload_len(d) == n);
        assert(wire_frame_len(d) == 10 + n);
        assert(d.len() == 10 + n);
        assert(wire_raw_payload(d) =~= payload);
        assert(!opcode_is_control(opcode));
    }
    assert(wire_payload(d) == payload);
    assert(parse_failure(d) is None);
}

/// Round trip: parsing the unmasked encoding of any well-formed frame
/// succeeds, consumes exactly the encoded bytes, and reproduces the
/// frame's fin flag, opcode and payload.
pub proof fn lemma_parse_encode_roundtrip(f: WebSocketFrame)
    requires
        frame_wf(f),
    ensures
        ({
            let d = frame_bytes(f, None);
            &&& parse_failure(d) is None
            &&& wire_frame_len(d) == d.len()
            &&& wire_fin(d) == f.fin
            &&& wire_opcode(d) == f.opcode
            &&& !wire_masked(d)
            &&& wire_payload(d) == f.payload@
        }),
{
    broadcast use vstd::std_specs::vec::axiom_spec_len;

    assert(f.payload.len() == f.payload@.len());
    lemma_unmasked_frame_bytes(f);
    lemma_parse_unmasked_bytes(f.fin, f.opcode, f.payload@);
}

/// A frame that declares a control opcode and a payload length over 125
/// bytes is rejected as ControlFrameTooLarge, however much of it has
/// arrived beyond the header.
pub proof fn lemma_control_frame_too_large(d: Seq<u8>)
    requires
        d.len() >= 2,
        opcode_of(wire_opcode_bits(d)) matches Some(op) && opcode_is_control(op),
        d.len() >= wire_header_len(d),
        125 < wire_payload_len(d) <= usize::MAX,
    ensures
        parse_failure(d) == Some(WebSocketError::ControlFrameTooLarge),
{
}

} // verus!
