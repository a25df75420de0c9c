//! The Server List Ping wire protocol: the VarInt codec, the handshake
//! and status-request framing, and the decoding of the status reply.
//!
//! Everything here is a pure transform over bytes; the caller owns the
//! connection and feeds bytes in as they arrive.

use vstd::arithmetic::power2::{lemma2_to64, lemma2_to64_rest, lemma_pow2_adds, pow2};
use vstd::prelude::*;

verus! {

/// The ways a status exchange can fail once a connection is up.
#[derive(Clone, Copy, PartialEq, Eq, Structural, Debug)]
pub enum SlpError {
    /// A VarInt ran past the 35-bit limit of the protocol.
    VarIntTooLarge,
    /// The reply did not start with the status-response packet id.
    UnexpectedPacket,
    /// The reply ended before the announced number of bytes arrived.
    UnexpectedEof,
    /// The payload was not a JSON document.
    InvalidJson,
}

/// The words each failure carries to the caller.
pub open spec fn spec_describe(e: SlpError) -> Seq<char> {
    match e {
        SlpError::VarIntTooLarge => "received VarInt is too big"@,
        SlpError::UnexpectedPacket => "received unexpected response from server"@,
        SlpError::UnexpectedEof => "connection closed before the full reply arrived"@,
        SlpError::InvalidJson => "status payload is not valid JSON"@,
    }
}

impl SlpError {
    /// The human-readable cause of this failure.
    pub fn describe(&self) -> (r: &'static str)
        ensures
            r@ == spec_describe(*self),
    {
        match *self {
            SlpError::VarIntTooLarge => "received VarInt is too big",
            SlpError::UnexpectedPacket => "received unexpected response from server",
            SlpError::UnexpectedEof => "connection closed before the full reply arrived",
            SlpError::InvalidJson => "status payload is not valid JSON",
        }
    }
}

/// The minimal VarInt encoding of `v`: seven payload bits per byte,
/// least significant group first, bit 7 flagging a continuation.
pub open spec fn spec_encode_varint(v: nat) -> Seq<u8>
    decreases v,
{
    if v < 128 {
        seq![v as u8]
    } else {
        seq![(128 + (v % 128)) as u8] + spec_encode_varint(v / 128)
    }
}

/// What decoding a VarInt that starts at `s[i]` yields, having already
/// accumulated `acc` from `shift / 7` continuation bytes.
pub enum VarIntOutcome {
    /// A terminating byte was reached: the value and the index just past it.
    Value { v: nat, end: int },
    /// A fifth continuation byte pushed the width to 35 bits or more.
    TooLarge,
    /// The bytes ran out before a terminating byte.
    Truncated,
}

/// Decodes the VarInt at `s[i]`, accumulating into `acc` with the next
/// seven-bit group weighted by `pow2(shift)`.
pub open spec fn spec_decode_varint(s: Seq<u8>, i: int, shift: nat, acc: nat) -> VarIntOutcome
    decreases (if shift < 35 { 35 - shift } else { 0int }),
{
    if shift >= 35 {
        VarIntOutcome::TooLarge
    } else if i < 0 || i >= s.len() {
        VarIntOutcome::Truncated
    } else {
        let group = acc + ((s[i] % 128) as nat) * pow2(shift);
        if s[i] < 128 {
            VarIntOutcome::Value { v: group, end: i + 1 }
        } else {
            spec_decode_varint(s, i + 1, shift + 7, group)
        }
    }
}

/// Encodes `value` as a VarInt: emits seven bits at a time with the
/// continuation bit set while more than seven bits remain, then the
/// final group with the continuation bit clear. The result is the
/// minimal-length encoding.
pub fn encode_varint(value: u64) -> (r: Vec<u8>)
    ensures
        r@ == spec_encode_varint(value as nat),
{
    let ghost v0 = value as nat;
    let mut bytes: Vec<u8> = Vec::new();
    let mut value = value;
    while value >= 128
        invariant
            spec_encode_varint(v0) == bytes@ + spec_encode_varint(value as nat),
        decreases value,
    {
        bytes.push(((value % 128) + 128) as u8);
        proof {
            assert(spec_encode_varint(v0) =~= bytes@ + spec_encode_varint((value / 128) as nat));
        }
        value = value / 128;
    }
    bytes.push(value as u8);
    proof {
        assert(bytes@ =~= spec_encode_varint(v0));
    }
    bytes
}

/// Decodes the VarInt that starts at `buf[start]`, returning the value
/// and the index just past its last byte. Fails with `VarIntTooLarge`
/// once a fifth continuation byte is seen, and with `UnexpectedEof` if
/// the buffer ends first.
pub fn decode_varint_at(buf: &Vec<u8>, start: usize) -> (r: Result<(u64, usize), SlpError>)
    ensures
        match spec_decode_varint(buf@, start as int, 0, 0) {
            VarIntOutcome::Value { v, end } => r matches Ok(p) && p.0 == v && p.1 == end && start
                < p.1 <= buf@.len(),
            VarIntOutcome::TooLarge => r == Err::<(u64, usize), SlpError>(SlpError::VarIntTooLarge),
            VarIntOutcome::Truncated => r == Err::<(u64, usize), SlpError>(SlpError::UnexpectedEof),
        },
{
    let mut i: usize = start;
    let mut shift: u32 = 0;
    let mut acc: u64 = 0;
    let mut mult: u64 = 1;
    proof {
        lemma2_to64();
    }
    loop
        invariant
            start <= i,
            shift % 7 == 0,
            shift <= 35,
            mult == pow2(shift as nat),
            acc < pow2(shift as nat),
            spec_decode_varint(buf@, start as int, 0, 0) == spec_decode_varint(
                buf@,
                i as int,
                shift as nat,
                acc as nat,
            ),
        decreases 35 - shift,
    {
        if shift >= 35 {
            return Err(SlpError::VarIntTooLarge);
        }
        if i >= buf.len() {
            return Err(SlpError::UnexpectedEof);
        }
        let b = buf[i];
        proof {
            lemma2_to64();
            lemma2_to64_rest();
            assert(shift <= 28);
            assert(pow2(shift as nat) <= pow2(28)) by {
                if shift < 28 {
                    vstd::arithmetic::power2::lemma_pow2_strictly_increases(shift as nat, 28);
                }
            }
            assert(((b % 128) as nat) * pow2(shift as nat) <= 127 * pow2(shift as nat))
                by (nonlinear_arith)
                requires
                    ((b % 128) as nat) <= 127,
            {
            }
            assert(acc + 127 * pow2(shift as nat) < 128 * pow2(shift as nat));
            assert(128 * pow2(shift as nat) == pow2((shift + 7) as nat)) by {
                lemma_pow2_adds(shift as nat, 7);
            }
            assert(pow2((shift + 7) as nat) <= pow2(35)) by {
                if shift < 28 {
                    vstd::arithmetic::power2::lemma_pow2_strictly_increases(
                        (shift + 7) as nat,
                        35,
                    );
                }
            }
        }
        let group = acc + ((b % 128) as u64) * mult;
        if b < 128 {
            return Ok((group, i + 1));
        }
        acc = group;
        shift = shift + 7;
        proof {
            lemma_pow2_adds((shift - 7) as nat, 7);
            lemma2_to64();
            lemma2_to64_rest();
        }
        mult = mult * 128;
        i = i + 1;
    }
}

/// What one more byte did to a VarInt that is being read from a live
/// stream.
#[derive(Clone, Copy, PartialEq, Eq, Structural, Debug)]
pub enum VarIntStep {
    /// The byte had its high bit clear: the VarInt is complete.
    Done(u64),
    /// The byte was a continuation byte; feed the next one.
    More,
    /// A fifth continuation byte arrived: the VarInt exceeds 35 bits.
    TooLarge,
}

/// Reads a VarInt one byte at a time, for callers that pull bytes off a
/// connection and cannot look ahead.
pub struct VarIntDecoder {
    acc: u64,
    shift: u32,
    mult: u64,
    hist: Ghost<Seq<u8>>,
}

impl VarIntDecoder {
    /// The continuation bytes fed so far.
    pub closed spec fn history(self) -> Seq<u8> {
        self.hist@
    }

    /// The decoder state matches its history: every byte seen so far
    /// was a continuation byte, and decoding any completion of the
    /// history picks up exactly where the state says.
    pub closed spec fn wf(self) -> bool {
        &&& self.hist@.len() <= 4
        &&& self.shift == 7 * self.hist@.len()
        &&& self.mult == pow2(self.shift as nat)
        &&& self.acc < pow2(self.shift as nat)
        &&& forall|t: Seq<u8>|
            #[trigger] spec_decode_varint(self.hist@ + t, 0, 0, 0) == spec_decode_varint(
                self.hist@ + t,
                self.hist@.len() as int,
                self.shift as nat,
                self.acc as nat,
            )
    }

    /// A decoder that has seen no bytes yet.
    pub fn new() -> (r: VarIntDecoder)
        ensures
            r.wf(),
            r.history() == Seq::<u8>::empty(),
    {
        let d = VarIntDecoder { acc: 0, shift: 0, mult: 1, hist: Ghost(Seq::empty()) };
        proof {
            lemma2_to64();
            assert forall|t: Seq<u8>|
                #[trigger] spec_decode_varint(d.hist@ + t, 0, 0, 0) == spec_decode_varint(
                    d.hist@ + t,
                    d.hist@.len() as int,
                    d.shift as nat,
                    d.acc as nat,
                ) by {
                assert(d.hist@.len() == 0);
            }
        }
        d
    }

    /// Feeds the next byte from the stream. `Done(v)` reports that the
    /// bytes fed decode to `v`; `TooLarge` that they can only decode to
    /// the too-large failure; `More` that the decoder wants another
    /// byte, and is ready for it.
    pub fn step(&mut self, byte: u8) -> (r: VarIntStep)
        requires
            old(self).wf(),
        ensures
            ({
                let fed = old(self).history().push(byte);
                match r {
                    VarIntStep::Done(v) => spec_decode_varint(fed, 0, 0, 0)
                        == (VarIntOutcome::Value { v: v as nat, end: fed.len() as int }),
                    VarIntStep::More => final(self).wf() && final(self).history() == fed,
                    VarIntStep::TooLarge => spec_decode_varint(fed, 0, 0, 0) is TooLarge,
                }
            }),
    {
        proof {
            lemma2_to64();
            lemma2_to64_rest();
            assert(self.shift <= 28);
            assert(pow2(self.shift as nat) <= pow2(28)) by {
                if self.shift < 28 {
                    vstd::arithmetic::power2::lemma_pow2_strictly_increases(
                        self.shift as nat,
                        28,
                    );
                }
            }
            assert(((byte % 128) as nat) * pow2(self.shift as nat) <= 127 * pow2(
                self.shift as nat,
            )) by (nonlinear_arith)
                requires
                    ((byte % 128) as nat) <= 127,
            {
            }
            assert(128 * pow2(self.shift as nat) == pow2((self.shift + 7) as nat)) by {
                lemma_pow2_adds(self.shift as nat, 7);
            }
            assert(pow2((self.shift + 7) as nat) <= pow2(35)) by {
                if self.shift < 28 {
                    vstd::arithmetic::power2::lemma_pow2_strictly_increases(
                        (self.shift + 7) as nat,
                        35,
                    );
                }
            }
        }
        let group = self.acc + ((byte % 128) as u64) * self.mult;
        let ghost h = self.hist@;
        let ghost fed = h.push(byte);
        if byte < 128 {
            proof {
                assert(h + seq![byte] =~= fed);
                assert(spec_decode_varint(fed, 0, 0, 0) == spec_decode_varint(
                    fed,
                    h.len() as int,
                    self.shift as nat,
                    self.acc as nat,
                ));
                assert(fed[h.len() as int] == byte);
            }
            return VarIntStep::Done(group);
        }
        if self.shift >= 28 {
            proof {
                assert(h + seq![byte] =~= fed);
                assert(spec_decode_varint(fed, 0, 0, 0) == spec_decode_varint(
                    fed,
                    h.len() as int,
                    self.shift as nat,
                    self.acc as nat,
                ));
                assert(fed[h.len() as int] == byte);
                assert(self.shift == 28);
                assert(spec_decode_varint(fed, h.len() as int, 28, self.acc as nat)
                    == spec_decode_varint(
                    fed,
                    (h.len() + 1) as int,
                    35,
                    self.acc as nat + ((byte % 128) as nat) * pow2(28),
                ));
                assert(spec_decode_varint(
                    fed,
                    (h.len() + 1) as int,
                    35,
                    self.acc as nat + ((byte % 128) as nat) * pow2(28),
                ) is TooLarge);
            }
            return VarIntStep::TooLarge;
        }
        self.acc = group;
        self.shift = self.shift + 7;
        proof {
            lemma_pow2_adds((self.shift - 7) as nat, 7);
        }
        self.mult = self.mult * 128;
        self.hist = Ghost(fed);
        proof {
            assert forall|t: Seq<u8>|
                #[trigger] spec_decode_varint(fed + t, 0, 0, 0) == spec_decode_varint(
                    fed + t,
                    fed.len() as int,
                    self.shift as nat,
                    self.acc as nat,
                ) by {
                let s = h + (seq![byte] + t);
                assert(fed + t =~= s);
                assert(spec_decode_varint(s, 0, 0, 0) == spec_decode_varint(
                    s,
                    h.len() as int,
                    (self.shift - 7) as nat,
                    (old(self).acc) as nat,
                ));
                assert(s[h.len() as int] == byte);
            }
        }
        VarIntStep::More
    }
}

/// The handshake packet's payload: packet id 0, protocol version 4, the
/// host string prefixed by its VarInt length, the port in little-endian
/// byte order, and next state 1 (status).
pub open spec fn spec_handshake_payload(host: Seq<u8>, port: u16) -> Seq<u8> {
    seq![0u8, 4u8] + spec_encode_varint(host.len()) + host + seq![
        (port % 256) as u8,
        (port / 256) as u8,
        1u8,
    ]
}

/// Both frames of a status exchange, written in one send: the handshake
/// payload prefixed by its VarInt byte length, then the status-request
/// packet — length 1, packet id 0.
pub open spec fn spec_status_request(host: Seq<u8>, port: u16) -> Seq<u8> {
    spec_encode_varint(spec_handshake_payload(host, port).len()) + spec_handshake_payload(
        host,
        port,
    ) + seq![1u8, 0u8]
}

/// Builds the bytes that open a status exchange for `host` and `port`:
/// the length-prefixed handshake frame followed by the status request.
pub fn build_status_request(host: &Vec<u8>, port: u16) -> (r: Vec<u8>)
    ensures
        r@ == spec_status_request(host@, port),
{
    let mut request: Vec<u8> = Vec::new();
    request.push(0);
    request.push(4);
    let mut host_len = encode_varint(host.len() as u64);
    request.append(&mut host_len);
    request.extend_from_slice(host.as_slice());
    request.push((port % 256) as u8);
    request.push((port / 256) as u8);
    request.push(1);
    proof {
        assert(request@ =~= spec_handshake_payload(host@, port));
    }
    let mut packet = encode_varint(request.len() as u64);
    packet.append(&mut request);
    packet.push(1);
    packet.push(0);
    proof {
        assert(packet@ =~= spec_status_request(host@, port));
    }
    packet
}

/// What the framing of a status reply holds: the reply's total-length
/// VarInt (its value is not used), the packet id byte, which must be 0,
/// and the JSON text prefixed by its VarInt byte length. Yields the
/// JSON bytes, or the first framing error met reading left to right.
pub open spec fn spec_status_frame(s: Seq<u8>) -> Result<Seq<u8>, SlpError> {
    match spec_decode_varint(s, 0, 0, 0) {
        VarIntOutcome::Value { v: _, end: i } => {
            if i >= s.len() {
                Err(SlpError::UnexpectedEof)
            } else if s[i] != 0 {
                Err(SlpError::UnexpectedPacket)
            } else {
                match spec_decode_varint(s, i + 1, 0, 0) {
                    VarIntOutcome::Value { v: n, end: j } => {
                        if j + n <= s.len() {
                            Ok(s.subrange(j, j + n))
                        } else {
                            Err(SlpError::UnexpectedEof)
                        }
                    },
                    VarIntOutcome::TooLarge => Err(SlpError::VarIntTooLarge),
                    VarIntOutcome::Truncated => Err(SlpError::UnexpectedEof),
                }
            }
        },
        VarIntOutcome::TooLarge => Err(SlpError::VarIntTooLarge),
        VarIntOutcome::Truncated => Err(SlpError::UnexpectedEof),
    }
}

/// Takes a complete status reply apart and returns the JSON bytes, or
/// the first framing error: a bad length VarInt, a packet id other
/// than 0, or a buffer shorter than its length fields announce.
pub fn extract_status_json(buf: &Vec<u8>) -> (r: Result<Vec<u8>, SlpError>)
    ensures
        match r {
            Ok(v) => spec_status_frame(buf@) matches Ok(b) && v@ == b,
            Err(e) => spec_status_frame(buf@) == Err::<Seq<u8>, SlpError>(e),
        },
{
    let i = match decode_varint_at(buf, 0) {
        Ok(p) => p.1,
        Err(e) => {
            return Err(e);
        },
    };
    if i >= buf.len() {
        return Err(SlpError::UnexpectedEof);
    }
    if buf[i] != 0 {
        return Err(SlpError::UnexpectedPacket);
    }
    let (n64, j) = match decode_varint_at(buf, i + 1) {
        Ok(p) => p,
        Err(e) => {
            return Err(e);
        },
    };
    if n64 > (buf.len() - j) as u64 {
        return Err(SlpError::UnexpectedEof);
    }
    let n = n64 as usize;
    let mut out: Vec<u8> = Vec::new();
    let mut k: usize = j;
    while k < j + n
        invariant
            j <= k <= j + n,
            j + n <= buf.len(),
            out@ == buf@.subrange(j as int, k as int),
        decreases j + n - k,
    {
        out.push(buf[k]);
        proof {
            assert(out@ =~= buf@.subrange(j as int, k + 1 as int));
        }
        k = k + 1;
    }
    Ok(out)
}

/// The byte length of the minimal VarInt encoding never exceeds `n`
/// groups for values below `pow2(7 * n)`.
proof fn lemma_varint_len_bound(v: nat, n: nat)
    requires
        n >= 1,
        v < pow2(7 * n),
    ensures
        spec_encode_varint(v).len() <= n,
    decreases n,
{
    if v >= 128 {
        assert(n >= 2) by {
            lemma2_to64();
            if n == 1 {
                assert(pow2(7) == 128);
            }
        }
        assert(v / 128 < pow2((7 * (n - 1)) as nat)) by {
            lemma_pow2_adds((7 * (n - 1)) as nat, 7);
            assert(pow2(7) == 128) by {
                lemma2_to64();
            }
            assert(pow2(7 * n) == pow2((7 * (n - 1)) as nat) * 128) by {
                assert(7 * n == 7 * (n - 1) + 7);
            }
            assert(v / 128 < pow2((7 * (n - 1)) as nat)) by (nonlinear_arith)
                requires
                    v < pow2((7 * (n - 1)) as nat) * 128,
                    pow2((7 * (n - 1)) as nat) >= 1,
            {
            }
        }
        lemma_varint_len_bound(v / 128, (n - 1) as nat);
    }
}

/// Decoding an embedded minimal encoding of `v` from any position
/// accumulates `v`, weighted by the current shift, onto `acc`.
proof fn lemma_decode_matches_encode(s: Seq<u8>, i: int, shift: nat, acc: nat, v: nat)
    requires
        0 <= i,
        i + spec_encode_varint(v).len() <= s.len(),
        s.subrange(i, i + spec_encode_varint(v).len() as int) == spec_encode_varint(v),
        shift + 7 * (spec_encode_varint(v).len() - 1) <= 28,
    ensures
        spec_decode_varint(s, i, shift, acc) == (VarIntOutcome::Value {
            v: acc + v * pow2(shift),
            end: i + spec_encode_varint(v).len(),
        }),
    decreases v,
{
    let enc = spec_encode_varint(v);
    assert(s[i] == enc[0]);
    if v < 128 {
        assert(s[i] == v as u8);
        assert(((s[i] % 128) as nat) == v);
    } else {
        let b = (128 + (v % 128)) as u8;
        assert(s[i] == b);
        assert(b >= 128 && ((b % 128) as nat) == v % 128);
        let tail = spec_encode_varint(v / 128);
        assert(enc.len() == 1 + tail.len());
        assert(s.subrange(i + 1, i + 1 + tail.len() as int) == tail) by {
            assert(s.subrange(i + 1, i + 1 + tail.len() as int) =~= s.subrange(
                i,
                i + enc.len() as int,
            ).subrange(1, enc.len() as int));
            assert(enc.subrange(1, enc.len() as int) =~= tail);
        }
        lemma_decode_matches_encode(s, i + 1, shift + 7, acc + (v % 128) * pow2(shift), v / 128);
        assert(acc + (v % 128) * pow2(shift) + (v / 128) * pow2(shift + 7) == acc + v * pow2(shift))
            by {
            lemma_pow2_adds(shift, 7);
            assert(pow2(7) == 128) by {
                lemma2_to64();
            }
            assert((v % 128) * pow2(shift) + (v / 128) * (pow2(shift) * 128) == v * pow2(shift))
                by (nonlinear_arith)
                requires
                    v == 128 * (v / 128) + (v % 128),
            {
            }
        }
    }
}

/// VarInt round trip: for every value in the protocol's supported
/// 35-bit range, decoding the minimal encoding yields the value back,
/// consuming exactly the encoded bytes.
pub proof fn lemma_varint_round_trip(v: u64)
    requires
        v < 0x8_0000_0000u64,
    ensures
        spec_decode_varint(spec_encode_varint(v as nat), 0, 0, 0) == (VarIntOutcome::Value {
            v: v as nat,
            end: spec_encode_varint(v as nat).len() as int,
        }),
{
    let enc = spec_encode_varint(v as nat);
    assert(v < pow2(35)) by {
        lemma2_to64_rest();
    }
    assert(7 * 5 == 35);
    lemma_varint_len_bound(v as nat, 5);
    assert(enc.subrange(0, enc.len() as int) =~= enc);
    lemma_decode_matches_encode(enc, 0, 0, 0, v as nat);
    assert(pow2(0) == 1) by {
        lemma2_to64();
    }
}

#[verifier::external_type_specification]
#[verifier::external_body]
pub struct ExJsonValue(serde_json::Value);

#[verifier::external_type_specification]
#[verifier::external_body]
pub struct ExJsonError(serde_json::Error);

/// Whether `serde_json` accepts these characters as a JSON document.
pub uninterp spec fn json_parses(s: Seq<char>) -> bool;

/// The characters that lossy UTF-8 decoding turns these bytes into.
pub uninterp spec fn utf8_lossy_chars(bytes: Seq<u8>) -> Seq<char>;

/// Relies on `String::from_utf8_lossy`: the characters produced are a
/// function of the input bytes alone — valid sequences are decoded,
/// invalid ones replaced, none rejected.
#[verifier::external_body]
fn utf8_lossy(bytes: &Vec<u8>) -> (r: String)
    ensures
        r@ == utf8_lossy_chars(bytes@),
{
    String::from_utf8_lossy(bytes).into_owned()
}

/// Relies on `serde_json::from_str::<Value>`: whether a string parses
/// as JSON is a function of its characters alone.
#[verifier::external_body]
fn json_from_str(s: &str) -> (r: Result<serde_json::Value, serde_json::Error>)
    ensures
        r is Ok <==> json_parses(s@),
{
    serde_json::from_str(s)
}

/// Decodes a complete status reply: takes the framing apart with
/// `extract_status_json`, reads the JSON bytes as UTF-8 (lossily —
/// invalid sequences are replaced, not rejected) and parses them. Every
/// failure is reported as the distinct error it is: framing errors as
/// such, an unparsable payload as `InvalidJson`.
pub fn decode_status_response(buf: &Vec<u8>) -> (r: Result<serde_json::Value, SlpError>)
    ensures
        ({
            match spec_status_frame(buf@) {
                Ok(b) => if json_parses(utf8_lossy_chars(b)) {
                    r is Ok
                } else {
                    r == Err::<serde_json::Value, SlpError>(SlpError::InvalidJson)
                },
                Err(e) => r == Err::<serde_json::Value, SlpError>(e),
            }
        }),
{
    let bytes = match extract_status_json(buf) {
        Ok(v) => v,
        Err(e) => {
            return Err(e);
        },
    };
    let text = utf8_lossy(&bytes);
    match json_from_str(text.as_str()) {
        Ok(value) => Ok(value),
        Err(_) => Err(SlpError::InvalidJson),
    }
}

/// A run of continuation bytes long enough to push the shift to 35
/// bits forces the too-large outcome, whatever was accumulated so far.
proof fn lemma_overflow_run(s: Seq<u8>, i: int, shift: nat, acc: nat)
    requires
        0 <= i,
        shift <= 28,
        shift % 7 == 0,
        i + (35 - shift) / 7 <= s.len(),
        forall|k: int| i <= k < i + (35 - shift) / 7 ==> s[k] >= 128,
    ensures
        spec_decode_varint(s, i, shift, acc) is TooLarge,
    decreases 35 - shift,
{
    assert(s[i] >= 128);
    if shift < 28 {
        lemma_overflow_run(s, i + 1, shift + 7, acc + ((s[i] % 128) as nat) * pow2(shift));
    }
}

/// VarInt overflow: wherever five consecutive continuation bytes stand,
/// decoding fails with the too-large outcome — it can neither succeed
/// nor read past them.
pub proof fn lemma_varint_overflow(s: Seq<u8>, i: int)
    requires
        0 <= i,
        i + 5 <= s.len(),
        forall|k: int| i <= k < i + 5 ==> s[k] >= 128,
    ensures
        spec_decode_varint(s, i, 0, 0) is TooLarge,
{
    lemma_overflow_run(s, i, 0, 0);
}

} // verus!
