//! Binary wire protocol: version negotiation and frame encoding.
use vstd::prelude::*;

use crate::text::{append_decimal, decimal};

verus! {

/// Magic number at the start of every frame ("ID").
pub const WIRE_MAGIC: u16 = 0x4944;

/// Size of the fixed frame header in bytes.
pub const HEADER_BYTES: usize = 20;

#[derive(Debug, Clone, Copy, PartialEq, Eq, Structural, PartialOrd, Ord, Hash)]
pub struct ProtocolVersion {
    pub major: u16,
    pub minor: u16,
}

/// Versions are ordered lexicographically by (major, minor); this is the
/// position of a version in that order.
pub open spec fn version_rank(v: ProtocolVersion) -> int {
    v.major * 0x10000 + v.minor
}

impl ProtocolVersion {
    pub fn new(major: u16, minor: u16) -> (r: Self)
        ensures
            r.major == major,
            r.minor == minor,
    {
        Self { major, minor }
    }
}

/// `a < b` in the lexicographic version order.
fn version_lt(a: ProtocolVersion, b: ProtocolVersion) -> (r: bool)
    ensures
        r == (version_rank(a) < version_rank(b)),
{
    a.major < b.major || (a.major == b.major && a.minor < b.minor)
}

#[derive(Debug, Clone, PartialEq, Eq)]
pub struct SessionHello {
    pub client_name: String,
    pub min_version: ProtocolVersion,
    pub max_version: ProtocolVersion,
}

#[derive(Debug, Clone, Copy, PartialEq, Eq, Structural)]
pub struct SessionWelcome {
    pub negotiated_version: ProtocolVersion,
}

#[derive(Debug, Clone, Copy, PartialEq, Eq, Structural)]
pub enum WireError {
    IncompatibleVersion {
        client_min: ProtocolVersion,
        client_max: ProtocolVersion,
        server_min: ProtocolVersion,
        server_max: ProtocolVersion,
    },
    InvalidRange { min: ProtocolVersion, max: ProtocolVersion },
    InvalidMagic { expected: u16, actual: u16 },
    TruncatedFrame { expected: usize, actual: usize },
    PayloadLengthMismatch { expected: usize, actual: usize },
}

// ----- error texts -----
/// A version as its debug form writes it.
pub open spec fn version_text(v: ProtocolVersion) -> Seq<char> {
    "ProtocolVersion { major: "@ + decimal(v.major as nat) + ", minor: "@ + decimal(v.minor as nat)
        + " }"@
}

pub open spec fn hex_digits() -> Seq<char> {
    "0123456789ABCDEF"@
}

/// Four upper-case hexadecimal digits.
pub open spec fn hex4(x: u16) -> Seq<char> {
    seq![
        hex_digits()[((x / 4096) % 16) as int],
        hex_digits()[((x / 256) % 16) as int],
        hex_digits()[((x / 16) % 16) as int],
        hex_digits()[(x % 16) as int],
    ]
}

pub open spec fn wire_error_text(e: WireError) -> Seq<char> {
    match e {
        WireError::IncompatibleVersion { client_min, client_max, server_min, server_max } =>
            "incompatible protocol versions: client "@ + version_text(client_min) + "-"@
            + version_text(client_max) + ", server "@ + version_text(server_min) + "-"@
            + version_text(server_max),
        WireError::InvalidRange { min, max } => "invalid protocol range: min "@ + version_text(min)
            + " is greater than max "@ + version_text(max),
        WireError::InvalidMagic { expected, actual } => "invalid wire magic: expected 0x"@ + hex4(
            expected,
        ) + ", got 0x"@ + hex4(actual),
        WireError::TruncatedFrame { expected, actual } => "truncated frame: expected at least "@
            + decimal(expected as nat) + " bytes, got "@ + decimal(actual as nat),
        WireError::PayloadLengthMismatch { expected, actual } =>
            "frame payload length mismatch: header "@ + decimal(expected as nat) + ", actual "@
            + decimal(actual as nat),
    }
}

fn append_version(s: &mut String, v: ProtocolVersion)
    ensures
        final(s)@ == old(s)@ + version_text(v),
{
    let ghost start = s@;
    s.append("ProtocolVersion { major: ");
    append_decimal(s, v.major as u64);
    s.append(", minor: ");
    append_decimal(s, v.minor as u64);
    s.append(" }");
    assert(s@ =~= start + version_text(v));
}

fn append_hex_digit(s: &mut String, d: u16)
    requires
        d < 16,
    ensures
        final(s)@ == old(s)@.push(hex_digits()[d as int]),
{
    let digits = "0123456789ABCDEF";
    proof {
        reveal_strlit("0123456789ABCDEF");
    }
    let one = digits.substring_char(d as usize, (d + 1) as usize);
    assert(one@ =~= seq![hex_digits()[d as int]]);
    s.append(one);
}

fn append_hex4(s: &mut String, x: u16)
    ensures
        final(s)@ == old(s)@ + hex4(x),
{
    let ghost start = s@;
    append_hex_digit(s, (x / 4096) % 16);
    append_hex_digit(s, (x / 256) % 16);
    append_hex_digit(s, (x / 16) % 16);
    append_hex_digit(s, x % 16);
    assert(s@ =~= start + hex4(x));
}

impl WireError {
    /// Renders the error as text.
    pub fn message(&self) -> (r: String)
        ensures
            r@ == wire_error_text(*self),
    {
        let mut s = String::new();
        match *self {
            WireError::IncompatibleVersion { client_min, client_max, server_min, server_max } => {
                s.append("incompatible protocol versions: client ");
                append_version(&mut s, client_min);
                s.append("-");
                append_version(&mut s, client_max);
                s.append(", server ");
                append_version(&mut s, server_min);
                s.append("-");
                append_version(&mut s, server_max);
            },
            WireError::InvalidRange { min, max } => {
                s.append("invalid protocol range: min ");
                append_version(&mut s, min);
                s.append(" is greater than max ");
                append_version(&mut s, max);
            },
            WireError::InvalidMagic { expected, actual } => {
                s.append("invalid wire magic: expected 0x");
                append_hex4(&mut s, expected);
                s.append(", got 0x");
                append_hex4(&mut s, actual);
            },
            WireError::TruncatedFrame { expected, actual } => {
                s.append("truncated frame: expected at least ");
                append_decimal(&mut s, expected as u64);
                s.append(" bytes, got ");
                append_decimal(&mut s, actual as u64);
            },
            WireError::PayloadLengthMismatch { expected, actual } => {
                s.append("frame payload length mismatch: header ");
                append_decimal(&mut s, expected as u64);
                s.append(", actual ");
                append_decimal(&mut s, actual as u64);
            },
        }
        assert(s@ =~= wire_error_text(*self));
        s
    }
}

#[derive(Debug, Clone, Copy, PartialEq, Eq, Structural)]
pub struct ProtocolRange {
    pub min: ProtocolVersion,
    pub max: ProtocolVersion,
}

impl ProtocolRange {
    /// A range is well formed when its minimum does not exceed its maximum.
    pub open spec fn well_formed(self) -> bool {
        version_rank(self.min) <= version_rank(self.max)
    }

    /// The range admits version `v`.
    pub open spec fn admits(self, v: ProtocolVersion) -> bool {
        version_rank(self.min) <= version_rank(v) <= version_rank(self.max)
    }

    pub fn validate(&self) -> (r: Result<(), WireError>)
        ensures
            r == (if self.well_formed() {
                Ok(())
            } else {
                Err(WireError::InvalidRange { min: self.min, max: self.max })
            }),
    {
        if version_lt(self.max, self.min) {
            return Err(WireError::InvalidRange { min: self.min, max: self.max });
        }
        Ok(())
    }
}

/// The lower of two versions (the first one when they are equal).
pub open spec fn version_min(a: ProtocolVersion, b: ProtocolVersion) -> ProtocolVersion {
    if version_rank(a) <= version_rank(b) { a } else { b }
}

/// The higher of two versions (the second one when they are equal).
pub open spec fn version_max(a: ProtocolVersion, b: ProtocolVersion) -> ProtocolVersion {
    if version_rank(b) < version_rank(a) { a } else { b }
}

/// Outcome of negotiating a client range against a server range: the highest
/// version both admit, or the first reason why there is none.
pub open spec fn negotiation_outcome(client: ProtocolRange, server: ProtocolRange) -> Result<
    ProtocolVersion,
    WireError,
> {
    if !client.well_formed() {
        Err(WireError::InvalidRange { min: client.min, max: client.max })
    } else if !server.well_formed() {
        Err(WireError::InvalidRange { min: server.min, max: server.max })
    } else if version_rank(version_min(client.max, server.max)) < version_rank(
        version_max(client.min, server.min),
    ) {
        Err(
            WireError::IncompatibleVersion {
                client_min: client.min,
                client_max: client.max,
                server_min: server.min,
                server_max: server.max,
            },
        )
    } else {
        Ok(version_min(client.max, server.max))
    }
}

pub fn negotiate_protocol(client: ProtocolRange, server: ProtocolRange) -> (r: Result<
    ProtocolVersion,
    WireError,
>)
    ensures
        r == negotiation_outcome(client, server),
{
    client.validate()?;
    server.validate()?;

    let floor = if version_lt(server.min, client.min) {
        client.min
    } else {
        server.min
    };
    let ceiling = if version_lt(server.max, client.max) {
        server.max
    } else {
        client.max
    };

    if version_lt(ceiling, floor) {
        return Err(
            WireError::IncompatibleVersion {
                client_min: client.min,
                client_max: client.max,
                server_min: server.min,
                server_max: server.max,
            },
        );
    }
    Ok(ceiling)
}

/// Negotiation succeeds exactly when both ranges are well formed and share a
/// version, and then yields the highest version that both ranges admit.
pub proof fn lemma_negotiation_picks_highest_common_version(
    client: ProtocolRange,
    server: ProtocolRange,
)
    ensures
        (negotiation_outcome(client, server) is Ok) <==> (client.well_formed()
            && server.well_formed() && exists|w: ProtocolVersion|
            client.admits(w) && server.admits(w)),
        negotiation_outcome(client, server) matches Ok(v) ==> {
            &&& client.admits(v)
            &&& server.admits(v)
            &&& forall|w: ProtocolVersion|
                client.admits(w) && server.admits(w) ==> version_rank(w) <= version_rank(v)
        },
{
    let c = version_min(client.max, server.max);
    if client.well_formed() && server.well_formed() && version_rank(c) >= version_rank(
        version_max(client.min, server.min),
    ) {
        assert(client.admits(c) && server.admits(c));
    }
}

pub fn negotiate_handshake(hello: &SessionHello, server_supported: ProtocolRange) -> (r: Result<
    SessionWelcome,
    WireError,
>)
    ensures
        r == (match negotiation_outcome(
            ProtocolRange { min: hello.min_version, max: hello.max_version },
            server_supported,
        ) {
            Ok(v) => Ok(SessionWelcome { negotiated_version: v }),
            Err(e) => Err(e),
        }),
{
    let client_range = ProtocolRange { min: hello.min_version, max: hello.max_version };
    let negotiated_version = negotiate_protocol(client_range, server_supported)?;
    Ok(SessionWelcome { negotiated_version })
}

#[derive(Debug, Clone, Copy, PartialEq, Eq, Structural)]
pub struct WireFrameHeader {
    pub version: ProtocolVersion,
    pub opcode: u16,
    pub request_id: u64,
    pub payload_len: u32,
}

#[derive(Debug, Clone, PartialEq, Eq)]
pub struct WireFrame {
    pub header: WireFrameHeader,
    pub payload: Vec<u8>,
}

/// Mathematical value of a frame: its header and its payload bytes.
pub ghost struct WireFrameView {
    pub header: WireFrameHeader,
    pub payload: Seq<u8>,
}

impl View for WireFrame {
    type V = WireFrameView;

    open spec fn view(&self) -> WireFrameView {
        WireFrameView { header: self.header, payload: self.payload@ }
    }
}

impl WireFrameView {
    /// The header's payload length agrees with the payload.
    pub open spec fn consistent(self) -> bool {
        self.header.payload_len == self.payload.len()
    }
}

impl WireFrame {
    pub fn new(version: ProtocolVersion, opcode: u16, request_id: u64, payload: Vec<u8>) -> (r:
        Self)
        ensures
            r.header.version == version,
            r.header.opcode == opcode,
            r.header.request_id == request_id,
            r.header.payload_len == payload@.len() as u32,
            r.payload@ == payload@,
    {
        let payload_len = payload.len() as u32;
        Self { header: WireFrameHeader { version, opcode, request_id, payload_len }, payload }
    }
}

/// Big-endian bytes of a 16-bit value.
pub open spec fn be16(x: u16) -> Seq<u8> {
    seq![(x >> 8u16) as u8, (x & 0xffu16) as u8]
}

/// Big-endian bytes of a 32-bit value.
pub open spec fn be32(x: u32) -> Seq<u8> {
    seq![(x >> 24u32) as u8, (x >> 16u32) as u8, (x >> 8u32) as u8, x as u8]
}

/// Big-endian bytes of a 64-bit value.
pub open spec fn be64(x: u64) -> Seq<u8> {
    seq![
        (x >> 56u64) as u8,
        (x >> 48u64) as u8,
        (x >> 40u64) as u8,
        (x >> 32u64) as u8,
        (x >> 24u64) as u8,
        (x >> 16u64) as u8,
        (x >> 8u64) as u8,
        x as u8,
    ]
}

/// The 16-bit value whose big-endian bytes are `b0 b1`.
pub open spec fn from_be16(b0: u8, b1: u8) -> u16 {
    ((b0 as u16) << 8u16) | (b1 as u16)
}

/// The 32-bit value whose big-endian bytes are `b0 .. b3`.
pub open spec fn from_be32(b0: u8, b1: u8, b2: u8, b3: u8) -> u32 {
    ((b0 as u32) << 24u32) | ((b1 as u32) << 16u32) | ((b2 as u32) << 8u32) | (b3 as u32)
}

/// The 64-bit value whose big-endian bytes are `b[i] .. b[i + 7]`.
pub open spec fn from_be64(b: Seq<u8>, i: int) -> u64 {
    ((b[i] as u64) << 56u64) | ((b[i + 1] as u64) << 48u64) | ((b[i + 2] as u64) << 40u64) | ((b[i
        + 3] as u64) << 32u64) | ((b[i + 4] as u64) << 24u64) | ((b[i + 5] as u64) << 16u64) | ((b[i
        + 6] as u64) << 8u64) | (b[i + 7] as u64)
}

/// Byte layout of a frame: magic, major, minor, opcode, request id, payload
/// length (all big-endian), then the payload.
pub open spec fn frame_bytes(f: WireFrameView) -> Seq<u8> {
    be16(WIRE_MAGIC) + be16(f.header.version.major) + be16(f.header.version.minor) + be16(
        f.header.opcode,
    ) + be64(f.header.request_id) + be32(f.header.payload_len) + f.payload
}

/// Outcome of decoding a buffer as exactly one frame.
pub open spec fn decoded_frame(b: Seq<u8>) -> Result<WireFrameView, WireError> {
    if b.len() < HEADER_BYTES {
        Err(WireError::TruncatedFrame { expected: HEADER_BYTES, actual: b.len() as usize })
    } else if from_be16(b[0], b[1]) != WIRE_MAGIC {
        Err(WireError::InvalidMagic { expected: WIRE_MAGIC, actual: from_be16(b[0], b[1]) })
    } else {
        let payload_len = from_be32(b[16], b[17], b[18], b[19]);
        let expected_total = HEADER_BYTES + payload_len;
        if b.len() < expected_total {
            Err(
                WireError::TruncatedFrame {
                    expected: expected_total as usize,
                    actual: b.len() as usize,
                },
            )
        } else if b.len() > expected_total {
            Err(
                WireError::PayloadLengthMismatch {
                    expected: expected_total as usize,
                    actual: b.len() as usize,
                },
            )
        } else {
            Ok(
                WireFrameView {
                    header: WireFrameHeader {
                        version: ProtocolVersion {
                            major: from_be16(b[2], b[3]),
                            minor: from_be16(b[4], b[5]),
                        },
                        opcode: from_be16(b[6], b[7]),
                        request_id: from_be64(b, 8),
                        payload_len,
                    },
                    payload: b.subrange(HEADER_BYTES as int, b.len() as int),
                },
            )
        }
    }
}

fn push_be16(out: &mut Vec<u8>, x: u16)
    ensures
        final(out)@ == old(out)@ + be16(x),
{
    out.push((x >> 8u16) as u8);
    out.push((x & 0xffu16) as u8);
    assert(out@ =~= old(out)@ + be16(x));
}

fn push_be32(out: &mut Vec<u8>, x: u32)
    ensures
        final(out)@ == old(out)@ + be32(x),
{
    out.push((x >> 24u32) as u8);
    out.push((x >> 16u32) as u8);
    out.push((x >> 8u32) as u8);
    out.push(x as u8);
    assert(out@ =~= old(out)@ + be32(x));
}

fn push_be64(out: &mut Vec<u8>, x: u64)
    ensures
        final(out)@ == old(out)@ + be64(x),
{
    out.push((x >> 56u64) as u8);
    out.push((x >> 48u64) as u8);
    out.push((x >> 40u64) as u8);
    out.push((x >> 32u64) as u8);
    out.push((x >> 24u64) as u8);
    out.push((x >> 16u64) as u8);
    out.push((x >> 8u64) as u8);
    out.push(x as u8);
    assert(out@ =~= old(out)@ + be64(x));
}

pub fn encode_frame(frame: &WireFrame) -> (out: Vec<u8>)
    ensures
        out@ == frame_bytes(frame@),
{
    let mut out: Vec<u8> = Vec::new();
    push_be16(&mut out, WIRE_MAGIC);
    push_be16(&mut out, frame.header.version.major);
    push_be16(&mut out, frame.header.version.minor);
    push_be16(&mut out, frame.header.opcode);
    push_be64(&mut out, frame.header.request_id);
    push_be32(&mut out, frame.header.payload_len);
    let n = frame.payload.len();
    for i in 0..n
        invariant
            n == frame.payload@.len(),
            out@ == be16(WIRE_MAGIC) + be16(frame.header.version.major) + be16(
                frame.header.version.minor,
            ) + be16(frame.header.opcode) + be64(frame.header.request_id) + be32(
                frame.header.payload_len,
            ) + frame.payload@.subrange(0, i as int),
    {
        out.push(frame.payload[i]);
        assert(frame.payload@.subrange(0, i + 1) =~= frame.payload@.subrange(0, i as int).push(
            frame.payload@[i as int],
        ));
    }
    assert(frame.payload@.subrange(0, n as int) =~= frame.payload@);
    out
}

pub fn decode_frame(buffer: &[u8]) -> (r: Result<WireFrame, WireError>)
    ensures
        match (r, decoded_frame(buffer@)) {
            (Ok(f), Ok(v)) => f@ == v,
            (Err(e1), Err(e2)) => e1 == e2,
            _ => false,
        },
{
    let len = buffer.len();
    if len < HEADER_BYTES {
        return Err(WireError::TruncatedFrame { expected: HEADER_BYTES, actual: len });
    }
    let magic: u16 = ((buffer[0] as u16) << 8u16) | (buffer[1] as u16);
    if magic != WIRE_MAGIC {
        return Err(WireError::InvalidMagic { expected: WIRE_MAGIC, actual: magic });
    }
    let major: u16 = ((buffer[2] as u16) << 8u16) | (buffer[3] as u16);
    let minor: u16 = ((buffer[4] as u16) << 8u16) | (buffer[5] as u16);
    let opcode: u16 = ((buffer[6] as u16) << 8u16) | (buffer[7] as u16);
    let request_id: u64 = ((buffer[8] as u64) << 56u64) | ((buffer[9] as u64) << 48u64) | ((
    buffer[10] as u64) << 40u64) | ((buffer[11] as u64) << 32u64) | ((buffer[12] as u64) << 24u64)
        | ((buffer[13] as u64) << 16u64) | ((buffer[14] as u64) << 8u64) | (buffer[15] as u64);
    let payload_len: u32 = ((buffer[16] as u32) << 24u32) | ((buffer[17] as u32) << 16u32) | ((
    buffer[18] as u32) << 8u32) | (buffer[19] as u32);

    let expected_total: u64 = 20u64 + payload_len as u64;
    if (len as u64) < expected_total {
        return Err(WireError::TruncatedFrame { expected: expected_total as usize, actual: len });
    }
    if (len as u64) > expected_total {
        return Err(
            WireError::PayloadLengthMismatch { expected: expected_total as usize, actual: len },
        );
    }

    let mut payload: Vec<u8> = Vec::new();
    let mut i: usize = HEADER_BYTES;
    while i < len
        invariant
            HEADER_BYTES <= i <= len,
            len == buffer@.len(),
            payload@ == buffer@.subrange(HEADER_BYTES as int, i as int),
        decreases len - i,
    {
        payload.push(buffer[i]);
        assert(buffer@.subrange(HEADER_BYTES as int, i + 1) =~= buffer@.subrange(
            HEADER_BYTES as int,
            i as int,
        ).push(buffer@[i as int]));
        i = i + 1;
    }
    let frame = WireFrame {
        header: WireFrameHeader {
            version: ProtocolVersion { major, minor },
            opcode,
            request_id,
            payload_len,
        },
        payload,
    };
    assert(frame@ == decoded_frame(buffer@)->Ok_0);
    Ok(frame)
}

proof fn lemma_be16_roundtrip(x: u16)
    ensures
        from_be16(be16(x)[0], be16(x)[1]) == x,
{
    let b0 = (x >> 8u16) as u8;
    let b1 = (x & 0xffu16) as u8;
    assert(((b0 as u16) << 8u16) | (b1 as u16) == x) by (bit_vector)
        requires
            b0 == (x >> 8u16) as u8,
            b1 == (x & 0xffu16) as u8,
    ;
}

proof fn lemma_be32_roundtrip(x: u32)
    ensures
        from_be32(be32(x)[0], be32(x)[1], be32(x)[2], be32(x)[3]) == x,
{
    let b0 = (x >> 24u32) as u8;
    let b1 = (x >> 16u32) as u8;
    let b2 = (x >> 8u32) as u8;
    let b3 = x as u8;
    assert(((b0 as u32) << 24u32) | ((b1 as u32) << 16u32) | ((b2 as u32) << 8u32) | (b3 as u32)
        == x) by (bit_vector)
        requires
            b0 == (x >> 24u32) as u8,
            b1 == (x >> 16u32) as u8,
            b2 == (x >> 8u32) as u8,
            b3 == x as u8,
    ;
}

proof fn lemma_be64_roundtrip(x: u64, s: Seq<u8>, i: int)
    requires
        0 <= i,
        i + 8 <= s.len(),
        s.subrange(i, i + 8) == be64(x),
    ensures
        from_be64(s, i) == x,
{
    assert(s[i] == be64(x)[0]);
    assert(s[i + 1] == be64(x)[1]);
    assert(s[i + 2] == be64(x)[2]);
    assert(s[i + 3] == be64(x)[3]);
    assert(s[i + 4] == be64(x)[4]);
    assert(s[i + 5] == be64(x)[5]);
    assert(s[i + 6] == be64(x)[6]);
    assert(s[i + 7] == be64(x)[7]);
    let b0 = s[i];
    let b1 = s[i + 1];
    let b2 = s[i + 2];
    let b3 = s[i + 3];
    let b4 = s[i + 4];
    let b5 = s[i + 5];
    let b6 = s[i + 6];
    let b7 = s[i + 7];
    assert(((b0 as u64) << 56u64) | ((b1 as u64) << 48u64) | ((b2 as u64) << 40u64) | ((b3 as u64)
        << 32u64) | ((b4 as u64) << 24u64) | ((b5 as u64) << 16u64) | ((b6 as u64) << 8u64) | (b7
        as u64) == x) by (bit_vector)
        requires
            b0 == (x >> 56u64) as u8,
            b1 == (x >> 48u64) as u8,
            b2 == (x >> 40u64) as u8,
            b3 == (x >> 32u64) as u8,
            b4 == (x >> 24u64) as u8,
            b5 == (x >> 16u64) as u8,
            b6 == (x >> 8u64) as u8,
            b7 == x as u8,
    ;
}

/// Decoding the encoding of a frame whose header length agrees with its
/// payload gives that frame back.
pub proof fn lemma_decode_encode_roundtrip(f: WireFrameView)
    requires
        f.consistent(),
    ensures
        decoded_frame(frame_bytes(f)) == Ok::<WireFrameView, WireError>(f),
{
    let b = frame_bytes(f);
    let h = f.header;
    assert(b.len() == HEADER_BYTES + f.payload.len());
    lemma_be16_roundtrip(WIRE_MAGIC);
    lemma_be16_roundtrip(h.version.major);
    lemma_be16_roundtrip(h.version.minor);
    lemma_be16_roundtrip(h.opcode);
    lemma_be32_roundtrip(h.payload_len);
    assert(b[0] == be16(WIRE_MAGIC)[0] && b[1] == be16(WIRE_MAGIC)[1]);
    assert(b[2] == be16(h.version.major)[0] && b[3] == be16(h.version.major)[1]);
    assert(b[4] == be16(h.version.minor)[0] && b[5] == be16(h.version.minor)[1]);
    assert(b[6] == be16(h.opcode)[0] && b[7] == be16(h.opcode)[1]);
    assert(b.subrange(8, 16) =~= be64(h.request_id));
    lemma_be64_roundtrip(h.request_id, b, 8);
    assert(b[16] == be32(h.payload_len)[0] && b[17] == be32(h.payload_len)[1]);
    assert(b[18] == be32(h.payload_len)[2] && b[19] == be32(h.payload_len)[3]);
    assert(b.subrange(HEADER_BYTES as int, b.len() as int) =~= f.payload);
}

/// A buffer that decodes as a frame is exactly the encoding of that frame.
pub proof fn lemma_encode_decode_roundtrip(b: Seq<u8>)
    requires
        decoded_frame(b) is Ok,
    ensures
        decoded_frame(b)->Ok_0.consistent(),
        frame_bytes(decoded_frame(b)->Ok_0) == b,
{
    let f = decoded_frame(b)->Ok_0;
    let h = f.header;
    let b0 = b[0];
    let b1 = b[1];
    let b2 = b[2];
    let b3 = b[3];
    let b4 = b[4];
    let b5 = b[5];
    let b6 = b[6];
    let b7 = b[7];
    assert(be16(from_be16(b0, b1)) =~= seq![b0, b1]) by {
        let x = from_be16(b0, b1);
        assert((x >> 8u16) as u8 == b0 && (x & 0xffu16) as u8 == b1) by (bit_vector)
            requires
                x == ((b0 as u16) << 8u16) | (b1 as u16),
        ;
    }
    assert(be16(from_be16(b2, b3)) =~= seq![b2, b3]) by {
        let x = from_be16(b2, b3);
        assert((x >> 8u16) as u8 == b2 && (x & 0xffu16) as u8 == b3) by (bit_vector)
            requires
                x == ((b2 as u16) << 8u16) | (b3 as u16),
        ;
    }
    assert(be16(from_be16(b4, b5)) =~= seq![b4, b5]) by {
        let x = from_be16(b4, b5);
        assert((x >> 8u16) as u8 == b4 && (x & 0xffu16) as u8 == b5) by (bit_vector)
            requires
                x == ((b4 as u16) << 8u16) | (b5 as u16),
        ;
    }
    assert(be16(from_be16(b6, b7)) =~= seq![b6, b7]) by {
        let x = from_be16(b6, b7);
        assert((x >> 8u16) as u8 == b6 && (x & 0xffu16) as u8 == b7) by (bit_vector)
            requires
                x == ((b6 as u16) << 8u16) | (b7 as u16),
        ;
    }
    let c0 = b[8];
    let c1 = b[9];
    let c2 = b[10];
    let c3 = b[11];
    let c4 = b[12];
    let c5 = b[13];
    let c6 = b[14];
    let c7 = b[15];
    assert(be64(from_be64(b, 8)) =~= b.subrange(8, 16)) by {
        let x = from_be64(b, 8);
        assert((x >> 56u64) as u8 == c0 && (x >> 48u64) as u8 == c1 && (x >> 40u64) as u8 == c2
            && (x >> 32u64) as u8 == c3 && (x >> 24u64) as u8 == c4 && (x >> 16u64) as u8 == c5
            && (x >> 8u64) as u8 == c6 && x as u8 == c7) by (bit_vector)
            requires
                x == ((c0 as u64) << 56u64) | ((c1 as u64) << 48u64) | ((c2 as u64) << 40u64) | ((
                c3 as u64) << 32u64) | ((c4 as u64) << 24u64) | ((c5 as u64) << 16u64) | ((c6
                    as u64) << 8u64) | (c7 as u64),
        ;
    }
    let d0 = b[16];
    let d1 = b[17];
    let d2 = b[18];
    let d3 = b[19];
    assert(be32(from_be32(d0, d1, d2, d3)) =~= seq![d0, d1, d2, d3]) by {
        let x = from_be32(d0, d1, d2, d3);
        assert((x >> 24u32) as u8 == d0 && (x >> 16u32) as u8 == d1 && (x >> 8u32) as u8 == d2
            && x as u8 == d3) by (bit_vector)
            requires
                x == ((d0 as u32) << 24u32) | ((d1 as u32) << 16u32) | ((d2 as u32) << 8u32) | (d3
                    as u32),
        ;
    }
    assert(frame_bytes(f) =~= b);
}

} // verus!
