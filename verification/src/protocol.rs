//! The UCNet wire codec: packet framing, payload types, parameter value
//! packets, discovery advertisements, and compressed state dumps.
//!
//! Every packet is 4 magic bytes, a little-endian 2-byte size field that
//! counts the 2-byte payload-type code plus the payload, the type code, and
//! the payload.

use vstd::prelude::*;
use vstd::string::StringSliceAdditionalSpecFns;
use crate::errors::UcNetError;
use crate::strutil::utf8_to_string;

verus! {

/// The magic bytes that start every UCNet packet.
pub const MAGIC_BYTES: [u8; 4] = [0x55, 0x43, 0x00, 0x01];

/// TCP port of the control channel.
pub const CONTROL_PORT: u16 = 53000;

/// UDP port of the discovery broadcast.
pub const DISCOVERY_PORT: u16 = 47809;

/// The magic bytes as a sequence.
pub open spec fn spec_magic() -> Seq<u8> {
    seq![0x55u8, 0x43u8, 0x00u8, 0x01u8]
}

/// Payload type codes, two ASCII characters each.
#[derive(Debug, Clone, Copy, PartialEq, Eq)]
pub enum PayloadType {
    /// "UM": hello/handshake.
    Hello,
    /// "JM": JSON message (subscribe and replies).
    Json,
    /// "PV": parameter value.
    ParameterValue,
    /// "PS": parameter set.
    ParameterSet,
    /// "PL": parameter list.
    ParameterList,
    /// "KA": keep-alive.
    KeepAlive,
    /// "DA": discovery advertisement, broadcast by consoles.
    DiscoveryAdvertisement,
    /// "DQ": discovery query, sent by clients.
    DiscoveryQuery,
    /// "ZB": ZLIB-compressed data.
    ZlibData,
    /// "CK": chunked data.
    ChunkData,
    /// "FR": file request.
    FileRequest,
    /// "FD": file data.
    FileData,
    /// "MS": metering and fader positions.
    MeterStatus,
    /// "BO": boolean data.
    Boolean,
    /// Any other two-byte code.
    Unknown([u8; 2]),
}

/// The two-byte code of a payload type.
pub open spec fn spec_type_bytes(t: PayloadType) -> Seq<u8> {
    match t {
        PayloadType::Hello => seq![0x55u8, 0x4Du8],
        PayloadType::Json => seq![0x4Au8, 0x4Du8],
        PayloadType::ParameterValue => seq![0x50u8, 0x56u8],
        PayloadType::ParameterSet => seq![0x50u8, 0x53u8],
        PayloadType::ParameterList => seq![0x50u8, 0x4Cu8],
        PayloadType::KeepAlive => seq![0x4Bu8, 0x41u8],
        PayloadType::DiscoveryAdvertisement => seq![0x44u8, 0x41u8],
        PayloadType::DiscoveryQuery => seq![0x44u8, 0x51u8],
        PayloadType::ZlibData => seq![0x5Au8, 0x42u8],
        PayloadType::ChunkData => seq![0x43u8, 0x4Bu8],
        PayloadType::FileRequest => seq![0x46u8, 0x52u8],
        PayloadType::FileData => seq![0x46u8, 0x44u8],
        PayloadType::MeterStatus => seq![0x4Du8, 0x53u8],
        PayloadType::Boolean => seq![0x42u8, 0x4Fu8],
        PayloadType::Unknown(bytes) => seq![bytes[0], bytes[1]],
    }
}

/// The payload type a two-byte code stands for.
pub open spec fn spec_type_of_bytes(b0: u8, b1: u8) -> PayloadType {
    if b0 == 0x55 && b1 == 0x4D {
        PayloadType::Hello
    } else if b0 == 0x4A && b1 == 0x4D {
        PayloadType::Json
    } else if b0 == 0x50 && b1 == 0x56 {
        PayloadType::ParameterValue
    } else if b0 == 0x50 && b1 == 0x53 {
        PayloadType::ParameterSet
    } else if b0 == 0x50 && b1 == 0x4C {
        PayloadType::ParameterList
    } else if b0 == 0x4B && b1 == 0x41 {
        PayloadType::KeepAlive
    } else if b0 == 0x44 && b1 == 0x41 {
        PayloadType::DiscoveryAdvertisement
    } else if b0 == 0x44 && b1 == 0x51 {
        PayloadType::DiscoveryQuery
    } else if b0 == 0x5A && b1 == 0x42 {
        PayloadType::ZlibData
    } else if b0 == 0x43 && b1 == 0x4B {
        PayloadType::ChunkData
    } else if b0 == 0x46 && b1 == 0x52 {
        PayloadType::FileRequest
    } else if b0 == 0x46 && b1 == 0x44 {
        PayloadType::FileData
    } else if b0 == 0x4D && b1 == 0x53 {
        PayloadType::MeterStatus
    } else if b0 == 0x42 && b1 == 0x4F {
        PayloadType::Boolean
    } else {
        PayloadType::Unknown([b0, b1])
    }
}

impl PayloadType {
    /// The two-byte code of this payload type.
    pub fn to_bytes(&self) -> (r: [u8; 2])
        ensures
            r@ == spec_type_bytes(*self),
    {
        let r = match self {
            PayloadType::Hello => [0x55, 0x4D],
            PayloadType::Json => [0x4A, 0x4D],
            PayloadType::ParameterValue => [0x50, 0x56],
            PayloadType::ParameterSet => [0x50, 0x53],
            PayloadType::ParameterList => [0x50, 0x4C],
            PayloadType::KeepAlive => [0x4B, 0x41],
            PayloadType::DiscoveryAdvertisement => [0x44, 0x41],
            PayloadType::DiscoveryQuery => [0x44, 0x51],
            PayloadType::ZlibData => [0x5A, 0x42],
            PayloadType::ChunkData => [0x43, 0x4B],
            PayloadType::FileRequest => [0x46, 0x52],
            PayloadType::FileData => [0x46, 0x44],
            PayloadType::MeterStatus => [0x4D, 0x53],
            PayloadType::Boolean => [0x42, 0x4F],
            PayloadType::Unknown(bytes) => [bytes[0], bytes[1]],
        };
        proof {
            assert(r@ =~= spec_type_bytes(*self));
        }
        r
    }

    /// The payload type of a two-byte code; codes of no known type parse to
    /// `Unknown`.
    pub fn from_bytes(bytes: [u8; 2]) -> (r: Self)
        ensures
            r == spec_type_of_bytes(bytes[0], bytes[1]),
    {
        let b0 = bytes[0];
        let b1 = bytes[1];
        if b0 == 0x55 && b1 == 0x4D {
            PayloadType::Hello
        } else if b0 == 0x4A && b1 == 0x4D {
            PayloadType::Json
        } else if b0 == 0x50 && b1 == 0x56 {
            PayloadType::ParameterValue
        } else if b0 == 0x50 && b1 == 0x53 {
            PayloadType::ParameterSet
        } else if b0 == 0x50 && b1 == 0x4C {
            PayloadType::ParameterList
        } else if b0 == 0x4B && b1 == 0x41 {
            PayloadType::KeepAlive
        } else if b0 == 0x44 && b1 == 0x41 {
            PayloadType::DiscoveryAdvertisement
        } else if b0 == 0x44 && b1 == 0x51 {
            PayloadType::DiscoveryQuery
        } else if b0 == 0x5A && b1 == 0x42 {
            PayloadType::ZlibData
        } else if b0 == 0x43 && b1 == 0x4B {
            PayloadType::ChunkData
        } else if b0 == 0x46 && b1 == 0x52 {
            PayloadType::FileRequest
        } else if b0 == 0x46 && b1 == 0x44 {
            PayloadType::FileData
        } else if b0 == 0x4D && b1 == 0x53 {
            PayloadType::MeterStatus
        } else if b0 == 0x42 && b1 == 0x4F {
            PayloadType::Boolean
        } else {
            let r = PayloadType::Unknown([b0, b1]);
            proof {
                assert(r == spec_type_of_bytes(b0, b1));
            }
            r
        }
    }
}

/// Encoding a known payload type and parsing the code back returns the type
/// unchanged.
pub proof fn lemma_payload_type_round_trip(t: PayloadType)
    requires
        !(t matches PayloadType::Unknown(_)),
    ensures
        spec_type_of_bytes(spec_type_bytes(t)[0], spec_type_bytes(t)[1]) == t,
{
}

/// Correlation bytes used for request/response matching: the first and third
/// bytes of a four-byte field whose second and fourth bytes are null.
#[derive(Debug, Clone, Copy, PartialEq, Eq, Structural)]
pub struct CBytes {
    /// First significant byte.
    pub a: u8,
    /// Second significant byte.
    pub b: u8,
}

impl CBytes {
    /// The default correlation bytes, 'j' and 'e'.
    pub fn new() -> (r: Self)
        ensures
            r.a == 0x6A,
            r.b == 0x65,
    {
        Self { a: 0x6A, b: 0x65 }
    }

    /// Reads correlation bytes from their four-byte wire form.
    pub fn from_bytes(bytes: [u8; 4]) -> (r: Self)
        ensures
            r.a == bytes[0],
            r.b == bytes[2],
    {
        Self { a: bytes[0], b: bytes[2] }
    }

    /// The four-byte wire form.
    pub fn to_bytes(&self) -> (r: [u8; 4])
        ensures
            r@ == seq![self.a, 0u8, self.b, 0u8],
    {
        let r = [self.a, 0x00, self.b, 0x00];
        proof {
            assert(r@ =~= seq![self.a, 0u8, self.b, 0u8]);
        }
        r
    }

    /// The correlation bytes a response carries: the two bytes swapped.
    pub fn response(&self) -> (r: Self)
        ensures
            r.a == self.b,
            r.b == self.a,
    {
        Self { a: self.b, b: self.a }
    }
}

impl Default for CBytes {
    /// The default correlation bytes, 'j' and 'e'.
    fn default() -> (r: Self)
        ensures
            r.a == 0x6A,
            r.b == 0x65,
    {
        Self::new()
    }
}

/// A packet header: the magic bytes, the payload size, and the payload type.
/// `size` counts the payload bytes alone; on the wire the size field counts
/// the two type-code bytes as well.
#[derive(Debug, Clone, Copy, PartialEq, Eq)]
pub struct PacketHeader {
    /// Magic bytes, always `MAGIC_BYTES`.
    pub magic: [u8; 4],
    /// Payload size in bytes, excluding the two type-code bytes.
    pub size: u16,
    /// Payload type.
    pub payload_type: PayloadType,
}

/// The payload size a wire size field stands for: the field counts the two
/// type-code bytes, so two less, and a field below two counts as zero.
pub open spec fn spec_wire_to_size(wire: int) -> int {
    if wire >= 2 {
        wire - 2
    } else {
        0
    }
}

/// The little-endian 16-bit value of two bytes.
pub open spec fn spec_le16(lo: u8, hi: u8) -> int {
    lo + hi * 256
}

/// The little-endian 32-bit value of four bytes.
pub open spec fn spec_le32(b0: u8, b1: u8, b2: u8, b3: u8) -> int {
    b0 + b1 * 256 + b2 * 65536 + b3 * 16777216
}

impl PacketHeader {
    /// Parses the first eight bytes of a packet. Fails exactly when fewer
    /// than eight bytes are available or the magic bytes mismatch.
    pub fn from_bytes(bytes: &[u8]) -> (r: Result<Self, UcNetError>)
        ensures
            match r {
                Ok(h) => {
                    &&& bytes@.len() >= 8
                    &&& bytes@.take(4) == spec_magic()
                    &&& h.magic@ == spec_magic()
                    &&& h.size as int == spec_wire_to_size(spec_le16(bytes@[4], bytes@[5]))
                    &&& h.payload_type == spec_type_of_bytes(bytes@[6], bytes@[7])
                },
                Err(e) => {
                    &&& (bytes@.len() < 8 || bytes@.take(4) != spec_magic())
                    &&& e matches UcNetError::InvalidResponse(_)
                },
            },
    {
        if bytes.len() < 8 {
            return Err(
                UcNetError::InvalidResponse(String::from_str("Packet too short for header")),
            );
        }
        let magic: [u8; 4] = [bytes[0], bytes[1], bytes[2], bytes[3]];
        proof {
            assert(magic@ =~= bytes@.take(4));
        }
        if !(bytes[0] == 0x55 && bytes[1] == 0x43 && bytes[2] == 0x00 && bytes[3] == 0x01) {
            proof {
                assert(bytes@.take(4) != spec_magic());
            }
            return Err(UcNetError::InvalidResponse(String::from_str("Invalid magic bytes")));
        }
        proof {
            assert(bytes@.take(4) =~= spec_magic());
        }
        let wire: u16 = bytes[4] as u16 + (bytes[5] as u16) * 256;
        let size: u16 = if wire >= 2 {
            wire - 2
        } else {
            0
        };
        let payload_type = PayloadType::from_bytes([bytes[6], bytes[7]]);
        Ok(Self { magic, size, payload_type })
    }

    /// The eight wire bytes of the header.
    pub fn to_bytes(&self) -> (r: Vec<u8>)
        requires
            self.size + 2 <= u16::MAX,
        ensures
            r@.len() == 8,
            r@ == self.magic@ + seq![
                ((self.size + 2) as u16 % 256) as u8,
                ((self.size + 2) as u16 / 256) as u8,
            ] + spec_type_bytes(self.payload_type),
    {
        let mut bytes: Vec<u8> = Vec::new();
        bytes.push(self.magic[0]);
        bytes.push(self.magic[1]);
        bytes.push(self.magic[2]);
        bytes.push(self.magic[3]);
        let wire: u16 = self.size + 2;
        bytes.push((wire % 256) as u8);
        bytes.push((wire / 256) as u8);
        let t = self.payload_type.to_bytes();
        bytes.push(t[0]);
        bytes.push(t[1]);
        proof {
            assert(bytes@ =~= self.magic@ + seq![
                ((self.size + 2) as u16 % 256) as u8,
                ((self.size + 2) as u16 / 256) as u8,
            ] + spec_type_bytes(self.payload_type));
        }
        bytes
    }

    /// A header for a payload of `payload_size` bytes.
    pub fn new(payload_type: PayloadType, payload_size: u16) -> (r: Self)
        requires
            payload_size + 2 <= u16::MAX,
        ensures
            r.magic@ == spec_magic(),
            r.size == payload_size,
            r.payload_type == payload_type,
    {
        let magic = [0x55, 0x43, 0x00, 0x01];
        proof {
            assert(magic@ =~= spec_magic());
        }
        Self { magic, size: payload_size, payload_type }
    }
}

/// A complete packet's bytes: header then payload.
pub open spec fn spec_packet(payload_type: PayloadType, payload: Seq<u8>) -> Seq<u8> {
    let wire = payload.len() + 2;
    spec_magic() + seq![(wire % 256) as u8, ((wire / 256) % 256) as u8] + spec_type_bytes(
        payload_type,
    ) + payload
}

/// Builds a complete packet from a payload type and payload bytes.
pub fn build_packet(payload_type: PayloadType, payload: &[u8]) -> (r: Vec<u8>)
    requires
        payload@.len() + 2 <= u16::MAX,
    ensures
        r@ == spec_packet(payload_type, payload@),
{
    let header = PacketHeader::new(payload_type, payload.len() as u16);
    let mut packet = header.to_bytes();
    proof {
        assert(packet@ =~= header.to_bytes_spec_prefix() + payload@.take(0));
    }
    let mut i: usize = 0;
    while i < payload.len()
        invariant
            i <= payload@.len(),
            packet@ == header.to_bytes_spec_prefix() + payload@.take(i as int),
            header.size == payload@.len(),
            header.magic@ == spec_magic(),
            header.payload_type == payload_type,
            header.size + 2 <= u16::MAX,
        decreases payload@.len() - i,
    {
        packet.push(payload[i]);
        proof {
            assert(packet@ =~= header.to_bytes_spec_prefix() + payload@.take(i + 1));
        }
        i = i + 1;
    }
    proof {
        assert(payload@.take(payload@.len() as int) =~= payload@);
        assert(packet@ =~= spec_packet(payload_type, payload@));
    }
    packet
}

impl PacketHeader {
    /// The eight header bytes this header serialises to.
    pub open spec fn to_bytes_spec_prefix(&self) -> Seq<u8> {
        self.magic@ + seq![
            ((self.size + 2) as u16 % 256) as u8,
            ((self.size + 2) as u16 / 256) as u8,
        ] + spec_type_bytes(self.payload_type)
    }
}

/// Builds the hello packet, the first packet sent to a console.
pub fn build_hello_packet() -> (r: Vec<u8>)
    ensures
        r@ == spec_packet(PayloadType::Hello, seq![0x00u8, 0x00u8, 0x65u8, 0x00u8, 0x15u8, 0xFAu8]),
{
    let payload: [u8; 6] = [0x00, 0x00, 0x65, 0x00, 0x15, 0xFA];
    proof {
        assert(payload@ =~= seq![0x00u8, 0x00u8, 0x65u8, 0x00u8, 0x15u8, 0xFAu8]);
    }
    build_packet(PayloadType::Hello, payload.as_slice())
}

/// Builds a keep-alive packet: a bare header with an empty payload.
pub fn build_keepalive_packet() -> (r: Vec<u8>)
    ensures
        r@ == spec_packet(PayloadType::KeepAlive, Seq::<u8>::empty()),
{
    let payload: [u8; 0] = [];
    proof {
        assert(payload@ =~= Seq::<u8>::empty());
    }
    build_packet(PayloadType::KeepAlive, payload.as_slice())
}

/// The payload of a subscribe packet around a serialised subscribe body:
/// correlation bytes, the body's length as little-endian 32 bits, then the
/// body.
pub open spec fn spec_subscribe_payload(json: Seq<u8>) -> Seq<u8> {
    let n = json.len();
    seq![0x6Au8, 0x00u8, 0x65u8, 0x00u8] + seq![
        (n % 256) as u8,
        ((n / 256) % 256) as u8,
        ((n / 65536) % 256) as u8,
        ((n / 16777216) % 256) as u8,
    ] + json
}

/// Builds a subscribe packet around an already-serialised JSON body.
pub fn build_subscribe_packet(json: &str) -> (r: Vec<u8>)
    requires
        json@.len() <= 65000,
        vstd::string::is_ascii(json),
    ensures
        r@ == spec_packet(PayloadType::Json, spec_subscribe_payload(json.spec_bytes())),
{
    let cbytes = CBytes::new();
    let mut payload: Vec<u8> = Vec::new();
    let cb = cbytes.to_bytes();
    payload.push(cb[0]);
    payload.push(cb[1]);
    payload.push(cb[2]);
    payload.push(cb[3]);
    let jb = json.as_bytes();
    proof {
        vstd::string::is_ascii_spec_bytes(json);
        assert(jb@.len() == json@.len());
    }
    let n = jb.len() as u32;
    payload.push((n % 256) as u8);
    payload.push(((n / 256) % 256) as u8);
    payload.push(((n / 65536) % 256) as u8);
    payload.push(((n / 16777216) % 256) as u8);
    proof {
        assert(payload@ =~= spec_subscribe_payload(jb@).take(8));
    }
    let mut i: usize = 0;
    while i < jb.len()
        invariant
            i <= jb@.len(),
            jb@ == json.spec_bytes(),
            jb@.len() <= 65000,
            payload@ == spec_subscribe_payload(jb@).take(8 + i as int),
        decreases jb@.len() - i,
    {
        payload.push(jb[i]);
        proof {
            assert(payload@ =~= spec_subscribe_payload(jb@).take(8 + i + 1));
        }
        i = i + 1;
    }
    proof {
        assert(payload@ =~= spec_subscribe_payload(jb@));
    }
    build_packet(PayloadType::Json, payload.as_slice())
}


/// A parameter value packet's content: a key, four value bytes, and whether
/// the packet used the filter-group format.
#[derive(Debug)]
pub struct ParameterValue {
    /// Parameter key, e.g. "line.ch1.volume".
    pub key: String,
    /// The raw four value bytes, little endian on the wire.
    pub value: [u8; 4],
    /// Whether the packet used the filter-group format, which carries no
    /// value bytes.
    pub is_filter_group: bool,
}

impl Clone for ParameterValue {
    fn clone(&self) -> (r: Self)
        ensures
            r == *self,
    {
        let r = ParameterValue {
            key: self.key.clone(),
            value: [self.value[0], self.value[1], self.value[2], self.value[3]],
            is_filter_group: self.is_filter_group,
        };
        proof {
            assert(r.value@ =~= self.value@);
            assert(r.value =~= self.value);
        }
        r
    }
}

/// The first index at or after `j` holding a zero byte.
pub open spec fn spec_first_zero(s: Seq<u8>, j: int) -> Option<int>
    decreases s.len() - j when j >= 0
{
    if j < 0 || j >= s.len() {
        None
    } else if s[j] == 0 {
        Some(j)
    } else {
        spec_first_zero(s, j + 1)
    }
}

/// Whether a parameter value payload is well-shaped: long enough, with a
/// null-terminated key followed by at least the two flag bytes.
pub open spec fn spec_pv_shape_ok(payload: Seq<u8>) -> bool {
    let data = payload.skip(4);
    &&& payload.len() >= 6
    &&& spec_first_zero(data, 0) is Some
    &&& data.len() - (spec_first_zero(data, 0).unwrap() + 1) >= 2
}

/// Whether a well-shaped payload uses the filter-group format.
pub open spec fn spec_pv_is_filter_group(payload: Seq<u8>) -> bool {
    let data = payload.skip(4);
    let ke = spec_first_zero(data, 0).unwrap();
    data[ke + 1] == 0 && data[ke + 2] == 1
}

/// The four value bytes of a well-shaped payload: zeroes for the
/// filter-group format or when fewer than four value bytes follow the flag.
pub open spec fn spec_pv_value(payload: Seq<u8>) -> Seq<u8> {
    let data = payload.skip(4);
    let ke = spec_first_zero(data, 0).unwrap();
    let rem = data.skip(ke + 1);
    if spec_pv_is_filter_group(payload) {
        seq![0u8, 0u8, 0u8, 0u8]
    } else if rem.len() >= 6 {
        seq![rem[2], rem[3], rem[4], rem[5]]
    } else {
        seq![0u8, 0u8, 0u8, 0u8]
    }
}

/// The key bytes of a well-shaped payload.
pub open spec fn spec_pv_key_bytes(payload: Seq<u8>) -> Seq<u8> {
    payload.skip(4).take(spec_first_zero(payload.skip(4), 0).unwrap())
}

impl ParameterValue {
    /// Parses a parameter value payload (the bytes after the packet header):
    /// four correlation bytes, a null-terminated key, two flag bytes, and
    /// four little-endian value bytes. Fails when the payload is too short,
    /// the key is unterminated, or the key bytes are not a valid string.
    pub fn from_payload(payload: &[u8]) -> (r: Result<Self, UcNetError>)
        ensures
            match r {
                Ok(pv) => {
                    &&& spec_pv_shape_ok(payload@)
                    &&& pv.is_filter_group == spec_pv_is_filter_group(payload@)
                    &&& pv.value@ == spec_pv_value(payload@)
                    &&& ((forall|i: int|
                        0 <= i < spec_pv_key_bytes(payload@).len()
                            ==> spec_pv_key_bytes(payload@)[i] < 128) ==> pv.key@
                        == crate::strutil::ascii_chars(spec_pv_key_bytes(payload@)))
                },
                Err(e) => {
                    &&& (!spec_pv_shape_ok(payload@) || !(forall|i: int|
                        0 <= i < spec_pv_key_bytes(payload@).len()
                            ==> spec_pv_key_bytes(payload@)[i] < 128))
                    &&& e matches UcNetError::InvalidResponse(_)
                },
            },
    {
        if payload.len() < 6 {
            return Err(
                UcNetError::InvalidResponse(
                    String::from_str("Parameter value payload too short"),
                ),
            );
        }
        let ghost data = payload@.skip(4);
        let n = payload.len();
        // Find the key's null terminator, scanning the bytes after the
        // correlation bytes.
        let mut j: usize = 4;
        while j < n && payload[j] != 0
            invariant
                4 <= j <= n,
                n == payload@.len(),
                data == payload@.skip(4),
                spec_first_zero(data, 0) == spec_first_zero(data, j - 4),
                forall|i: int| 4 <= i < j ==> payload@[i] != 0,
            decreases n - j,
        {
            proof {
                assert(data[j - 4] == payload@[j as int]);
            }
            j = j + 1;
        }
        if j >= n {
            proof {
                assert(spec_first_zero(data, n - 4) is None);
            }
            return Err(
                UcNetError::InvalidResponse(String::from_str("No key terminator found")),
            );
        }
        let ghost ke = (j - 4) as int;
        proof {
            assert(data[ke] == payload@[j as int]);
            assert(spec_first_zero(data, ke) == Some(ke));
        }
        // The two flag bytes must follow the terminator.
        if n - (j + 1) < 2 {
            return Err(
                UcNetError::InvalidResponse(
                    String::from_str("Missing flag bytes in parameter value"),
                ),
            );
        }
        proof {
            assert(data.len() - (ke + 1) == n - (j + 1));
            assert(spec_pv_shape_ok(payload@));
        }
        let is_filter_group = payload[j + 1] == 0 && payload[j + 2] == 1;
        proof {
            assert(data[ke + 1] == payload@[j + 1]);
            assert(data[ke + 2] == payload@[j + 2]);
        }
        let value: [u8; 4] = if is_filter_group {
            [0, 0, 0, 0]
        } else if n - (j + 1) >= 6 {
            [payload[j + 3], payload[j + 4], payload[j + 5], payload[j + 6]]
        } else {
            [0, 0, 0, 0]
        };
        proof {
            let rem = data.skip(ke + 1);
            assert(rem.len() == n - (j + 1));
            if !is_filter_group && n - (j + 1) >= 6 {
                assert(rem[2] == payload@[j + 3]);
                assert(rem[3] == payload@[j + 4]);
                assert(rem[4] == payload@[j + 5]);
                assert(rem[5] == payload@[j + 6]);
            }
            assert(value@ =~= spec_pv_value(payload@));
        }
        // Copy out and decode the key bytes.
        let mut key_bytes: Vec<u8> = Vec::new();
        let mut i: usize = 4;
        while i < j
            invariant
                4 <= i <= j < n,
                n == payload@.len(),
                data == payload@.skip(4),
                ke == j - 4,
                key_bytes@ == data.take(ke).take(i - 4),
            decreases j - i,
        {
            key_bytes.push(payload[i]);
            proof {
                assert(data.take(ke)[i - 4] == payload@[i as int]);
                assert(key_bytes@ =~= data.take(ke).take(i - 4 + 1));
            }
            i = i + 1;
        }
        proof {
            assert(key_bytes@ =~= data.take(ke));
            assert(key_bytes@ == spec_pv_key_bytes(payload@));
        }
        let key = match utf8_to_string(key_bytes.as_slice()) {
            Some(k) => k,
            None => {
                return Err(
                    UcNetError::InvalidResponse(String::from_str("Invalid key encoding")),
                );
            },
        };
        Ok(Self { key, value, is_filter_group })
    }

    /// The value bytes read as a little-endian 32-bit integer.
    pub fn as_u32(&self) -> (r: u32)
        ensures
            r as int == spec_le32(self.value[0], self.value[1], self.value[2], self.value[3]),
    {
        self.value[0] as u32 + (self.value[1] as u32) * 256 + (self.value[2] as u32) * 65536 + (
        self.value[3] as u32) * 16777216
    }

    /// Whether the value bytes hold anything but zero, the boolean reading
    /// used for mute and solo parameters.
    pub fn as_bool(&self) -> (r: bool)
        ensures
            r == !(self.value[0] == 0 && self.value[1] == 0 && self.value[2] == 0 && self.value[3]
                == 0),
    {
        !(self.value[0] == 0 && self.value[1] == 0 && self.value[2] == 0 && self.value[3] == 0)
    }

    /// The payload that sets a parameter to four raw value bytes:
    /// correlation bytes, the null-terminated key, two zero flag bytes, and
    /// the value bytes.
    pub fn to_set_payload(key: &str, value: [u8; 4], cbytes: CBytes) -> (r: Vec<u8>)
        ensures
            r@ == seq![cbytes.a, 0u8, cbytes.b, 0u8] + key.spec_bytes() + seq![0u8, 0u8, 0u8]
                + value@,
    {
        let mut payload: Vec<u8> = Vec::new();
        let cb = cbytes.to_bytes();
        payload.push(cb[0]);
        payload.push(cb[1]);
        payload.push(cb[2]);
        payload.push(cb[3]);
        let kb = key.as_bytes();
        let mut i: usize = 0;
        proof {
            assert(payload@ =~= seq![cbytes.a, 0u8, cbytes.b, 0u8] + kb@.take(0));
        }
        while i < kb.len()
            invariant
                i <= kb@.len(),
                kb@ == key.spec_bytes(),
                payload@ == seq![cbytes.a, 0u8, cbytes.b, 0u8] + kb@.take(i as int),
            decreases kb@.len() - i,
        {
            payload.push(kb[i]);
            proof {
                assert(payload@ =~= seq![cbytes.a, 0u8, cbytes.b, 0u8] + kb@.take(i + 1));
            }
            i = i + 1;
        }
        proof {
            assert(kb@.take(kb@.len() as int) =~= kb@);
        }
        payload.push(0x00);
        payload.push(0x00);
        payload.push(0x00);
        payload.push(value[0]);
        payload.push(value[1]);
        payload.push(value[2]);
        payload.push(value[3]);
        proof {
            assert(payload@ =~= seq![cbytes.a, 0u8, cbytes.b, 0u8] + key.spec_bytes() + seq![
                0u8,
                0u8,
                0u8,
            ] + value@);
        }
        payload
    }

    /// The payload that sets a boolean parameter: the value bytes are a
    /// little-endian one or zero.
    pub fn to_set_bool_payload(key: &str, value: bool, cbytes: CBytes) -> (r: Vec<u8>)
        ensures
            r@ == seq![cbytes.a, 0u8, cbytes.b, 0u8] + key.spec_bytes() + seq![0u8, 0u8, 0u8]
                + seq![(if value { 1u8 } else { 0u8 }), 0u8, 0u8, 0u8],
    {
        let b: u8 = if value {
            1
        } else {
            0
        };
        let r = Self::to_set_payload(key, [b, 0, 0, 0], cbytes);
        proof {
            assert([b, 0u8, 0u8, 0u8]@ =~= seq![(if value { 1u8 } else { 0u8 }), 0u8, 0u8, 0u8]);
        }
        r
    }
}

/// Builds a parameter value (PV) packet carrying four raw value bytes.
pub fn build_parameter_value_packet(key: &str, value: [u8; 4]) -> (r: Vec<u8>)
    requires
        key.spec_bytes().len() <= 60000,
    ensures
        r@ == spec_packet(
            PayloadType::ParameterValue,
            seq![0x6Au8, 0u8, 0x65u8, 0u8] + key.spec_bytes() + seq![0u8, 0u8, 0u8] + value@,
        ),
{
    let payload = ParameterValue::to_set_payload(key, value, CBytes::new());
    build_packet(PayloadType::ParameterValue, payload.as_slice())
}

/// Builds a parameter value (PV) packet carrying a boolean.
pub fn build_parameter_value_bool_packet(key: &str, value: bool) -> (r: Vec<u8>)
    requires
        key.spec_bytes().len() <= 60000,
    ensures
        r@ == spec_packet(
            PayloadType::ParameterValue,
            seq![0x6Au8, 0u8, 0x65u8, 0u8] + key.spec_bytes() + seq![0u8, 0u8, 0u8] + seq![
                (if value { 1u8 } else { 0u8 }),
                0u8,
                0u8,
                0u8,
            ],
        ),
{
    let payload = ParameterValue::to_set_bool_payload(key, value, CBytes::new());
    build_packet(PayloadType::ParameterValue, payload.as_slice())
}

/// Builds a parameter set (PS) packet carrying four raw value bytes.
pub fn build_parameter_set_packet(key: &str, value: [u8; 4]) -> (r: Vec<u8>)
    requires
        key.spec_bytes().len() <= 60000,
    ensures
        r@ == spec_packet(
            PayloadType::ParameterSet,
            seq![0x6Au8, 0u8, 0x65u8, 0u8] + key.spec_bytes() + seq![0u8, 0u8, 0u8] + value@,
        ),
{
    let payload = ParameterValue::to_set_payload(key, value, CBytes::new());
    build_packet(PayloadType::ParameterSet, payload.as_slice())
}

/// Builds a parameter set (PS) packet carrying a boolean.
pub fn build_parameter_set_bool_packet(key: &str, value: bool) -> (r: Vec<u8>)
    requires
        key.spec_bytes().len() <= 60000,
    ensures
        r@ == spec_packet(
            PayloadType::ParameterSet,
            seq![0x6Au8, 0u8, 0x65u8, 0u8] + key.spec_bytes() + seq![0u8, 0u8, 0u8] + seq![
                (if value { 1u8 } else { 0u8 }),
                0u8,
                0u8,
                0u8,
            ],
        ),
{
    let payload = ParameterValue::to_set_bool_payload(key, value, CBytes::new());
    build_packet(PayloadType::ParameterSet, payload.as_slice())
}


/// A console's discovery advertisement: the printable null-terminated
/// strings of the payload, read positionally.
#[derive(Debug)]
pub struct DiscoveryInfo {
    /// Device model name, e.g. "StudioLive 32SX".
    pub model: String,
    /// Device serial number.
    pub serial: String,
    /// Device category, e.g. "AUD".
    pub category: String,
    /// User-configurable friendly name.
    pub friendly_name: String,
}

impl Clone for DiscoveryInfo {
    fn clone(&self) -> (r: Self)
        ensures
            r == *self,
    {
        DiscoveryInfo {
            model: self.model.clone(),
            serial: self.serial.clone(),
            category: self.category.clone(),
            friendly_name: self.friendly_name.clone(),
        }
    }
}

/// Whether a byte is printable for discovery purposes: an ASCII graphic
/// character or a space.
pub open spec fn spec_printable(b: u8) -> bool {
    32 <= b <= 126
}

/// The maximal printable runs of a byte sequence, scanned from index `i`
/// with `current` the run in progress: a null byte ends and emits a
/// non-empty run; a non-printable byte discards it; the end of the data
/// emits a final non-empty run.
pub open spec fn spec_extract_runs(data: Seq<u8>, i: int, current: Seq<u8>) -> Seq<Seq<u8>>
    decreases data.len() - i when 0 <= i
{
    if i >= data.len() {
        if current.len() > 0 {
            seq![current]
        } else {
            Seq::empty()
        }
    } else {
        let b = data[i];
        if b == 0 {
            if current.len() > 0 {
                seq![current] + spec_extract_runs(data, i + 1, Seq::empty())
            } else {
                spec_extract_runs(data, i + 1, Seq::empty())
            }
        } else if spec_printable(b) {
            spec_extract_runs(data, i + 1, current.push(b))
        } else {
            spec_extract_runs(data, i + 1, Seq::empty())
        }
    }
}

/// The printable runs of a discovery payload.
pub open spec fn spec_discovery_runs(payload: Seq<u8>) -> Seq<Seq<u8>> {
    spec_extract_runs(payload, 0, Seq::empty())
}

impl DiscoveryInfo {
    /// Extracts the printable null-terminated strings of a binary payload,
    /// in order.
    pub fn extract_null_terminated_strings(data: &[u8]) -> (r: Vec<String>)
        ensures
            r@.len() == spec_discovery_runs(data@).len(),
            forall|k: int|
                0 <= k < r@.len() ==> r@[k]@ == crate::strutil::ascii_chars(
                    spec_discovery_runs(data@)[k],
                ),
    {
        let n = data.len();
        let mut strings: Vec<String> = Vec::new();
        let ghost mut rs: Seq<Seq<u8>> = Seq::empty();
        let mut current: Vec<u8> = Vec::new();
        let mut i: usize = 0;
        proof {
            assert(rs + spec_extract_runs(data@, 0, current@) =~= spec_extract_runs(
                data@,
                0,
                current@,
            ));
        }
        while i < n
            invariant
                i <= n,
                n == data@.len(),
                rs.len() == strings@.len(),
                forall|k: int|
                    0 <= k < rs.len() ==> strings@[k]@ == crate::strutil::ascii_chars(rs[k]),
                forall|k: int| 0 <= k < current@.len() ==> spec_printable(current@[k]),
                spec_discovery_runs(data@) == rs + spec_extract_runs(data@, i as int, current@),
            decreases n - i,
        {
            let b = data[i];
            if b == 0 {
                if current.len() > 0 {
                    let decoded = utf8_to_string(current.as_slice());
                    let st = match decoded {
                        Some(st) => st,
                        None => {
                            proof {
                                assert(false);
                            }
                            String::new()
                        },
                    };
                    let ghost cur = current@;
                    strings.push(st);
                    proof {
                        rs = rs.push(cur);
                        assert(rs + spec_extract_runs(data@, i + 1, Seq::<u8>::empty())
                            =~= (rs.drop_last() + (seq![cur] + spec_extract_runs(
                            data@,
                            i + 1,
                            Seq::<u8>::empty(),
                        ))));
                    }
                    current = Vec::new();
                } else {
                    proof {
                        assert(current@ =~= Seq::<u8>::empty());
                    }
                }
            } else if (b >= 32 && b <= 126) {
                current.push(b);
            } else {
                current = Vec::new();
                proof {
                    assert(current@ =~= Seq::<u8>::empty());
                }
            }
            i = i + 1;
        }
        if current.len() > 0 {
            let decoded = utf8_to_string(current.as_slice());
            let st = match decoded {
                Some(st) => st,
                None => {
                    proof {
                        assert(false);
                    }
                    String::new()
                },
            };
            let ghost cur = current@;
            strings.push(st);
            proof {
                rs = rs.push(cur);
                assert(spec_extract_runs(data@, n as int, cur) =~= seq![cur]);
                assert(rs.drop_last() + seq![cur] =~= rs);
            }
        } else {
            proof {
                assert(spec_extract_runs(data@, n as int, current@) =~= Seq::<Seq<u8>>::empty());
                assert(rs + Seq::<Seq<u8>>::empty() =~= rs);
            }
        }
        strings
    }

    /// Parses a discovery advertisement payload. The first four printable
    /// strings are the model, the category, the serial number and the
    /// friendly name; a missing serial is empty and a missing friendly name
    /// repeats the model. Fails when the payload is shorter than 20 bytes or
    /// holds fewer than two strings.
    pub fn from_payload(payload: &[u8]) -> (r: Result<Self, UcNetError>)
        ensures
            ({
                let runs = spec_discovery_runs(payload@);
                match r {
                    Ok(info) => {
                        &&& payload@.len() >= 20
                        &&& runs.len() >= 2
                        &&& info.model@ == crate::strutil::ascii_chars(runs[0])
                        &&& info.category@ == crate::strutil::ascii_chars(runs[1])
                        &&& info.serial@ == (if runs.len() > 2 {
                            crate::strutil::ascii_chars(runs[2])
                        } else {
                            Seq::<char>::empty()
                        })
                        &&& info.friendly_name@ == (if runs.len() > 3 {
                            crate::strutil::ascii_chars(runs[3])
                        } else {
                            crate::strutil::ascii_chars(runs[0])
                        })
                    },
                    Err(e) => {
                        &&& (payload@.len() < 20 || runs.len() < 2)
                        &&& e matches UcNetError::InvalidResponse(_)
                    },
                }
            }),
    {
        if payload.len() < 20 {
            return Err(
                UcNetError::InvalidResponse(String::from_str("Discovery payload too short")),
            );
        }
        let strings = Self::extract_null_terminated_strings(payload);
        if strings.len() < 2 {
            return Err(
                UcNetError::InvalidResponse(
                    String::from_str("Not enough strings in discovery payload"),
                ),
            );
        }
        let model = strings[0].clone();
        let category = strings[1].clone();
        let serial = if strings.len() > 2 {
            strings[2].clone()
        } else {
            String::new()
        };
        let friendly_name = if strings.len() > 3 {
            strings[3].clone()
        } else {
            model.clone()
        };
        Ok(Self { model, serial, category, friendly_name })
    }
}

/// What inflating a ZLIB stream yields; inflation is a function of the
/// compressed bytes alone.
pub uninterp spec fn zlib_inflate(compressed: Seq<u8>) -> Seq<u8>;

/// Relies on flate2's ZlibDecoder, read to the end: decompression either
/// yields the inflation of the input or fails.
#[verifier::external_body]
pub fn decompress_zlib(compressed: &[u8]) -> (r: Result<Vec<u8>, UcNetError>)
    ensures
        match r {
            Ok(v) => v@ == zlib_inflate(compressed@),
            Err(e) => e matches UcNetError::Protocol(_),
        },
{
    let mut decoder = flate2::read::ZlibDecoder::new(compressed);
    let mut decompressed = Vec::new();
    match std::io::Read::read_to_end(&mut decoder, &mut decompressed) {
        Ok(_) => Ok(decompressed),
        Err(_) => Err(UcNetError::Protocol("ZLIB decompression failed".to_string())),
    }
}

/// One entry scanned out of a decompressed state dump.
#[derive(Debug)]
pub struct StateEntry {
    /// Parameter key.
    pub key: String,
    /// Raw value bytes.
    pub value: Vec<u8>,
}

impl Clone for StateEntry {
    fn clone(&self) -> (r: Self)
        ensures
            r.key@ == self.key@,
            r.value@ == self.value@,
    {
        StateEntry { key: self.key.clone(), value: self.value.clone() }
    }
}

/// Whether a byte is an ASCII graphic character.
pub open spec fn spec_graphic(b: u8) -> bool {
    33 <= b <= 126
}

/// Whether a byte is an ASCII letter.
pub open spec fn spec_alpha(b: u8) -> bool {
    (65 <= b <= 90) || (97 <= b <= 122)
}

/// The end of the key run starting at `j`: the first index holding a zero
/// or non-graphic byte, or the end of the data.
pub open spec fn spec_key_end(data: Seq<u8>, j: int) -> int
    decreases data.len() - j when 0 <= j
{
    if j >= data.len() {
        j
    } else if data[j] == 0 || !spec_graphic(data[j]) {
        j
    } else {
        spec_key_end(data, j + 1)
    }
}

/// Whether a key's bytes hold a dot.
pub open spec fn spec_has_dot(key: Seq<u8>) -> bool {
    exists|i: int| 0 <= i < key.len() && key[i] == 46
}

/// The key/value entries scanned heuristically out of a decompressed state
/// dump from position `pos`: a graphic run starting with a letter, followed
/// by an optional null and four value bytes, forms an entry when the run
/// holds a dot; anything else is skipped byte by byte.
pub open spec fn spec_state_scan(data: Seq<u8>, pos: int) -> Seq<(Seq<u8>, Seq<u8>)>
    decreases data.len() + 1 - pos when 0 <= pos
{
    if pos + 1 >= data.len() {
        Seq::empty()
    } else if spec_alpha(data[pos]) {
        let ke0 = spec_key_end(data, pos + 1);
        let ke = if ke0 > pos + 1 {
            ke0
        } else {
            pos + 1
        };
        if ke < data.len() {
            let vstart = if data[ke] == 0 {
                ke + 1
            } else {
                ke
            };
            if vstart + 4 <= data.len() && spec_has_dot(data.subrange(pos, ke)) {
                seq![(data.subrange(pos, ke), data.subrange(vstart, vstart + 4))]
                    + spec_state_scan(data, vstart + 4)
            } else {
                spec_state_scan(data, vstart + 1)
            }
        } else {
            Seq::empty()
        }
    } else {
        spec_state_scan(data, pos + 1)
    }
}

/// Scans parameter entries out of decompressed state-dump bytes: a
/// best-effort reading of key runs followed by four value bytes, not a full
/// decoder of the dump format.
pub fn parse_state_dump(data: &[u8]) -> (r: Result<Vec<StateEntry>, UcNetError>)
    requires
        data@.len() + 4 < usize::MAX,
    ensures
        match r {
            Ok(es) => es@.len() == spec_state_scan(data@, 0).len() && (forall|k: int|
                0 <= k < es@.len() ==> es@[k].key@ == crate::strutil::ascii_chars(
                    spec_state_scan(data@, 0)[k].0,
                ) && es@[k].value@ == spec_state_scan(data@, 0)[k].1),
            Err(_) => false,
        },
{
    let n = data.len();
    let mut entries: Vec<StateEntry> = Vec::new();
    let ghost mut rs: Seq<(Seq<u8>, Seq<u8>)> = Seq::empty();
    let mut pos: usize = 0;
    proof {
        assert(rs + spec_state_scan(data@, 0) =~= spec_state_scan(data@, 0));
    }
    while pos + 1 < n
        invariant
            pos <= n + 1,
            n == data@.len(),
            n + 4 < usize::MAX,
            rs.len() == entries@.len(),
            forall|k: int|
                0 <= k < rs.len() ==> entries@[k].key@ == crate::strutil::ascii_chars(rs[k].0)
                    && entries@[k].value@ == rs[k].1,
            spec_state_scan(data@, 0) == rs + spec_state_scan(data@, pos as int),
        decreases n + 1 - pos,
    {
        let b = data[pos];
        if (b >= 65 && b <= 90) || (b >= 97 && b <= 122) {
            // Scan to the end of the graphic run.
            let mut ke: usize = pos + 1;
            while ke < n && data[ke] != 0 && data[ke] >= 33 && data[ke] <= 126
                invariant
                    pos + 1 <= ke <= n,
                    n == data@.len(),
                    spec_key_end(data@, pos + 1) == spec_key_end(data@, ke as int),
                    forall|k: int| pos < k < ke ==> spec_graphic(data@[k]) && data@[k] != 0,
                decreases n - ke,
            {
                ke = ke + 1;
            }
            proof {
                assert(spec_key_end(data@, ke as int) == ke);
                assert(spec_key_end(data@, pos + 1) == ke);
            }
            if ke < n {
                let vstart: usize = if data[ke] == 0 {
                    ke + 1
                } else {
                    ke
                };
                // Does the key hold a dot?
                let mut has_dot = false;
                let mut di: usize = pos;
                while di < ke
                    invariant
                        pos <= di <= ke <= n,
                        n == data@.len(),
                        has_dot == (exists|k: int| pos <= k < di && data@[k] == 46),
                    decreases n - di,
                {
                    if data[di] == 46 {
                        has_dot = true;
                    }
                    di = di + 1;
                }
                proof {
                    assert(has_dot == spec_has_dot(data@.subrange(pos as int, ke as int))) by {
                        if has_dot {
                            let w = choose|k: int| pos <= k < ke && data@[k] == 46;
                            assert(data@.subrange(pos as int, ke as int)[w - pos] == 46);
                        } else {
                            if spec_has_dot(data@.subrange(pos as int, ke as int)) {
                                let w = choose|k: int|
                                    0 <= k < ke - pos && data@.subrange(
                                        pos as int,
                                        ke as int,
                                    )[k] == 46;
                                assert(data@[w + pos] == 46);
                            }
                        }
                    }
                }
                if vstart + 4 <= n && has_dot {
                    // Copy the key and the four value bytes.
                    let mut key_bytes: Vec<u8> = Vec::new();
                    let mut ki: usize = pos;
                    while ki < ke
                        invariant
                            pos <= ki <= ke <= n,
                            n == data@.len(),
                            key_bytes@ == data@.subrange(pos as int, ki as int),
                        decreases ke - ki,
                    {
                        key_bytes.push(data[ki]);
                        proof {
                            assert(key_bytes@ =~= data@.subrange(pos as int, ki + 1));
                        }
                        ki = ki + 1;
                    }
                    proof {
                        assert forall|k: int|
                            0 <= k < key_bytes@.len() implies key_bytes@[k] < 128 by {
                            assert(key_bytes@[k] == data@[pos + k]);
                        }
                    }
                    let key = match utf8_to_string(key_bytes.as_slice()) {
                        Some(k) => k,
                        None => {
                            proof {
                                assert(false);
                            }
                            String::new()
                        },
                    };
                    let mut value: Vec<u8> = Vec::new();
                    value.push(data[vstart]);
                    value.push(data[vstart + 1]);
                    value.push(data[vstart + 2]);
                    value.push(data[vstart + 3]);
                    proof {
                        assert(value@ =~= data@.subrange(vstart as int, vstart + 4));
                    }
                    let ghost kb = key_bytes@;
                    let ghost vb = value@;
                    entries.push(StateEntry { key, value });
                    proof {
                        rs = rs.push((kb, vb));
                        assert(rs.drop_last() + (seq![(kb, vb)] + spec_state_scan(
                            data@,
                            vstart + 4,
                        )) =~= rs + spec_state_scan(data@, vstart + 4));
                    }
                    pos = vstart + 4;
                } else {
                    pos = vstart + 1;
                }
            } else {
                pos = ke + 1;
            }
        } else {
            pos = pos + 1;
        }
    }
    Ok(entries)
}


/// A parsed incoming packet.
#[derive(Debug)]
pub enum IncomingPacket {
    /// A parameter value change (PV).
    ParameterChange(ParameterValue),
    /// A keep-alive (KA).
    KeepAlive,
    /// A JSON message (JM), e.g. a subscription reply.
    Json(String),
    /// A decompressed and scanned state dump (ZB).
    StateDump(Vec<StateEntry>),
    /// Metering data (MS): one little-endian 32-bit word per channel.
    Metering(Vec<u32>),
    /// Any other packet type, with its raw payload.
    Unknown(PayloadType, Vec<u8>),
}

/// The metering words of a payload: one little-endian 32-bit value per four
/// bytes, a trailing fragment ignored.
pub open spec fn spec_meter_levels(bytes: Seq<u8>) -> Seq<u32> {
    Seq::new(
        bytes.len() / 4,
        |i: int|
            spec_le32(
                bytes[4 * i],
                bytes[4 * i + 1],
                bytes[4 * i + 2],
                bytes[4 * i + 3],
            ) as u32,
    )
}

/// What `parse_incoming_packet` may return for the given packet bytes: the
/// relation between a packet and its parse.
pub open spec fn spec_incoming_matches(
    data: Seq<u8>,
    r: Result<IncomingPacket, UcNetError>,
) -> bool {
    if data.len() < 8 || data.take(4) != spec_magic() {
        r is Err
    } else {
        let pt = spec_type_of_bytes(data[6], data[7]);
        let payload = data.skip(8);
        match pt {
            PayloadType::ParameterValue => match r {
                Ok(p) => p matches IncomingPacket::ParameterChange(pv) && {
                    &&& spec_pv_shape_ok(payload)
                    &&& pv.is_filter_group == spec_pv_is_filter_group(payload)
                    &&& pv.value@ == spec_pv_value(payload)
                },
                Err(_) => !spec_pv_shape_ok(payload) || !(forall|i: int|
                    0 <= i < spec_pv_key_bytes(payload).len() ==> spec_pv_key_bytes(
                        payload,
                    )[i] < 128),
            },
            PayloadType::KeepAlive => r matches Ok(p) && p matches IncomingPacket::KeepAlive,
            PayloadType::Json => {
                if payload.len() < 8 {
                    r is Err
                } else {
                    let jlen = spec_le32(payload[4], payload[5], payload[6], payload[7]);
                    if payload.len() < 8 + jlen {
                        r is Err
                    } else {
                        let jb = payload.subrange(8, 8 + jlen);
                        match r {
                            Ok(p) => p matches IncomingPacket::Json(st) && ((forall|i: int|
                                0 <= i < jb.len() ==> jb[i] < 128) ==> st@
                                == crate::strutil::ascii_chars(jb)),
                            Err(_) => !(forall|i: int| 0 <= i < jb.len() ==> jb[i] < 128),
                        }
                    }
                }
            },
            PayloadType::ZlibData => {
                if payload.len() < 5 {
                    r is Err
                } else {
                    let inflated = zlib_inflate(payload.skip(4));
                    match r {
                        Ok(p) => p matches IncomingPacket::StateDump(es) && es@.len()
                            == spec_state_scan(inflated, 0).len() && (forall|k: int|
                            0 <= k < es@.len() ==> es@[k].key@ == crate::strutil::ascii_chars(
                                spec_state_scan(inflated, 0)[k].0,
                            ) && es@[k].value@ == spec_state_scan(inflated, 0)[k].1),
                        Err(e) => e matches UcNetError::Protocol(_),
                    }
                }
            },
            PayloadType::MeterStatus => match r {
                Ok(p) => p matches IncomingPacket::Metering(levels) && (if payload.len() < 4 {
                    levels@ == Seq::<u32>::empty()
                } else {
                    levels@ == spec_meter_levels(payload.skip(4))
                }),
                Err(_) => false,
            },
            _ => match r {
                Ok(p) => p matches IncomingPacket::Unknown(t, raw) && t == pt && raw@ == payload,
                Err(_) => false,
            },
        }
    }
}

/// Parses one complete incoming packet: header validation, then the payload
/// according to the payload type. Parameter changes, keep-alives, JSON
/// replies, state dumps and metering are decoded; other types are handed
/// back raw.
pub fn parse_incoming_packet(data: &[u8]) -> (r: Result<IncomingPacket, UcNetError>)
    ensures
        spec_incoming_matches(data@, r),
{
    let header = match PacketHeader::from_bytes(data) {
        Ok(h) => h,
        Err(e) => {
            return Err(e);
        },
    };
    // Copy out the payload after the 8-byte header.
    let n = data.len();
    let mut payload: Vec<u8> = Vec::new();
    let mut i: usize = 8;
    while i < n
        invariant
            8 <= i <= n,
            n == data@.len(),
            payload@ == data@.skip(8).take(i - 8),
        decreases n - i,
    {
        payload.push(data[i]);
        proof {
            assert(data@.skip(8)[i - 8] == data@[i as int]);
            assert(payload@ =~= data@.skip(8).take(i - 8 + 1));
        }
        i = i + 1;
    }
    proof {
        assert(payload@ =~= data@.skip(8));
    }
    match header.payload_type {
        PayloadType::ParameterValue => {
            match ParameterValue::from_payload(payload.as_slice()) {
                Ok(pv) => Ok(IncomingPacket::ParameterChange(pv)),
                Err(e) => Err(e),
            }
        },
        PayloadType::KeepAlive => Ok(IncomingPacket::KeepAlive),
        PayloadType::Json => {
            if payload.len() < 8 {
                return Err(
                    UcNetError::InvalidResponse(String::from_str("JSON payload too short")),
                );
            }
            let jlen64: u64 = payload[4] as u64 + (payload[5] as u64) * 256 + (
            payload[6] as u64) * 65536 + (payload[7] as u64) * 16777216;
            if (payload.len() as u64) < 8 + jlen64 {
                return Err(
                    UcNetError::InvalidResponse(String::from_str("JSON payload truncated")),
                );
            }
            proof {
                assert(8 + jlen64 <= payload@.len());
            }
            let jlen = jlen64 as usize;
            proof {
                assert(jlen == jlen64);
                assert(8 + jlen <= payload@.len());
            }
            let mut jb: Vec<u8> = Vec::new();
            let mut k: usize = 8;
            while k < 8 + jlen
                invariant
                    8 <= k <= 8 + jlen,
                    8 + jlen <= payload@.len(),
                    payload@.len() <= usize::MAX,
                    jb@ == payload@.subrange(8, k as int),
                decreases 8 + jlen - k,
            {
                jb.push(payload[k]);
                proof {
                    assert(jb@ =~= payload@.subrange(8, k + 1));
                }
                k = k + 1;
            }
            match utf8_to_string(jb.as_slice()) {
                Some(st) => Ok(IncomingPacket::Json(st)),
                None => Err(
                    UcNetError::InvalidResponse(String::from_str("Invalid JSON encoding")),
                ),
            }
        },
        PayloadType::ZlibData => {
            if payload.len() < 5 {
                return Err(
                    UcNetError::InvalidResponse(String::from_str("ZLIB payload too short")),
                );
            }
            let mut compressed: Vec<u8> = Vec::new();
            let mut k: usize = 4;
            while k < payload.len()
                invariant
                    4 <= k <= payload@.len(),
                    compressed@ == payload@.skip(4).take(k - 4),
                decreases payload@.len() - k,
            {
                compressed.push(payload[k]);
                proof {
                    assert(payload@.skip(4)[k - 4] == payload@[k as int]);
                    assert(compressed@ =~= payload@.skip(4).take(k - 4 + 1));
                }
                k = k + 1;
            }
            proof {
                assert(compressed@ =~= payload@.skip(4));
            }
            let decompressed = match decompress_zlib(compressed.as_slice()) {
                Ok(v) => v,
                Err(e) => {
                    return Err(e);
                },
            };
            if decompressed.len() > usize::MAX - 5 {
                return Err(
                    UcNetError::Protocol(String::from_str("State dump too large")),
                );
            }
            match parse_state_dump(decompressed.as_slice()) {
                Ok(entries) => Ok(IncomingPacket::StateDump(entries)),
                Err(e) => Err(e),
            }
        },
        PayloadType::MeterStatus => {
            if payload.len() < 4 {
                let levels: Vec<u32> = Vec::new();
                proof {
                    assert(levels@ =~= Seq::<u32>::empty());
                }
                return Ok(IncomingPacket::Metering(levels));
            }
            let m = (payload.len() - 4) / 4;
            let mut levels: Vec<u32> = Vec::new();
            let mut k: usize = 0;
            proof {
                vstd::arithmetic::div_mod::lemma_fundamental_div_mod(
                    payload@.len() - 4,
                    4,
                );
                vstd::arithmetic::div_mod::lemma_mod_division_less_than_divisor(
                    payload@.len() - 4,
                    4,
                );
                assert(payload@.skip(4).len() / 4 == m);
                assert(4 + 4 * m <= payload@.len());
            }
            while k < m
                invariant
                    k <= m,
                    4 + 4 * m <= payload@.len(),
                    payload@.len() <= usize::MAX,
                    m == payload@.skip(4).len() / 4,
                    levels@ == spec_meter_levels(payload@.skip(4)).take(k as int),
                decreases m - k,
            {
                proof {
                    assert(4 * k + 4 <= 4 * m);
                }
                let base = 4 + 4 * k;
                let w: u32 = payload[base] as u32 + (payload[base + 1] as u32) * 256 + (
                payload[base + 2] as u32) * 65536 + (payload[base + 3] as u32) * 16777216;
                levels.push(w);
                proof {
                    assert(payload@.skip(4)[4 * k as int] == payload@[base as int]);
                    assert(payload@.skip(4)[4 * k + 1] == payload@[base + 1]);
                    assert(payload@.skip(4)[4 * k + 2] == payload@[base + 2]);
                    assert(payload@.skip(4)[4 * k + 3] == payload@[base + 3]);
                    assert(levels@ =~= spec_meter_levels(payload@.skip(4)).take(k + 1));
                }
                k = k + 1;
            }
            proof {
                assert(levels@ =~= spec_meter_levels(payload@.skip(4)));
            }
            Ok(IncomingPacket::Metering(levels))
        },
        _ => Ok(IncomingPacket::Unknown(header.payload_type, payload)),
    }
}

/// The (start, length) of each complete packet in a byte stream: bytes
/// before a magic prefix are skipped; scanning stops at a truncated packet.
pub open spec fn spec_stream_offsets(data: Seq<u8>, pos: int) -> Seq<(int, int)>
    decreases data.len() + 1 - pos when 0 <= pos
{
    if pos + 8 > data.len() {
        Seq::empty()
    } else if data.subrange(pos, pos + 4) != spec_magic() {
        spec_stream_offsets(data, pos + 1)
    } else {
        let plen = 8 + spec_wire_to_size(spec_le16(data[pos + 4], data[pos + 5]));
        if pos + plen > data.len() {
            Seq::empty()
        } else {
            seq![(pos, plen)] + spec_stream_offsets(data, pos + plen)
        }
    }
}

/// Parses every complete packet out of a byte stream in which packets may be
/// concatenated; each element is the parse of one packet's bytes.
pub fn parse_packet_stream(data: &[u8]) -> (r: Vec<Result<IncomingPacket, UcNetError>>)
    ensures
        r@.len() == spec_stream_offsets(data@, 0).len(),
        forall|k: int|
            0 <= k < r@.len() ==> spec_incoming_matches(
                data@.subrange(
                    spec_stream_offsets(data@, 0)[k].0,
                    spec_stream_offsets(data@, 0)[k].0 + spec_stream_offsets(data@, 0)[k].1,
                ),
                #[trigger] r@[k],
            ),
{
    let n = data.len();
    let mut packets: Vec<Result<IncomingPacket, UcNetError>> = Vec::new();
    let ghost offs: Seq<(int, int)> = spec_stream_offsets(data@, 0);
    let mut pos: usize = 0;
    proof {
        assert(Seq::<(int, int)>::empty() + spec_stream_offsets(data@, 0) =~= offs);
    }
    if n < 8 {
        proof {
            assert(spec_stream_offsets(data@, 0) =~= Seq::<(int, int)>::empty());
        }
        return packets;
    }
    while pos <= n - 8
        invariant
            pos <= n,
            8 <= n == data@.len(),
            offs == spec_stream_offsets(data@, 0),
            offs == offs.take(packets@.len() as int) + spec_stream_offsets(data@, pos as int),
            packets@.len() <= offs.len(),
            forall|k: int|
                0 <= k < packets@.len() ==> spec_incoming_matches(
                    data@.subrange(offs[k].0, offs[k].0 + offs[k].1),
                    #[trigger] packets@[k],
                ),
        ensures
            offs == offs.take(packets@.len() as int),
            packets@.len() <= offs.len(),
            forall|k: int|
                0 <= k < packets@.len() ==> spec_incoming_matches(
                    data@.subrange(offs[k].0, offs[k].0 + offs[k].1),
                    #[trigger] packets@[k],
                ),
        decreases n - pos,
    {
        let is_magic = data[pos] == 0x55 && data[pos + 1] == 0x43 && data[pos + 2] == 0x00
            && data[pos + 3] == 0x01;
        proof {
            if is_magic {
                assert(data@.subrange(pos as int, pos + 4) =~= spec_magic());
            } else {
                assert(data@.subrange(pos as int, pos + 4)[0] == data@[pos as int]);
                assert(data@.subrange(pos as int, pos + 4)[1] == data@[pos + 1]);
                assert(data@.subrange(pos as int, pos + 4)[2] == data@[pos + 2]);
                assert(data@.subrange(pos as int, pos + 4)[3] == data@[pos + 3]);
                assert(data@.subrange(pos as int, pos + 4) != spec_magic());
            }
        }
        if !is_magic {
            pos = pos + 1;
            continue;
        }
        let wire: u16 = data[pos + 4] as u16 + (data[pos + 5] as u16) * 256;
        let size: u16 = if wire >= 2 {
            wire - 2
        } else {
            0
        };
        let plen = 8 + size as usize;
        if n - pos < plen {
            proof {
                assert(spec_stream_offsets(data@, pos as int) =~= Seq::<(int, int)>::empty());
                assert(offs =~= offs.take(packets@.len() as int));
            }
            break;
        }
        let mut packet: Vec<u8> = Vec::new();
        let mut k: usize = pos;
        while k < pos + plen
            invariant
                pos <= k <= pos + plen,
                pos + plen <= n,
                n == data@.len(),
                packet@ == data@.subrange(pos as int, k as int),
            decreases pos + plen - k,
        {
            packet.push(data[k]);
            proof {
                assert(packet@ =~= data@.subrange(pos as int, k + 1));
            }
            k = k + 1;
        }
        let parsed = parse_incoming_packet(packet.as_slice());
        let ghost count_before = packets@.len() as int;
        packets.push(parsed);
        proof {
            assert(spec_stream_offsets(data@, pos as int) == seq![
                (pos as int, plen as int),
            ] + spec_stream_offsets(data@, pos + plen));
            assert(offs.take(count_before).push((pos as int, plen as int)) =~= offs.take(
                count_before + 1,
            ));
            assert(offs[count_before] == (pos as int, plen as int));
        }
        pos = pos + plen;
    }
    proof {
        if pos + 8 > n {
            assert(spec_stream_offsets(data@, pos as int) =~= Seq::<(int, int)>::empty());
            assert(offs =~= offs.take(packets@.len() as int));
        }
    }
    packets
}



/// The first index at or after `j` where the magic bytes start.
pub open spec fn spec_find_magic(s: Seq<u8>, j: int) -> Option<int>
    decreases s.len() + 1 - j when 0 <= j
{
    if j + 4 > s.len() {
        None
    } else if s.subrange(j, j + 4) == spec_magic() {
        Some(j)
    } else {
        spec_find_magic(s, j + 1)
    }
}

/// What draining a reassembly buffer yields: the complete packets at its
/// front, the bytes left over, and the expected length of a truncated
/// packet (or the previous expectation when none is pending). Bytes before
/// a magic prefix are dropped; a buffer without magic bytes is discarded.
pub open spec fn spec_drain(buf: Seq<u8>, expected: int) -> (Seq<Seq<u8>>, Seq<u8>, int)
    decreases buf.len(),
{
    if buf.len() < 8 {
        (Seq::empty(), buf, expected)
    } else if buf.take(4) != spec_magic() {
        match spec_find_magic(buf, 0) {
            Some(p) => {
                let p1 = if 1 <= p <= buf.len() {
                    p
                } else {
                    1
                };
                spec_drain(buf.skip(p1), expected)
            },
            None => (Seq::empty(), Seq::empty(), expected),
        }
    } else {
        let plen = 8 + spec_wire_to_size(spec_le16(buf[4], buf[5]));
        if buf.len() >= plen {
            let rec = spec_drain(buf.skip(plen), expected);
            (seq![buf.take(plen)] + rec.0, rec.1, rec.2)
        } else {
            (Seq::empty(), buf, plen)
        }
    }
}

/// Reassembles UCNet packets out of USB transfers, which may fragment or
/// concatenate them.
#[derive(Debug)]
pub struct UsbPacketBuffer {
    buffer: Vec<u8>,
    expected_len: usize,
}

impl UsbPacketBuffer {
    /// The buffered bytes.
    pub closed spec fn buffer_view(&self) -> Seq<u8> {
        self.buffer@
    }

    /// The expected length of the truncated packet at the buffer's front.
    pub closed spec fn expected_spec(&self) -> int {
        self.expected_len as int
    }

    /// Creates an empty reassembly buffer.
    pub fn new() -> (r: Self)
        ensures
            r.buffer_view() == Seq::<u8>::empty(),
            r.expected_spec() == 0,
    {
        Self { buffer: Vec::new(), expected_len: 0 }
    }

    /// The first index in the buffer where the magic bytes start.
    fn find_magic(&self) -> (r: Option<usize>)
        ensures
            match r {
                Some(p) => Some(p as int) == spec_find_magic(self.buffer@, 0) && p + 4
                    <= self.buffer@.len(),
                None => spec_find_magic(self.buffer@, 0) is None,
            },
    {
        let n = self.buffer.len();
        if n < 4 {
            return None;
        }
        let mut j: usize = 0;
        while j <= n - 4
            invariant
                j <= n - 3,
                4 <= n == self.buffer@.len(),
                spec_find_magic(self.buffer@, 0) == spec_find_magic(self.buffer@, j as int),
            ensures
                spec_find_magic(self.buffer@, 0) == spec_find_magic(self.buffer@, j as int),
                j <= n - 4 ==> self.buffer@.subrange(j as int, j + 4) == spec_magic(),
                j > n - 4 ==> spec_find_magic(self.buffer@, j as int) is None,
            decreases n - j,
        {
            let hit = self.buffer[j] == 0x55 && self.buffer[j + 1] == 0x43 && self.buffer[j + 2]
                == 0x00 && self.buffer[j + 3] == 0x01;
            proof {
                assert(self.buffer@.subrange(j as int, j + 4)[0] == self.buffer@[j as int]);
                assert(self.buffer@.subrange(j as int, j + 4)[1] == self.buffer@[j + 1]);
                assert(self.buffer@.subrange(j as int, j + 4)[2] == self.buffer@[j + 2]);
                assert(self.buffer@.subrange(j as int, j + 4)[3] == self.buffer@[j + 3]);
                if hit {
                    assert(self.buffer@.subrange(j as int, j + 4) =~= spec_magic());
                }
            }
            if hit {
                break;
            }
            j = j + 1;
        }
        if j <= n - 4 {
            Some(j)
        } else {
            None
        }
    }

    /// Feeds bytes from one USB transfer into the buffer and returns the
    /// complete packets now available, in order.
    pub fn add_data(&mut self, data: &[u8]) -> (r: Vec<Vec<u8>>)
        ensures
            ({
                let st = spec_drain(old(self).buffer_view() + data@, old(self).expected_spec());
                &&& r@.len() == st.0.len()
                &&& (forall|k: int| 0 <= k < r@.len() ==> (#[trigger] r@[k])@ == st.0[k])
                &&& final(self).buffer_view() == st.1
                &&& final(self).expected_spec() == st.2
            }),
    {
        // Append the new bytes.
        let mut i: usize = 0;
        let ghost buf0 = self.buffer@ + data@;
        let ghost exp0 = self.expected_len as int;
        proof {
            assert(self.buffer@ + data@.take(0) =~= self.buffer@);
        }
        while i < data.len()
            invariant
                i <= data@.len(),
                self.buffer@ == old(self).buffer@ + data@.take(i as int),
                self.expected_len == old(self).expected_len,
            decreases data@.len() - i,
        {
            self.buffer.push(data[i]);
            proof {
                assert(self.buffer@ =~= old(self).buffer@ + data@.take(i + 1));
            }
            i = i + 1;
        }
        proof {
            assert(data@.take(data@.len() as int) =~= data@);
            assert(self.buffer@ == buf0);
        }
        let mut complete: Vec<Vec<u8>> = Vec::new();
        let ghost st = spec_drain(buf0, exp0);
        let mut done = false;
        while !done
            invariant
                !done ==> self.expected_len as int == exp0,
                !done ==> ({
                    let cur = spec_drain(self.buffer@, exp0);
                    &&& st.0 == complete@.map_values(|v: Vec<u8>| v@) + cur.0
                    &&& st.1 == cur.1
                    &&& st.2 == cur.2
                }),
                done ==> ({
                    &&& st.0 == complete@.map_values(|v: Vec<u8>| v@)
                    &&& st.1 == self.buffer@
                    &&& st.2 == self.expected_len as int
                }),
            decreases self.buffer@.len() + 1, (if done { 0int } else { 1int }),
        {
            let n = self.buffer.len();
            if n < 8 {
                proof {
                    assert(complete@.map_values(|v: Vec<u8>| v@) + Seq::<Seq<u8>>::empty()
                        =~= complete@.map_values(|v: Vec<u8>| v@));
                }
                done = true;
            } else {
                let is_magic = self.buffer[0] == 0x55 && self.buffer[1] == 0x43 && self.buffer[2]
                    == 0x00 && self.buffer[3] == 0x01;
                proof {
                    assert(self.buffer@.take(4)[0] == self.buffer@[0]);
                    assert(self.buffer@.take(4)[1] == self.buffer@[1]);
                    assert(self.buffer@.take(4)[2] == self.buffer@[2]);
                    assert(self.buffer@.take(4)[3] == self.buffer@[3]);
                    if is_magic {
                        assert(self.buffer@.take(4) =~= spec_magic());
                    } else {
                        assert(self.buffer@.take(4) != spec_magic());
                    }
                }
                if !is_magic {
                    match self.find_magic() {
                        Some(p) => {
                            let p1 = if p >= 1 {
                                p
                            } else {
                                1
                            };
                            // Drop the bytes before the magic prefix.
                            let mut rest: Vec<u8> = Vec::new();
                            let mut k: usize = p1;
                            proof {
                                assert(rest@ =~= self.buffer@.subrange(p1 as int, p1 as int));
                            }
                            while k < n
                                invariant
                                    p1 <= k <= n,
                                    p1 <= n == self.buffer@.len(),
                                    rest@ == self.buffer@.subrange(p1 as int, k as int),
                                decreases n - k,
                            {
                                rest.push(self.buffer[k]);
                                proof {
                                    assert(rest@ =~= self.buffer@.subrange(p1 as int, k + 1));
                                }
                                k = k + 1;
                            }
                            proof {
                                assert(rest@ =~= self.buffer@.skip(p1 as int));
                            }
                            self.buffer = rest;
                        },
                        None => {
                            self.buffer.clear();
                            proof {
                                assert(complete@.map_values(|v: Vec<u8>| v@) + Seq::<
                                    Seq<u8>,
                                >::empty() =~= complete@.map_values(|v: Vec<u8>| v@));
                                assert(self.buffer@ =~= Seq::<u8>::empty());
                            }
                            done = true;
                        },
                    }
                } else {
                    let wire: u16 = self.buffer[4] as u16 + (self.buffer[5] as u16) * 256;
                    let size: u16 = if wire >= 2 {
                        wire - 2
                    } else {
                        0
                    };
                    let plen = 8 + size as usize;
                    if n >= plen {
                        // Split off one complete packet.
                        let mut packet: Vec<u8> = Vec::new();
                        let mut k: usize = 0;
                        while k < plen
                            invariant
                                k <= plen <= n == self.buffer@.len(),
                                packet@ == self.buffer@.take(k as int),
                            decreases plen - k,
                        {
                            packet.push(self.buffer[k]);
                            proof {
                                assert(packet@ =~= self.buffer@.take(k + 1));
                            }
                            k = k + 1;
                        }
                        let mut rest: Vec<u8> = Vec::new();
                        let mut k2: usize = plen;
                        proof {
                            assert(rest@ =~= self.buffer@.subrange(plen as int, plen as int));
                        }
                        while k2 < n
                            invariant
                                plen <= k2 <= n == self.buffer@.len(),
                                rest@ == self.buffer@.subrange(plen as int, k2 as int),
                            decreases n - k2,
                        {
                            rest.push(self.buffer[k2]);
                            proof {
                                assert(rest@ =~= self.buffer@.subrange(plen as int, k2 + 1));
                            }
                            k2 = k2 + 1;
                        }
                        let ghost pre = self.buffer@;
                        let ghost complete_before = complete@;
                        complete.push(packet);
                        proof {
                            assert(rest@ =~= pre.skip(plen as int));
                            assert(complete@.map_values(|v: Vec<u8>| v@)
                                =~= complete_before.map_values(|v: Vec<u8>| v@).push(
                                pre.take(plen as int),
                            ));
                            assert(complete_before.map_values(|v: Vec<u8>| v@) + (seq![
                                pre.take(plen as int),
                            ] + spec_drain(pre.skip(plen as int), exp0).0)
                                =~= complete@.map_values(|v: Vec<u8>| v@) + spec_drain(
                                pre.skip(plen as int),
                                exp0,
                            ).0);
                        }
                        self.buffer = rest;
                    } else {
                        self.expected_len = plen;
                        proof {
                            assert(complete@.map_values(|v: Vec<u8>| v@) + Seq::<
                                Seq<u8>,
                            >::empty() =~= complete@.map_values(|v: Vec<u8>| v@));
                        }
                        done = true;
                    }
                }
            }
        }
        proof {
            assert(complete@.map_values(|v: Vec<u8>| v@).len() == complete@.len());
            assert forall|k: int| 0 <= k < complete@.len() implies complete@.map_values(
                |v: Vec<u8>| v@,
            )[k] == (#[trigger] complete@[k])@ by {}
        }
        complete
    }

    /// Empties the buffer and clears the pending expectation.
    pub fn clear(&mut self)
        ensures
            final(self).buffer_view() == Seq::<u8>::empty(),
            final(self).expected_spec() == 0,
    {
        self.buffer.clear();
        self.expected_len = 0;
    }

    /// Whether any bytes are buffered.
    pub fn has_pending(&self) -> (r: bool)
        ensures
            r == (self.buffer_view().len() > 0),
    {
        !self.buffer.is_empty()
    }

    /// How many more bytes the truncated packet at the buffer's front needs.
    pub fn bytes_needed(&self) -> (r: usize)
        ensures
            r as int == (if self.expected_spec() > self.buffer_view().len() {
                self.expected_spec() - self.buffer_view().len()
            } else {
                0
            }),
    {
        if self.expected_len > self.buffer.len() {
            self.expected_len - self.buffer.len()
        } else {
            0
        }
    }
}

impl Default for UsbPacketBuffer {
    /// An empty reassembly buffer.
    fn default() -> (r: Self)
        ensures
            r.buffer_view() == Seq::<u8>::empty(),
            r.expected_spec() == 0,
    {
        Self::new()
    }
}


/// The subscribe body sent after the hello: the identity fields a console
/// expects of a control client.
#[derive(Debug)]
pub struct SubscribeRequest {
    /// Message id, "Subscribe".
    pub id: String,
    /// Client name shown on the console.
    pub client_name: String,
    /// Internal client name.
    pub client_internal_name: String,
    /// Client platform.
    pub client_type: String,
    /// Client description.
    pub client_description: String,
    /// Client identifier.
    pub client_identifier: String,
    /// Requested option groups.
    pub client_options: String,
    /// Client encoding code.
    pub client_encoding: u32,
}

impl Clone for SubscribeRequest {
    fn clone(&self) -> (r: Self)
        ensures
            r == *self,
    {
        SubscribeRequest {
            id: self.id.clone(),
            client_name: self.client_name.clone(),
            client_internal_name: self.client_internal_name.clone(),
            client_type: self.client_type.clone(),
            client_description: self.client_description.clone(),
            client_identifier: self.client_identifier.clone(),
            client_options: self.client_options.clone(),
            client_encoding: self.client_encoding,
        }
    }
}

impl Default for SubscribeRequest {
    /// The identity a console accepts commands from.
    fn default() -> (r: Self)
        ensures
            r.id@ == "Subscribe"@,
            r.client_encoding == 23106u32,
    {
        SubscribeRequest {
            id: String::from_str("Subscribe"),
            client_name: String::from_str("Universal Control"),
            client_internal_name: String::from_str("ucapp"),
            client_type: String::from_str("Mac"),
            client_description: String::from_str("FaderBridge"),
            client_identifier: String::from_str("FaderBridge"),
            client_options: String::from_str("perm users levl redu rtan"),
            client_encoding: 23106,
        }
    }
}

/// The reply a console sends to a subscribe.
#[derive(Debug)]
pub struct SubscribeResponse {
    /// Message id of the reply.
    pub id: String,
}


/// Building a packet and parsing its header recovers the payload type and
/// the payload's length, and the bytes after the header are the payload: the
/// framing round trip.
pub proof fn lemma_packet_header_round_trip(payload_type: PayloadType, payload: Seq<u8>)
    requires
        payload.len() + 2 <= 65535,
        !(payload_type matches PayloadType::Unknown(_)),
    ensures
        ({
            let p = spec_packet(payload_type, payload);
            &&& p.len() == 8 + payload.len()
            &&& p.take(4) == spec_magic()
            &&& spec_wire_to_size(spec_le16(p[4], p[5])) == payload.len()
            &&& spec_type_of_bytes(p[6], p[7]) == payload_type
            &&& p.skip(8) == payload
        }),
{
    let p = spec_packet(payload_type, payload);
    let wire = payload.len() + 2;
    let tb = spec_type_bytes(payload_type);
    assert(tb.len() == 2);
    assert(p.take(4) =~= spec_magic());
    assert(p[4] == (wire % 256) as u8);
    assert(p[5] == ((wire / 256) % 256) as u8);
    vstd::arithmetic::div_mod::lemma_fundamental_div_mod(wire as int, 256);
    vstd::arithmetic::div_mod::lemma_mod_division_less_than_divisor(wire as int, 256);
    assert(wire / 256 < 256) by (nonlinear_arith)
        requires 0 <= wire <= 65535 && 256 * (wire / 256) + wire % 256 == wire && wire % 256 >= 0;
    assert(spec_le16(p[4], p[5]) == wire);
    assert(p[6] == tb[0] && p[7] == tb[1]);
    lemma_payload_type_round_trip(payload_type);
    assert(p.skip(8) =~= payload);
}

} // verus!
