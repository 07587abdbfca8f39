//! Packet codec: the checksum over byte blocks, the chunk framing used when
//! streaming a payload to the device, and the decoder that turns raw bytes
//! into typed [`Packet`] values.
//!
//! All multi-byte integers on the wire are big-endian. The checksum value
//! itself packs its two accumulators with `sum1` in the low byte and `sum2`
//! in the high byte; both ends of the link share this convention.

use vstd::prelude::*;
use vstd::slice::{slice_subrange, slice_to_vec};
use vstd::utf8::{decode_utf8, valid_utf8};

verus! {

/// A decoding failure: the bytes name an opcode the protocol does not have,
/// or a text payload is not valid UTF-8.
#[derive(Debug, Clone, Copy, PartialEq, Eq, Structural)]
pub enum ProtocolError {
    InvalidPacketOpcode(u8),
    InvalidUtf8,
}

/// Why [`read_packet`] returned no packet: the buffer does not yet hold a
/// whole packet (`need` says how many bytes it must grow to before another
/// attempt can make progress), or the bytes are malformed.
#[derive(Debug, Clone, Copy, PartialEq, Eq, Structural)]
pub enum DecodeError {
    Incomplete { need: usize },
    Protocol(ProtocolError),
}

/// One packet received from the device.
#[derive(Debug, Clone)]
pub enum Packet {
    /// The device is idle and awaits a command.
    Ready,
    /// A log line from the device.
    Print(String),
    /// A block of up to 16 bytes of device memory with its checksum.
    Chunk { data: Vec<u8>, checksum: u16 },
    /// A read session is complete.
    ReadEnd,
    /// The device asks for the next block of payload.
    ChunkRequest,
    /// A chunk the device received failed its checksum validation.
    InvalidChecksum { expected: u16, computed: u16 },
    /// One byte of device memory differs from what verification expected.
    ByteMismatch { address: u16, expected: u8, found: u8 },
    /// The device asks for the next mismatch to correct.
    ByteRequest,
}

/// The mathematical value of a [`Packet`]: byte and text payloads become
/// sequences.
#[verifier::ext_equal]
pub enum PacketV {
    Ready,
    Print(Seq<char>),
    Chunk { data: Seq<u8>, checksum: u16 },
    ReadEnd,
    ChunkRequest,
    InvalidChecksum { expected: u16, computed: u16 },
    ByteMismatch { address: u16, expected: u8, found: u8 },
    ByteRequest,
}

impl View for Packet {
    type V = PacketV;

    open spec fn view(&self) -> PacketV {
        match self {
            Packet::Ready => PacketV::Ready,
            Packet::Print(text) => PacketV::Print(text@),
            Packet::Chunk { data, checksum } => PacketV::Chunk {
                data: data@,
                checksum: *checksum,
            },
            Packet::ReadEnd => PacketV::ReadEnd,
            Packet::ChunkRequest => PacketV::ChunkRequest,
            Packet::InvalidChecksum { expected, computed } => PacketV::InvalidChecksum {
                expected: *expected,
                computed: *computed,
            },
            Packet::ByteMismatch { address, expected, found } => PacketV::ByteMismatch {
                address: *address,
                expected: *expected,
                found: *found,
            },
            Packet::ByteRequest => PacketV::ByteRequest,
        }
    }
}

impl DeepView for Packet {
    type V = PacketV;

    open spec fn deep_view(&self) -> PacketV {
        self.view()
    }
}

/// The pair of 8-bit running accumulators the checksum is built from:
/// `sum1` adds each byte, `sum2` adds each intermediate `sum1`, both
/// wrapping, applied left to right over the block.
pub open spec fn spec_sums(data: Seq<u8>) -> (u8, u8)
    decreases data.len(),
{
    if data.len() == 0 {
        (0u8, 0u8)
    } else {
        let prev = spec_sums(data.drop_last());
        let s1 = ((prev.0 + data.last()) % 256) as u8;
        let s2 = ((prev.1 + s1) % 256) as u8;
        (s1, s2)
    }
}

/// The 16-bit checksum of a byte block: `sum1` in the low byte, `sum2` in
/// the high byte.
pub open spec fn spec_checksum(data: Seq<u8>) -> u16 {
    (spec_sums(data).0 + 256 * spec_sums(data).1) as u16
}

/// Computes the checksum of a byte block exactly as [`spec_checksum`]
/// describes it.
pub fn calculate_checksum(data: &[u8]) -> (r: u16)
    ensures
        r == spec_checksum(data@),
{
    let mut sum_1: u8 = 0;
    let mut sum_2: u8 = 0;
    let mut i: usize = 0;
    while i < data.len()
        invariant
            i <= data@.len(),
            (sum_1, sum_2) == spec_sums(data@.take(i as int)),
        decreases data@.len() - i,
    {
        sum_1 = sum_1.wrapping_add(data[i]);
        sum_2 = sum_2.wrapping_add(sum_1);
        i = i + 1;
        proof {
            assert(data@.take(i as int).drop_last() =~= data@.take(i - 1));
        }
    }
    proof {
        assert(data@.take(data@.len() as int) =~= data@);
    }
    sum_1 as u16 + 256 * (sum_2 as u16)
}

/// The value carried by two big-endian wire bytes.
pub open spec fn spec_be16(hi: u8, lo: u8) -> u16 {
    (256 * hi + lo) as u16
}

/// The two big-endian wire bytes of a 16-bit value.
pub open spec fn spec_be16_bytes(v: u16) -> Seq<u8> {
    seq![(v / 256) as u8, (v % 256) as u8]
}

/// What [`read_packet`] finds at the front of a byte buffer: the decoded
/// packet and how many bytes it took, or why none could be decoded.
pub open spec fn spec_read_packet(s: Seq<u8>) -> Result<(PacketV, int), DecodeError> {
    if s.len() < 1 {
        Err(DecodeError::Incomplete { need: 1 })
    } else if s[0] == 0x00 {
        Ok((PacketV::Ready, 1))
    } else if s[0] == 0x01 {
        if s.len() < 3 {
            Err(DecodeError::Incomplete { need: 3 })
        } else {
            let n = spec_be16(s[1], s[2]) as int;
            if s.len() < 3 + n {
                Err(DecodeError::Incomplete { need: (3 + n) as usize })
            } else {
                let payload = s.subrange(3, 3 + n);
                if valid_utf8(payload) {
                    Ok((PacketV::Print(decode_utf8(payload)), 3 + n))
                } else {
                    Err(DecodeError::Protocol(ProtocolError::InvalidUtf8))
                }
            }
        }
    } else if s[0] == 0x02 {
        if s.len() < 4 {
            Err(DecodeError::Incomplete { need: 4 })
        } else {
            let n = s[1] as int;
            if s.len() < 4 + n {
                Err(DecodeError::Incomplete { need: (4 + n) as usize })
            } else {
                Ok((
                    PacketV::Chunk { data: s.subrange(4, 4 + n), checksum: spec_be16(s[2], s[3]) },
                    4 + n,
                ))
            }
        }
    } else if s[0] == 0x03 {
        Ok((PacketV::ReadEnd, 1))
    } else if s[0] == 0x04 {
        Ok((PacketV::ChunkRequest, 1))
    } else if s[0] == 0x05 {
        if s.len() < 5 {
            Err(DecodeError::Incomplete { need: 5 })
        } else {
            Ok((
                PacketV::InvalidChecksum {
                    expected: spec_be16(s[1], s[2]),
                    computed: spec_be16(s[3], s[4]),
                },
                5,
            ))
        }
    } else if s[0] == 0x06 {
        if s.len() < 5 {
            Err(DecodeError::Incomplete { need: 5 })
        } else {
            Ok((
                PacketV::ByteMismatch {
                    address: spec_be16(s[1], s[2]),
                    expected: s[3],
                    found: s[4],
                },
                5,
            ))
        }
    } else if s[0] == 0x07 {
        Ok((PacketV::ByteRequest, 1))
    } else {
        Err(DecodeError::Protocol(ProtocolError::InvalidPacketOpcode(s[0])))
    }
}

/// Relies on `String::from_utf8`: it succeeds exactly on valid UTF-8 input,
/// and the characters of the returned string are the UTF-8 decoding of the
/// input bytes.
#[verifier::external_body]
fn bytes_to_utf8(bytes: Vec<u8>) -> (r: Option<String>)
    ensures
        r matches Some(text) ==> valid_utf8(bytes@) && text@ == decode_utf8(bytes@),
        r is None ==> !valid_utf8(bytes@),
{
    String::from_utf8(bytes).ok()
}

/// Reads a big-endian 16-bit value from `input` at position `at`.
fn read_be16(input: &[u8], at: usize) -> (v: u16)
    requires
        at + 2 <= input@.len(),
    ensures
        v == spec_be16(input@[at as int], input@[at as int + 1]),
{
    256 * (input[at] as u16) + input[at + 1] as u16
}

/// Decodes one packet from the front of `input`.
///
/// Returns the packet and the number of bytes it occupied. When `input` is
/// only a prefix of a packet, the error says how many bytes the buffer must
/// hold before decoding can proceed, so a caller can read exactly that much
/// from its transport and try again.
pub fn read_packet(input: &[u8]) -> (r: Result<(Packet, usize), DecodeError>)
    ensures
        (r matches Ok((packet, used)) ==> spec_read_packet(input@) matches Ok((pv, u))
            && packet@ == pv && used == u),
        (r matches Err(e) ==> spec_read_packet(input@) matches Err(ev) && e == ev),
{
    if input.len() < 1 {
        return Err(DecodeError::Incomplete { need: 1 });
    }
    let opcode = input[0];
    match opcode {
        0x00 => Ok((Packet::Ready, 1)),
        0x01 => {
            if input.len() < 3 {
                return Err(DecodeError::Incomplete { need: 3 });
            }
            let n = read_be16(input, 1) as usize;
            if input.len() < 3 + n {
                return Err(DecodeError::Incomplete { need: 3 + n });
            }
            let payload = slice_to_vec(slice_subrange(input, 3, 3 + n));
            match bytes_to_utf8(payload) {
                Some(text) => Ok((Packet::Print(text), 3 + n)),
                None => Err(DecodeError::Protocol(ProtocolError::InvalidUtf8)),
            }
        },
        0x02 => {
            if input.len() < 4 {
                return Err(DecodeError::Incomplete { need: 4 });
            }
            let n = input[1] as usize;
            let checksum = read_be16(input, 2);
            if input.len() < 4 + n {
                return Err(DecodeError::Incomplete { need: 4 + n });
            }
            let data = slice_to_vec(slice_subrange(input, 4, 4 + n));
            Ok((Packet::Chunk { data, checksum }, 4 + n))
        },
        0x03 => Ok((Packet::ReadEnd, 1)),
        0x04 => Ok((Packet::ChunkRequest, 1)),
        0x05 => {
            if input.len() < 5 {
                return Err(DecodeError::Incomplete { need: 5 });
            }
            let expected = read_be16(input, 1);
            let computed = read_be16(input, 3);
            Ok((Packet::InvalidChecksum { expected, computed }, 5))
        },
        0x06 => {
            if input.len() < 5 {
                return Err(DecodeError::Incomplete { need: 5 });
            }
            let address = read_be16(input, 1);
            let expected = input[3];
            let found = input[4];
            Ok((Packet::ByteMismatch { address, expected, found }, 5))
        },
        0x07 => Ok((Packet::ByteRequest, 1)),
        _ => Err(DecodeError::Protocol(ProtocolError::InvalidPacketOpcode(opcode))),
    }
}

/// How many payload bytes the next chunk carries when the cursor stands at
/// `cursor`: at most 16, fewer only for the final chunk.
pub open spec fn spec_chunk_len(data: Seq<u8>, cursor: int) -> int {
    if data.len() - cursor < 16 {
        data.len() - cursor
    } else {
        16
    }
}

/// The payload bytes of the next chunk.
pub open spec fn spec_chunk(data: Seq<u8>, cursor: int) -> Seq<u8> {
    data.subrange(cursor, cursor + spec_chunk_len(data, cursor))
}

/// The bytes written to the transport for one chunk: the payload length
/// (one byte), the checksum of the payload (big-endian), then the payload.
pub open spec fn spec_chunk_wire(data: Seq<u8>, cursor: int) -> Seq<u8> {
    seq![spec_chunk_len(data, cursor) as u8] + spec_be16_bytes(
        spec_checksum(spec_chunk(data, cursor)),
    ) + spec_chunk(data, cursor)
}

/// Frames the next chunk of `data` and advances the cursor past it.
///
/// Returns the bytes to write to the transport, as [`spec_chunk_wire`]
/// prescribes them. A cursor already at the end yields an empty chunk and
/// does not move.
pub fn send_data_chunk(data: &[u8], current_byte: &mut usize) -> (wire: Vec<u8>)
    requires
        *old(current_byte) <= data@.len(),
    ensures
        *final(current_byte) == *old(current_byte) + spec_chunk_len(
            data@,
            *old(current_byte) as int,
        ),
        wire@ == spec_chunk_wire(data@, *old(current_byte) as int),
{
    let remaining = data.len() - *current_byte;
    let chunk_len: usize = if remaining < 16 {
        remaining
    } else {
        16
    };
    let chunk = slice_subrange(data, *current_byte, *current_byte + chunk_len);
    let checksum = calculate_checksum(chunk);
    let mut wire: Vec<u8> = Vec::new();
    wire.push(chunk_len as u8);
    wire.push((checksum / 256) as u8);
    wire.push((checksum % 256) as u8);
    wire.extend_from_slice(chunk);
    *current_byte = *current_byte + chunk_len;
    proof {
        assert(wire@ =~= spec_chunk_wire(data@, *old(current_byte) as int));
    }
    wire
}

/// All chunk payloads from `cursor` to the end of `data`, concatenated in
/// the order [`send_data_chunk`] emits them.
pub open spec fn spec_chunk_stream(data: Seq<u8>, cursor: int) -> Seq<u8>
    decreases data.len() - cursor
        when 0 <= cursor <= data.len()
{
    if cursor >= data.len() {
        Seq::empty()
    } else {
        spec_chunk(data, cursor) + spec_chunk_stream(data, cursor + spec_chunk_len(data, cursor))
    }
}

/// Chunking loses nothing and reorders nothing: encoding chunks from
/// `cursor` until the cursor reaches the end of the payload reproduces
/// exactly the bytes of the payload from `cursor` on.
pub proof fn lemma_chunk_stream_reconstructs(data: Seq<u8>, cursor: int)
    requires
        0 <= cursor <= data.len(),
    ensures
        spec_chunk_stream(data, cursor) == data.subrange(cursor, data.len() as int),
    decreases data.len() - cursor,
{
    if cursor >= data.len() {
        assert(spec_chunk_stream(data, cursor) =~= data.subrange(cursor, data.len() as int));
    } else {
        lemma_chunk_stream_reconstructs(data, cursor + spec_chunk_len(data, cursor));
        assert(spec_chunk_stream(data, cursor) =~= data.subrange(cursor, data.len() as int));
    }
}

/// Every chunk is non-empty and carries at most 16 bytes; only the final
/// chunk, the one that reaches the end of the payload, may be shorter.
pub proof fn lemma_chunk_len_bounds(data: Seq<u8>, cursor: int)
    requires
        0 <= cursor < data.len(),
    ensures
        1 <= spec_chunk_len(data, cursor) <= 16,
        spec_chunk_len(data, cursor) < 16 ==> cursor + spec_chunk_len(data, cursor)
            == data.len(),
{
}

/// The checksum is order-sensitive: swapping two adjacent distinct bytes at
/// the end of a block always changes it.
pub proof fn lemma_checksum_order_sensitive(prefix: Seq<u8>, a: u8, b: u8)
    requires
        a != b,
    ensures
        spec_checksum(prefix + seq![a, b]) != spec_checksum(prefix + seq![b, a]),
{
    let p = spec_sums(prefix);
    assert((prefix + seq![a, b]).drop_last() =~= prefix + seq![a]);
    assert((prefix + seq![b, a]).drop_last() =~= prefix + seq![b]);
    assert((prefix + seq![a]).drop_last() =~= prefix);
    assert((prefix + seq![b]).drop_last() =~= prefix);
    let sa = spec_sums(prefix + seq![a]);
    let sb = spec_sums(prefix + seq![b]);
    let sab = spec_sums(prefix + seq![a, b]);
    let sba = spec_sums(prefix + seq![b, a]);
    assert(sab.0 == sba.0) by {
        assert(sab.0 == ((sa.0 + b) % 256) as u8);
        assert(sba.0 == ((sb.0 + a) % 256) as u8);
        assert(((p.0 + a) % 256 + b) % 256 == (p.0 + a + b) % 256) by (nonlinear_arith)
            requires 0 <= p.0 < 256 && 0 <= a < 256 && 0 <= b < 256;
        assert(((p.0 + b) % 256 + a) % 256 == (p.0 + b + a) % 256) by (nonlinear_arith)
            requires 0 <= p.0 < 256 && 0 <= a < 256 && 0 <= b < 256;
    }
    assert(sa.0 != sb.0) by {
        assert(sa.0 == ((p.0 + a) % 256) as u8);
        assert(sb.0 == ((p.0 + b) % 256) as u8);
        assert((p.0 + a) % 256 != (p.0 + b) % 256) by (nonlinear_arith)
            requires 0 <= p.0 < 256 && 0 <= a < 256 && 0 <= b < 256 && a != b;
    }
    assert(sab.1 != sba.1) by {
        assert(sab.1 == ((sa.1 + sab.0) % 256) as u8);
        assert(sba.1 == ((sb.1 + sba.0) % 256) as u8);
        assert(sa.1 == ((p.1 + sa.0) % 256) as u8);
        assert(sb.1 == ((p.1 + sb.0) % 256) as u8);
        assert(((p.1 + sa.0) % 256 + sab.0) % 256 != ((p.1 + sb.0) % 256 + sab.0) % 256)
            by (nonlinear_arith)
            requires
                0 <= p.1 < 256,
                0 <= sa.0 < 256,
                0 <= sb.0 < 256,
                0 <= sab.0 < 256,
                sa.0 != sb.0,
        ;
    }
}

} // verus!
