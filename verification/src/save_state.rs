//! Save-state framing: a versioned 32-byte header (signature, version,
//! content CRC-32, payload and decoded lengths, payload CRC-32) followed by
//! the LZ4-compressed snapshot, in a buffer of fixed capacity.
//!
//! Turning a machine into snapshot bytes and back is serialization and
//! happens outside this crate; the library frames and checks the bytes.
use vstd::prelude::*;

use crate::bytes::{crc32_hash, read_u32_le, spec_crc32, spec_u32_le};

verus! {

/// Format version written into the header.
pub const VERSION: u32 = 1;

/// Size of the header in bytes.
pub const HEADER_SIZE: usize = 32;

/// Largest accepted snapshot before compression (64 MiB).
pub const MAX_DECODED_SIZE: usize = 67_108_864;

/// Fixed capacity of a save-state buffer (48 MiB), as the libretro
/// serialization API requires.
pub const SERIALIZED_SIZE: usize = 50_331_648;

/// Why a save state could not be written or read.
#[derive(Debug, Clone, Copy, PartialEq, Eq, Structural)]
pub enum SaveStateError {
    /// The output buffer is smaller than `SERIALIZED_SIZE`.
    BufferTooSmall,
    /// The snapshot is larger than `MAX_DECODED_SIZE`.
    SnapshotTooLarge,
    /// The compressed snapshot does not fit after the header.
    CapacityExceeded,
    /// The input is shorter than the header.
    Truncated,
    /// The input does not start with "NICAISTM".
    BadSignature,
    /// The header carries another format version.
    UnsupportedVersion(u32),
    /// The state belongs to other content.
    ContentMismatch,
    /// The header declares a snapshot larger than `MAX_DECODED_SIZE`.
    DecodedSizeTooLarge,
    /// The declared payload runs past the input or the capacity.
    BadPayloadLength,
    /// The payload does not match its checksum.
    ChecksumMismatch,
    /// The payload does not decompress.
    DecompressFailed,
}

/// What `lz4_flex::compress` yields for the given bytes.
pub uninterp spec fn spec_lz4_compress(data: Seq<u8>) -> Seq<u8>;

/// What `lz4_flex::decompress` yields for a payload and a capacity, or
/// `None` when it reports an error.
pub uninterp spec fn spec_lz4_decompress(payload: Seq<u8>, capacity: usize) -> Option<Seq<u8>>;

/// Compress with `lz4_flex::compress` (LZ4 block format). The result is
/// named; the contract also states that decompressing it with the input's
/// length as capacity gives the input back, the round trip the crate
/// documents for its block functions.
#[verifier::external_body]
fn lz4_compress(data: &[u8]) -> (res: Vec<u8>)
    ensures
        res@ == spec_lz4_compress(data@),
        spec_lz4_decompress(res@, data@.len() as usize) == Some(data@),
{
    lz4_flex::compress(data)
}

/// Decompress with `lz4_flex::decompress` into at most `capacity` bytes
/// (with the crate's default safe decoding, data that does not fit is an
/// error, not a panic). The result is named; the contract also states that
/// it is no longer than the capacity.
#[verifier::external_body]
fn lz4_decompress(payload: &[u8], capacity: usize) -> (res: Option<Vec<u8>>)
    ensures
        match res {
            Some(v) => spec_lz4_decompress(payload@, capacity) == Some(v@) && v@.len() <= capacity,
            None => spec_lz4_decompress(payload@, capacity) is None,
        },
{
    match lz4_flex::decompress(payload, capacity) {
        Ok(v) => Some(v),
        Err(_) => None,
    }
}

/// "NICAISTM"
pub open spec fn spec_magic() -> Seq<u8> {
    seq![0x4eu8, 0x49, 0x43, 0x41, 0x49, 0x53, 0x54, 0x4d]
}

/// Little-endian bytes of a 32-bit value.
pub open spec fn spec_le32(v: u32) -> Seq<u8> {
    seq![(v % 0x100) as u8, ((v / 0x100) % 0x100) as u8, ((v / 0x1_0000) % 0x100) as u8, (v / 0x100_0000) as u8]
}

/// The header for a payload of a snapshot.
pub open spec fn spec_header(content_crc32: u32, payload: Seq<u8>, decoded_len: int) -> Seq<u8> {
    spec_magic() + spec_le32(VERSION) + spec_le32(content_crc32) + spec_le32(payload.len() as u32) + spec_le32(
        decoded_len as u32,
    ) + spec_le32(spec_crc32(payload)) + Seq::new(4, |i: int| 0u8)
}

/// The save state of a snapshot in a buffer of `len` bytes: header,
/// compressed snapshot, then zeros.
pub open spec fn spec_frame(decoded: Seq<u8>, content_crc32: u32, len: int) -> Seq<u8> {
    let payload = spec_lz4_compress(decoded);
    spec_header(content_crc32, payload, decoded.len() as int) + payload + Seq::new(
        (len - HEADER_SIZE - payload.len()) as nat,
        |i: int| 0u8,
    )
}

/// The outcome of writing a snapshot into a buffer of `len` bytes.
pub open spec fn spec_encode(decoded: Seq<u8>, content_crc32: u32, len: int) -> Result<Seq<u8>, SaveStateError> {
    if len < SERIALIZED_SIZE {
        Err(SaveStateError::BufferTooSmall)
    } else if decoded.len() > MAX_DECODED_SIZE {
        Err(SaveStateError::SnapshotTooLarge)
    } else if spec_lz4_compress(decoded).len() > SERIALIZED_SIZE - HEADER_SIZE {
        Err(SaveStateError::CapacityExceeded)
    } else {
        Ok(spec_frame(decoded, content_crc32, len))
    }
}

/// The outcome of reading a save state: the snapshot bytes, or why the
/// state is refused.
pub open spec fn spec_decode(input: Seq<u8>, expected_content_crc32: u32) -> Result<Seq<u8>, SaveStateError> {
    if input.len() < HEADER_SIZE {
        Err(SaveStateError::Truncated)
    } else if input.subrange(0, 8) != spec_magic() {
        Err(SaveStateError::BadSignature)
    } else if spec_u32_le(input, 8) != VERSION {
        Err(SaveStateError::UnsupportedVersion(spec_u32_le(input, 8) as u32))
    } else if spec_u32_le(input, 12) != expected_content_crc32 {
        Err(SaveStateError::ContentMismatch)
    } else if spec_u32_le(input, 20) > MAX_DECODED_SIZE {
        Err(SaveStateError::DecodedSizeTooLarge)
    } else {
        let end = HEADER_SIZE + spec_u32_le(input, 16);
        if end > input.len() || end > SERIALIZED_SIZE {
            Err(SaveStateError::BadPayloadLength)
        } else {
            let payload = input.subrange(HEADER_SIZE as int, end);
            if spec_crc32(payload) != spec_u32_le(input, 24) {
                Err(SaveStateError::ChecksumMismatch)
            } else {
                match spec_lz4_decompress(payload, spec_u32_le(input, 20) as usize) {
                    Some(d) => Ok(d),
                    None => Err(SaveStateError::DecompressFailed),
                }
            }
        }
    }
}

/// Append the little-endian bytes of a 32-bit value.
fn push_le32(out: &mut Vec<u8>, v: u32)
    ensures
        final(out)@ == old(out)@ + spec_le32(v),
{
    out.push((v % 0x100) as u8);
    out.push(((v / 0x100) % 0x100) as u8);
    out.push(((v / 0x1_0000) % 0x100) as u8);
    out.push((v / 0x100_0000) as u8);
    assert(final(out)@ =~= old(out)@ + spec_le32(v));
}

/// Write a snapshot into the save-state buffer, replacing all its bytes.
/// The buffer keeps its length; on an error it is left as it was.
pub fn encode_frame(decoded: &[u8], content_crc32: u32, output: &mut Vec<u8>) -> (res: Result<(), SaveStateError>)
    ensures
        match spec_encode(decoded@, content_crc32, old(output)@.len() as int) {
            Ok(frame) => res is Ok && final(output)@ == frame && spec_decode(frame, content_crc32) == Ok::<
                Seq<u8>,
                SaveStateError,
            >(decoded@),
            Err(e) => res == Err::<(), SaveStateError>(e) && final(output)@ == old(output)@,
        },
{
    let len = output.len();
    if len < SERIALIZED_SIZE {
        return Err(SaveStateError::BufferTooSmall);
    }
    if decoded.len() > MAX_DECODED_SIZE {
        return Err(SaveStateError::SnapshotTooLarge);
    }
    let payload = lz4_compress(decoded);
    if payload.len() > SERIALIZED_SIZE - HEADER_SIZE {
        return Err(SaveStateError::CapacityExceeded);
    }
    let crc = crc32_hash(payload.as_slice());
    let mut frame: Vec<u8> = Vec::new();
    frame.push(0x4e);
    frame.push(0x49);
    frame.push(0x43);
    frame.push(0x41);
    frame.push(0x49);
    frame.push(0x53);
    frame.push(0x54);
    frame.push(0x4d);
    assert(frame@ =~= spec_magic());
    push_le32(&mut frame, VERSION);
    push_le32(&mut frame, content_crc32);
    push_le32(&mut frame, payload.len() as u32);
    push_le32(&mut frame, decoded.len() as u32);
    push_le32(&mut frame, crc);
    let mut k: usize = 0;
    let ghost base = frame@;
    while k < 4
        invariant
            k <= 4,
            frame@ =~= base + Seq::new(k as nat, |i: int| 0u8),
        decreases 4 - k,
    {
        frame.push(0);
        k = k + 1;
    }
    assert(frame@ =~= spec_header(content_crc32, payload@, decoded@.len() as int));
    let mut i: usize = 0;
    let ghost head = frame@;
    while i < payload.len()
        invariant
            i <= payload@.len(),
            frame@ =~= head + payload@.subrange(0, i as int),
        decreases payload@.len() - i,
    {
        frame.push(payload[i]);
        i = i + 1;
    }
    assert(payload@.subrange(0, payload@.len() as int) =~= payload@);
    let ghost body = frame@;
    assert(body.len() == HEADER_SIZE + payload@.len());
    while frame.len() < len
        invariant
            body.len() <= frame@.len() <= len,
            frame@ =~= body + Seq::new((frame@.len() - body.len()) as nat, |i: int| 0u8),
        decreases len - frame@.len(),
    {
        frame.push(0);
    }
    *output = frame;
    proof {
        lemma_frame_round_trip(decoded@, content_crc32, len as int);
    }
    Ok(())
}

/// Check a save state and return its snapshot bytes.
pub fn decode_frame(input: &[u8], expected_content_crc32: u32) -> (res: Result<Vec<u8>, SaveStateError>)
    ensures
        match res {
            Ok(v) => spec_decode(input@, expected_content_crc32) == Ok::<Seq<u8>, SaveStateError>(v@),
            Err(e) => spec_decode(input@, expected_content_crc32) == Err::<Seq<u8>, SaveStateError>(e),
        },
{
    let n = input.len();
    if n < HEADER_SIZE {
        return Err(SaveStateError::Truncated);
    }
    let signed = input[0] == 0x4e && input[1] == 0x49 && input[2] == 0x43 && input[3] == 0x41 && input[4] == 0x49
        && input[5] == 0x53 && input[6] == 0x54 && input[7] == 0x4d;
    assert(signed == (input@.subrange(0, 8) =~= spec_magic()));
    if !signed {
        return Err(SaveStateError::BadSignature);
    }
    let version = read_u32_le(input, 8);
    if version != VERSION {
        return Err(SaveStateError::UnsupportedVersion(version));
    }
    if read_u32_le(input, 12) != expected_content_crc32 {
        return Err(SaveStateError::ContentMismatch);
    }
    let payload_len = read_u32_le(input, 16) as usize;
    let decoded_len = read_u32_le(input, 20) as usize;
    if decoded_len > MAX_DECODED_SIZE {
        return Err(SaveStateError::DecodedSizeTooLarge);
    }
    if payload_len > n - HEADER_SIZE || payload_len > SERIALIZED_SIZE - HEADER_SIZE {
        return Err(SaveStateError::BadPayloadLength);
    }
    let payload = vstd::slice::slice_subrange(input, HEADER_SIZE, HEADER_SIZE + payload_len);
    if crc32_hash(payload) != read_u32_le(input, 24) {
        return Err(SaveStateError::ChecksumMismatch);
    }
    match lz4_decompress(payload, decoded_len) {
        Some(v) => Ok(v),
        None => Err(SaveStateError::DecompressFailed),
    }
}

proof fn lemma_le32_read(s: Seq<u8>, p: int, v: u32)
    requires
        0 <= p,
        p + 4 <= s.len(),
        s.subrange(p, p + 4) == spec_le32(v),
    ensures
        spec_u32_le(s, p) == v,
{
    assert(s[p] == spec_le32(v)[0]);
    assert(s[p + 1] == spec_le32(v)[1]);
    assert(s[p + 2] == spec_le32(v)[2]);
    assert(s[p + 3] == spec_le32(v)[3]);
}

/// A snapshot written into a buffer reads back unchanged with the same
/// content checksum, given that its compressed payload decompresses to it
/// (which `lz4_compress` promises for every payload it returns).
pub proof fn lemma_frame_round_trip(decoded: Seq<u8>, content_crc32: u32, len: int)
    requires
        spec_encode(decoded, content_crc32, len) is Ok,
        spec_lz4_decompress(spec_lz4_compress(decoded), decoded.len() as usize) == Some(decoded),
    ensures
        spec_decode(spec_encode(decoded, content_crc32, len).unwrap(), content_crc32) == Ok::<
            Seq<u8>,
            SaveStateError,
        >(decoded),
{
    let payload = spec_lz4_compress(decoded);
    let frame = spec_frame(decoded, content_crc32, len);
    let header = spec_header(content_crc32, payload, decoded.len() as int);
    assert(header.len() == 32);
    assert(frame.subrange(0, 8) =~= spec_magic());
    assert(frame.subrange(8, 12) =~= spec_le32(VERSION));
    assert(frame.subrange(12, 16) =~= spec_le32(content_crc32));
    assert(frame.subrange(16, 20) =~= spec_le32(payload.len() as u32));
    assert(frame.subrange(20, 24) =~= spec_le32(decoded.len() as u32));
    assert(frame.subrange(24, 28) =~= spec_le32(spec_crc32(payload)));
    lemma_le32_read(frame, 8, VERSION);
    lemma_le32_read(frame, 12, content_crc32);
    lemma_le32_read(frame, 16, payload.len() as u32);
    lemma_le32_read(frame, 20, decoded.len() as u32);
    lemma_le32_read(frame, 24, spec_crc32(payload));
    assert(frame.subrange(32, 32 + payload.len() as int) =~= payload);
}

/// The snapshot checksum guards the payload: a state whose payload bytes
/// no longer match the recorded checksum is refused.
pub proof fn lemma_checksum_guards_payload(input: Seq<u8>, expected_content_crc32: u32)
    requires
        input.len() >= HEADER_SIZE,
        input.subrange(0, 8) == spec_magic(),
        spec_u32_le(input, 8) == VERSION,
        spec_u32_le(input, 12) == expected_content_crc32,
        spec_u32_le(input, 20) <= MAX_DECODED_SIZE,
        HEADER_SIZE + spec_u32_le(input, 16) <= input.len(),
        HEADER_SIZE + spec_u32_le(input, 16) <= SERIALIZED_SIZE,
        spec_crc32(input.subrange(HEADER_SIZE as int, HEADER_SIZE + spec_u32_le(input, 16))) != spec_u32_le(
            input,
            24,
        ),
    ensures
        spec_decode(input, expected_content_crc32) == Err::<Seq<u8>, SaveStateError>(SaveStateError::ChecksumMismatch),
{
}

} // verus!
