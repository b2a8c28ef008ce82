//! A single-producer, single-consumer ring of frames in a shared memory
//! region.
//!
//! The region starts with a 64-byte header: the write index (u64) at 0, the
//! read index (u64) at 8, the capacity (u64) at 16, the schema digest at 24,
//! the protocol version (u32) at 56 and flags (u32) at 60. The ring's bytes
//! follow. Indexes count bytes ever written and read; a byte with index `k`
//! sits at position `k % capacity`. A frame is an 8-byte header (total
//! length u32, type id u16, sequence u16) followed by its payload, and may
//! wrap around the end of the ring.
//!
//! What a reader takes from an empty ring after one write is the frame that
//! was written (`lemma_write_then_read`).
use vstd::bytes::*;
use vstd::prelude::*;
use crate::error::{invalid_data_error, invalid_data_of, io_error_text};
use crate::text::{decimal, push_decimal, push_str};
use crate::wire::{append_bytes, append_u32, append_u64, lemma_le_roundtrip, read_u16, read_u32, read_u64};

verus! {

/// Size of the region header.
pub const SHM_HEADER_SIZE: usize = 64;

/// Ring capacity used when none is given (1 MiB).
pub const DEFAULT_RING_CAPACITY: usize = 1048576;

/// Version of the region layout.
pub const RING_PROTOCOL_VERSION: u32 = 1;

/// Size of a frame header.
pub const FRAME_HEADER_SIZE: usize = 8;

/// Errors of the shared memory ring.
#[derive(Debug)]
pub enum ShmError {
    Io(std::io::Error),
    BufferFull { available: usize, needed: usize },
    SchemaMismatch,
    InvalidFrameLength(u32),
    CorruptedFrame,
}

/// True when `text` is the text of `e` (for an I/O error, by its prefix).
pub open spec fn shm_error_describes(e: ShmError, text: Seq<char>) -> bool {
    match e {
        ShmError::Io(_) => "IO error: "@.is_prefix_of(text),
        ShmError::BufferFull { available, needed } => text == "Buffer full (available: "@
            + decimal(available as nat) + ", needed: "@ + decimal(needed as nat) + ")"@,
        ShmError::SchemaMismatch => text == "Schema digest mismatch"@,
        ShmError::InvalidFrameLength(n) => text == "Invalid frame length: "@ + decimal(n as nat),
        ShmError::CorruptedFrame => text == "Corrupted frame (bad magic or sequence)"@,
    }
}

impl ShmError {
    /// Text of the error.
    pub fn to_string(&self) -> (r: String)
        ensures
            shm_error_describes(*self, r@),
    {
        let mut s = String::new();
        match self {
            ShmError::Io(e) => {
                push_str(&mut s, "IO error: ");
                let t = io_error_text(e);
                push_str(&mut s, t.as_str());
                proof {
                    reveal_strlit("IO error: ");
                    assert(s@.subrange(0, 10) =~= "IO error: "@);
                }
            },
            ShmError::BufferFull { available, needed } => {
                push_str(&mut s, "Buffer full (available: ");
                push_decimal(&mut s, *available as u64);
                push_str(&mut s, ", needed: ");
                push_decimal(&mut s, *needed as u64);
                push_str(&mut s, ")");
            },
            ShmError::SchemaMismatch => push_str(&mut s, "Schema digest mismatch"),
            ShmError::InvalidFrameLength(n) => {
                push_str(&mut s, "Invalid frame length: ");
                push_decimal(&mut s, *n as u64);
            },
            ShmError::CorruptedFrame => push_str(
                &mut s,
                "Corrupted frame (bad magic or sequence)",
            ),
        }
        s
    }
}

/// Header of a frame in the ring.
#[derive(Debug, Clone, Copy, PartialEq, Eq, Structural)]
pub struct FrameHeader {
    /// Length of the frame, header included.
    pub length: u32,
    /// Message type id.
    pub type_id: u16,
    /// Sequence number of the frame.
    pub sequence: u16,
}

/// The eight bytes of a frame header.
pub open spec fn frame_header_image(h: FrameHeader) -> Seq<u8> {
    spec_u32_to_le_bytes(h.length) + spec_u16_to_le_bytes(h.type_id) + spec_u16_to_le_bytes(
        h.sequence,
    )
}

/// The frame header that eight bytes hold.
pub open spec fn frame_header_of(b: Seq<u8>) -> FrameHeader {
    FrameHeader {
        length: spec_u32_from_le_bytes(b.subrange(0, 4)),
        type_id: spec_u16_from_le_bytes(b.subrange(4, 6)),
        sequence: spec_u16_from_le_bytes(b.subrange(6, 8)),
    }
}

/// A header read back from its bytes is the same header.
pub proof fn lemma_frame_header_roundtrip(h: FrameHeader)
    ensures
        frame_header_image(h).len() == 8,
        frame_header_of(frame_header_image(h)) == h,
{
    lemma_le_roundtrip();
    let b = frame_header_image(h);
    assert(b.subrange(0, 4) =~= spec_u32_to_le_bytes(h.length));
    assert(b.subrange(4, 6) =~= spec_u16_to_le_bytes(h.type_id));
    assert(b.subrange(6, 8) =~= spec_u16_to_le_bytes(h.sequence));
}

/// The bytes of a frame header.
pub fn frame_header_bytes(header: &FrameHeader) -> (r: [u8; 8])
    ensures
        r@ == frame_header_image(*header),
{
    let a = u32_to_le_bytes(header.length);
    let b = u16_to_le_bytes(header.type_id);
    let c = u16_to_le_bytes(header.sequence);
    let r = [a[0], a[1], a[2], a[3], b[0], b[1], c[0], c[1]];
    proof {
        assert(r@ =~= frame_header_image(*header));
    }
    r
}

/// Reads a frame header; fails with `InvalidFrameLength` (the byte count)
/// for fewer than eight bytes.
pub fn parse_frame_header(bytes: &[u8]) -> (r: Result<FrameHeader, ShmError>)
    ensures
        bytes@.len() < 8 ==> (r matches Err(ShmError::InvalidFrameLength(n)) && n
            == bytes@.len() as u32),
        bytes@.len() >= 8 ==> r == Ok::<FrameHeader, ShmError>(frame_header_of(bytes@)),
{
    if bytes.len() < 8 {
        return Err(ShmError::InvalidFrameLength(bytes.len() as u32));
    }
    let length = read_u32(bytes, 0);
    let type_id = read_u16(bytes, 4);
    let sequence = read_u16(bytes, 6);
    Ok(FrameHeader { length, type_id, sequence })
}

/// Position `j` bytes after `pos` in a ring of `cap` bytes.
pub open spec fn wrap(pos: int, j: int, cap: int) -> int {
    if pos + j < cap {
        pos + j
    } else {
        pos + j - cap
    }
}

/// `len` bytes of the ring `data` from position `pos`, wrapping around.
pub open spec fn ring_get(data: Seq<u8>, pos: int, len: nat) -> Seq<u8> {
    Seq::new(len, |j: int| data[wrap(pos, j, data.len() as int)])
}

/// The ring `data` with `bytes` written from position `pos`, wrapping
/// around.
pub open spec fn ring_put(data: Seq<u8>, pos: int, bytes: Seq<u8>) -> Seq<u8> {
    Seq::new(
        data.len(),
        |p: int|
            {
                let j = if p >= pos {
                    p - pos
                } else {
                    p + data.len() - pos
                };
                if j < bytes.len() {
                    bytes[j]
                } else {
                    data[p]
                }
            },
    )
}

/// Reading back part of what was written gives that part.
pub proof fn lemma_get_put(data: Seq<u8>, pos: int, bytes: Seq<u8>, i: int, k: nat)
    requires
        0 <= pos < data.len(),
        bytes.len() <= data.len(),
        0 <= i,
        i + k <= bytes.len(),
    ensures
        ring_get(ring_put(data, pos, bytes), wrap(pos, i, data.len() as int), k) == bytes.subrange(
            i,
            i + k,
        ),
{
    let cap = data.len() as int;
    let put = ring_put(data, pos, bytes);
    let got = ring_get(put, wrap(pos, i, cap), k);
    if k > 0 {
        assert forall|j: int| 0 <= j < k implies got[j] == bytes[i + j] by {
            let q = wrap(wrap(pos, i, cap), j, cap);
            assert(0 <= q < cap);
            assert(q == pos + i + j || q == pos + i + j - cap);
        }
    }
    assert(got =~= bytes.subrange(i, i + k));
}

/// Writing two pieces one after the other writes their concatenation.
pub proof fn lemma_put_concat(data: Seq<u8>, pos: int, a: Seq<u8>, b: Seq<u8>)
    requires
        0 <= pos < data.len(),
        a.len() + b.len() <= data.len(),
    ensures
        ring_put(ring_put(data, pos, a), wrap(pos, a.len() as int, data.len() as int), b)
            == ring_put(data, pos, a + b),
{
    let cap = data.len() as int;
    let lhs = ring_put(ring_put(data, pos, a), wrap(pos, a.len() as int, cap), b);
    let rhs = ring_put(data, pos, a + b);
    assert forall|p: int| 0 <= p < cap implies lhs[p] == rhs[p] by {
        let j = if p >= pos {
            p - pos
        } else {
            p + cap - pos
        };
        if j < a.len() {
            assert((a + b)[j] == a[j]);
        } else if j < a.len() + b.len() {
            assert((a + b)[j] == b[j - a.len()]);
        }
    }
    assert(lhs =~= rhs);
}

/// The ring bytes of a region.
pub open spec fn ring_data(region: Seq<u8>) -> Seq<u8> {
    region.subrange(SHM_HEADER_SIZE as int, region.len() as int)
}

/// The `u64` stored at `off` in a region.
pub open spec fn u64_at(region: Seq<u8>, off: int) -> u64 {
    spec_u64_from_le_bytes(region.subrange(off, off + 8))
}

/// The region with the `u64` at `off` replaced by `x`.
pub open spec fn with_u64(region: Seq<u8>, off: int, x: u64) -> Seq<u8> {
    region.subrange(0, off) + spec_u64_to_le_bytes(x) + region.subrange(off + 8, region.len() as int)
}

/// Bytes written so far.
pub open spec fn write_index(region: Seq<u8>) -> u64 {
    u64_at(region, 0)
}

/// Bytes read so far.
pub open spec fn read_index(region: Seq<u8>) -> u64 {
    u64_at(region, 8)
}

/// A region of a ring of `cap` bytes whose indexes are consistent: the
/// reader is not ahead of the writer, and at most `cap` bytes are unread.
pub open spec fn ring_ok(region: Seq<u8>, cap: nat) -> bool {
    &&& 0 < cap <= u64::MAX
    &&& region.len() == SHM_HEADER_SIZE + cap
    &&& read_index(region) <= write_index(region)
    &&& write_index(region) - read_index(region) <= cap
}

/// Free bytes of the ring.
pub open spec fn available(region: Seq<u8>, cap: nat) -> int {
    cap - (write_index(region) - read_index(region))
}

/// The bytes of a frame with the given header fields and payload.
pub open spec fn frame_image(type_id: u16, sequence: u16, payload: Seq<u8>) -> Seq<u8> {
    frame_header_image(
        FrameHeader {
            length: (FRAME_HEADER_SIZE + payload.len()) as u32,
            type_id,
            sequence,
        },
    ) + payload
}

/// The region after a frame is written: the frame at the write position,
/// and the write index advanced by its length.
pub open spec fn region_after_write(region: Seq<u8>, cap: nat, type_id: u16, sequence: u16, payload: Seq<u8>) -> Seq<u8> {
    let w = write_index(region);
    let data = ring_put(ring_data(region), (w % (cap as u64)) as int, frame_image(type_id, sequence, payload));
    with_u64(region.subrange(0, SHM_HEADER_SIZE as int) + data, 0, (w + FRAME_HEADER_SIZE + payload.len()) as u64)
}

/// The header of the next frame to read.
pub open spec fn next_frame_header(region: Seq<u8>, cap: nat) -> FrameHeader {
    frame_header_of(ring_get(ring_data(region), (read_index(region) % (cap as u64)) as int, 8))
}

/// The payload of the next frame to read.
pub open spec fn next_frame_payload(region: Seq<u8>, cap: nat) -> Seq<u8> {
    let pos = (read_index(region) % (cap as u64)) as int;
    ring_get(
        ring_data(region),
        wrap(pos, 8, cap as int),
        (next_frame_header(region, cap).length - FRAME_HEADER_SIZE) as nat,
    )
}

/// Writes `data` into the ring part of the region from position `pos`,
/// wrapping around its end.
fn write_wrapping(region: &mut [u8], cap: usize, pos: usize, data: &[u8])
    requires
        old(region)@.len() == SHM_HEADER_SIZE + cap,
        pos < cap,
        data@.len() <= cap,
    ensures
        final(region)@.len() == old(region)@.len(),
        final(region)@.subrange(0, SHM_HEADER_SIZE as int) == old(region)@.subrange(
            0,
            SHM_HEADER_SIZE as int,
        ),
        ring_data(final(region)@) == ring_put(ring_data(old(region)@), pos as int, data@),
{
    let n = data.len();
    let rlen = region.len();
    let mut j: usize = 0;
    while j < n
        invariant
            n == data@.len(),
            n <= cap,
            pos < cap,
            j <= n,
            rlen == region@.len(),
            region@.len() == SHM_HEADER_SIZE + cap,
            region@.subrange(0, SHM_HEADER_SIZE as int) == old(region)@.subrange(
                0,
                SHM_HEADER_SIZE as int,
            ),
            ring_data(region@) == ring_put(ring_data(old(region)@), pos as int, data@.take(j as int)),
        decreases n - j,
    {
        let idx: usize = if j < cap - pos {
            pos + j
        } else {
            j - (cap - pos)
        };
        let ghost before = region@;
        region[SHM_HEADER_SIZE + idx] = data[j];
        proof {
            assert(region@ == before.update(SHM_HEADER_SIZE + idx, data@[j as int]));
            assert(region@.subrange(0, SHM_HEADER_SIZE as int) =~= before.subrange(
                0,
                SHM_HEADER_SIZE as int,
            ));
            let d0 = ring_data(old(region)@);
            let now = ring_data(region@);
            assert(now =~= ring_data(before).update(idx as int, data@[j as int]));
            let want = ring_put(d0, pos as int, data@.take(j + 1));
            assert forall|p: int| 0 <= p < cap implies now[p] == want[p] by {
                let jj = if p >= pos {
                    p - pos
                } else {
                    p + cap - pos
                };
                if p == idx {
                    assert(jj == j);
                } else {
                    assert(jj != j);
                    if jj < j {
                        assert(data@.take(j + 1)[jj] == data@.take(j as int)[jj]);
                    }
                }
            }
            assert(now =~= want);
        }
        j = j + 1;
    }
    proof {
        assert(data@.take(n as int) =~= data@);
    }
}

/// `len` bytes of the ring part of the region from position `pos`,
/// wrapping around its end.
fn read_wrapping(region: &[u8], cap: usize, pos: usize, len: usize) -> (r: Vec<u8>)
    requires
        region@.len() == SHM_HEADER_SIZE + cap,
        pos < cap,
        len <= cap,
    ensures
        r@ == ring_get(ring_data(region@), pos as int, len as nat),
{
    let mut out: Vec<u8> = Vec::new();
    let rlen = region.len();
    let mut j: usize = 0;
    while j < len
        invariant
            rlen == region@.len(),
            len <= cap,
            pos < cap,
            j <= len,
            region@.len() == SHM_HEADER_SIZE + cap,
            out@ == ring_get(ring_data(region@), pos as int, j as nat),
        decreases len - j,
    {
        let idx: usize = if j < cap - pos {
            pos + j
        } else {
            j - (cap - pos)
        };
        out.push(region[SHM_HEADER_SIZE + idx]);
        j = j + 1;
        proof {
            assert(out@ =~= ring_get(ring_data(region@), pos as int, j as nat));
        }
    }
    out
}

/// Stores `x` little-endian at `off`.
fn put_u64(region: &mut [u8], off: usize, x: u64)
    requires
        off + 8 <= old(region)@.len(),
    ensures
        final(region)@ == with_u64(old(region)@, off as int, x),
        final(region)@.len() == old(region)@.len(),
{
    let b = u64_to_le_bytes(x);
    let rlen = region.len();
    let mut i: usize = 0;
    while i < 8
        invariant
            rlen == region@.len(),
            b@ == spec_u64_to_le_bytes(x),
            b@.len() == 8,
            off + 8 <= old(region)@.len(),
            region@.len() == old(region)@.len(),
            i <= 8,
            forall|k: int| 0 <= k < off ==> region@[k] == old(region)@[k],
            forall|k: int| off + 8 <= k < region@.len() ==> region@[k] == old(region)@[k],
            forall|k: int| off <= k < off + i ==> region@[k] == b@[k - off],
        decreases 8 - i,
    {
        region[off + i] = b[i];
        i = i + 1;
    }
    proof {
        assert(region@ =~= with_u64(old(region)@, off as int, x));
    }
}

/// The header a region is given when it is created.
pub open spec fn initial_header(cap: u64, digest: Seq<u8>) -> Seq<u8> {
    spec_u64_to_le_bytes(0) + spec_u64_to_le_bytes(0) + spec_u64_to_le_bytes(cap) + digest
        + spec_u32_to_le_bytes(RING_PROTOCOL_VERSION) + spec_u32_to_le_bytes(0)
}

/// Writes the header of a new ring: both indexes at 0, the capacity, the
/// schema digest, the version and no flags.
pub fn init_region(region: &mut [u8], capacity: usize, schema_digest: &[u8; 32])
    requires
        old(region)@.len() == SHM_HEADER_SIZE + capacity,
    ensures
        final(region)@.len() == old(region)@.len(),
        final(region)@.subrange(0, SHM_HEADER_SIZE as int) == initial_header(
            capacity as u64,
            schema_digest@,
        ),
        ring_data(final(region)@) == ring_data(old(region)@),
{
    let mut header: Vec<u8> = Vec::new();
    append_u64(&mut header, 0);
    append_u64(&mut header, 0);
    append_u64(&mut header, capacity as u64);
    append_bytes(&mut header, schema_digest);
    append_u32(&mut header, RING_PROTOCOL_VERSION);
    append_u32(&mut header, 0);
    proof {
        lemma_le_roundtrip();
        assert(header@ =~= initial_header(capacity as u64, schema_digest@));
    }
    let rlen = region.len();
    let mut i: usize = 0;
    while i < SHM_HEADER_SIZE
        invariant
            rlen == region@.len(),
            region@.len() == old(region)@.len(),
            old(region)@.len() == SHM_HEADER_SIZE + capacity,
            header@ == initial_header(capacity as u64, schema_digest@),
            header@.len() == SHM_HEADER_SIZE,
            i <= SHM_HEADER_SIZE,
            forall|k: int| 0 <= k < i ==> region@[k] == header@[k],
            forall|k: int| SHM_HEADER_SIZE <= k < region@.len() ==> region@[k] == old(region)@[k],
        decreases SHM_HEADER_SIZE - i,
    {
        region[i] = header[i];
        i = i + 1;
    }
    proof {
        assert(region@.subrange(0, SHM_HEADER_SIZE as int) =~= header@);
        assert(ring_data(region@) =~= ring_data(old(region)@));
    }
}

/// Checks the header of an existing region against the expected schema
/// digest and gives the ring's capacity: fails with `SchemaMismatch` for
/// another digest, and with an `InvalidData` I/O error for another version.
pub fn check_region_header(region: &[u8], expected_digest: &[u8; 32]) -> (r: Result<usize, ShmError>)
    requires
        region@.len() >= SHM_HEADER_SIZE,
    ensures
        region@.subrange(24, 56) != expected_digest@ ==> r matches Err(ShmError::SchemaMismatch),
        region@.subrange(24, 56) == expected_digest@ && spec_u32_from_le_bytes(
            region@.subrange(56, 60),
        ) != RING_PROTOCOL_VERSION ==> (r matches Err(ShmError::Io(e)) && e == invalid_data_of(
            "Unsupported protocol version: "@ + decimal(
                spec_u32_from_le_bytes(region@.subrange(56, 60)) as nat,
            ),
        )),
        region@.subrange(24, 56) == expected_digest@ && spec_u32_from_le_bytes(
            region@.subrange(56, 60),
        ) == RING_PROTOCOL_VERSION ==> r == Ok::<usize, ShmError>(u64_at(region@, 16) as usize),
{
    let mut i: usize = 0;
    while i < 32
        invariant
            i <= 32,
            region@.len() >= SHM_HEADER_SIZE,
            expected_digest@.len() == 32,
            forall|k: int| 0 <= k < i ==> region@[24 + k] == expected_digest@[k],
        decreases 32 - i,
    {
        if region[24 + i] != expected_digest[i] {
            proof {
                assert(region@.subrange(24, 56)[i as int] != expected_digest@[i as int]);
            }
            return Err(ShmError::SchemaMismatch);
        }
        i = i + 1;
    }
    proof {
        assert(region@.subrange(24, 56) =~= expected_digest@);
    }
    let version = read_u32(region, 56);
    if version != RING_PROTOCOL_VERSION {
        let mut m = String::new();
        push_str(&mut m, "Unsupported protocol version: ");
        push_decimal(&mut m, version as u64);
        proof {
            assert(m@ =~= "Unsupported protocol version: "@ + decimal(version as nat));
        }
        return Err(ShmError::Io(invalid_data_error(m)));
    }
    let cap = read_u64(region, 16);
    Ok(cap as usize)
}

/// True when a frame of `frame_size` bytes fits in the free part of the
/// ring.
pub fn has_space(region: &[u8], capacity: usize, frame_size: usize) -> (r: bool)
    requires
        ring_ok(region@, capacity as nat),
    ensures
        r == (available(region@, capacity as nat) >= frame_size),
{
    let w = read_u64(region, 0);
    let rd = read_u64(region, 8);
    let used = w - rd;
    let avail = capacity as u64 - used;
    avail >= frame_size as u64
}

/// Writes a frame (`type_id` and `payload`) at the write position and
/// advances the write index; the sequence number goes up by one. Fails with
/// `BufferFull`, changing nothing, when the free part of the ring is smaller
/// than the frame.
pub fn ring_write_frame(
    region: &mut [u8],
    capacity: usize,
    sequence: &mut u16,
    type_id: u16,
    payload: &[u8],
) -> (r: Result<(), ShmError>)
    requires
        ring_ok(old(region)@, capacity as nat),
        FRAME_HEADER_SIZE + payload@.len() <= u32::MAX,
        write_index(old(region)@) + FRAME_HEADER_SIZE + payload@.len() <= u64::MAX,
    ensures
        available(old(region)@, capacity as nat) < FRAME_HEADER_SIZE + payload@.len() ==> (r matches Err(
            ShmError::BufferFull { available: a, needed: n },
        ) && a == available(old(region)@, capacity as nat) && n == FRAME_HEADER_SIZE
            + payload@.len() && final(region)@ == old(region)@ && *final(sequence) == *old(
            sequence,
        )),
        available(old(region)@, capacity as nat) >= FRAME_HEADER_SIZE + payload@.len() ==> (r is Ok
            && final(region)@ == region_after_write(
            old(region)@,
            capacity as nat,
            type_id,
            *old(sequence),
            payload@,
        ) && *final(sequence) == (if *old(sequence) == u16::MAX {
            0
        } else {
            (*old(sequence) + 1) as u16
        })),
{
    let frame_size = FRAME_HEADER_SIZE + payload.len();
    let w = read_u64(region, 0);
    let rd = read_u64(region, 8);
    let used = w - rd;
    let avail = capacity as u64 - used;
    if avail < frame_size as u64 {
        return Err(ShmError::BufferFull { available: avail as usize, needed: frame_size });
    }
    let pos = (w % capacity as u64) as usize;
    let header = FrameHeader { length: frame_size as u32, type_id, sequence: *sequence };
    let hb = frame_header_bytes(&header);
    let ghost start = region@;
    write_wrapping(region, capacity, pos, &hb);
    let payload_pos: usize = if FRAME_HEADER_SIZE < capacity - pos {
        pos + FRAME_HEADER_SIZE
    } else {
        FRAME_HEADER_SIZE - (capacity - pos)
    };
    write_wrapping(region, capacity, payload_pos, payload);
    proof {
        lemma_put_concat(ring_data(start), pos as int, hb@, payload@);
        assert(hb@ + payload@ == frame_image(type_id, *old(sequence), payload@));
    }
    let ghost before_index = region@;
    put_u64(region, 0, w + frame_size as u64);
    proof {
        let expected = region_after_write(start, capacity as nat, type_id, *old(sequence), payload@);
        assert(before_index =~= start.subrange(0, SHM_HEADER_SIZE as int) + ring_data(before_index));
        assert(region@ =~= expected);
    }
    *sequence = sequence.wrapping_add(1);
    Ok(())
}

/// The next frame's length covers its header and stays within the unread
/// bytes.
pub open spec fn frame_length_ok(region: Seq<u8>, capacity: nat) -> bool {
    FRAME_HEADER_SIZE <= next_frame_header(region, capacity).length <= write_index(region)
        - read_index(region)
}

/// Takes the next frame from the ring: `None` when it is empty; otherwise
/// its type id and payload, advancing the read index past it and the
/// expected sequence number by one. Fails with `CorruptedFrame`, changing
/// nothing, when the frame's sequence number is not the expected one, and
/// then with `InvalidFrameLength` (the frame's length), changing nothing,
/// when that length is shorter than a frame header or longer than the
/// unread bytes.
pub fn ring_read_frame(region: &mut [u8], capacity: usize, expected_sequence: &mut u16) -> (r: Result<
    Option<(u16, Vec<u8>)>,
    ShmError,
>)
    requires
        ring_ok(old(region)@, capacity as nat),
        read_index(old(region)@) != write_index(old(region)@) ==> FRAME_HEADER_SIZE <= capacity,
    ensures
        read_index(old(region)@) == write_index(old(region)@) ==> (r matches Ok(None)
            && final(region)@ == old(region)@ && *final(expected_sequence) == *old(expected_sequence)),
        read_index(old(region)@) != write_index(old(region)@) && next_frame_header(
            old(region)@,
            capacity as nat,
        ).sequence != *old(expected_sequence) ==> (r matches Err(ShmError::CorruptedFrame)
            && final(region)@ == old(region)@ && *final(expected_sequence) == *old(expected_sequence)),
        read_index(old(region)@) != write_index(old(region)@) && next_frame_header(
            old(region)@,
            capacity as nat,
        ).sequence == *old(expected_sequence) && !frame_length_ok(old(region)@, capacity as nat)
            ==> (r == Err::<Option<(u16, Vec<u8>)>, ShmError>(
            ShmError::InvalidFrameLength(next_frame_header(old(region)@, capacity as nat).length),
        ) && final(region)@ == old(region)@ && *final(expected_sequence) == *old(expected_sequence)),
        read_index(old(region)@) != write_index(old(region)@) && next_frame_header(
            old(region)@,
            capacity as nat,
        ).sequence == *old(expected_sequence) && frame_length_ok(old(region)@, capacity as nat)
            ==> (r matches Ok(Some((t, p))) && t
            == next_frame_header(old(region)@, capacity as nat).type_id && p@ == next_frame_payload(
            old(region)@,
            capacity as nat,
        ) && final(region)@ == with_u64(
            old(region)@,
            8,
            (read_index(old(region)@) + next_frame_header(old(region)@, capacity as nat).length) as u64,
        ) && *final(expected_sequence) == (if *old(expected_sequence) == u16::MAX {
            0
        } else {
            (*old(expected_sequence) + 1) as u16
        })),
{
    let w = read_u64(region, 0);
    let rd = read_u64(region, 8);
    if w == rd {
        return Ok(None);
    }
    let pos = (rd % capacity as u64) as usize;
    let header_bytes = read_wrapping(region, capacity, pos, FRAME_HEADER_SIZE);
    let header = match parse_frame_header(header_bytes.as_slice()) {
        Ok(h) => h,
        Err(e) => return Err(e),
    };
    if header.sequence != *expected_sequence {
        return Err(ShmError::CorruptedFrame);
    }
    if (header.length as u64) < FRAME_HEADER_SIZE as u64 || header.length as u64 > w - rd {
        return Err(ShmError::InvalidFrameLength(header.length));
    }
    let payload_pos: usize = if FRAME_HEADER_SIZE < capacity - pos {
        pos + FRAME_HEADER_SIZE
    } else {
        FRAME_HEADER_SIZE - (capacity - pos)
    };
    let payload_len = header.length as usize - FRAME_HEADER_SIZE;
    let payload = read_wrapping(region, capacity, payload_pos, payload_len);
    put_u64(region, 8, rd + header.length as u64);
    *expected_sequence = expected_sequence.wrapping_add(1);
    Ok(Some((header.type_id, payload)))
}

/// True when the region's indexes are consistent for a ring of
/// `capacity` bytes.
pub fn ring_state_ok(region: &[u8], capacity: usize) -> (r: bool)
    ensures
        r == ring_ok(region@, capacity as nat),
{
    if capacity == 0 || region.len() < SHM_HEADER_SIZE || region.len() - SHM_HEADER_SIZE != capacity {
        return false;
    }
    let w = read_u64(region, 0);
    let rd = read_u64(region, 8);
    rd <= w && w - rd <= capacity as u64
}

/// True when a frame with a payload of `payload_len` bytes can be
/// described: its length fits in a `u32` and the write index does not
/// overflow past it.
pub fn frame_fits_index(region: &[u8], payload_len: usize) -> (r: bool)
    requires
        region@.len() >= SHM_HEADER_SIZE,
    ensures
        r == (FRAME_HEADER_SIZE + payload_len <= u32::MAX && write_index(region@) + FRAME_HEADER_SIZE
            + payload_len <= u64::MAX),
{
    if payload_len > (u32::MAX as usize) - FRAME_HEADER_SIZE {
        return false;
    }
    let w = read_u64(region, 0);
    let frame = (FRAME_HEADER_SIZE + payload_len) as u64;
    w <= u64::MAX - frame
}

/// A frame written to an empty ring is what the reader takes next: its
/// header carries the frame's length, type id and sequence number, its
/// payload is the payload written, and the ring stays consistent.
pub proof fn lemma_write_then_read(region: Seq<u8>, cap: nat, type_id: u16, sequence: u16, payload: Seq<u8>)
    requires
        ring_ok(region, cap),
        read_index(region) == write_index(region),
        FRAME_HEADER_SIZE + payload.len() <= cap,
        FRAME_HEADER_SIZE + payload.len() <= u32::MAX,
        write_index(region) + FRAME_HEADER_SIZE + payload.len() <= u64::MAX,
    ensures
        ({
            let after = region_after_write(region, cap, type_id, sequence, payload);
            &&& ring_ok(after, cap)
            &&& read_index(after) == read_index(region)
            &&& write_index(after) == write_index(region) + FRAME_HEADER_SIZE + payload.len()
            &&& next_frame_header(after, cap) == (FrameHeader {
                length: (FRAME_HEADER_SIZE + payload.len()) as u32,
                type_id,
                sequence,
            })
            &&& next_frame_payload(after, cap) == payload
        }),
{
    lemma_le_roundtrip();
    let w = write_index(region);
    let size = FRAME_HEADER_SIZE + payload.len();
    let pos = (w % (cap as u64)) as int;
    let h = FrameHeader { length: size as u32, type_id, sequence };
    let frame = frame_image(type_id, sequence, payload);
    lemma_frame_header_roundtrip(h);
    let data = ring_data(region);
    assert(data.len() == cap);
    assert(0 <= pos < cap) by {
        assert((cap as u64) as nat == cap);
        assert((w % (cap as u64)) < (cap as u64));
    }
    let data2 = ring_put(data, pos, frame);
    let mid = region.subrange(0, SHM_HEADER_SIZE as int) + data2;
    let after = region_after_write(region, cap, type_id, sequence, payload);
    assert(after == with_u64(mid, 0, (w + size) as u64));
    assert(spec_u64_to_le_bytes((w + size) as u64).len() == 8);
    assert(after.subrange(0, 8) =~= spec_u64_to_le_bytes((w + size) as u64));
    assert(after.subrange(8, 16) =~= region.subrange(8, 16));
    assert(ring_data(after) =~= data2);
    assert(frame.len() == size);
    lemma_get_put(data, pos, frame, 0, 8);
    assert(frame.subrange(0, 8) =~= frame_header_image(h));
    lemma_get_put(data, pos, frame, 8, payload.len());
    assert(frame.subrange(8, 8 + payload.len() as int) =~= payload);
    assert(read_index(after) == read_index(region));
    assert(write_index(after) == w + size);
    assert(after.len() == region.len());
    assert(ring_ok(after, cap));
    assert((read_index(after) % (cap as u64)) as int == pos);
    assert(next_frame_header(after, cap) == h);
    assert(next_frame_payload(after, cap) == payload);
}

} // verus!
