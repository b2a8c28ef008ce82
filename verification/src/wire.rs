//! Little-endian byte helpers shared by the message layouts and the TLV codec.
use vstd::bytes::*;
use vstd::prelude::*;

verus! {

/// `n` zero bytes.
pub open spec fn zeros(n: nat) -> Seq<u8> {
    Seq::new(n, |i: int| 0u8)
}

/// True when every byte of `s` is zero.
pub open spec fn all_zero(s: Seq<u8>) -> bool {
    forall|i: int| 0 <= i < s.len() ==> s[i] == 0u8
}

/// Appends `bytes` to `out`.
pub fn append_bytes(out: &mut Vec<u8>, bytes: &[u8])
    ensures
        final(out)@ == old(out)@ + bytes@,
{
    let ghost start = out@;
    let mut i: usize = 0;
    while i < bytes.len()
        invariant
            i <= bytes@.len(),
            out@ == start + bytes@.take(i as int),
        decreases bytes@.len() - i,
    {
        out.push(bytes[i]);
        i = i + 1;
        proof {
            assert(out@ =~= start + bytes@.take(i as int));
        }
    }
    proof {
        assert(bytes@.take(bytes@.len() as int) =~= bytes@);
    }
}

/// Appends `n` zero bytes to `out`.
pub fn append_zeros(out: &mut Vec<u8>, n: usize)
    ensures
        final(out)@ == old(out)@ + zeros(n as nat),
{
    let ghost start = out@;
    let mut i: usize = 0;
    while i < n
        invariant
            i <= n,
            out@ == start + zeros(i as nat),
        decreases n - i,
    {
        out.push(0u8);
        i = i + 1;
        proof {
            assert(out@ =~= start + zeros(i as nat));
        }
    }
}

/// Appends the little-endian bytes of `x`.
pub fn append_u16(out: &mut Vec<u8>, x: u16)
    ensures
        final(out)@ == old(out)@ + spec_u16_to_le_bytes(x),
{
    let b = u16_to_le_bytes(x);
    append_bytes(out, b.as_slice());
}

/// Appends the little-endian bytes of `x`.
pub fn append_u32(out: &mut Vec<u8>, x: u32)
    ensures
        final(out)@ == old(out)@ + spec_u32_to_le_bytes(x),
{
    let b = u32_to_le_bytes(x);
    append_bytes(out, b.as_slice());
}

/// Appends the little-endian bytes of `x`.
pub fn append_u64(out: &mut Vec<u8>, x: u64)
    ensures
        final(out)@ == old(out)@ + spec_u64_to_le_bytes(x),
{
    let b = u64_to_le_bytes(x);
    append_bytes(out, b.as_slice());
}

/// Reads the little-endian `u16` at `off`.
pub fn read_u16(bytes: &[u8], off: usize) -> (x: u16)
    requires
        off + 2 <= bytes@.len(),
    ensures
        x == spec_u16_from_le_bytes(bytes@.subrange(off as int, off + 2)),
{
    let len = bytes.len();
    assert(off + 2 <= len);
    u16_from_le_bytes(&bytes[off..off + 2])
}

/// Reads the little-endian `u32` at `off`.
pub fn read_u32(bytes: &[u8], off: usize) -> (x: u32)
    requires
        off + 4 <= bytes@.len(),
    ensures
        x == spec_u32_from_le_bytes(bytes@.subrange(off as int, off + 4)),
{
    let len = bytes.len();
    assert(off + 4 <= len);
    u32_from_le_bytes(&bytes[off..off + 4])
}

/// Reads the little-endian `u64` at `off`.
pub fn read_u64(bytes: &[u8], off: usize) -> (x: u64)
    requires
        off + 8 <= bytes@.len(),
    ensures
        x == spec_u64_from_le_bytes(bytes@.subrange(off as int, off + 8)),
{
    let len = bytes.len();
    assert(off + 8 <= len);
    u64_from_le_bytes(&bytes[off..off + 8])
}

/// True when `bytes[off..off + n]` are all zero.
pub fn check_zero(bytes: &[u8], off: usize, n: usize) -> (r: bool)
    requires
        off + n <= bytes@.len(),
    ensures
        r == all_zero(bytes@.subrange(off as int, off + n)),
{
    let len = bytes.len();
    let mut i: usize = 0;
    while i < n
        invariant
            i <= n,
            off + n <= bytes@.len(),
            len == bytes@.len(),
            forall|j: int| off <= j < off + i ==> #[trigger] bytes@[j] == 0u8,
        decreases n - i,
    {
        if bytes[off + i] != 0 {
            proof {
                assert(bytes@.subrange(off as int, off + n)[i as int] != 0u8);
            }
            return false;
        }
        i = i + 1;
    }
    proof {
        assert forall|j: int| 0 <= j < n implies #[trigger] bytes@.subrange(off as int, off + n)[j] == 0u8 by {
            assert(bytes@[off + j] == 0u8);
        }
    }
    true
}

/// Round-trip facts of the little-endian encodings.
pub proof fn lemma_le_roundtrip()
    ensures
        forall|x: u16|
            #![trigger spec_u16_to_le_bytes(x)]
            spec_u16_to_le_bytes(x).len() == 2 && spec_u16_from_le_bytes(spec_u16_to_le_bytes(x))
                == x,
        forall|s: Seq<u8>|
            #![trigger spec_u16_to_le_bytes(spec_u16_from_le_bytes(s))]
            s.len() == 2 ==> spec_u16_to_le_bytes(spec_u16_from_le_bytes(s)) == s,
        forall|x: u32|
            #![trigger spec_u32_to_le_bytes(x)]
            spec_u32_to_le_bytes(x).len() == 4 && spec_u32_from_le_bytes(spec_u32_to_le_bytes(x))
                == x,
        forall|s: Seq<u8>|
            #![trigger spec_u32_to_le_bytes(spec_u32_from_le_bytes(s))]
            s.len() == 4 ==> spec_u32_to_le_bytes(spec_u32_from_le_bytes(s)) == s,
        forall|x: u64|
            #![trigger spec_u64_to_le_bytes(x)]
            spec_u64_to_le_bytes(x).len() == 8 && spec_u64_from_le_bytes(spec_u64_to_le_bytes(x))
                == x,
        forall|s: Seq<u8>|
            #![trigger spec_u64_to_le_bytes(spec_u64_from_le_bytes(s))]
            s.len() == 8 ==> spec_u64_to_le_bytes(spec_u64_from_le_bytes(s)) == s,
{
    lemma_auto_spec_u16_to_from_le_bytes();
    lemma_auto_spec_u32_to_from_le_bytes();
    lemma_auto_spec_u64_to_from_le_bytes();
}

} // verus!
