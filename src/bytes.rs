//! Little-endian integers and zero padding in byte buffers.

use vstd::prelude::*;

verus! {

/// The little-endian `u32` stored at `off` in `s`.
pub open spec fn spec_u32_le(s: Seq<u8>, off: int) -> u32 {
    (s[off] as int + s[off + 1] as int * 0x100 + s[off + 2] as int * 0x1_0000 + s[off + 3] as int
        * 0x100_0000) as u32
}

/// The four little-endian bytes of `v`.
pub open spec fn spec_u32_bytes(v: u32) -> Seq<u8> {
    seq![(v & 0xff) as u8, ((v >> 8) & 0xff) as u8, ((v >> 16) & 0xff) as u8, (v >> 24) as u8]
}

/// `n` zero bytes.
pub open spec fn spec_zeros(n: nat) -> Seq<u8> {
    Seq::new(n, |i: int| 0u8)
}

/// The number of zero bytes that bring a length of `n` to a multiple of 16.
pub open spec fn spec_pad_len(n: nat) -> nat {
    ((16 - n % 16) % 16) as nat
}

proof fn lemma_u32_bytes_round_trip_bv(v: u32, b0: u8, b1: u8, b2: u8, b3: u8) by (bit_vector)
    requires
        b0 == (v & 0xff) as u8,
        b1 == ((v >> 8) & 0xff) as u8,
        b2 == ((v >> 16) & 0xff) as u8,
        b3 == (v >> 24) as u8,
    ensures
        v == (b0 as u32) | ((b1 as u32) << 8) | ((b2 as u32) << 16) | ((b3 as u32) << 24),
{
}

proof fn lemma_bytes_as_int(b0: u8, b1: u8, b2: u8, b3: u8) by (bit_vector)
    ensures
        (b0 as u32) | ((b1 as u32) << 8) | ((b2 as u32) << 16) | ((b3 as u32) << 24) == (b0 as u32)
            + (b1 as u32) * 0x100 + (b2 as u32) * 0x1_0000 + (b3 as u32) * 0x100_0000,
{
}

/// Reading back the bytes of a `u32` gives the same value.
pub proof fn lemma_u32_bytes_round_trip(v: u32)
    ensures
        spec_u32_bytes(v).len() == 4,
        spec_u32_le(spec_u32_bytes(v), 0) == v,
{
    let s = spec_u32_bytes(v);
    lemma_u32_bytes_round_trip_bv(v, s[0], s[1], s[2], s[3]);
    lemma_bytes_as_int(s[0], s[1], s[2], s[3]);
}

/// Reads the little-endian `u32` at `off`.
pub fn read_u32_le(data: &[u8], off: usize) -> (r: u32)
    requires
        off + 4 <= data@.len(),
    ensures
        r == spec_u32_le(data@, off as int),
{
    let b0 = data[off];
    let b1 = data[off + 1];
    let b2 = data[off + 2];
    let b3 = data[off + 3];
    proof {
        lemma_bytes_as_int(b0, b1, b2, b3);
    }
    (b0 as u32) | ((b1 as u32) << 8) | ((b2 as u32) << 16) | ((b3 as u32) << 24)
}

/// Appends the four little-endian bytes of `v`.
pub fn push_u32_le(out: &mut Vec<u8>, v: u32)
    ensures
        final(out)@ == old(out)@ + spec_u32_bytes(v),
{
    out.push((v & 0xff) as u8);
    out.push(((v >> 8) & 0xff) as u8);
    out.push(((v >> 16) & 0xff) as u8);
    out.push((v >> 24) as u8);
    assert(final(out)@ =~= old(out)@ + spec_u32_bytes(v));
}

/// Appends zero bytes until the length is a multiple of 16.
pub fn pad_to_16(out: &mut Vec<u8>)
    ensures
        final(out)@ == old(out)@ + spec_zeros(spec_pad_len(old(out)@.len())),
        final(out)@.len() % 16 == 0,
{
    let ghost start = out@;
    while out.len() % 16 != 0
        invariant
            start.len() <= out@.len() <= start.len() + spec_pad_len(start.len()),
            out@.len() % 16 == 0 ==> out@.len() == start.len() + spec_pad_len(start.len()),
            out@ == start + spec_zeros((out@.len() - start.len()) as nat),
        decreases start.len() + spec_pad_len(start.len()) - out@.len(),
    {
        out.push(0u8);
        assert(out@ =~= start + spec_zeros((out@.len() - start.len()) as nat));
    }
}

} // verus!
