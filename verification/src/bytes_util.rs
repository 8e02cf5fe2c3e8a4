//! Small byte-sequence helpers shared by the envelope codec: 32-bit
//! little-endian framing integers and verified copying of byte ranges.

use vstd::prelude::*;

verus! {

/// The four little-endian bytes of `n`.
pub open spec fn u32_le_spec(n: u32) -> Seq<u8> {
    seq![
        (n % 256) as u8,
        ((n / 256) % 256) as u8,
        ((n / 65536) % 256) as u8,
        ((n / 16777216) % 256) as u8,
    ]
}

/// The value of four little-endian bytes.
pub open spec fn u32_of_le(b: Seq<u8>) -> u32
    recommends
        b.len() == 4,
{
    (b[0] + b[1] * 256 + b[2] * 65536 + b[3] * 16777216) as u32
}

/// Reading back the little-endian bytes of `n` yields `n`.
pub proof fn lemma_u32_le_round_trip(n: u32)
    ensures
        u32_of_le(u32_le_spec(n)) == n,
{
    assert(n == (n % 256) + ((n / 256) % 256) * 256 + ((n / 65536) % 256) * 65536 + ((n
        / 16777216) % 256) * 16777216) by (bit_vector);
}

/// Append the four little-endian bytes of `n` to `out`.
pub fn push_u32_le(out: &mut Vec<u8>, n: u32)
    ensures
        final(out)@ == old(out)@ + u32_le_spec(n),
{
    out.push((n % 256) as u8);
    out.push(((n / 256) % 256) as u8);
    out.push(((n / 65536) % 256) as u8);
    out.push(((n / 16777216) % 256) as u8);
    assert(out@ =~= old(out)@ + u32_le_spec(n));
}

/// Read the 32-bit little-endian value stored at `off`.
pub fn read_u32_le(v: &Vec<u8>, off: usize) -> (r: u32)
    requires
        off + 4 <= v@.len(),
    ensures
        r == u32_of_le(v@.subrange(off as int, off as int + 4)),
{
    let l: usize = v.len();
    let b0: u32 = v[off] as u32;
    let b1: u32 = v[off + 1] as u32;
    let b2: u32 = v[off + 2] as u32;
    let b3: u32 = v[off + 3] as u32;
    b0 + b1 * 256 + b2 * 65536 + b3 * 16777216
}

/// Copy the bytes of `v` in `[start, end)` into a fresh vector.
pub fn copy_range(v: &Vec<u8>, start: usize, end: usize) -> (r: Vec<u8>)
    requires
        start <= end,
        end <= v@.len(),
    ensures
        r@ == v@.subrange(start as int, end as int),
{
    let mut r: Vec<u8> = Vec::new();
    let mut i: usize = start;
    while i < end
        invariant
            start <= i <= end,
            end <= v@.len(),
            r@ == v@.subrange(start as int, i as int),
        decreases end - i,
    {
        r.push(v[i]);
        i = i + 1;
        assert(r@ =~= v@.subrange(start as int, i as int));
    }
    r
}

/// Append every byte of `src` to `dst`.
pub fn append_bytes(dst: &mut Vec<u8>, src: &Vec<u8>)
    ensures
        final(dst)@ == old(dst)@ + src@,
{
    let mut i: usize = 0;
    while i < src.len()
        invariant
            i <= src@.len(),
            dst@ == old(dst)@ + src@.subrange(0, i as int),
        decreases src@.len() - i,
    {
        dst.push(src[i]);
        i = i + 1;
        assert(dst@ =~= old(dst)@ + src@.subrange(0, i as int));
    }
    assert(dst@ =~= old(dst)@ + src@);
}


/// Four bytes reading as `n` are exactly the little-endian bytes of `n`.
pub proof fn lemma_u32_of_le_inverse(b: Seq<u8>, n: u32)
    requires
        b.len() == 4,
        u32_of_le(b) == n,
    ensures
        b =~= u32_le_spec(n),
{
    let x0 = b[0] as u32;
    let x1 = b[1] as u32;
    let x2 = b[2] as u32;
    let x3 = b[3] as u32;
    assert(b[0] as int + b[1] as int * 256 + b[2] as int * 65536 + b[3] as int * 16777216
        <= 0xffffffff);
    assert(n == x0 + x1 * 256 + x2 * 65536 + x3 * 16777216);
    assert(x0 < 256 && x1 < 256 && x2 < 256 && x3 < 256 && n == x0 + x1 * 256 + x2 * 65536 + x3
        * 16777216 ==> x0 == n % 256 && x1 == (n / 256) % 256 && x2 == (n / 65536) % 256 && x3
        == (n / 16777216) % 256) by (bit_vector);
}
} // verus!
