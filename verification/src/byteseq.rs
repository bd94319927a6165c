//! Big-endian integer fields and byte-buffer helpers for the wire protocol.
//!
//! All framing-level multi-byte integers use network byte order. The
//! codec's internal size prefix is little-endian and uses `vstd::bytes`
//! instead; the two must not be confused.

use vstd::prelude::*;

verus! {

/// The four bytes of `x` in network byte order, most significant first.
pub open spec fn spec_u32_to_be_bytes(x: u32) -> Seq<u8> {
    seq![
        ((x >> 24) & 0xff) as u8,
        ((x >> 16) & 0xff) as u8,
        ((x >> 8) & 0xff) as u8,
        (x & 0xff) as u8,
    ]
}

/// The value of four bytes read in network byte order.
pub open spec fn spec_u32_from_be_bytes(s: Seq<u8>) -> u32
    recommends
        s.len() == 4,
{
    ((s[0] as u32) << 24 | (s[1] as u32) << 16 | (s[2] as u32) << 8 | (s[3] as u32)) as u32
}

/// The eight bytes of `x` in network byte order, most significant first.
pub open spec fn spec_u64_to_be_bytes(x: u64) -> Seq<u8> {
    seq![
        ((x >> 56) & 0xff) as u8,
        ((x >> 48) & 0xff) as u8,
        ((x >> 40) & 0xff) as u8,
        ((x >> 32) & 0xff) as u8,
        ((x >> 24) & 0xff) as u8,
        ((x >> 16) & 0xff) as u8,
        ((x >> 8) & 0xff) as u8,
        (x & 0xff) as u8,
    ]
}

/// The value of eight bytes read in network byte order.
pub open spec fn spec_u64_from_be_bytes(s: Seq<u8>) -> u64
    recommends
        s.len() == 8,
{
    ((s[0] as u64) << 56 | (s[1] as u64) << 48 | (s[2] as u64) << 40 | (s[3] as u64) << 32 | (
    s[4] as u64) << 24 | (s[5] as u64) << 16 | (s[6] as u64) << 8 | (s[7] as u64)) as u64
}

/// Reading back the four big-endian bytes of any `u32` recovers it.
pub proof fn lemma_u32_be_round_trip()
    ensures
        forall|x: u32|
            {
                &&& (#[trigger] spec_u32_to_be_bytes(x)).len() == 4
                &&& spec_u32_from_be_bytes(spec_u32_to_be_bytes(x)) == x
            },
{
    assert forall|x: u32|
        {
            &&& (#[trigger] spec_u32_to_be_bytes(x)).len() == 4
            &&& spec_u32_from_be_bytes(spec_u32_to_be_bytes(x)) == x
        } by {
        assert(((((x >> 24) & 0xff) as u8) as u32) << 24 | ((((x >> 16) & 0xff) as u8) as u32)
            << 16 | ((((x >> 8) & 0xff) as u8) as u32) << 8 | (((x & 0xff) as u8) as u32) == x)
            by (bit_vector);
    }
}

/// Reading back the eight big-endian bytes of any `u64` recovers it.
pub proof fn lemma_u64_be_round_trip()
    ensures
        forall|x: u64|
            {
                &&& (#[trigger] spec_u64_to_be_bytes(x)).len() == 8
                &&& spec_u64_from_be_bytes(spec_u64_to_be_bytes(x)) == x
            },
{
    assert forall|x: u64|
        {
            &&& (#[trigger] spec_u64_to_be_bytes(x)).len() == 8
            &&& spec_u64_from_be_bytes(spec_u64_to_be_bytes(x)) == x
        } by {
        assert(((((x >> 56) & 0xff) as u8) as u64) << 56 | ((((x >> 48) & 0xff) as u8) as u64)
            << 48 | ((((x >> 40) & 0xff) as u8) as u64) << 40 | ((((x >> 32) & 0xff) as u8) as u64)
            << 32 | ((((x >> 24) & 0xff) as u8) as u64) << 24 | ((((x >> 16) & 0xff) as u8) as u64)
            << 16 | ((((x >> 8) & 0xff) as u8) as u64) << 8 | (((x & 0xff) as u8) as u64) == x)
            by (bit_vector);
    }
}

/// Append the four big-endian bytes of `x` to `dst`.
pub fn push_u32_be(dst: &mut Vec<u8>, x: u32)
    ensures
        final(dst)@ == old(dst)@ + spec_u32_to_be_bytes(x),
{
    dst.push(((x >> 24) & 0xff) as u8);
    dst.push(((x >> 16) & 0xff) as u8);
    dst.push(((x >> 8) & 0xff) as u8);
    dst.push((x & 0xff) as u8);
    proof {
        assert(dst@ =~= old(dst)@ + spec_u32_to_be_bytes(x));
    }
}

/// Append the eight big-endian bytes of `x` to `dst`.
pub fn push_u64_be(dst: &mut Vec<u8>, x: u64)
    ensures
        final(dst)@ == old(dst)@ + spec_u64_to_be_bytes(x),
{
    dst.push(((x >> 56) & 0xff) as u8);
    dst.push(((x >> 48) & 0xff) as u8);
    dst.push(((x >> 40) & 0xff) as u8);
    dst.push(((x >> 32) & 0xff) as u8);
    dst.push(((x >> 24) & 0xff) as u8);
    dst.push(((x >> 16) & 0xff) as u8);
    dst.push(((x >> 8) & 0xff) as u8);
    dst.push((x & 0xff) as u8);
    proof {
        assert(dst@ =~= old(dst)@ + spec_u64_to_be_bytes(x));
    }
}

/// Read four bytes of `s` starting at `offset` in network byte order.
pub fn read_u32_be(s: &[u8], offset: usize) -> (r: u32)
    requires
        offset + 4 <= s@.len(),
    ensures
        r == spec_u32_from_be_bytes(s@.subrange(offset as int, offset as int + 4)),
{
    let _n = s.len();
    let b0 = *vstd::slice::slice_index_get(s, offset);
    let b1 = *vstd::slice::slice_index_get(s, offset + 1);
    let b2 = *vstd::slice::slice_index_get(s, offset + 2);
    let b3 = *vstd::slice::slice_index_get(s, offset + 3);
    (b0 as u32) << 24 | (b1 as u32) << 16 | (b2 as u32) << 8 | (b3 as u32)
}

/// Read eight bytes of `s` starting at `offset` in network byte order.
pub fn read_u64_be(s: &[u8], offset: usize) -> (r: u64)
    requires
        offset + 8 <= s@.len(),
    ensures
        r == spec_u64_from_be_bytes(s@.subrange(offset as int, offset as int + 8)),
{
    let _n = s.len();
    let b0 = *vstd::slice::slice_index_get(s, offset);
    let b1 = *vstd::slice::slice_index_get(s, offset + 1);
    let b2 = *vstd::slice::slice_index_get(s, offset + 2);
    let b3 = *vstd::slice::slice_index_get(s, offset + 3);
    let b4 = *vstd::slice::slice_index_get(s, offset + 4);
    let b5 = *vstd::slice::slice_index_get(s, offset + 5);
    let b6 = *vstd::slice::slice_index_get(s, offset + 6);
    let b7 = *vstd::slice::slice_index_get(s, offset + 7);
    (b0 as u64) << 56 | (b1 as u64) << 48 | (b2 as u64) << 40 | (b3 as u64) << 32 | (b4 as u64)
        << 24 | (b5 as u64) << 16 | (b6 as u64) << 8 | (b7 as u64)
}

/// Append every byte of `src` to `dst`.
pub fn append_bytes(dst: &mut Vec<u8>, src: &[u8])
    ensures
        final(dst)@ == old(dst)@ + src@,
{
    let mut i: usize = 0;
    while i < src.len()
        invariant
            i <= src@.len(),
            dst@ == old(dst)@ + src@.subrange(0, i as int),
        decreases src@.len() - i,
    {
        let b = *vstd::slice::slice_index_get(src, i);
        dst.push(b);
        proof {
            assert(dst@ =~= old(dst)@ + src@.subrange(0, i as int + 1));
        }
        i = i + 1;
    }
    proof {
        assert(src@.subrange(0, src@.len() as int) =~= src@);
    }
}

} // verus!
