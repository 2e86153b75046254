//! Fixed-width big-endian byte codecs for the identifier wire formats.
//!
//! Partition keys travel as 8 big-endian bytes and invocation uuids as 16
//! big-endian bytes, so that byte-lexicographic order on the encoding matches
//! numeric order on the value.

use vstd::prelude::*;

verus! {

/// The 8 big-endian bytes of a 64-bit value, most significant first.
pub open spec fn u64_be_bytes(x: u64) -> Seq<u8> {
    seq![
        (x >> 56) as u8,
        (x >> 48) as u8,
        (x >> 40) as u8,
        (x >> 32) as u8,
        (x >> 24) as u8,
        (x >> 16) as u8,
        (x >> 8) as u8,
        x as u8,
    ]
}

/// The 64-bit value read from 8 big-endian bytes.
pub open spec fn u64_from_be(b: Seq<u8>) -> u64
    recommends
        b.len() == 8,
{
    ((b[0] as u64) << 56) | ((b[1] as u64) << 48) | ((b[2] as u64) << 40) | ((b[3] as u64) << 32)
        | ((b[4] as u64) << 24) | ((b[5] as u64) << 16) | ((b[6] as u64) << 8) | (b[7] as u64)
}

/// The 16 big-endian bytes of a 128-bit value, most significant first.
pub open spec fn u128_be_bytes(x: u128) -> Seq<u8> {
    seq![
        (x >> 120) as u8,
        (x >> 112) as u8,
        (x >> 104) as u8,
        (x >> 96) as u8,
        (x >> 88) as u8,
        (x >> 80) as u8,
        (x >> 72) as u8,
        (x >> 64) as u8,
        (x >> 56) as u8,
        (x >> 48) as u8,
        (x >> 40) as u8,
        (x >> 32) as u8,
        (x >> 24) as u8,
        (x >> 16) as u8,
        (x >> 8) as u8,
        x as u8,
    ]
}

/// The 128-bit value read from 16 big-endian bytes.
pub open spec fn u128_from_be(b: Seq<u8>) -> u128
    recommends
        b.len() == 16,
{
    ((b[0] as u128) << 120) | ((b[1] as u128) << 112) | ((b[2] as u128) << 104) | (
    (b[3] as u128) << 96) | ((b[4] as u128) << 88) | ((b[5] as u128) << 80) | (
    (b[6] as u128) << 72) | ((b[7] as u128) << 64) | ((b[8] as u128) << 56) | (
    (b[9] as u128) << 48) | ((b[10] as u128) << 40) | ((b[11] as u128) << 32) | (
    (b[12] as u128) << 24) | ((b[13] as u128) << 16) | ((b[14] as u128) << 8) | (b[15] as u128)
}

/// Reading back the big-endian encoding of a 64-bit value gives the value.
pub proof fn lemma_u64_be_roundtrip(x: u64)
    ensures
        u64_from_be(u64_be_bytes(x)) == x,
{
    assert((((x >> 56) as u8 as u64) << 56) | (((x >> 48) as u8 as u64) << 48) | (((x
        >> 40) as u8 as u64) << 40) | (((x >> 32) as u8 as u64) << 32) | (((x
        >> 24) as u8 as u64) << 24) | (((x >> 16) as u8 as u64) << 16) | (((x >> 8) as u8 as u64)
        << 8) | (x as u8 as u64) == x) by (bit_vector);
}

/// Encoding the value read from any 8 bytes gives back those bytes.
pub proof fn lemma_u64_be_bytes_of_from(b: Seq<u8>)
    requires
        b.len() == 8,
    ensures
        u64_be_bytes(u64_from_be(b)) == b,
{
    let b0 = b[0];
    let b1 = b[1];
    let b2 = b[2];
    let b3 = b[3];
    let b4 = b[4];
    let b5 = b[5];
    let b6 = b[6];
    let b7 = b[7];
    let x = u64_from_be(b);
    assert(x == ((b0 as u64) << 56) | ((b1 as u64) << 48) | ((b2 as u64) << 40) | ((b3 as u64)
        << 32) | ((b4 as u64) << 24) | ((b5 as u64) << 16) | ((b6 as u64) << 8) | (b7 as u64));
    assert({
        let x = ((b0 as u64) << 56) | ((b1 as u64) << 48) | ((b2 as u64) << 40) | ((b3 as u64)
            << 32) | ((b4 as u64) << 24) | ((b5 as u64) << 16) | ((b6 as u64) << 8) | (b7 as u64);
        (x >> 56) as u8 == b0 && (x >> 48) as u8 == b1 && (x >> 40) as u8 == b2 && (x
            >> 32) as u8 == b3 && (x >> 24) as u8 == b4 && (x >> 16) as u8 == b5 && (x
            >> 8) as u8 == b6 && x as u8 == b7
    }) by (bit_vector);
    assert(u64_be_bytes(x) =~= b);
}

/// Reading back the big-endian encoding of a 128-bit value gives the value.
pub proof fn lemma_u128_be_roundtrip(x: u128)
    ensures
        u128_from_be(u128_be_bytes(x)) == x,
{
    assert((((x >> 120) as u8 as u128) << 120) | (((x >> 112) as u8 as u128) << 112) | (((x
        >> 104) as u8 as u128) << 104) | (((x >> 96) as u8 as u128) << 96) | (((x
        >> 88) as u8 as u128) << 88) | (((x >> 80) as u8 as u128) << 80) | (((x
        >> 72) as u8 as u128) << 72) | (((x >> 64) as u8 as u128) << 64) | (((x
        >> 56) as u8 as u128) << 56) | (((x >> 48) as u8 as u128) << 48) | (((x
        >> 40) as u8 as u128) << 40) | (((x >> 32) as u8 as u128) << 32) | (((x
        >> 24) as u8 as u128) << 24) | (((x >> 16) as u8 as u128) << 16) | (((x
        >> 8) as u8 as u128) << 8) | (x as u8 as u128) == x) by (bit_vector);
}

/// Encoding the value read from any 16 bytes gives back those bytes.
pub proof fn lemma_u128_be_bytes_of_from(b: Seq<u8>)
    requires
        b.len() == 16,
    ensures
        u128_be_bytes(u128_from_be(b)) == b,
{
    let b0 = b[0];
    let b1 = b[1];
    let b2 = b[2];
    let b3 = b[3];
    let b4 = b[4];
    let b5 = b[5];
    let b6 = b[6];
    let b7 = b[7];
    let b8 = b[8];
    let b9 = b[9];
    let b10 = b[10];
    let b11 = b[11];
    let b12 = b[12];
    let b13 = b[13];
    let b14 = b[14];
    let b15 = b[15];
    let x = u128_from_be(b);
    assert(x == ((b0 as u128) << 120) | ((b1 as u128) << 112) | ((b2 as u128) << 104) | (
    (b3 as u128) << 96) | ((b4 as u128) << 88) | ((b5 as u128) << 80) | ((b6 as u128) << 72) | (
    (b7 as u128) << 64) | ((b8 as u128) << 56) | ((b9 as u128) << 48) | ((b10 as u128) << 40) | (
    (b11 as u128) << 32) | ((b12 as u128) << 24) | ((b13 as u128) << 16) | ((b14 as u128) << 8) | (
    b15 as u128));
    assert({
        let x = ((b0 as u128) << 120) | ((b1 as u128) << 112) | ((b2 as u128) << 104) | (
        (b3 as u128) << 96) | ((b4 as u128) << 88) | ((b5 as u128) << 80) | ((b6 as u128) << 72)
            | ((b7 as u128) << 64) | ((b8 as u128) << 56) | ((b9 as u128) << 48) | ((b10 as u128)
            << 40) | ((b11 as u128) << 32) | ((b12 as u128) << 24) | ((b13 as u128) << 16) | (
        (b14 as u128) << 8) | (b15 as u128);
        (x >> 120) as u8 == b0 && (x >> 112) as u8 == b1 && (x >> 104) as u8 == b2 && (x
            >> 96) as u8 == b3 && (x >> 88) as u8 == b4 && (x >> 80) as u8 == b5 && (x
            >> 72) as u8 == b6 && (x >> 64) as u8 == b7 && (x >> 56) as u8 == b8 && (x
            >> 48) as u8 == b9 && (x >> 40) as u8 == b10 && (x >> 32) as u8 == b11 && (x
            >> 24) as u8 == b12 && (x >> 16) as u8 == b13 && (x >> 8) as u8 == b14 && x as u8
            == b15
    }) by (bit_vector);
    assert(u128_be_bytes(x) =~= b);
}

/// A by-value copy of a byte vector.
pub fn copy_bytes(b: &Vec<u8>) -> (r: Vec<u8>)
    ensures
        r@ == b@,
{
    let mut out: Vec<u8> = Vec::new();
    let mut i: usize = 0;
    while i < b.len()
        invariant
            i <= b@.len(),
            out@ == b@.subrange(0, i as int),
        decreases b@.len() - i,
    {
        out.push(b[i]);
        i = i + 1;
        proof {
            assert(out@ =~= b@.subrange(0, i as int));
        }
    }
    proof {
        assert(out@ =~= b@);
    }
    out
}

/// Appends a byte slice to `out`.
pub fn append_bytes(out: &mut Vec<u8>, s: &[u8])
    ensures
        final(out)@ == old(out)@ + s@,
{
    let slen: usize = s.len();
    let mut i: usize = 0;
    proof {
        assert(out@ =~= old(out)@ + s@.subrange(0, 0));
    }
    while i < slen
        invariant
            i <= slen,
            slen == s@.len(),
            out@ == old(out)@ + s@.subrange(0, i as int),
        decreases slen - i,
    {
        out.push(*vstd::slice::slice_index_get(s, i));
        i = i + 1;
        proof {
            assert(out@ =~= old(out)@ + s@.subrange(0, i as int));
        }
    }
    proof {
        assert(out@ =~= old(out)@ + s@);
    }
}

/// Appends the 8 big-endian bytes of `x` to `out`.
pub fn push_u64_be(out: &mut Vec<u8>, x: u64)
    ensures
        final(out)@ == old(out)@ + u64_be_bytes(x),
{
    out.push((x >> 56) as u8);
    out.push((x >> 48) as u8);
    out.push((x >> 40) as u8);
    out.push((x >> 32) as u8);
    out.push((x >> 24) as u8);
    out.push((x >> 16) as u8);
    out.push((x >> 8) as u8);
    out.push(x as u8);
    proof {
        assert(out@ =~= old(out)@ + u64_be_bytes(x));
    }
}

/// Appends the 16 big-endian bytes of `x` to `out`.
pub fn push_u128_be(out: &mut Vec<u8>, x: u128)
    ensures
        final(out)@ == old(out)@ + u128_be_bytes(x),
{
    out.push((x >> 120) as u8);
    out.push((x >> 112) as u8);
    out.push((x >> 104) as u8);
    out.push((x >> 96) as u8);
    out.push((x >> 88) as u8);
    out.push((x >> 80) as u8);
    out.push((x >> 72) as u8);
    out.push((x >> 64) as u8);
    out.push((x >> 56) as u8);
    out.push((x >> 48) as u8);
    out.push((x >> 40) as u8);
    out.push((x >> 32) as u8);
    out.push((x >> 24) as u8);
    out.push((x >> 16) as u8);
    out.push((x >> 8) as u8);
    out.push(x as u8);
    proof {
        assert(out@ =~= old(out)@ + u128_be_bytes(x));
    }
}

/// Reads a 64-bit big-endian value from `b` starting at `at`.
pub fn read_u64_be(b: &[u8], at: usize) -> (r: u64)
    requires
        at + 8 <= b@.len(),
    ensures
        r == u64_from_be(b@.subrange(at as int, at + 8)),
{
    let blen: usize = b.len();
    let r = ((*vstd::slice::slice_index_get(b, at) as u64) << 56) | ((*vstd::slice::slice_index_get(
        b,
        at + 1,
    ) as u64) << 48) | ((*vstd::slice::slice_index_get(b, at + 2) as u64) << 40) | ((
    *vstd::slice::slice_index_get(b, at + 3) as u64) << 32) | ((*vstd::slice::slice_index_get(
        b,
        at + 4,
    ) as u64) << 24) | ((*vstd::slice::slice_index_get(b, at + 5) as u64) << 16) | ((
    *vstd::slice::slice_index_get(b, at + 6) as u64) << 8) | (*vstd::slice::slice_index_get(
        b,
        at + 7,
    ) as u64);
    proof {
        let s = b@.subrange(at as int, at + 8);
        assert(s[0] == b@[at as int] && s[1] == b@[at + 1] && s[2] == b@[at + 2] && s[3] == b@[at
            + 3] && s[4] == b@[at + 4] && s[5] == b@[at + 5] && s[6] == b@[at + 6] && s[7] == b@[at
            + 7]);
    }
    r
}

/// Reads a 128-bit big-endian value from `b` starting at `at`.
pub fn read_u128_be(b: &[u8], at: usize) -> (r: u128)
    requires
        at + 16 <= b@.len(),
    ensures
        r == u128_from_be(b@.subrange(at as int, at + 16)),
{
    let blen: usize = b.len();
    let r = ((*vstd::slice::slice_index_get(b, at) as u128) << 120) | ((
    *vstd::slice::slice_index_get(b, at + 1) as u128) << 112) | ((*vstd::slice::slice_index_get(
        b,
        at + 2,
    ) as u128) << 104) | ((*vstd::slice::slice_index_get(b, at + 3) as u128) << 96) | ((
    *vstd::slice::slice_index_get(b, at + 4) as u128) << 88) | ((*vstd::slice::slice_index_get(
        b,
        at + 5,
    ) as u128) << 80) | ((*vstd::slice::slice_index_get(b, at + 6) as u128) << 72) | ((
    *vstd::slice::slice_index_get(b, at + 7) as u128) << 64) | ((*vstd::slice::slice_index_get(
        b,
        at + 8,
    ) as u128) << 56) | ((*vstd::slice::slice_index_get(b, at + 9) as u128) << 48) | ((
    *vstd::slice::slice_index_get(b, at + 10) as u128) << 40) | ((*vstd::slice::slice_index_get(
        b,
        at + 11,
    ) as u128) << 32) | ((*vstd::slice::slice_index_get(b, at + 12) as u128) << 24) | ((
    *vstd::slice::slice_index_get(b, at + 13) as u128) << 16) | ((*vstd::slice::slice_index_get(
        b,
        at + 14,
    ) as u128) << 8) | (*vstd::slice::slice_index_get(b, at + 15) as u128);
    proof {
        let s = b@.subrange(at as int, at + 16);
        assert(s[0] == b@[at as int] && s[1] == b@[at + 1] && s[2] == b@[at + 2] && s[3] == b@[at
            + 3] && s[4] == b@[at + 4] && s[5] == b@[at + 5] && s[6] == b@[at + 6] && s[7] == b@[at
            + 7] && s[8] == b@[at + 8] && s[9] == b@[at + 9] && s[10] == b@[at + 10] && s[11]
            == b@[at + 11] && s[12] == b@[at + 12] && s[13] == b@[at + 13] && s[14] == b@[at + 14]
            && s[15] == b@[at + 15]);
    }
    r
}

} // verus!
