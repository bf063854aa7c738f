//! The canonical binary encoding.
//!
//! Every value on the wire is composed field by field from fixed-width
//! big-endian integers and raw byte runs, with an explicit fixed-width
//! length prefix wherever a collection's size is not implied.  Public
//! encodings must match a remote verifier byte for byte, so each writer has
//! an exact specification and each reader is proved to invert it.

use vstd::prelude::*;

verus! {

/// The big-endian bytes of a `u64`.
pub open spec fn ser_u64(x: u64) -> Seq<u8> {
    seq![
        (x >> 56) as u8,
        (x >> 48) as u8,
        (x >> 40) as u8,
        (x >> 32) as u8,
        (x >> 24) as u8,
        (x >> 16) as u8,
        (x >> 8) as u8,
        x as u8,
    ]
}

/// The `u64` read back from eight big-endian bytes.
pub open spec fn parse_u64(s: Seq<u8>) -> u64
    recommends
        s.len() == 8,
{
    (((s[0] as u64) << 56) | ((s[1] as u64) << 48) | ((s[2] as u64) << 40) | ((s[3] as u64) << 32)
        | ((s[4] as u64) << 24) | ((s[5] as u64) << 16) | ((s[6] as u64) << 8) | (s[7] as u64))
}

/// The big-endian bytes of a `u32`.
pub open spec fn ser_u32(x: u32) -> Seq<u8> {
    seq![(x >> 24) as u8, (x >> 16) as u8, (x >> 8) as u8, x as u8]
}

/// The `u32` read back from four big-endian bytes.
pub open spec fn parse_u32(s: Seq<u8>) -> u32
    recommends
        s.len() == 4,
{
    (((s[0] as u32) << 24) | ((s[1] as u32) << 16) | ((s[2] as u32) << 8) | (s[3] as u32))
}

/// Reading back the bytes of a `u64` yields the value written.
pub proof fn lemma_u64_round_trip(x: u64)
    ensures
        parse_u64(ser_u64(x)) == x,
{
    assert((((((x >> 56) as u8) as u64) << 56) | ((((x >> 48) as u8) as u64) << 48) | ((((x >> 40)
        as u8) as u64) << 40) | ((((x >> 32) as u8) as u64) << 32) | ((((x >> 24) as u8) as u64)
        << 24) | ((((x >> 16) as u8) as u64) << 16) | ((((x >> 8) as u8) as u64) << 8) | ((
    x as u8) as u64)) == x) by (bit_vector);
}

/// Reading back the bytes of a `u32` yields the value written.
pub proof fn lemma_u32_round_trip(x: u32)
    ensures
        parse_u32(ser_u32(x)) == x,
{
    assert((((((x >> 24) as u8) as u32) << 24) | ((((x >> 16) as u8) as u32) << 16) | ((((x >> 8)
        as u8) as u32) << 8) | ((x as u8) as u32)) == x) by (bit_vector);
}

/// Append one byte.
pub fn put_u8(out: &mut Vec<u8>, x: u8)
    ensures
        final(out)@ == old(out)@ + seq![x],
{
    out.push(x);
}

/// Append a `u32` in big-endian order.
pub fn put_u32(out: &mut Vec<u8>, x: u32)
    ensures
        final(out)@ == old(out)@ + ser_u32(x),
{
    out.push((x >> 24) as u8);
    out.push((x >> 16) as u8);
    out.push((x >> 8) as u8);
    out.push(x as u8);
    proof {
        assert(final(out)@ =~= old(out)@ + ser_u32(x));
    }
}

/// Append a `u64` in big-endian order.
pub fn put_u64(out: &mut Vec<u8>, x: u64)
    ensures
        final(out)@ == old(out)@ + ser_u64(x),
{
    out.push((x >> 56) as u8);
    out.push((x >> 48) as u8);
    out.push((x >> 40) as u8);
    out.push((x >> 32) as u8);
    out.push((x >> 24) as u8);
    out.push((x >> 16) as u8);
    out.push((x >> 8) as u8);
    out.push(x as u8);
    proof {
        assert(final(out)@ =~= old(out)@ + ser_u64(x));
    }
}

/// Append a raw byte run, without a length prefix.
pub fn put_bytes(out: &mut Vec<u8>, bytes: &Vec<u8>)
    ensures
        final(out)@ == old(out)@ + bytes@,
{
    let mut i: usize = 0;
    while i < bytes.len()
        invariant
            i <= bytes.len(),
            out@ == old(out)@ + bytes@.subrange(0, i as int),
        decreases bytes.len() - i,
    {
        out.push(bytes[i]);
        proof {
            assert(out@ =~= old(out)@ + bytes@.subrange(0, i + 1));
        }
        i = i + 1;
    }
    proof {
        assert(bytes@.subrange(0, bytes@.len() as int) =~= bytes@);
    }
}

/// Append a byte run behind an explicit four-byte length prefix.
pub fn put_bytes_with_length(out: &mut Vec<u8>, bytes: &Vec<u8>)
    requires
        bytes@.len() <= u32::MAX,
    ensures
        final(out)@ == old(out)@ + ser_u32(bytes@.len() as u32) + bytes@,
{
    let len: u32 = bytes.len() as u32;
    put_u32(out, len);
    put_bytes(out, bytes);
}

/// Read one byte.
pub fn read_u8(b: &Vec<u8>, pos: usize) -> (r: Option<(u8, usize)>)
    ensures
        pos + 1 <= b@.len() ==> r == Some((b@[pos as int], (pos + 1) as usize)),
        pos + 1 > b@.len() ==> r is None,
{
    if pos < b.len() {
        Some((b[pos], pos + 1))
    } else {
        None
    }
}

/// Read a big-endian `u32`.
pub fn read_u32(b: &Vec<u8>, pos: usize) -> (r: Option<(u32, usize)>)
    ensures
        pos + 4 <= b@.len() ==> r == Some(
            (parse_u32(b@.subrange(pos as int, pos + 4)), (pos + 4) as usize),
        ),
        pos + 4 > b@.len() ==> r is None,
{
    if pos < b.len() && b.len() - pos >= 4 {
        let v: u32 = ((b[pos] as u32) << 24) | ((b[pos + 1] as u32) << 16) | ((b[pos + 2] as u32)
            << 8) | (b[pos + 3] as u32);
        proof {
            let s = b@.subrange(pos as int, pos + 4);
            assert(s[0] == b@[pos as int]);
            assert(s[1] == b@[pos + 1]);
            assert(s[2] == b@[pos + 2]);
            assert(s[3] == b@[pos + 3]);
        }
        Some((v, pos + 4))
    } else {
        None
    }
}

/// Read a big-endian `u64`.
pub fn read_u64(b: &Vec<u8>, pos: usize) -> (r: Option<(u64, usize)>)
    ensures
        pos + 8 <= b@.len() ==> r == Some(
            (parse_u64(b@.subrange(pos as int, pos + 8)), (pos + 8) as usize),
        ),
        pos + 8 > b@.len() ==> r is None,
{
    if pos < b.len() && b.len() - pos >= 8 {
        let v: u64 = ((b[pos] as u64) << 56) | ((b[pos + 1] as u64) << 48) | ((b[pos + 2] as u64)
            << 40) | ((b[pos + 3] as u64) << 32) | ((b[pos + 4] as u64) << 24) | ((b[pos
            + 5] as u64) << 16) | ((b[pos + 6] as u64) << 8) | (b[pos + 7] as u64);
        proof {
            let s = b@.subrange(pos as int, pos + 8);
            assert(s[0] == b@[pos as int]);
            assert(s[1] == b@[pos + 1]);
            assert(s[2] == b@[pos + 2]);
            assert(s[3] == b@[pos + 3]);
            assert(s[4] == b@[pos + 4]);
            assert(s[5] == b@[pos + 5]);
            assert(s[6] == b@[pos + 6]);
            assert(s[7] == b@[pos + 7]);
        }
        Some((v, pos + 8))
    } else {
        None
    }
}

/// Read a fixed-width byte run.
pub fn read_bytes(b: &Vec<u8>, pos: usize, n: usize) -> (r: Option<(Vec<u8>, usize)>)
    ensures
        pos + n <= b@.len() ==> (r matches Some(p) && p.0@ == b@.subrange(pos as int, pos + n)
            && p.1 == pos + n),
        pos + n > b@.len() ==> r is None,
{
    if n <= b.len() && pos <= b.len() - n {
        let mut outv: Vec<u8> = Vec::new();
        let mut i: usize = 0;
        while i < n
            invariant
                pos + n <= b@.len(),
                pos + n <= usize::MAX,
                i <= n,
                outv@ == b@.subrange(pos as int, pos + i),
            decreases n - i,
        {
            outv.push(b[pos + i]);
            proof {
                assert(outv@ =~= b@.subrange(pos as int, pos + i + 1));
            }
            i = i + 1;
        }
        Some((outv, pos + n))
    } else {
        None
    }
}

} // verus!
