//! SCALE byte-level encodings used by the inherent protocol.
//!
//! A freshness ceiling travels inside an inherent bundle as the SCALE encoding
//! of a `u32`, four little-endian bytes; the pallet's inherent error travels
//! as a variant byte followed by a compact-length-prefixed message. The
//! fixed-width half is done by parity-scale-codec behind trusted wrappers; the
//! compact length prefix is implemented and verified here against the same
//! wire format.

use vstd::prelude::*;
use vstd::slice::slice_index_get;

verus! {

/// Appends the bytes of `src` to `dst`.
pub fn push_bytes(dst: &mut Vec<u8>, src: &[u8])
    ensures
        final(dst)@ == old(dst)@ + src@,
{
    let n = src.len();
    let mut i: usize = 0;
    proof {
        assert(dst@ =~= old(dst)@ + src@.take(0));
    }
    while i < n
        invariant
            0 <= i <= n,
            n == src.len(),
            dst@ == old(dst)@ + src@.take(i as int),
        decreases n - i,
    {
        dst.push(*slice_index_get(src, i));
        proof {
            assert(dst@ =~= old(dst)@ + src@.take(i as int + 1));
        }
        i = i + 1;
    }
    proof {
        assert(old(dst)@ + src@.take(n as int) =~= old(dst)@ + src@);
    }
}

/// The SCALE encoding of a `u32`: its four bytes, least significant first.
pub open spec fn u32_le_bytes(v: u32) -> Seq<u8> {
    seq![
        (v & 0xff) as u8,
        ((v >> 8) & 0xff) as u8,
        ((v >> 16) & 0xff) as u8,
        ((v >> 24) & 0xff) as u8,
    ]
}

/// The `u32` read little-endian from the first four bytes of `s`.
pub open spec fn u32_from_le_bytes(s: Seq<u8>) -> u32
    recommends
        s.len() >= 4,
{
    (s[0] as u32) | ((s[1] as u32) << 8) | ((s[2] as u32) << 16) | ((s[3] as u32) << 24)
}

/// Relies on parity-scale-codec's `Encode` for `u32`: the SCALE encoding of a
/// fixed-width integer is its little-endian byte string.
#[verifier::external_body]
pub(crate) fn encode_u32(v: u32) -> (r: Vec<u8>)
    ensures
        r@ == u32_le_bytes(v),
{
    parity_scale_codec::Encode::encode(&v)
}

/// Relies on parity-scale-codec's `Decode` for `u32`: it reads four
/// little-endian bytes from the front of the input, failing when fewer remain
/// and ignoring whatever follows them.
#[verifier::external_body]
pub(crate) fn decode_u32(bytes: &[u8]) -> (r: Option<u32>)
    ensures
        bytes@.len() >= 4 ==> r == Some(u32_from_le_bytes(bytes@)),
        bytes@.len() < 4 ==> r is None,
{
    let mut input: &[u8] = bytes;
    <u32 as parity_scale_codec::Decode>::decode(&mut input).ok()
}

/// Reading back the four little-endian bytes of `v` gives `v` again.
pub proof fn lemma_u32_le_roundtrip(v: u32)
    ensures
        u32_from_le_bytes(u32_le_bytes(v)) == v,
{
    assert((((v & 0xff) as u8) as u32) | (((((v >> 8) & 0xff) as u8) as u32) << 8)
        | (((((v >> 16) & 0xff) as u8) as u32) << 16)
        | (((((v >> 24) & 0xff) as u8) as u32) << 24) == v) by (bit_vector);
}

/// The SCALE compact encoding of a `u32`: the two low bits of the first byte
/// select the width, the value sits in the remaining bits, little-endian.
pub open spec fn compact_u32_bytes(v: u32) -> Seq<u8> {
    if v <= 0x3f {
        seq![(v << 2) as u8]
    } else if v <= 0x3fff {
        seq![((v << 2) | 1) as u8, (v >> 6) as u8]
    } else if v <= 0x3fff_ffff {
        seq![((v << 2) | 2) as u8, (v >> 6) as u8, (v >> 14) as u8, (v >> 22) as u8]
    } else {
        seq![3u8] + u32_le_bytes(v)
    }
}

/// Reads one compact `u32` from the front of `s`: the decoded value and how
/// many bytes it took. Rejects truncated input and non-minimal encodings, as
/// the SCALE decoder does.
pub open spec fn compact_parse(s: Seq<u8>) -> Option<(u32, int)> {
    if s.len() == 0 {
        None
    } else {
        let p = s[0];
        if p % 4 == 0 {
            Some((((p / 4) as u32, 1)))
        } else if p % 4 == 1 {
            if s.len() >= 2 {
                let x = ((s[0] as u32) | ((s[1] as u32) << 8)) >> 2;
                if 0x3f < x && x <= 0x3fff {
                    Some(((x, 2)))
                } else {
                    None
                }
            } else {
                None
            }
        } else if p % 4 == 2 {
            if s.len() >= 4 {
                let x = u32_from_le_bytes(s) >> 2;
                if 0x3fff < x && x <= 0x3fff_ffff {
                    Some(((x, 4)))
                } else {
                    None
                }
            } else {
                None
            }
        } else {
            if p / 4 == 0 && s.len() >= 5 {
                let x = u32_from_le_bytes(s.drop_first());
                if x > 0x3fff_ffff {
                    Some(((x, 5)))
                } else {
                    None
                }
            } else {
                None
            }
        }
    }
}

/// Writes the compact encoding of `v`.
pub fn compact_encode_u32(v: u32) -> (r: Vec<u8>)
    ensures
        r@ == compact_u32_bytes(v),
{
    let mut out: Vec<u8> = Vec::new();
    if v <= 0x3f {
        out.push(#[verifier::truncate] ((v << 2) as u8));
        proof {
            assert(out@ =~= compact_u32_bytes(v));
        }
    } else if v <= 0x3fff {
        out.push(#[verifier::truncate] (((v << 2) | 1) as u8));
        out.push(#[verifier::truncate] ((v >> 6) as u8));
        proof {
            assert(out@ =~= compact_u32_bytes(v));
        }
    } else if v <= 0x3fff_ffff {
        out.push(#[verifier::truncate] (((v << 2) | 2) as u8));
        out.push(#[verifier::truncate] ((v >> 6) as u8));
        out.push(#[verifier::truncate] ((v >> 14) as u8));
        out.push(#[verifier::truncate] ((v >> 22) as u8));
        proof {
            assert(out@ =~= compact_u32_bytes(v));
        }
    } else {
        out.push(3u8);
        out.push(#[verifier::truncate] ((v & 0xff) as u8));
        out.push(#[verifier::truncate] (((v >> 8) & 0xff) as u8));
        out.push(#[verifier::truncate] (((v >> 16) & 0xff) as u8));
        out.push(#[verifier::truncate] (((v >> 24) & 0xff) as u8));
        proof {
            assert(out@ =~= compact_u32_bytes(v));
        }
    }
    out
}

/// Reads one compact `u32` from the front of `s`.
pub fn compact_decode_u32(s: &[u8]) -> (r: Option<(u32, usize)>)
    ensures
        compact_parse(s@) is Some ==> r is Some && r.unwrap().0 == compact_parse(s@).unwrap().0
            && r.unwrap().1 == compact_parse(s@).unwrap().1,
        compact_parse(s@) is None ==> r is None,
{
    if s.len() == 0 {
        return None;
    }
    let p = s[0];
    if p % 4 == 0 {
        Some(((p / 4) as u32, 1))
    } else if p % 4 == 1 {
        if s.len() >= 2 {
            let x = ((s[0] as u32) | ((s[1] as u32) << 8)) >> 2;
            if 0x3f < x && x <= 0x3fff {
                Some((x, 2))
            } else {
                None
            }
        } else {
            None
        }
    } else if p % 4 == 2 {
        if s.len() >= 4 {
            let x = ((s[0] as u32) | ((s[1] as u32) << 8) | ((s[2] as u32) << 16) | ((s[3]
                as u32) << 24)) >> 2;
            if 0x3fff < x && x <= 0x3fff_ffff {
                Some((x, 4))
            } else {
                None
            }
        } else {
            None
        }
    } else {
        if p / 4 == 0 && s.len() >= 5 {
            let x = (s[1] as u32) | ((s[2] as u32) << 8) | ((s[3] as u32) << 16) | ((s[4]
                as u32) << 24);
            proof {
                assert(s@.drop_first()[0] == s@[1]);
                assert(s@.drop_first()[1] == s@[2]);
                assert(s@.drop_first()[2] == s@[3]);
                assert(s@.drop_first()[3] == s@[4]);
            }
            if x > 0x3fff_ffff {
                Some((x, 5))
            } else {
                None
            }
        } else {
            None
        }
    }
}

/// Reading back the compact encoding of `v`, whatever follows it, gives `v`
/// and consumes exactly the encoding.
pub proof fn lemma_compact_u32_roundtrip(v: u32, rest: Seq<u8>)
    ensures
        compact_parse(compact_u32_bytes(v) + rest) == Some(((v, compact_u32_bytes(v).len() as int))),
{
    let s = compact_u32_bytes(v) + rest;
    if v <= 0x3f {
        let p = (v << 2) as u8;
        assert(s[0] == p);
        assert(p % 4 == 0 && (p / 4) as u32 == v) by (bit_vector)
            requires
                p == (v << 2) as u8 && v <= 0x3f,
        ;
    } else if v <= 0x3fff {
        let b0 = ((v << 2) | 1) as u8;
        let b1 = (v >> 6) as u8;
        assert(s[0] == b0 && s[1] == b1);
        assert(b0 % 4 == 1 && ((b0 as u32) | ((b1 as u32) << 8)) >> 2 == v) by (bit_vector)
            requires
                b0 == ((v << 2) | 1) as u8 && b1 == (v >> 6) as u8 && 0x3f < v && v <= 0x3fff,
        ;
    } else if v <= 0x3fff_ffff {
        let b0 = ((v << 2) | 2) as u8;
        let b1 = (v >> 6) as u8;
        let b2 = (v >> 14) as u8;
        let b3 = (v >> 22) as u8;
        assert(s[0] == b0 && s[1] == b1 && s[2] == b2 && s[3] == b3);
        assert(b0 % 4 == 2 && ((b0 as u32) | ((b1 as u32) << 8) | ((b2 as u32) << 16) | ((b3
            as u32) << 24)) >> 2 == v) by (bit_vector)
            requires
                b0 == ((v << 2) | 2) as u8 && b1 == (v >> 6) as u8 && b2 == (v >> 14) as u8 && b3
                    == (v >> 22) as u8 && 0x3fff < v && v <= 0x3fff_ffff,
        ;
    } else {
        assert(s[0] == 3u8);
        assert(s.drop_first() =~= u32_le_bytes(v) + rest);
        let t = u32_le_bytes(v) + rest;
        assert(t[0] == u32_le_bytes(v)[0] && t[1] == u32_le_bytes(v)[1] && t[2] == u32_le_bytes(
            v,
        )[2] && t[3] == u32_le_bytes(v)[3]);
        lemma_u32_le_roundtrip(v);
        assert(u32_from_le_bytes(t) == u32_from_le_bytes(u32_le_bytes(v)));
    }
}

} // verus!
