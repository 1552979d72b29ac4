//! LZJB decompression, verified against a mathematical model of the stream.
//!
//! An LZJB stream is a sequence of tokens.  Each 8-bit copymap byte governs
//! the next 8 tokens: a 0 bit emits one literal byte, a 1 bit emits a
//! back-reference packed as a 16-bit big-endian value whose high 6 bits are
//! `matchlen - 3` and whose low 10 bits are the back-distance.  Matches are
//! copied byte by byte, so a match region may overlap the write cursor.
//! Decoding writes into a caller-provided buffer and stops when the buffer
//! is full or the input is exhausted; a back-reference that predates the
//! start of the output is corrupt.

use vstd::prelude::*;
use crate::ZfsError;

verus! {

/// Copies `k` bytes one at a time from `dist` back of the cursor `d`,
/// stopping at the end of the buffer.  Byte-wise copying is what lets a
/// match overlap the region it is still writing.
pub open spec fn copy_back(out: Seq<u8>, d: int, dist: int, k: int) -> Seq<u8>
    decreases k,
{
    if k <= 0 || d >= out.len() {
        out
    } else {
        copy_back(out.update(d, out[d - dist]), d + 1, dist, k - 1)
    }
}

/// One step of the token stream: `src` is the remaining input, `out` the
/// whole output buffer, `d` the write cursor, `cm` the current copymap and
/// `ti` the index of the next token bit (8 forces a copymap reload).
/// `None` marks a corrupt back-reference.
pub open spec fn decode(src: Seq<u8>, out: Seq<u8>, d: int, cm: u8, ti: int) -> Option<Seq<u8>>
    decreases src.len(),
{
    if d >= out.len() || src.len() == 0 {
        Some(out)
    } else if ti >= 8 {
        decode(src.drop_first(), out, d, src[0], 0)
    } else if (cm >> (ti as u8)) & 1 == 0 {
        decode(src.drop_first(), out.update(d, src[0]), d + 1, cm, ti + 1)
    } else if src.len() < 2 {
        Some(out)
    } else {
        let mlen = (src[0] >> 2) + 3;
        let dist = (src[0] & 3) as int * 256 + src[1] as int;
        if dist > d {
            None
        } else {
            let nd = if d + mlen <= out.len() {
                d + mlen
            } else {
                out.len() as int
            };
            decode(src.skip(2), copy_back(out, d, dist, mlen as int), nd, cm, ti + 1)
        }
    }
}

/// Decompresses `src` into `dst`, overwriting it from the start; the length
/// of `dst` (the logical size of the block) is unchanged.
pub fn decompress(src: &[u8], dst: &mut Vec<u8>) -> (r: Result<(), ZfsError>)
    ensures
        match decode(src@, old(dst)@, 0, 0, 8) {
            Some(o) => r is Ok && final(dst)@ == o,
            None => r == Err::<(), ZfsError>(ZfsError::CorruptCompression),
        },
        final(dst)@.len() == old(dst)@.len(),
{
    let n: usize = src.len();
    let dlen: usize = dst.len();
    let mut si: usize = 0;
    let mut d: usize = 0;
    let mut cm: u8 = 0;
    let mut ti: u8 = 8;
    proof {
        assert(src@.skip(0) =~= src@);
    }
    while si < n && d < dlen
        invariant
            si <= n,
            d <= dlen,
            ti <= 8,
            n == src@.len(),
            dlen == dst@.len(),
            dst@.len() == old(dst)@.len(),
            decode(src@.skip(si as int), dst@, d as int, cm, ti as int) == decode(
                src@,
                old(dst)@,
                0,
                0,
                8,
            ),
        decreases n - si,
    {
        if ti == 8 {
            cm = *vstd::slice::slice_index_get(src, si);
            proof {
                assert(src@.skip(si as int)[0] == src@[si as int]);
                assert(src@.skip(si as int).drop_first() =~= src@.skip(si as int + 1));
            }
            si = si + 1;
            ti = 0;
        } else if (cm >> ti) & 1 == 0 {
            let b = *vstd::slice::slice_index_get(src, si);
            proof {
                assert(src@.skip(si as int)[0] == src@[si as int]);
                assert(src@.skip(si as int).drop_first() =~= src@.skip(si as int + 1));
            }
            dst[d] = b;
            si = si + 1;
            d = d + 1;
            ti = ti + 1;
        } else if si + 1 >= n {
            // A match token needs two bytes; the input ends here.
            proof {
                assert(src@.skip(si as int).len() == 1);
                assert(decode(src@.skip(si as int), dst@, d as int, cm, ti as int) == Some(dst@));
                assert(decode(src@.skip(n as int), dst@, d as int, cm, ti as int) == Some(dst@));
            }
            si = n;
        } else {
            let b0 = *vstd::slice::slice_index_get(src, si);
            let b1 = *vstd::slice::slice_index_get(src, si + 1);
            proof {
                assert(b0 >> 2 < 64) by (bit_vector);
            }
            let mlen: u8 = (b0 >> 2) + 3;
            let dist: usize = ((b0 & 3) as usize) * 256 + (b1 as usize);
            proof {
                assert(src@.skip(si as int)[0] == src@[si as int]);
                assert(src@.skip(si as int)[1] == src@[si as int + 1]);
                assert(src@.skip(si as int).skip(2) =~= src@.skip(si as int + 2));
            }
            if dist > d {
                return Err(ZfsError::CorruptCompression);
            }
            let ghost snap = dst@;
            let ghost d0 = d as int;
            let mut k: u8 = 0;
            while k < mlen && d < dlen
                invariant
                    k <= mlen,
                    d == d0 + k,
                    d <= dlen,
                    dist <= d0,
                    dlen == dst@.len(),
                    dst@.len() == old(dst)@.len(),
                    snap.len() == dlen,
                    copy_back(snap, d0, dist as int, mlen as int) == copy_back(
                        dst@,
                        d as int,
                        dist as int,
                        (mlen - k) as int,
                    ),
                decreases mlen - k,
            {
                let v = dst[d - dist];
                dst[d] = v;
                d = d + 1;
                k = k + 1;
            }
            proof {
                assert(copy_back(dst@, d as int, dist as int, (mlen - k) as int) == dst@);
                assert(dst@ == copy_back(snap, d0, dist as int, mlen as int));
                assert(d as int == if d0 + mlen <= dlen as int {
                    d0 + mlen
                } else {
                    dlen as int
                });
            }
            si = si + 2;
            ti = ti + 1;
        }
    }
    proof {
        if d >= dlen {
            assert(decode(src@.skip(si as int), dst@, d as int, cm, ti as int) == Some(dst@));
        } else {
            assert(src@.skip(si as int).len() == 0);
            assert(decode(src@.skip(si as int), dst@, d as int, cm, ti as int) == Some(dst@));
        }
    }
    Ok(())
}

/// `out` with `s` written over the bytes starting at `d`.
pub open spec fn overwrite(out: Seq<u8>, d: int, s: Seq<u8>) -> Seq<u8> {
    out.take(d) + s + out.skip(d + s.len())
}

/// The all-literal LZJB encoding of `s`: each group of up to eight bytes is
/// preceded by a zero copymap byte.
pub open spec fn lit_enc(s: Seq<u8>) -> Seq<u8>
    decreases s.len(),
{
    if s.len() == 0 {
        Seq::empty()
    } else if s.len() >= 8 {
        seq![0u8] + s.take(8) + lit_enc(s.skip(8))
    } else {
        seq![0u8] + s
    }
}

/// Under a zero copymap, decoding runs through `g` as plain literals.
proof fn lemma_decode_literals(g: Seq<u8>, tail: Seq<u8>, out: Seq<u8>, d: int, ti: int)
    requires
        0 <= ti,
        0 <= d,
        g.len() <= 8 - ti,
        d + g.len() <= out.len(),
    ensures
        decode(g + tail, out, d, 0u8, ti) == decode(
            tail,
            overwrite(out, d, g),
            d + g.len(),
            0u8,
            ti + g.len(),
        ),
    decreases g.len(),
{
    if g.len() == 0 {
        assert(g + tail =~= tail);
        assert(overwrite(out, d, g) =~= out);
    } else {
        let t = ti as u8;
        assert((0u8 >> t) & 1 == 0) by (bit_vector);
        assert((g + tail)[0] == g[0]);
        assert((g + tail).drop_first() =~= g.drop_first() + tail);
        lemma_decode_literals(g.drop_first(), tail, out.update(d, g[0]), d + 1, ti + 1);
        assert(overwrite(out.update(d, g[0]), d + 1, g.drop_first()) =~= overwrite(out, d, g));
    }
}

/// Decoding the all-literal encoding of `s` into a buffer with exactly
/// enough room after `d` writes `s` there and succeeds; anything that
/// trails the encoding in the input is never reached, because the
/// buffer is full by then.
proof fn lemma_decode_lit_enc(s: Seq<u8>, extra: Seq<u8>, out: Seq<u8>, d: int)
    requires
        0 <= d,
        out.len() == d + s.len(),
    ensures
        decode(lit_enc(s) + extra, out, d, 0u8, 8) == Some(out.take(d) + s),
    decreases s.len(),
{
    if s.len() == 0 {
        assert(lit_enc(s) + extra =~= extra);
        assert(out.take(d) + s =~= out);
    } else {
        let m: int = if s.len() >= 8 {
            8
        } else {
            s.len() as int
        };
        let g = s.take(m);
        let rest = s.skip(m);
        let tail = lit_enc(rest) + extra;
        assert(lit_enc(s) == seq![0u8] + g + lit_enc(rest));
        assert((lit_enc(s) + extra)[0] == 0u8);
        assert((lit_enc(s) + extra).drop_first() =~= g + tail);
        lemma_decode_literals(g, tail, out, d, 0);
        let out2 = overwrite(out, d, g);
        if rest.len() == 0 {
            assert(lit_enc(rest) == Seq::<u8>::empty());
            assert(tail =~= extra);
            assert(decode(tail, out2, d + m, 0u8, m) == Some(out2));
            assert(out2 =~= out.take(d) + s);
        } else {
            assert(m == 8);
            lemma_decode_lit_enc(rest, extra, out2, d + m);
            assert(out2.take(d + m) + rest =~= out.take(d) + s);
        }
    }
}

/// Decompressing the output of [`compress`] over any buffer of the
/// input's length reproduces the input exactly, whatever bytes trail
/// the stream inside its allocated sectors.
pub proof fn lemma_compress_round_trip(src: Seq<u8>, extra: Seq<u8>, buf: Seq<u8>)
    requires
        buf.len() == src.len(),
    ensures
        decode(lit_enc(src) + extra, buf, 0, 0u8, 8) == Some(src),
{
    lemma_decode_lit_enc(src, extra, buf, 0);
    assert(buf.take(0) + src =~= src);
}

/// Compresses `src` as a valid LZJB stream of plain literals.  Together
/// with [`lemma_compress_round_trip`] this guarantees that [`decompress`]
/// applied to the result restores `src` byte for byte.
pub fn compress(src: &[u8]) -> (out: Vec<u8>)
    ensures
        out@ == lit_enc(src@),
{
    let n: usize = src.len();
    let mut out: Vec<u8> = Vec::new();
    let mut i: usize = 0;
    proof {
        assert(src@.skip(0) =~= src@);
    }
    while i < n
        invariant
            i <= n,
            n == src@.len(),
            lit_enc(src@) == out@ + lit_enc(src@.skip(i as int)),
        decreases n - i,
    {
        let m: usize = if n - i >= 8 {
            8
        } else {
            n - i
        };
        let ghost rem = src@.skip(i as int);
        let ghost pre = out@;
        out.push(0u8);
        let mut k: usize = 0;
        while k < m
            invariant
                k <= m,
                i + m <= n,
                n == src@.len(),
                out@ == pre + seq![0u8] + src@.subrange(i as int, i + k),
            decreases m - k,
        {
            let b = *vstd::slice::slice_index_get(src, i + k);
            out.push(b);
            proof {
                assert(src@.subrange(i as int, i + k as int + 1) =~= src@.subrange(
                    i as int,
                    i + k as int,
                ).push(b));
            }
            k = k + 1;
        }
        proof {
            let s = src@;
            let ii = i as int;
            let mm = m as int;
            assert(rem.take(mm) =~= s.subrange(ii, ii + mm));
            assert(rem.skip(mm) =~= s.skip(ii + mm));
            if rem.len() >= 8 {
                assert(lit_enc(rem) == seq![0u8] + rem.take(8) + lit_enc(rem.skip(8)));
            } else {
                assert(lit_enc(rem) == seq![0u8] + rem);
                assert(rem =~= rem.take(mm));
                assert(lit_enc(rem.skip(mm)) == Seq::<u8>::empty());
            }
            assert(lit_enc(rem) =~= seq![0u8] + s.subrange(ii, ii + mm) + lit_enc(s.skip(ii + mm)));
        }
        i = i + m;
    }
    proof {
        assert(lit_enc(src@.skip(i as int)) == Seq::<u8>::empty());
        assert(out@ + Seq::<u8>::empty() =~= out@);
    }
    out
}

} // verus!
