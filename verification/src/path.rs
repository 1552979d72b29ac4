//! Path normalisation: leading and trailing slashes are trimmed, the
//! rest splits on `/`.  The empty trimmed path means the root directory
//! and yields no segments; consecutive slashes yield empty segments,
//! which no directory entry can match.

use vstd::prelude::*;
use vstd::slice::{slice_index_get, slice_subrange, slice_to_vec};

verus! {

/// `s` without its leading `/` bytes.
pub open spec fn trim_start(s: Seq<u8>) -> Seq<u8>
    decreases s.len(),
{
    if s.len() > 0 && s[0] == 0x2Fu8 {
        trim_start(s.drop_first())
    } else {
        s
    }
}

/// `s` without its trailing `/` bytes.
pub open spec fn trim_end(s: Seq<u8>) -> Seq<u8>
    decreases s.len(),
{
    if s.len() > 0 && s.last() == 0x2Fu8 {
        trim_end(s.drop_last())
    } else {
        s
    }
}

/// The index of the first `/` in `s`, or `s.len()` when there is none.
pub open spec fn first_slash(s: Seq<u8>) -> int
    decreases s.len(),
{
    if s.len() == 0 {
        0
    } else if s[0] == 0x2Fu8 {
        0
    } else {
        1 + first_slash(s.drop_first())
    }
}

/// `s` split on `/`; the split of a slash-free sequence is that one
/// sequence, so the split of the empty sequence is one empty segment.
pub open spec fn split_slash(s: Seq<u8>) -> Seq<Seq<u8>>
    decreases s.len(),
{
    let k = first_slash(s);
    if 0 <= k < s.len() {
        seq![s.take(k)] + split_slash(s.skip(k + 1))
    } else {
        seq![s]
    }
}

/// The segments of a path: trim both ends, then split; the empty trimmed
/// path has no segments.
pub open spec fn spec_segments(path: Seq<u8>) -> Seq<Seq<u8>> {
    let t = trim_end(trim_start(path));
    if t.len() == 0 {
        Seq::empty()
    } else {
        split_slash(t)
    }
}

/// Scanning to the first slash computes `first_slash`.
pub proof fn lemma_first_slash(s: Seq<u8>, k: int)
    requires
        0 <= k <= s.len(),
        forall|j: int| 0 <= j < k ==> s[j] != 0x2Fu8,
        k < s.len() ==> s[k] == 0x2Fu8,
    ensures
        first_slash(s) == k,
    decreases s.len(),
{
    if s.len() != 0 && s[0] != 0x2Fu8 {
        lemma_first_slash(s.drop_first(), k - 1);
    }
}

/// Skipping the counted leading slashes computes `trim_start`.
pub proof fn lemma_trim_start(s: Seq<u8>, a: int)
    requires
        0 <= a <= s.len(),
        forall|j: int| 0 <= j < a ==> s[j] == 0x2Fu8,
        a < s.len() ==> s[a] != 0x2Fu8,
    ensures
        trim_start(s) == s.skip(a),
    decreases s.len(),
{
    if a == 0 {
        assert(s.skip(0) =~= s);
    } else {
        lemma_trim_start(s.drop_first(), a - 1);
        assert(s.drop_first().skip(a - 1) =~= s.skip(a));
    }
}

/// Taking up to the counted trailing slashes computes `trim_end`.
pub proof fn lemma_trim_end(s: Seq<u8>, b: int)
    requires
        0 <= b <= s.len(),
        forall|j: int| b <= j < s.len() ==> s[j] == 0x2Fu8,
        b > 0 ==> s[b - 1] != 0x2Fu8,
    ensures
        trim_end(s) == s.take(b),
    decreases s.len(),
{
    if b == s.len() {
        assert(s.take(b) =~= s);
        if s.len() > 0 && s.last() == 0x2Fu8 {
            assert(s[b - 1] != 0x2Fu8);
        }
    } else {
        lemma_trim_end(s.drop_last(), b);
        assert(s.drop_last().take(b) =~= s.take(b));
    }
}

/// Splits `path` into its segments.
pub fn split_path(path: &[u8]) -> (r: Vec<Vec<u8>>)
    ensures
        r@.map_values(|v: Vec<u8>| v@) == spec_segments(path@),
{
    let n: usize = path.len();
    let mut a: usize = 0;
    while a < n && *slice_index_get(path, a) == 0x2Fu8
        invariant
            a <= n,
            n == path@.len(),
            forall|j: int| 0 <= j < a ==> path@[j] == 0x2Fu8,
        decreases n - a,
    {
        a = a + 1;
    }
    let mut b: usize = n;
    while b > a && *slice_index_get(path, b - 1) == 0x2Fu8
        invariant
            a <= b <= n,
            n == path@.len(),
            forall|j: int| 0 <= j < a ==> path@[j] == 0x2Fu8,
            forall|j: int| b <= j < n ==> path@[j] == 0x2Fu8,
        decreases b,
    {
        b = b - 1;
    }
    let t = slice_subrange(path, a, b);
    let tlen: usize = b - a;
    let ghost ts = path@.subrange(a as int, b as int);
    proof {
        lemma_trim_start(path@, a as int);
        assert(path@.skip(a as int) =~= ts + path@.subrange(b as int, n as int));
        let s1 = path@.skip(a as int);
        lemma_trim_end(s1, b - a);
        assert(s1.take(b - a) =~= ts);
        assert(trim_end(trim_start(path@)) == ts);
    }
    let mut out: Vec<Vec<u8>> = Vec::new();
    if tlen == 0 {
        proof {
            assert(out@.map_values(|v: Vec<u8>| v@) =~= Seq::<Seq<u8>>::empty());
        }
        return out;
    }
    let mut cur: usize = 0;
    proof {
        assert(ts.skip(0) =~= ts);
        assert(out@.map_values(|v: Vec<u8>| v@) =~= Seq::<Seq<u8>>::empty());
    }
    while cur <= tlen
        invariant
            cur <= tlen,
            tlen == ts.len(),
            tlen > 0,
            t@ == ts,
            spec_segments(path@) == split_slash(ts),
            split_slash(ts) == out@.map_values(|v: Vec<u8>| v@) + split_slash(
                ts.skip(cur as int),
            ),
        decreases tlen + 1 - cur,
    {
        let mut k: usize = cur;
        while k < tlen && *slice_index_get(t, k) != 0x2Fu8
            invariant
                cur <= k <= tlen,
                tlen == ts.len(),
                t@ == ts,
                forall|j: int| cur <= j < k ==> ts[j] != 0x2Fu8,
            decreases tlen - k,
        {
            k = k + 1;
        }
        let seg = slice_to_vec(slice_subrange(t, cur, k));
        proof {
            let rem = ts.skip(cur as int);
            lemma_first_slash(rem, k - cur);
            assert(rem.take(k - cur) =~= ts.subrange(cur as int, k as int));
            if k < tlen {
                assert(rem.skip(k - cur + 1) =~= ts.skip(k as int + 1));
            }
        }
        out.push(seg);
        proof {
            let m = out@.map_values(|v: Vec<u8>| v@);
            assert(m =~= out@.drop_last().map_values(|v: Vec<u8>| v@) + seq![out@.last()@]);
            assert(out@.drop_last() =~= out@.subrange(0, out@.len() - 1));
        }
        if k == tlen {
            proof {
                let rem = ts.skip(cur as int);
                assert(split_slash(rem) == seq![rem]);
                assert(out@.last()@ =~= rem);
                assert(out@.map_values(|v: Vec<u8>| v@) =~= split_slash(ts));
            }
            return out;
        }
        cur = k + 1;
    }
    out
}

} // verus!
