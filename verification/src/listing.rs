//! The cache listing: disk records shown newest first.

use vstd::prelude::*;
use crate::entry::CacheEntryMetadata;

verus! {

/// `output` is `input` rearranged by `perm` (output position to input
/// position) so that creation times never increase, entries with the same
/// creation time keeping their input order. This is the stable sort by
/// creation time, newest first.
pub open spec fn newest_first_arrangement(
    input: Seq<CacheEntryMetadata>,
    output: Seq<CacheEntryMetadata>,
    perm: Seq<int>,
) -> bool {
    &&& output.len() == input.len()
    &&& perm.len() == input.len()
    &&& forall|k: int| 0 <= k < perm.len() ==> 0 <= #[trigger] perm[k] < input.len() && output[k] == input[perm[k]]
    &&& forall|a: int, b: int| 0 <= a < perm.len() && 0 <= b < perm.len() && a != b ==> #[trigger] perm[a] != #[trigger] perm[b]
    &&& forall|a: int, b: int| 0 <= a < b < output.len() ==> #[trigger] output[a].created_at >= #[trigger] output[b].created_at
    &&& forall|a: int, b: int|
        0 <= a < b < output.len() && #[trigger] output[a].created_at == #[trigger] output[b].created_at ==> perm[a] < perm[b]
}

/// Orders listing rows newest first; rows with the same creation time keep
/// their relative order.
pub fn sort_newest_first(entries: Vec<CacheEntryMetadata>) -> (sorted: Vec<CacheEntryMetadata>)
    ensures
        exists|perm: Seq<int>| newest_first_arrangement(entries@, sorted@, perm),
{
    let ghost input = entries@;
    let n = entries.len();
    let mut rest = entries;
    let mut out: Vec<CacheEntryMetadata> = Vec::new();
    let ghost mut perm: Seq<int> = Seq::empty();
    while rest.len() > 0
        invariant
            n == input.len(),
            rest@ == input.take(rest@.len() as int),
            rest@.len() <= n,
            out@.len() == n - rest@.len(),
            perm.len() == out@.len(),
            forall|k: int| 0 <= k < perm.len() ==> rest@.len() <= #[trigger] perm[k] < n && out@[k] == input[perm[k]],
            forall|a: int, b: int| 0 <= a < perm.len() && 0 <= b < perm.len() && a != b ==> #[trigger] perm[a] != #[trigger] perm[b],
            forall|a: int, b: int| 0 <= a < b < out@.len() ==> #[trigger] out@[a].created_at >= #[trigger] out@[b].created_at,
            forall|a: int, b: int|
                0 <= a < b < out@.len() && #[trigger] out@[a].created_at == #[trigger] out@[b].created_at ==> perm[a] < perm[b],
        decreases rest@.len(),
    {
        let ghost j = rest@.len() - 1;
        let x = rest.pop().unwrap();
        assert(x == input[j]);
        assert(rest@ =~= input.take(j));
        let mut p: usize = 0;
        while p < out.len() && out[p].created_at > x.created_at
            invariant
                p <= out@.len(),
                forall|a: int| 0 <= a < p ==> #[trigger] out@[a].created_at > x.created_at,
            decreases out@.len() - p,
        {
            p = p + 1;
        }
        let ghost old_out = out@;
        let ghost old_perm = perm;
        out.insert(p, x);
        proof {
            perm = old_perm.insert(p as int, j);
            assert forall|k: int| 0 <= k < perm.len() implies rest@.len() <= #[trigger] perm[k] < n && out@[k] == input[perm[k]] by {
                if k < p {
                    assert(perm[k] == old_perm[k]);
                } else if k > p {
                    assert(perm[k] == old_perm[k - 1]);
                }
            }
            assert forall|a: int, b: int| 0 <= a < perm.len() && 0 <= b < perm.len() && a != b implies #[trigger] perm[a] != #[trigger] perm[b] by {
                let a2 = if a < p { a } else { a - 1 };
                let b2 = if b < p { b } else { b - 1 };
                if a != p && b != p {
                    assert(perm[a] == old_perm[a2]);
                    assert(perm[b] == old_perm[b2]);
                } else if a == p {
                    assert(perm[b] == old_perm[b2]);
                } else {
                    assert(perm[a] == old_perm[a2]);
                }
            }
            assert forall|a: int, b: int| 0 <= a < b < out@.len() implies #[trigger] out@[a].created_at >= #[trigger] out@[b].created_at by {
                if b < p {
                } else if a > p {
                    assert(out@[a] == old_out[a - 1]);
                    assert(out@[b] == old_out[b - 1]);
                } else if a == p {
                    assert(out@[b] == old_out[b - 1]);
                    if p < old_out.len() {
                        assert(old_out[p as int].created_at >= old_out[b - 1].created_at);
                    }
                } else if b == p {
                    assert(out@[a] == old_out[a]);
                } else {
                    assert(out@[a] == old_out[a]);
                    assert(out@[b] == old_out[b - 1]);
                }
            }
            assert forall|a: int, b: int|
                0 <= a < b < out@.len() && #[trigger] out@[a].created_at == #[trigger] out@[b].created_at implies perm[a] < perm[b] by {
                if b < p {
                    assert(perm[a] == old_perm[a]);
                    assert(perm[b] == old_perm[b]);
                } else if a > p {
                    assert(out@[a] == old_out[a - 1]);
                    assert(out@[b] == old_out[b - 1]);
                    assert(perm[a] == old_perm[a - 1]);
                    assert(perm[b] == old_perm[b - 1]);
                } else if a == p {
                    assert(perm[b] == old_perm[b - 1]);
                } else if b == p {
                    assert(out@[a] == old_out[a]);
                } else {
                    assert(out@[a] == old_out[a]);
                    assert(out@[b] == old_out[b - 1]);
                    assert(perm[a] == old_perm[a]);
                    assert(perm[b] == old_perm[b - 1]);
                }
            }
        }
    }
    assert(newest_first_arrangement(input, out@, perm));
    out
}

} // verus!
