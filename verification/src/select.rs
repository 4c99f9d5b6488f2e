//! The primary-overlap selector: an alternative deduplication strategy, not
//! wired into the default parsing pipeline. Overlaps are grouped by
//! unordered read pair; in each group only the overlap with the greatest
//! target aligned span is kept, ties resolved in favour of the last one.

use vstd::prelude::*;

use crate::overlap::Overlap;

verus! {

/// Whether two overlaps concern the same unordered read pair.
pub open spec fn same_unordered_pair(a: Overlap, b: Overlap) -> bool {
    (a.qid == b.qid && a.tid == b.tid) || (a.qid == b.tid && a.tid == b.qid)
}

/// Whether the overlap at `i` outranks the one at `l` for primary
/// selection: either they concern different pairs, or `i`'s target span is
/// greater, or the spans tie and `i` stands no earlier.
pub open spec fn outranks(s: Seq<Overlap>, i: int, l: int) -> bool {
    same_unordered_pair(s[i], s[l]) ==> {
        ||| s[l].spec_target_overlap_length() < s[i].spec_target_overlap_length()
        ||| (s[l].spec_target_overlap_length() == s[i].spec_target_overlap_length() && l <= i)
    }
}

/// Whether the overlap at `i` is its group's primary: the last one of
/// maximal target span among all overlaps of the same unordered read pair.
pub open spec fn is_primary(s: Seq<Overlap>, i: int) -> bool {
    0 <= i < s.len() && forall|l: int| 0 <= l < s.len() ==> #[trigger] outranks(s, i, l)
}

/// Select the primary overlaps: the indices, in increasing order, of the
/// overlaps that survive primary selection.
pub fn find_primary_overlaps(overlaps: &Vec<Overlap>) -> (kept: Vec<usize>)
    requires
        forall|i: int|
            0 <= i < overlaps@.len() ==> (#[trigger] overlaps@[i]).tstart <= overlaps@[i].tend,
    ensures
        forall|k: int| 0 <= k < kept@.len() ==> is_primary(overlaps@, #[trigger] kept@[k] as int),
        forall|i: int| 0 <= i < overlaps@.len() && is_primary(overlaps@, i) ==> kept@.contains(
            i as usize,
        ),
        forall|k1: int, k2: int| 0 <= k1 < k2 < kept@.len() ==> kept@[k1] < kept@[k2],
{
    let mut kept: Vec<usize> = Vec::new();
    let n = overlaps.len();
    for i in 0..n
        invariant
            n == overlaps@.len(),
            forall|l: int|
                0 <= l < overlaps@.len() ==> (#[trigger] overlaps@[l]).tstart <= overlaps@[l].tend,
            forall|k: int|
                0 <= k < kept@.len() ==> is_primary(overlaps@, #[trigger] kept@[k] as int),
            forall|ii: int| 0 <= ii < i && is_primary(overlaps@, ii) ==> kept@.contains(
                ii as usize,
            ),
            forall|k: int| 0 <= k < kept@.len() ==> #[trigger] kept@[k] < i,
            forall|k1: int, k2: int| 0 <= k1 < k2 < kept@.len() ==> kept@[k1] < kept@[k2],
    {
        let si = overlaps[i].target_overlap_length();
        let mut primary = true;
        for j in 0..n
            invariant
                n == overlaps@.len(),
                0 <= i < n,
                si == overlaps@[i as int].spec_target_overlap_length(),
                forall|l: int|
                    0 <= l < overlaps@.len() ==> (#[trigger] overlaps@[l]).tstart
                        <= overlaps@[l].tend,
                primary == forall|l: int| 0 <= l < j ==> #[trigger] outranks(
                    overlaps@,
                    i as int,
                    l,
                ),
        {
            let oi = &overlaps[i];
            let oj = &overlaps[j];
            let same = (oi.qid == oj.qid && oi.tid == oj.tid) || (oi.qid == oj.tid && oi.tid
                == oj.qid);
            let sj = oj.target_overlap_length();
            if same && (sj > si || (sj == si && j > i)) {
                proof {
                    assert(!outranks(overlaps@, i as int, j as int));
                }
                primary = false;
            } else {
                proof {
                    assert(outranks(overlaps@, i as int, j as int));
                }
            }
        }
        if primary {
            let ghost old_kept = kept@;
            kept.push(i);
            proof {
                assert forall|ii: int| 0 <= ii < i + 1 && is_primary(overlaps@, ii) implies kept@
                    .contains(ii as usize) by {
                    if ii < i {
                        let k = choose|k: int|
                            0 <= k < old_kept.len() && old_kept[k] == ii as usize;
                        assert(kept@[k] == ii as usize);
                    } else {
                        assert(kept@[kept@.len() - 1] == i as usize);
                    }
                }
            }
        } else {
            proof {
                assert(!is_primary(overlaps@, i as int));
            }
        }
    }
    kept
}

} // verus!
