//! The overlap extender: widens each accepted record's coordinates toward the
//! reads' physical ends, strand-aware, capped at `OL_THRESHOLD` bases per
//! side and never leaving `[0, len]` on either read.

use vstd::prelude::*;

use crate::overlap::Overlap;
use crate::overlap::Strand;
use crate::validate::OL_THRESHOLD;

verus! {

pub open spec fn min3(a: int, b: int, c: int) -> int {
    if a <= b && a <= c {
        a
    } else if b <= c {
        b
    } else {
        c
    }
}

/// How much room the record has toward the reads' starts, before the cap:
/// the smaller of the two distances that extension at the beginning may
/// consume.
pub open spec fn begin_room(o: Overlap) -> int {
    match o.strand {
        Strand::Forward => if o.tstart <= o.qstart {
            o.tstart as int
        } else {
            o.qstart as int
        },
        Strand::Reverse => if o.tstart <= o.qlen - o.qend {
            o.tstart as int
        } else {
            o.qlen - o.qend
        },
    }
}

/// How much room the record has toward the reads' ends, before the cap.
pub open spec fn end_room(o: Overlap) -> int {
    match o.strand {
        Strand::Forward => if o.tlen - o.tend <= o.qlen - o.qend {
            o.tlen - o.tend
        } else {
            o.qlen - o.qend
        },
        Strand::Reverse => if o.tlen - o.tend <= o.qstart {
            o.tlen - o.tend
        } else {
            o.qstart as int
        },
    }
}

/// The amount subtracted at the beginning of the aligned spans: the available
/// room, capped at `OL_THRESHOLD`.
pub open spec fn begin_extension(o: Overlap) -> int {
    if begin_room(o) <= OL_THRESHOLD {
        begin_room(o)
    } else {
        OL_THRESHOLD as int
    }
}

/// The amount added at the end of the aligned spans: the available room,
/// capped at `OL_THRESHOLD`.
pub open spec fn end_extension(o: Overlap) -> int {
    if end_room(o) <= OL_THRESHOLD {
        end_room(o)
    } else {
        OL_THRESHOLD as int
    }
}

/// How one extension pass transforms a record. On the forward strand both
/// starts shrink together and both ends grow together; on the reverse strand
/// the target's start pairs with the query's end and vice versa, mirroring
/// the strand inversion. Everything but the four coordinates is unchanged.
pub open spec fn extended(pre: Overlap, post: Overlap) -> bool {
    let b = begin_extension(pre);
    let e = end_extension(pre);
    post.qid == pre.qid && post.qlen == pre.qlen && post.tid == pre.tid && post.tlen == pre.tlen
        && post.strand == pre.strand && post.cigar == pre.cigar && match pre.strand {
        Strand::Forward => post.tstart == pre.tstart - b && post.qstart == pre.qstart - b
            && post.tend == pre.tend + e && post.qend == pre.qend + e,
        Strand::Reverse => post.tstart == pre.tstart - b && post.qend == pre.qend + b
            && post.tend == pre.tend + e && post.qstart == pre.qstart - e,
    }
}

fn min3_u32(a: u32, b: u32, c: u32) -> (m: u32)
    ensures
        m == min3(a as int, b as int, c as int),
{
    if a <= b && a <= c {
        a
    } else if b <= c {
        b
    } else {
        c
    }
}

/// Widen one record's aligned span in place, strand-aware, capped at
/// `OL_THRESHOLD` per side and bounded by the remaining read lengths.
pub fn extend_overlap(o: &mut Overlap)
    requires
        old(o).coords_ok(),
    ensures
        extended(*old(o), *final(o)),
{
    match o.strand {
        Strand::Forward => {
            let beginning = min3_u32(o.tstart, o.qstart, OL_THRESHOLD);
            o.tstart = o.tstart - beginning;
            o.qstart = o.qstart - beginning;
            let end = min3_u32(o.tlen - o.tend, o.qlen - o.qend, OL_THRESHOLD);
            o.tend = o.tend + end;
            o.qend = o.qend + end;
        },
        Strand::Reverse => {
            let beginning = min3_u32(o.tstart, o.qlen - o.qend, OL_THRESHOLD);
            o.tstart = o.tstart - beginning;
            o.qend = o.qend + beginning;
            let end = min3_u32(o.tlen - o.tend, o.qstart, OL_THRESHOLD);
            o.tend = o.tend + end;
            o.qstart = o.qstart - end;
        },
    }
}

/// Apply one extension pass to every record of the collection, each
/// independently of all others.
pub fn extend_overlaps(overlaps: &mut Vec<Overlap>)
    requires
        forall|i: int| 0 <= i < old(overlaps)@.len() ==> #[trigger] old(overlaps)@[i].coords_ok(),
    ensures
        final(overlaps)@.len() == old(overlaps)@.len(),
        forall|i: int|
            0 <= i < old(overlaps)@.len() ==> extended(
                old(overlaps)@[i],
                #[trigger] final(overlaps)@[i],
            ),
{
    let n = overlaps.len();
    for i in 0..n
        invariant
            n == overlaps@.len() == old(overlaps)@.len(),
            forall|j: int| 0 <= j < n ==> #[trigger] old(overlaps)@[j].coords_ok(),
            forall|j: int| i <= j < n ==> overlaps@[j] == old(overlaps)@[j],
            forall|j: int| 0 <= j < i ==> extended(old(overlaps)@[j], #[trigger] overlaps@[j]),
    {
        extend_overlap(&mut overlaps[i]);
    }
}

/// After extension, coordinates still satisfy `0 <= start <= end <= len` on
/// both reads, and no coordinate has moved by more than `OL_THRESHOLD`;
/// starts only ever shrink and ends only ever grow.
pub proof fn lemma_extension_bounds(pre: Overlap, post: Overlap)
    requires
        pre.coords_ok(),
        extended(pre, post),
    ensures
        post.coords_ok(),
        post.qstart <= pre.qstart && pre.qstart - post.qstart <= OL_THRESHOLD,
        post.qend >= pre.qend && post.qend - pre.qend <= OL_THRESHOLD,
        post.tstart <= pre.tstart && pre.tstart - post.tstart <= OL_THRESHOLD,
        post.tend >= pre.tend && post.tend - pre.tend <= OL_THRESHOLD,
{
}

/// Once the bounds are reached, extension is a no-op: if the room available
/// on each side is at most the cap, a first pass consumes all of it, and a
/// second pass changes nothing.
pub proof fn lemma_extension_idempotent(pre: Overlap, mid: Overlap, post: Overlap)
    requires
        pre.coords_ok(),
        begin_room(pre) <= OL_THRESHOLD,
        end_room(pre) <= OL_THRESHOLD,
        extended(pre, mid),
        extended(mid, post),
    ensures
        post == mid,
{
}

} // verus!
