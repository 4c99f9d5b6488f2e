//! The overlap validator: a pure predicate deciding whether a candidate
//! overlap is geometrically acceptable (containment, prefix or suffix
//! topology) under the fixed tolerance `OL_THRESHOLD` and the span-ratio
//! bounds.

use vstd::prelude::*;

use crate::overlap::Strand;

verus! {

/// Tolerance, in bases, below which an unaligned remainder is negligible for
/// containment / prefix / suffix classification, and the per-side cap on
/// boundary extension.
pub const OL_THRESHOLD: u32 = 2500;

/// The ratio `tspan / qspan` of the two aligned span lengths must lie within
/// `[0.9, 1.111]`, stated in exact integer arithmetic. A zero `qspan` with a
/// positive `tspan` (ratio unbounded) is rejected; two zero spans pass the
/// gate.
pub open spec fn ratio_in_bounds(qspan: int, tspan: int) -> bool {
    9 * qspan <= 10 * tspan && 1000 * tspan <= 1111 * qspan
}

/// Query coordinates normalized to the target's orientation: unchanged on the
/// forward strand, mirrored across the query length on the reverse strand.
pub open spec fn oriented_qstart(qlen: int, qstart: int, qend: int, strand: Strand) -> int {
    match strand {
        Strand::Forward => qstart,
        Strand::Reverse => qlen - qend,
    }
}

pub open spec fn oriented_qend(qlen: int, qstart: int, qend: int, strand: Strand) -> int {
    match strand {
        Strand::Forward => qend,
        Strand::Reverse => qlen - qstart,
    }
}

/// The full acceptance predicate over mathematical integers: the ratio gate,
/// then query containment, target containment, prefix overlap or suffix
/// overlap, in that order.
pub open spec fn spec_is_valid_overlap(
    qlen: int,
    qstart: int,
    qend: int,
    strand: Strand,
    tlen: int,
    tstart: int,
    tend: int,
) -> bool {
    let qspan = qend - qstart;
    let tspan = tend - tstart;
    let oqs = oriented_qstart(qlen, qstart, qend, strand);
    let oqe = oriented_qend(qlen, qstart, qend, strand);
    ratio_in_bounds(qspan, tspan) && {
        // Query (almost) contained in the overlap
        qlen - qspan <= OL_THRESHOLD
        // Target (almost) contained in the overlap
        || tlen - tspan <= OL_THRESHOLD
        // Prefix overlap between query and target
        || (oqs > OL_THRESHOLD && tstart <= OL_THRESHOLD && qlen - oqe <= OL_THRESHOLD)
        // Suffix overlap between query and target
        || (tstart > OL_THRESHOLD && oqs <= OL_THRESHOLD && tlen - tend <= OL_THRESHOLD)
    }
}

/// Decide whether a candidate overlap is geometrically acceptable.
pub fn is_valid_overlap(
    qlen: u32,
    qstart: u32,
    qend: u32,
    strand: Strand,
    tlen: u32,
    tstart: u32,
    tend: u32,
) -> (r: bool)
    requires
        qstart <= qend <= qlen,
        tstart <= tend <= tlen,
    ensures
        r == spec_is_valid_overlap(
            qlen as int,
            qstart as int,
            qend as int,
            strand,
            tlen as int,
            tstart as int,
            tend as int,
        ),
{
    let qspan = (qend - qstart) as u64;
    let tspan = (tend - tstart) as u64;
    if 9 * qspan > 10 * tspan || 1000 * tspan > 1111 * qspan {
        return false;
    }

    if qlen - (qend - qstart) <= OL_THRESHOLD {
        return true;
    }

    if tlen - (tend - tstart) <= OL_THRESHOLD {
        return true;
    }

    let (oqs, oqe) = match strand {
        Strand::Forward => (qstart, qend),
        Strand::Reverse => (qlen - qend, qlen - qstart),
    };

    if oqs > OL_THRESHOLD && tstart <= OL_THRESHOLD && qlen - oqe <= OL_THRESHOLD {
        return true;
    }

    if tstart > OL_THRESHOLD && oqs <= OL_THRESHOLD && tlen - tend <= OL_THRESHOLD {
        return true;
    }

    false
}

} // verus!
