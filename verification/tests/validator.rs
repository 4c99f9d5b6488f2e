use overlap_core::is_valid_overlap;
use overlap_core::Strand;

#[test]
fn ratio_exactly_lower_bound_accepted() {
    // tspan / qspan == 9000 / 10000 == 0.9 exactly; query fully contained.
    assert!(is_valid_overlap(10000, 0, 10000, Strand::Forward, 9000, 0, 9000));
}

#[test]
fn ratio_below_lower_bound_rejected() {
    // tspan / qspan == 8999 / 10000 == 0.8999.
    assert!(!is_valid_overlap(10000, 0, 10000, Strand::Forward, 9000, 0, 8999));
}

#[test]
fn ratio_exactly_upper_bound_accepted() {
    // tspan / qspan == 1111 / 1000 == 1.111 exactly.
    assert!(is_valid_overlap(1000, 0, 1000, Strand::Forward, 1111, 0, 1111));
}

#[test]
fn ratio_above_upper_bound_rejected() {
    // tspan / qspan == 10000 / 9000 == 1.111..., just over the bound.
    assert!(!is_valid_overlap(9000, 0, 9000, Strand::Forward, 10000, 0, 10000));
}

#[test]
fn zero_spans_pass_the_ratio_gate() {
    // Both spans empty: the ratio gate does not reject, and the query's
    // unaligned remainder decides.
    assert!(is_valid_overlap(1000, 500, 500, Strand::Forward, 1000, 500, 500));
    assert!(!is_valid_overlap(40000, 20000, 20000, Strand::Forward, 40000, 20000, 20000));
}

#[test]
fn query_containment_at_threshold() {
    // Unaligned query remainder exactly 2500: accepted.
    assert!(is_valid_overlap(12500, 1000, 11000, Strand::Forward, 50000, 20000, 30000));
    // Remainder 2501, all other branches failing: rejected.
    assert!(!is_valid_overlap(12501, 1000, 11000, Strand::Forward, 50000, 20000, 30000));
}

#[test]
fn target_containment_at_threshold() {
    // Unaligned target remainder exactly 2500: accepted.
    assert!(is_valid_overlap(50000, 20000, 30000, Strand::Forward, 12500, 1000, 11000));
    // Remainder 2501, all other branches failing: rejected.
    assert!(!is_valid_overlap(50000, 20000, 30000, Strand::Forward, 12501, 1000, 11000));
}

#[test]
fn prefix_overlap_at_tail_threshold() {
    // Query tail exactly 2500 with a large query head and a small target
    // head: accepted as a prefix overlap.
    assert!(is_valid_overlap(17500, 5000, 15000, Strand::Forward, 41000, 1000, 11000));
    // Query tail 2501: rejected.
    assert!(!is_valid_overlap(17501, 5000, 15000, Strand::Forward, 41000, 1000, 11000));
}

#[test]
fn prefix_overlap_at_target_head_threshold() {
    // Target head exactly 2500: accepted.
    assert!(is_valid_overlap(15000, 5000, 15000, Strand::Forward, 40000, 2500, 12500));
    // Target head 2501: rejected.
    assert!(!is_valid_overlap(15000, 5000, 15000, Strand::Forward, 40000, 2501, 12501));
}

#[test]
fn prefix_overlap_at_query_head_threshold() {
    // Query head 2501 (strictly above the threshold): accepted.
    assert!(is_valid_overlap(12502, 2501, 12501, Strand::Forward, 30000, 0, 10000));
    // Query head exactly 2500 (not strictly above): rejected.
    assert!(!is_valid_overlap(12501, 2500, 12500, Strand::Forward, 30000, 0, 10000));
}

#[test]
fn prefix_overlap_reverse_strand_mirrors_query() {
    // On the reverse strand the query head is measured from the other end:
    // qlen - qend == 2501 plays the role of the query head.
    assert!(is_valid_overlap(12502, 1, 10001, Strand::Reverse, 30000, 0, 10000));
    // The same coordinates on the forward strand have a tiny query head and
    // are rejected.
    assert!(!is_valid_overlap(12502, 1, 10001, Strand::Forward, 30000, 0, 10000));
}

#[test]
fn suffix_overlap_at_target_tail_threshold() {
    // Target tail exactly 2500: accepted as a suffix overlap.
    assert!(is_valid_overlap(20000, 1000, 11000, Strand::Forward, 17500, 5000, 15000));
    // Target tail 2501: rejected.
    assert!(!is_valid_overlap(20000, 1000, 11000, Strand::Forward, 17501, 5000, 15000));
}
