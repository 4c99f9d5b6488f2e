use overlap_core::find_primary_overlaps;
use overlap_core::Overlap;
use overlap_core::Strand;

fn ovl(qid: u32, tid: u32, tspan: u32) -> Overlap {
    Overlap::new(qid, 100000, 0, tspan, Strand::Forward, tid, 100000, 1000, 1000 + tspan)
}

#[test]
fn single_overlap_per_pair_is_kept() {
    let v = vec![ovl(1, 2, 100), ovl(3, 4, 50)];
    assert_eq!(find_primary_overlaps(&v), vec![0, 1]);
}

#[test]
fn greatest_target_span_wins_within_a_pair() {
    let v = vec![ovl(1, 2, 100), ovl(1, 2, 300), ovl(1, 2, 200)];
    assert_eq!(find_primary_overlaps(&v), vec![1]);
}

#[test]
fn swapped_roles_fall_into_the_same_group() {
    // (2, 1) is grouped with (1, 2): only the larger of the two survives.
    let v = vec![ovl(1, 2, 100), ovl(2, 1, 200), ovl(3, 4, 50)];
    assert_eq!(find_primary_overlaps(&v), vec![1, 2]);
}

#[test]
fn span_ties_resolve_to_the_last_seen() {
    let v = vec![ovl(1, 2, 200), ovl(1, 2, 200), ovl(1, 2, 100)];
    assert_eq!(find_primary_overlaps(&v), vec![1]);
}

#[test]
fn empty_collection_keeps_nothing() {
    let v: Vec<Overlap> = Vec::new();
    assert_eq!(find_primary_overlaps(&v), Vec::<usize>::new());
}
