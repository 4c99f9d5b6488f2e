use overlap_core::CigarOp;
use overlap_core::Overlap;
use overlap_core::Strand;

#[test]
fn strand_serializes_to_its_canonical_character() {
    assert_eq!(Strand::Forward.to_char(), '+');
    assert_eq!(Strand::Reverse.to_char(), '-');
}

#[test]
fn new_record_carries_no_cigar() {
    let o = Overlap::new(1, 100, 10, 90, Strand::Forward, 2, 100, 5, 85);
    assert!(o.cigar.is_none());
    assert_eq!((o.qid, o.qlen, o.qstart, o.qend), (1, 100, 10, 90));
    assert_eq!((o.tid, o.tlen, o.tstart, o.tend), (2, 100, 5, 85));
    assert_eq!(o.strand, Strand::Forward);
}

#[test]
fn equality_ignores_lengths_and_cigar() {
    let a = Overlap::new(1, 100, 10, 90, Strand::Forward, 2, 100, 5, 85);
    let mut b = Overlap::new(1, 999, 10, 90, Strand::Forward, 2, 777, 5, 85);
    b.cigar = Some(vec![CigarOp::Match(80)]);
    assert_eq!(a, b);
}

#[test]
fn equality_compares_every_span_field() {
    let a = Overlap::new(1, 100, 10, 90, Strand::Forward, 2, 100, 5, 85);
    assert_ne!(a, Overlap::new(3, 100, 10, 90, Strand::Forward, 2, 100, 5, 85));
    assert_ne!(a, Overlap::new(1, 100, 11, 90, Strand::Forward, 2, 100, 5, 85));
    assert_ne!(a, Overlap::new(1, 100, 10, 91, Strand::Forward, 2, 100, 5, 85));
    assert_ne!(a, Overlap::new(1, 100, 10, 90, Strand::Reverse, 2, 100, 5, 85));
    assert_ne!(a, Overlap::new(1, 100, 10, 90, Strand::Forward, 3, 100, 5, 85));
    assert_ne!(a, Overlap::new(1, 100, 10, 90, Strand::Forward, 2, 100, 6, 85));
    assert_ne!(a, Overlap::new(1, 100, 10, 90, Strand::Forward, 2, 100, 5, 86));
}

#[test]
fn return_other_id_gives_the_partner() {
    let o = Overlap::new(1, 100, 10, 90, Strand::Forward, 2, 100, 5, 85);
    assert_eq!(o.return_other_id(1), 2);
    assert_eq!(o.return_other_id(2), 1);
}

#[test]
fn target_overlap_length_is_the_target_span() {
    let o = Overlap::new(1, 100, 10, 90, Strand::Forward, 2, 100, 5, 85);
    assert_eq!(o.target_overlap_length(), 80);
}
