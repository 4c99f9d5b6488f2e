use overlap_core::extend_overlap;
use overlap_core::extend_overlaps;
use overlap_core::Overlap;
use overlap_core::Strand;

fn bounds_ok(o: &Overlap) -> bool {
    o.qstart <= o.qend && o.qend <= o.qlen && o.tstart <= o.tend && o.tend <= o.tlen
}

fn moved_at_most(pre: &Overlap, post: &Overlap, cap: u32) -> bool {
    post.qstart <= pre.qstart
        && pre.qstart - post.qstart <= cap
        && post.qend >= pre.qend
        && post.qend - pre.qend <= cap
        && post.tstart <= pre.tstart
        && pre.tstart - post.tstart <= cap
        && post.tend >= pre.tend
        && pre.tend.abs_diff(post.tend) <= cap
}

#[test]
fn forward_room_limited() {
    let mut o = Overlap::new(0, 10000, 100, 9900, Strand::Forward, 1, 10000, 50, 9850);
    let pre = Overlap::new(0, 10000, 100, 9900, Strand::Forward, 1, 10000, 50, 9850);
    extend_overlap(&mut o);
    assert_eq!(o.tstart, 0);
    assert_eq!(o.qstart, 50);
    assert_eq!(o.tend, 9950);
    assert_eq!(o.qend, 10000);
    assert!(bounds_ok(&o));
    assert!(moved_at_most(&pre, &o, 2500));
}

#[test]
fn forward_cap_limited() {
    let mut o = Overlap::new(0, 100000, 6000, 50000, Strand::Forward, 1, 100000, 7000, 51000);
    let pre = Overlap::new(0, 100000, 6000, 50000, Strand::Forward, 1, 100000, 7000, 51000);
    extend_overlap(&mut o);
    assert_eq!(o.tstart, 4500);
    assert_eq!(o.qstart, 3500);
    assert_eq!(o.tend, 53500);
    assert_eq!(o.qend, 52500);
    assert!(bounds_ok(&o));
    assert!(moved_at_most(&pre, &o, 2500));
}

#[test]
fn reverse_room_limited() {
    let mut o = Overlap::new(0, 10000, 200, 9950, Strand::Reverse, 1, 10000, 30, 9800);
    let pre = Overlap::new(0, 10000, 200, 9950, Strand::Reverse, 1, 10000, 30, 9800);
    extend_overlap(&mut o);
    // The target's start pairs with the query's end, and vice versa.
    assert_eq!(o.tstart, 0);
    assert_eq!(o.qend, 9980);
    assert_eq!(o.tend, 10000);
    assert_eq!(o.qstart, 0);
    assert!(bounds_ok(&o));
    assert!(moved_at_most(&pre, &o, 2500));
}

#[test]
fn reverse_cap_limited() {
    let mut o = Overlap::new(0, 100000, 8000, 90000, Strand::Reverse, 1, 100000, 9000, 95000);
    let pre = Overlap::new(0, 100000, 8000, 90000, Strand::Reverse, 1, 100000, 9000, 95000);
    extend_overlap(&mut o);
    assert_eq!(o.tstart, 6500);
    assert_eq!(o.qend, 92500);
    assert_eq!(o.tend, 97500);
    assert_eq!(o.qstart, 5500);
    assert!(bounds_ok(&o));
    assert!(moved_at_most(&pre, &o, 2500));
}

#[test]
fn extension_is_noop_once_bounds_reached_forward() {
    let mut o = Overlap::new(0, 10000, 100, 9900, Strand::Forward, 1, 10000, 50, 9850);
    extend_overlap(&mut o);
    let once = Overlap::new(o.qid, o.qlen, o.qstart, o.qend, o.strand, o.tid, o.tlen, o.tstart, o.tend);
    extend_overlap(&mut o);
    assert_eq!(o, once);
    assert_eq!(o.qlen, once.qlen);
    assert_eq!(o.tlen, once.tlen);
}

#[test]
fn extension_is_noop_once_bounds_reached_reverse() {
    let mut o = Overlap::new(0, 10000, 200, 9950, Strand::Reverse, 1, 10000, 30, 9800);
    extend_overlap(&mut o);
    let once = Overlap::new(o.qid, o.qlen, o.qstart, o.qend, o.strand, o.tid, o.tlen, o.tstart, o.tend);
    extend_overlap(&mut o);
    assert_eq!(o, once);
}

#[test]
fn extend_overlaps_touches_every_record_independently() {
    let mut v = vec![
        Overlap::new(0, 10000, 100, 9900, Strand::Forward, 1, 10000, 50, 9850),
        Overlap::new(2, 10000, 200, 9950, Strand::Reverse, 3, 10000, 30, 9800),
    ];
    extend_overlaps(&mut v);
    assert_eq!(v.len(), 2);
    assert_eq!((v[0].qstart, v[0].qend, v[0].tstart, v[0].tend), (50, 10000, 0, 9950));
    assert_eq!((v[1].qstart, v[1].qend, v[1].tstart, v[1].tend), (0, 9980, 0, 10000));
}
