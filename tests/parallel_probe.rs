use zperf::probe::{echo, make_payload, ProbeError};
use zperf::parallel::ParallelProber;

#[test]
fn parallel_rejects_small_payload() {
    assert_eq!(ParallelProber::new(3).err(), Some(ProbeError::PayloadTooSmall));
}

#[test]
fn parallel_matches_out_of_order_replies() {
    let mut p = ParallelProber::new(32).unwrap();
    let a = p.issue(100);
    let b = p.issue(200);
    let c = p.issue(300);
    assert_eq!(p.outstanding(), 3);
    assert_eq!(p.next_sequence(), 3);

    let sc = p.complete(&echo(&c), 350).unwrap();
    assert_eq!((sc.sequence, sc.elapsed_us, sc.payload_len), (2, 50, 32));
    let sa = p.complete(&echo(&a), 400).unwrap();
    assert_eq!((sa.sequence, sa.elapsed_us), (0, 300));
    let sb = p.complete(&echo(&b), 150).unwrap();
    assert_eq!((sb.sequence, sb.elapsed_us), (1, 0));
    assert_eq!(p.outstanding(), 0);
}

#[test]
fn parallel_never_reports_twice() {
    let mut p = ParallelProber::new(8).unwrap();
    let a = p.issue(1);
    assert!(p.complete(&a, 2).is_ok());
    assert_eq!(p.complete(&a, 3), Err(ProbeError::UnmatchedReply));
    assert_eq!(p.outstanding(), 0);
}

#[test]
fn parallel_refuses_unpublished_sequence() {
    let mut p = ParallelProber::new(8).unwrap();
    let _ = p.issue(1);
    let stranger = make_payload(7, 8);
    assert_eq!(p.complete(&stranger, 2), Err(ProbeError::UnmatchedReply));
    assert_eq!(p.complete(&[9, 9], 2), Err(ProbeError::ReplyTooShort));
    assert_eq!(p.outstanding(), 1);
}

#[test]
fn parallel_reported_subset_of_published() {
    let mut p = ParallelProber::new(8).unwrap();
    let mut sent = Vec::new();
    for t in 0..10u64 {
        sent.push(p.issue(t));
    }
    let mut seen = Vec::new();
    for payload in sent.iter().rev().step_by(2) {
        let s = p.complete(payload, 20).unwrap();
        assert!(s.sequence < 10);
        assert!(!seen.contains(&s.sequence));
        seen.push(s.sequence);
    }
    assert_eq!(seen, vec![9, 7, 5, 3, 1]);
    assert_eq!(p.outstanding(), 5);
}
