use zperf::probe::{echo, ProbeError};
use zperf::record::{format_record, RunLabels};
use zperf::sequential::SequentialProber;

#[test]
fn sequential_rejects_small_payload() {
    assert_eq!(SequentialProber::new(7).err(), Some(ProbeError::PayloadTooSmall));
    assert!(SequentialProber::new(8).is_ok());
}

#[test]
fn sequential_thousand_probes_ideal_responder() {
    let labels = RunLabels {
        scenario: String::from("bench"),
        name: String::from("seq"),
        interval: String::from("0"),
    };
    let mut p = SequentialProber::new(64).unwrap();
    let mut lines = Vec::new();
    let mut clock: u64 = 0;
    for _ in 0..1000 {
        let payload = p.issue(clock);
        assert!(p.is_waiting());
        let reply = echo(&payload);
        let s = p.complete(&reply, clock).unwrap();
        assert!(!p.is_waiting());
        lines.push(format_record(&labels, false, &s));
        clock += 1;
    }
    assert_eq!(lines.len(), 1000);
    for (k, line) in lines.iter().enumerate() {
        assert_eq!(line, &format!("zenoh,bench,latency.sequential,seq,64,0,{},0", k));
    }
    assert_eq!(p.next_sequence(), 1000);
}

#[test]
fn sequential_samples_follow_publish_order() {
    let mut p = SequentialProber::new(16).unwrap();
    for k in 0..5u64 {
        let payload = p.issue(10 * k);
        let s = p.complete(&echo(&payload), 10 * k + 3).unwrap();
        assert_eq!(s.sequence, k);
        assert_eq!(s.elapsed_us, 3);
        assert_eq!(s.payload_len, 16);
    }
}

#[test]
fn sequential_short_reply_keeps_probe_in_flight() {
    let mut p = SequentialProber::new(8).unwrap();
    let payload = p.issue(5);
    assert_eq!(p.complete(&[0, 1, 2], 9), Err(ProbeError::ReplyTooShort));
    assert!(p.is_waiting());
    let s = p.complete(&payload, 9).unwrap();
    assert_eq!(s.sequence, 0);
    assert_eq!(s.elapsed_us, 4);
}
