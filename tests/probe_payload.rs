use zperf::probe::{check_payload_size, echo, make_payload, read_sequence, ErrorKind, ProbeError};

#[test]
fn payload_of_eight_bytes_is_valid() {
    assert_eq!(check_payload_size(8), Ok(()));
    let p = make_payload(5, 8);
    assert_eq!(p, vec![5, 0, 0, 0, 0, 0, 0, 0]);
}

#[test]
fn payload_under_eight_bytes_is_rejected() {
    for size in 0..8usize {
        assert_eq!(check_payload_size(size), Err(ProbeError::PayloadTooSmall));
    }
    assert_eq!(ProbeError::PayloadTooSmall.kind(), ErrorKind::ConfigError);
}

#[test]
fn payload_is_little_endian_with_zero_filler() {
    let p = make_payload(0x0102030405060708, 12);
    assert_eq!(p, vec![8, 7, 6, 5, 4, 3, 2, 1, 0, 0, 0, 0]);
}

#[test]
fn sequence_reads_back() {
    for seq in [0u64, 1, 255, 256, 999, u64::MAX] {
        let p = make_payload(seq, 64);
        assert_eq!(p.len(), 64);
        assert_eq!(read_sequence(&p), Ok(seq));
    }
}

#[test]
fn short_reply_is_a_protocol_violation() {
    assert_eq!(read_sequence(&[1, 2, 3, 4, 5, 6, 7]), Err(ProbeError::ReplyTooShort));
    assert_eq!(read_sequence(&[]), Err(ProbeError::ReplyTooShort));
    assert_eq!(ProbeError::ReplyTooShort.kind(), ErrorKind::ProtocolViolation);
    assert_eq!(ProbeError::UnmatchedReply.kind(), ErrorKind::ProtocolViolation);
}

#[test]
fn responder_echo_is_byte_identical() {
    let p = make_payload(42, 64);
    let r = echo(&p);
    assert_eq!(r, p);
    let again = echo(&r);
    assert_eq!(again, p);
    assert_eq!(read_sequence(&again), Ok(42));
}
