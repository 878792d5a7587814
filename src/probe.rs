//! Probe payloads: an eight-byte little-endian sequence number followed by
//! zero filler up to the configured payload size.
use vstd::bytes::{
    lemma_auto_spec_u64_to_from_le_bytes, spec_u64_from_le_bytes, spec_u64_to_le_bytes,
    u64_from_le_bytes, u64_to_le_bytes,
};
use vstd::prelude::*;

verus! {

/// Number of leading payload bytes that carry the sequence number.
pub const SEQUENCE_BYTES: usize = 8;

/// What went wrong while configuring or running a probe.
#[derive(Debug, Clone, Copy, PartialEq, Eq, Structural)]
pub enum ProbeError {
    /// The configured payload cannot hold a sequence number.
    PayloadTooSmall,
    /// The mode name is neither `peer` nor `client`.
    UnsupportedMode,
    /// A reply is shorter than a sequence number.
    ReplyTooShort,
    /// A reply carries a sequence number with no outstanding probe.
    UnmatchedReply,
    /// The transport refused a publish or closed the session.
    Transport,
}

/// The three families of failure of the harness.
#[derive(Debug, Clone, Copy, PartialEq, Eq, Structural)]
pub enum ErrorKind {
    ConfigError,
    ProtocolViolation,
    TransportFailure,
}

impl ProbeError {
    pub open spec fn spec_kind(self) -> ErrorKind {
        match self {
            ProbeError::PayloadTooSmall | ProbeError::UnsupportedMode => ErrorKind::ConfigError,
            ProbeError::Transport => ErrorKind::TransportFailure,
            _ => ErrorKind::ProtocolViolation,
        }
    }

    /// The family this error belongs to.
    pub fn kind(&self) -> (r: ErrorKind)
        ensures
            r == self.spec_kind(),
    {
        match self {
            ProbeError::PayloadTooSmall | ProbeError::UnsupportedMode => ErrorKind::ConfigError,
            ProbeError::Transport => ErrorKind::TransportFailure,
            _ => ErrorKind::ProtocolViolation,
        }
    }
}

/// The payload of probe `seq` when payloads are `size` bytes long.
pub open spec fn probe_payload(seq: u64, size: nat) -> Seq<u8> {
    spec_u64_to_le_bytes(seq) + Seq::new((size - 8) as nat, |i: int| 0u8)
}

/// The sequence number that a payload of at least eight bytes carries.
pub open spec fn sequence_of(payload: Seq<u8>) -> u64 {
    spec_u64_from_le_bytes(payload.subrange(0, 8))
}

/// A payload size is acceptable when it can hold a sequence number.
pub open spec fn valid_payload_size(size: nat) -> bool {
    size >= 8
}

/// Checks a configured payload size.
pub fn check_payload_size(size: usize) -> (r: Result<(), ProbeError>)
    ensures
        r is Ok <==> valid_payload_size(size as nat),
        r is Err ==> r->Err_0 == ProbeError::PayloadTooSmall,
{
    if size < SEQUENCE_BYTES {
        Err(ProbeError::PayloadTooSmall)
    } else {
        Ok(())
    }
}

/// Builds the payload of probe `seq`.
pub fn make_payload(seq: u64, size: usize) -> (r: Vec<u8>)
    requires
        valid_payload_size(size as nat),
    ensures
        r@ == probe_payload(seq, size as nat),
        r@.len() == size,
        sequence_of(r@) == seq,
{
    proof {
        lemma_auto_spec_u64_to_from_le_bytes();
    }
    let mut v = u64_to_le_bytes(seq);
    let ghost head = v@;
    while v.len() < size
        invariant
            8 <= v@.len() <= size,
            v@.subrange(0, 8) == head,
            forall|i: int| 8 <= i < v@.len() ==> v@[i] == 0u8,
        decreases size - v@.len(),
    {
        v.push(0u8);
    }
    assert(v@ =~= probe_payload(seq, size as nat));
    v
}

/// Reads the sequence number at the front of a reply.
pub fn read_sequence(reply: &[u8]) -> (r: Result<u64, ProbeError>)
    ensures
        r is Ok <==> reply@.len() >= 8,
        r is Ok ==> r->Ok_0 == sequence_of(reply@),
        r is Err ==> r->Err_0 == ProbeError::ReplyTooShort,
{
    if reply.len() < SEQUENCE_BYTES {
        return Err(ProbeError::ReplyTooShort);
    }
    let head = vstd::slice::slice_subrange(reply, 0, SEQUENCE_BYTES);
    Ok(u64_from_le_bytes(head))
}

/// The responder's answer to a probe: the same bytes, unchanged.
pub fn echo(probe: &[u8]) -> (r: Vec<u8>)
    ensures
        r@ == probe@,
{
    let mut out: Vec<u8> = Vec::new();
    let mut i: usize = 0;
    while i < probe.len()
        invariant
            i <= probe@.len(),
            out@ == probe@.subrange(0, i as int),
        decreases probe@.len() - i,
    {
        out.push(probe[i]);
        i = i + 1;
    }
    assert(out@ =~= probe@);
    out
}

/// A probe carries its sequence number and has the configured size; the
/// responder's echo of it reads back the same number.
pub proof fn lemma_probe_round_trip(seq: u64, size: nat)
    requires
        valid_payload_size(size),
    ensures
        probe_payload(seq, size).len() == size,
        sequence_of(probe_payload(seq, size)) == seq,
{
    lemma_auto_spec_u64_to_from_le_bytes();
    assert(probe_payload(seq, size).subrange(0, 8) =~= spec_u64_to_le_bytes(seq));
}

} // verus!
