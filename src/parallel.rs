//! The parallel probing discipline: probes are published on a fixed cadence
//! while replies are matched to them through a correlation tracker.
use crate::probe::{
    check_payload_size, make_payload, probe_payload, read_sequence, sequence_of,
    valid_payload_size, ProbeError,
};
use crate::record::{elapsed_between, elapsed_since, LatencySample};
use std::collections::HashMap;
use vstd::prelude::*;

verus! {

broadcast use vstd::std_specs::hash::group_hash_axioms;

/// Drives probes without waiting for replies.
///
/// The tracker maps the sequence number of every probe still awaiting its
/// reply to the time it was issued. The surrounding program shares one
/// prober between its publishing task and its reply task under a lock.
pub struct ParallelProber {
    payload_size: usize,
    next: u64,
    pending: HashMap<u64, u64>,
    /// Sequence numbers reported so far.
    reported: Ghost<Set<u64>>,
}

impl ParallelProber {
    pub closed spec fn payload_size_spec(&self) -> nat {
        self.payload_size as nat
    }

    /// Sequence number of the next probe to publish.
    pub closed spec fn next_spec(&self) -> u64 {
        self.next
    }

    /// Outstanding probes: sequence number to issue time.
    pub closed spec fn pending_spec(&self) -> Map<u64, u64> {
        self.pending@
    }

    /// Sequence numbers of the samples produced so far.
    pub closed spec fn reported(&self) -> Set<u64> {
        self.reported@
    }

    /// Sequence numbers published so far.
    pub open spec fn published(&self) -> Set<u64> {
        Set::new(|k: u64| k < self.next_spec())
    }

    pub closed spec fn wf(&self) -> bool {
        &&& valid_payload_size(self.payload_size as nat)
        &&& forall|k: u64| #[trigger]
            self.pending@.contains_key(k) <==> (k < self.next && !self.reported@.contains(k))
        &&& forall|k: u64| #[trigger] self.reported@.contains(k) ==> k < self.next
    }

    /// A prober for payloads of `payload_size` bytes; sizes under eight
    /// bytes are refused.
    pub fn new(payload_size: usize) -> (r: Result<ParallelProber, ProbeError>)
        ensures
            r is Ok <==> valid_payload_size(payload_size as nat),
            r is Err ==> r->Err_0 == ProbeError::PayloadTooSmall,
            r is Ok ==> {
                &&& r->Ok_0.wf()
                &&& r->Ok_0.payload_size_spec() == payload_size
                &&& r->Ok_0.next_spec() == 0
                &&& r->Ok_0.pending_spec().dom() == Set::<u64>::empty()
                &&& r->Ok_0.reported() == Set::<u64>::empty()
            },
    {
        match check_payload_size(payload_size) {
            Err(e) => Err(e),
            Ok(()) => Ok(
                ParallelProber {
                    payload_size,
                    next: 0,
                    pending: HashMap::new(),
                    reported: Ghost(Set::empty()),
                },
            ),
        }
    }

    /// Sequence number of the next probe to publish.
    pub fn next_sequence(&self) -> (r: u64)
        ensures
            r == self.next_spec(),
    {
        self.next
    }

    /// Number of probes still awaiting their reply.
    pub fn outstanding(&self) -> (r: usize)
        ensures
            r == self.pending_spec().len(),
    {
        self.pending.len()
    }

    /// Starts the next probe at time `now`: records it as outstanding and
    /// returns the payload to publish.
    pub fn issue(&mut self, now: u64) -> (r: Vec<u8>)
        requires
            old(self).wf(),
            old(self).next_spec() < u64::MAX,
        ensures
            final(self).wf(),
            r@ == probe_payload(old(self).next_spec(), old(self).payload_size_spec()),
            final(self).next_spec() == old(self).next_spec() + 1,
            final(self).pending_spec() == old(self).pending_spec().insert(old(self).next_spec(), now),
            final(self).reported() == old(self).reported(),
            final(self).payload_size_spec() == old(self).payload_size_spec(),
    {
        let payload = make_payload(self.next, self.payload_size);
        self.pending.insert(self.next, now);
        self.next = self.next + 1;
        payload
    }

    /// Matches `reply`, observed at time `now`, with its outstanding probe.
    ///
    /// A reply too short to carry a sequence number, or one whose number is
    /// not outstanding (never published, or already answered), is refused
    /// and leaves the prober as it was.
    pub fn complete(&mut self, reply: &[u8], now: u64) -> (r: Result<LatencySample, ProbeError>)
        requires
            old(self).wf(),
        ensures
            final(self).wf(),
            final(self).payload_size_spec() == old(self).payload_size_spec(),
            final(self).next_spec() == old(self).next_spec(),
            reply@.len() < 8 ==> r is Err && r->Err_0 == ProbeError::ReplyTooShort,
            reply@.len() >= 8 && !old(self).pending_spec().contains_key(sequence_of(reply@))
                ==> r is Err && r->Err_0 == ProbeError::UnmatchedReply,
            r is Err ==> final(self).pending_spec() == old(self).pending_spec()
                && final(self).reported() == old(self).reported(),
            reply@.len() >= 8 && old(self).pending_spec().contains_key(sequence_of(reply@)) ==> {
                let seq = sequence_of(reply@);
                &&& r is Ok
                &&& r->Ok_0 == (LatencySample {
                    sequence: seq,
                    payload_len: reply@.len() as usize,
                    elapsed_us: elapsed_between(old(self).pending_spec()[seq], now),
                })
                &&& !old(self).reported().contains(seq)
                &&& final(self).pending_spec() == old(self).pending_spec().remove(seq)
                &&& final(self).reported() == old(self).reported().insert(seq)
            },
    {
        let seq = match read_sequence(reply) {
            Err(e) => {
                return Err(e);
            },
            Ok(s) => s,
        };
        let issued = match self.pending.remove(&seq) {
            None => {
                return Err(ProbeError::UnmatchedReply);
            },
            Some(t) => t,
        };
        self.reported = Ghost(self.reported@.insert(seq));
        Ok(
            LatencySample {
                sequence: seq,
                payload_len: reply.len(),
                elapsed_us: elapsed_since(issued, now),
            },
        )
    }
}

/// Whatever the interleaving of publishing and replies, every reported
/// sequence number was published, and a reported number is no longer
/// outstanding, so it can never be reported again.
pub proof fn lemma_reports_published_once(p: &ParallelProber, seq: u64)
    requires
        p.wf(),
    ensures
        p.reported().subset_of(p.published()),
        p.reported().contains(seq) ==> !p.pending_spec().contains_key(seq),
        p.pending_spec().contains_key(seq) ==> p.published().contains(seq),
{
    assert(p.reported().subset_of(p.published()));
}

} // verus!
