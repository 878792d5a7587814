//! The sequential probing discipline: one probe in flight at a time, each
//! reply closing the probe that was published last.
use crate::probe::{
    check_payload_size, make_payload, probe_payload, read_sequence, valid_payload_size,
    ProbeError,
};
use crate::record::{elapsed_between, elapsed_since, LatencySample};
use vstd::prelude::*;

verus! {

/// Drives probes one at a time.
///
/// The surrounding program publishes what `issue` returns, waits for the
/// next reply, hands it to `complete`, reports the sample and sleeps.
pub struct SequentialProber {
    payload_size: usize,
    next: u64,
    /// Issue time of the probe in flight, if any.
    in_flight: Option<u64>,
    /// Sequence numbers reported so far, in order.
    reported: Ghost<Seq<u64>>,
}

impl SequentialProber {
    pub closed spec fn payload_size_spec(&self) -> nat {
        self.payload_size as nat
    }

    /// Sequence number of the next probe to publish.
    pub closed spec fn next_spec(&self) -> u64 {
        self.next
    }

    /// Issue time of the probe in flight, if there is one.
    pub closed spec fn in_flight_spec(&self) -> Option<u64> {
        self.in_flight
    }

    /// Sequence numbers of the samples produced so far, in order.
    pub closed spec fn reported(&self) -> Seq<u64> {
        self.reported@
    }

    /// Number of probes published so far.
    pub open spec fn published_count(&self) -> nat {
        if self.in_flight_spec() is Some {
            self.reported().len() + 1
        } else {
            self.reported().len()
        }
    }

    pub closed spec fn wf(&self) -> bool {
        &&& valid_payload_size(self.payload_size as nat)
        &&& self.next as nat == self.reported@.len()
        &&& forall|k: int| 0 <= k < self.reported@.len() ==> self.reported@[k] == k
    }

    /// A prober for payloads of `payload_size` bytes; sizes under eight
    /// bytes are refused.
    pub fn new(payload_size: usize) -> (r: Result<SequentialProber, ProbeError>)
        ensures
            r is Ok <==> valid_payload_size(payload_size as nat),
            r is Err ==> r->Err_0 == ProbeError::PayloadTooSmall,
            r is Ok ==> {
                &&& r->Ok_0.wf()
                &&& r->Ok_0.payload_size_spec() == payload_size
                &&& r->Ok_0.next_spec() == 0
                &&& r->Ok_0.in_flight_spec() is None
                &&& r->Ok_0.reported().len() == 0
            },
    {
        match check_payload_size(payload_size) {
            Err(e) => Err(e),
            Ok(()) => Ok(
                SequentialProber {
                    payload_size,
                    next: 0,
                    in_flight: None,
                    reported: Ghost(Seq::empty()),
                },
            ),
        }
    }

    /// Sequence number of the next probe to publish.
    pub fn next_sequence(&self) -> (r: u64)
        ensures
            r == self.next_spec(),
    {
        self.next
    }

    /// Whether a probe is waiting for its reply.
    pub fn is_waiting(&self) -> (r: bool)
        ensures
            r == self.in_flight_spec() is Some,
    {
        self.in_flight.is_some()
    }

    /// Starts the next probe at time `now`; returns the payload to publish.
    pub fn issue(&mut self, now: u64) -> (r: Vec<u8>)
        requires
            old(self).wf(),
            old(self).in_flight_spec() is None,
        ensures
            final(self).wf(),
            r@ == probe_payload(old(self).next_spec(), old(self).payload_size_spec()),
            final(self).in_flight_spec() == Some(now),
            final(self).next_spec() == old(self).next_spec(),
            final(self).payload_size_spec() == old(self).payload_size_spec(),
            final(self).reported() == old(self).reported(),
    {
        let payload = make_payload(self.next, self.payload_size);
        self.in_flight = Some(now);
        payload
    }

    /// Closes the probe in flight with `reply`, observed at time `now`.
    ///
    /// The sample is labelled with the sequence number of the probe in
    /// flight; a reply too short to carry a sequence number is refused and
    /// leaves the prober as it was.
    pub fn complete(&mut self, reply: &[u8], now: u64) -> (r: Result<LatencySample, ProbeError>)
        requires
            old(self).wf(),
            old(self).in_flight_spec() is Some,
            old(self).next_spec() < u64::MAX,
        ensures
            final(self).wf(),
            final(self).payload_size_spec() == old(self).payload_size_spec(),
            r is Ok <==> reply@.len() >= 8,
            r is Err ==> {
                &&& r->Err_0 == ProbeError::ReplyTooShort
                &&& *final(self) == *old(self)
            },
            r is Ok ==> {
                &&& r->Ok_0 == (LatencySample {
                    sequence: old(self).next_spec(),
                    payload_len: reply@.len() as usize,
                    elapsed_us: elapsed_between(old(self).in_flight_spec()->Some_0, now),
                })
                &&& final(self).next_spec() == old(self).next_spec() + 1
                &&& final(self).in_flight_spec() is None
                &&& final(self).reported() == old(self).reported().push(old(self).next_spec())
            },
    {
        match read_sequence(reply) {
            Err(e) => Err(e),
            Ok(_) => {
                let issued = match self.in_flight {
                    Some(t) => t,
                    None => 0,
                };
                let sample = LatencySample {
                    sequence: self.next,
                    payload_len: reply.len(),
                    elapsed_us: elapsed_since(issued, now),
                };
                self.reported = Ghost(self.reported@.push(self.next));
                self.next = self.next + 1;
                self.in_flight = None;
                Ok(sample)
            },
        }
    }
}

/// In sequential mode the k-th sample reports sequence number k, one sample
/// for each probe answered, so after `n` completed probes exactly `n`
/// samples with the numbers `0..n` have been produced, in order.
pub proof fn lemma_sequential_reports_in_order(p: &SequentialProber)
    requires
        p.wf(),
    ensures
        p.reported().len() == p.next_spec(),
        forall|k: int| 0 <= k < p.reported().len() ==> p.reported()[k] == k,
        p.published_count() == p.reported().len() + (if p.in_flight_spec() is Some {
            1int
        } else {
            0int
        }),
{
}

} // verus!
