//! Everything the protocol tracks about remote addresses.
//!
//! Sequence numbers and round-trip estimates are meaningless across peers: two
//! clients both open at sequence 0, and a peer on the far side of the world has
//! nothing to say about the round trip to a peer on localhost. So each peer has
//! its own record.

use vstd::arithmetic::power2::{lemma2_to64, lemma_pow2_unfold, pow2};
use vstd::prelude::*;

verus! {

/// Retransmission timeout used before a single round trip has been measured,
/// in milliseconds.
pub const INITIAL_RTO_MS: u64 = 500;

/// Floor of the computed retransmission timeout, in milliseconds.
pub const MIN_RTO_MS: u64 = 50;

/// Ceiling of the computed retransmission timeout, in milliseconds.
pub const MAX_RTO_MS: u64 = 2000;

/// The sign bit of a double-precision number: alone, it is the number -0.0.
pub const SIGN_BIT: u64 = 0x8000_0000_0000_0000;

/// The smoothed round-trip time and its variation, in milliseconds, each as the
/// bits of a double-precision number. The arithmetic on them is the caller's;
/// here they are kept with the peer that they were measured on.
#[derive(Debug, PartialEq, Eq, Structural, Clone, Copy)]
pub struct RttEstimate {
    pub srtt_bits: u64,
    pub rttvar_bits: u64,
}

impl RttEstimate {
    /// The estimate before anything has been measured: both values are 0.0.
    pub open spec fn blank() -> RttEstimate {
        RttEstimate { srtt_bits: 0, rttvar_bits: 0 }
    }

    /// The smoothed round-trip time is the number zero, which stands for "not
    /// measured yet".
    pub open spec fn spec_is_unmeasured(self) -> bool {
        self.srtt_bits == 0 || self.srtt_bits == SIGN_BIT
    }

    /// Whether there is no measurement to smooth a new one with.
    pub fn is_unmeasured(&self) -> (unmeasured: bool)
        ensures
            unmeasured == self.spec_is_unmeasured(),
    {
        self.srtt_bits == 0 || self.srtt_bits == SIGN_BIT
    }

    /// The estimate that a new measurement is folded into, if there is one.
    pub open spec fn measured(self) -> Option<RttEstimate> {
        if self.spec_is_unmeasured() {
            None
        } else {
            Some(self)
        }
    }
}

/// The smaller of two numbers.
pub open spec fn min_nat(a: nat, b: nat) -> nat {
    if a <= b {
        a
    } else {
        b
    }
}

/// A timeout brought into the band from the floor to the ceiling.
pub open spec fn clamp_rto(ms: nat) -> nat {
    if ms < MIN_RTO_MS {
        MIN_RTO_MS as nat
    } else {
        min_nat(ms, MAX_RTO_MS as nat)
    }
}

/// What is known of one peer.
pub struct PeerView {
    /// Next sequence number to send to this peer.
    pub next_seq_num: nat,
    /// Next sequence number expected from this peer.
    pub expected_seq_num: nat,
    /// Round-trip estimate for this peer.
    pub estimate: RttEstimate,
    /// Retransmission timeout for this peer, in milliseconds.
    pub rto_ms: nat,
}

impl PeerView {
    /// A peer that has not been heard of.
    pub open spec fn fresh() -> PeerView {
        PeerView {
            next_seq_num: 0,
            expected_seq_num: 0,
            estimate: RttEstimate::blank(),
            rto_ms: INITIAL_RTO_MS as nat,
        }
    }

    /// The peer after a new round-trip estimate whose timeout, before the band
    /// is applied, is `timeout_ms`.
    pub open spec fn estimated(self, estimate: RttEstimate, timeout_ms: nat) -> PeerView {
        PeerView { estimate, rto_ms: clamp_rto(timeout_ms), ..self }
    }

    /// The peer after a timeout: the wait doubles, up to the ceiling.
    pub open spec fn backed_off(self) -> PeerView {
        PeerView { rto_ms: min_nat(2 * self.rto_ms, MAX_RTO_MS as nat), ..self }
    }

    /// The peer after it has acknowledged the packet sent to it.
    pub open spec fn acknowledged(self) -> PeerView {
        PeerView { next_seq_num: self.next_seq_num + 1, ..self }
    }

    /// The peer after it has acknowledged a sequence number: it moves on if that
    /// is the number in use, and stays if it has moved on from it already.
    pub open spec fn acknowledged_under(self, seq_num: nat) -> PeerView {
        if self.next_seq_num == seq_num {
            self.acknowledged()
        } else {
            self
        }
    }

    /// The peer after the packet expected from it was handed to the application.
    pub open spec fn delivered(self) -> PeerView {
        PeerView { expected_seq_num: self.expected_seq_num + 1, ..self }
    }

    /// The timeout lies in the band.
    pub open spec fn rto_in_band(self) -> bool {
        MIN_RTO_MS <= self.rto_ms <= MAX_RTO_MS
    }

    /// A record that a peer can have: the timeout lies in the band, and the
    /// sequence numbers fit on the wire.
    pub open spec fn valid(self) -> bool {
        &&& self.rto_in_band()
        &&& self.next_seq_num <= u32::MAX
        &&& self.expected_seq_num <= u32::MAX
    }
}

/// The record of one peer.
#[derive(Debug, Clone, Copy)]
pub struct PeerState {
    next_seq_num: u32,
    expected_seq_num: u32,
    estimate: RttEstimate,
    rto_ms: u64,
}

impl View for PeerState {
    type V = PeerView;

    closed spec fn view(&self) -> PeerView {
        PeerView {
            next_seq_num: self.next_seq_num as nat,
            expected_seq_num: self.expected_seq_num as nat,
            estimate: self.estimate,
            rto_ms: self.rto_ms as nat,
        }
    }
}

impl Default for PeerState {
    fn default() -> (peer: Self)
        ensures
            peer@ == PeerView::fresh(),
    {
        PeerState {
            next_seq_num: 0,
            expected_seq_num: 0,
            estimate: RttEstimate { srtt_bits: 0, rttvar_bits: 0 },
            rto_ms: INITIAL_RTO_MS,
        }
    }
}

impl PeerState {
    #[verifier::type_invariant]
    spec fn well_formed(self) -> bool {
        MIN_RTO_MS <= self.rto_ms <= MAX_RTO_MS
    }

    /// Next sequence number to send to this peer.
    pub fn next_seq_num(&self) -> (n: u32)
        ensures
            n == self@.next_seq_num,
    {
        self.next_seq_num
    }

    /// Next sequence number expected from this peer.
    pub fn expected_seq_num(&self) -> (n: u32)
        ensures
            n == self@.expected_seq_num,
    {
        self.expected_seq_num
    }

    /// The round-trip estimate for this peer.
    pub fn estimate(&self) -> (estimate: RttEstimate)
        ensures
            estimate == self@.estimate,
    {
        self.estimate
    }

    /// The retransmission timeout for this peer, in milliseconds. It never
    /// leaves the band.
    pub fn rto_ms(&self) -> (rto_ms: u64)
        ensures
            rto_ms == self@.rto_ms,
            self@.rto_in_band(),
    {
        proof {
            use_type_invariant(self);
        }
        self.rto_ms
    }

    /// Takes over a fresh round-trip estimate and recalculates the
    /// retransmission timeout from it. `timeout_ms` is the smoothed round-trip
    /// time plus four times its variation, in whole milliseconds; the timeout is
    /// that, brought into the band. Returns the new timeout.
    pub fn update_rto(&mut self, estimate: RttEstimate, timeout_ms: u64) -> (rto_ms: u64)
        ensures
            final(self)@ == old(self)@.estimated(estimate, timeout_ms as nat),
            rto_ms == final(self)@.rto_ms,
            final(self)@.rto_in_band(),
    {
        proof {
            use_type_invariant(&*self);
        }
        let rto_ms: u64 = if timeout_ms < MIN_RTO_MS {
            MIN_RTO_MS
        } else if timeout_ms > MAX_RTO_MS {
            MAX_RTO_MS
        } else {
            timeout_ms
        };
        self.estimate = estimate;
        self.rto_ms = rto_ms;
        rto_ms
    }

    /// Exponential backoff: each successive timeout doubles the wait, capped.
    /// The backed-off value stays in force until `update_rto` replaces it.
    /// Returns the new timeout.
    pub fn back_off(&mut self) -> (rto_ms: u64)
        ensures
            final(self)@ == old(self)@.backed_off(),
            rto_ms == final(self)@.rto_ms,
            final(self)@.rto_in_band(),
    {
        proof {
            use_type_invariant(&*self);
        }
        let doubled: u64 = 2 * self.rto_ms;
        self.rto_ms = if doubled > MAX_RTO_MS {
            MAX_RTO_MS
        } else {
            doubled
        };
        self.rto_ms
    }

    /// Moves on to the next sequence number to send.
    pub fn advance_next(&mut self)
        requires
            old(self)@.next_seq_num < u32::MAX,
        ensures
            final(self)@ == old(self)@.acknowledged(),
    {
        proof {
            use_type_invariant(&*self);
        }
        self.next_seq_num = self.next_seq_num + 1;
    }

    /// Moves on to the next sequence number to expect.
    pub fn advance_expected(&mut self)
        requires
            old(self)@.expected_seq_num < u32::MAX,
        ensures
            final(self)@ == old(self)@.delivered(),
    {
        proof {
            use_type_invariant(&*self);
        }
        self.expected_seq_num = self.expected_seq_num + 1;
    }
}

/// The peer after a number of timeouts in a row.
pub open spec fn backed_off_times(peer: PeerView, timeouts: nat) -> PeerView
    decreases timeouts,
{
    if timeouts == 0 {
        peer
    } else {
        backed_off_times(peer, (timeouts - 1) as nat).backed_off()
    }
}

/// Successive timeouts compound: after each one the wait is twice what it was,
/// up to the ceiling. Nothing else about the peer changes.
pub proof fn backoff_is_exponential(peer: PeerView, timeouts: nat)
    requires
        peer.rto_in_band(),
    ensures
        backed_off_times(peer, timeouts) == (PeerView {
            rto_ms: min_nat(peer.rto_ms * pow2(timeouts), MAX_RTO_MS as nat),
            ..peer
        }),
    decreases timeouts,
{
    if timeouts == 0 {
        lemma2_to64();
    } else {
        let before = (timeouts - 1) as nat;
        backoff_is_exponential(peer, before);
        lemma_pow2_unfold(timeouts);
        assert(peer.rto_ms * pow2(timeouts) == 2 * (peer.rto_ms * pow2(before)))
            by (nonlinear_arith)
            requires
                pow2(timeouts) == 2 * pow2(before),
        ;
    }
}

/// A new peer's timeout lies in the band, and nothing that happens to a peer
/// takes it out of the band.
pub proof fn rto_stays_in_band(peer: PeerView, estimate: RttEstimate, timeout_ms: nat)
    ensures
        PeerView::fresh().rto_in_band(),
        peer.estimated(estimate, timeout_ms).rto_in_band(),
        peer.rto_in_band() ==> {
            &&& peer.backed_off().rto_in_band()
            &&& peer.acknowledged().rto_in_band()
            &&& peer.delivered().rto_in_band()
        },
{
}

} // verus!
