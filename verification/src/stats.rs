//! Counters of what a socket has put on the wire, and how long it has been open.

use std::time::{Duration, Instant};
use vstd::prelude::*;

verus! {

/// `std::time::Instant`: a reading of the monotonic clock. Nothing inside a
/// reading is visible here; it is only carried from one call to the next.
#[verifier::external_type_specification]
#[verifier::external_body]
pub struct ExInstant(Instant);

/// `std::time::Instant::now` reads the clock. What comes back depends on when
/// the call is made, so nothing is claimed of it.
pub assume_specification[ Instant::now ]() -> (now: Instant)
;

/// `std::time::Instant::elapsed` measures the time since a reading. What comes
/// back depends on when the call is made, so nothing is claimed of it.
pub assume_specification[ Instant::elapsed ](reading: &Instant) -> (elapsed: Duration)
;

/// The counters as numbers, and when they began.
pub struct StatsView {
    pub packets_sent: nat,
    pub retransmissions: nat,
    pub total_bytes_sent: nat,
    pub started: Instant,
}

#[derive(Debug)]
pub struct SocketStats {
    /// Packets put on the wire for the first time.
    pub packets_sent: usize,
    /// Packets put on the wire again.
    pub retransmissions: usize,
    /// Bytes put on the wire, headers, retransmissions and acknowledgements
    /// included.
    pub total_bytes_sent: usize,
    /// When this socket was opened.
    pub started: Instant,
}

impl View for SocketStats {
    type V = StatsView;

    open spec fn view(&self) -> StatsView {
        StatsView {
            packets_sent: self.packets_sent as nat,
            retransmissions: self.retransmissions as nat,
            total_bytes_sent: self.total_bytes_sent as nat,
            started: self.started,
        }
    }
}

impl Default for SocketStats {
    /// Counters of a socket that has sent nothing and is opened at what the clock
    /// says at the time of the call.
    fn default() -> (stats: Self)
        ensures
            stats@.is_fresh(),
            call_ensures(Instant::now, (), stats.started),
    {
        SocketStats {
            packets_sent: 0,
            retransmissions: 0,
            total_bytes_sent: 0,
            started: Instant::now(),
        }
    }
}

impl StatsView {
    /// The counters after one more datagram of `len` bytes, the `attempt`-th of
    /// its packet: the first one counts as a packet, every other one as a
    /// retransmission, and all of them count in bytes.
    pub open spec fn after_transmission(self, len: nat, attempt: nat) -> StatsView {
        StatsView {
            packets_sent: if attempt > 1 { self.packets_sent } else { self.packets_sent + 1 },
            retransmissions: if attempt > 1 {
                self.retransmissions + 1
            } else {
                self.retransmissions
            },
            total_bytes_sent: self.total_bytes_sent + len,
            started: self.started,
        }
    }

    /// The counters after an acknowledgement of `len` bytes: it counts in bytes
    /// and is neither a packet nor a retransmission.
    pub open spec fn after_acknowledgement(self, len: nat) -> StatsView {
        StatsView { total_bytes_sent: self.total_bytes_sent + len, ..self }
    }

    /// Nothing has been sent.
    pub open spec fn is_fresh(self) -> bool {
        &&& self.packets_sent == 0
        &&& self.retransmissions == 0
        &&& self.total_bytes_sent == 0
    }

    /// No counter is past what the machine can hold.
    pub open spec fn in_range(self) -> bool {
        &&& self.packets_sent <= usize::MAX
        &&& self.retransmissions <= usize::MAX
        &&& self.total_bytes_sent <= usize::MAX
    }
}

impl SocketStats {
    /// Time since the socket was opened: what the clock says, at the time of the
    /// call, has passed since that reading.
    pub fn elapsed(&self) -> (elapsed: Duration)
        ensures
            call_ensures(Instant::elapsed, (&self.started,), elapsed),
    {
        self.started.elapsed()
    }

    /// Counts one datagram of `len` bytes, the `attempt`-th of its packet.
    pub fn record_transmission(&mut self, len: usize, attempt: u32)
        requires
            old(self)@.after_transmission(len as nat, attempt as nat).in_range(),
        ensures
            final(self)@ == old(self)@.after_transmission(len as nat, attempt as nat),
    {
        self.total_bytes_sent = self.total_bytes_sent + len;
        if attempt > 1 {
            self.retransmissions = self.retransmissions + 1;
        } else {
            self.packets_sent = self.packets_sent + 1;
        }
    }

    /// Counts one acknowledgement of `len` bytes.
    pub fn record_acknowledgement(&mut self, len: usize)
        requires
            old(self)@.after_acknowledgement(len as nat).in_range(),
        ensures
            final(self)@ == old(self)@.after_acknowledgement(len as nat),
    {
        self.total_bytes_sent = self.total_bytes_sent + len;
    }
}

} // verus!
