//! What a receiving program prints about its traffic: text as it comes, and
//! for anything else a line every so many packets.

use crate::addr::PeerAddr;
use crate::table::AddrTable;
use vstd::prelude::*;

verus! {

/// A line of progress is due once per this many packets.
pub const REPORT_INTERVAL: usize = 1000;

/// A visible ASCII character, `!` to `~`.
pub open spec fn is_graphic(b: u8) -> bool {
    0x21 <= b <= 0x7E
}

/// A space, tab, line feed, form feed or carriage return.
pub open spec fn is_blank(b: u8) -> bool {
    b == 0x20 || b == 0x09 || b == 0x0A || b == 0x0C || b == 0x0D
}

/// Every byte is visible ASCII or blank.
pub open spec fn is_text(data: Seq<u8>) -> bool {
    forall|i: int| 0 <= i < data.len() ==> is_graphic(#[trigger] data[i]) || is_blank(data[i])
}

/// Whether a payload can be printed as it is.
pub fn is_printable(data: &[u8]) -> (printable: bool)
    ensures
        printable == is_text(data@),
{
    let mut i: usize = 0;
    while i < data.len()
        invariant
            i <= data@.len(),
            forall|j: int| 0 <= j < i ==> is_graphic(#[trigger] data@[j]) || is_blank(data@[j]),
        decreases data@.len() - i,
    {
        let b: u8 = data[i];
        let graphic = 0x21 <= b && b <= 0x7E;
        let blank = b == 0x20 || b == 0x09 || b == 0x0A || b == 0x0C || b == 0x0D;
        if !graphic && !blank {
            return false;
        }
        i = i + 1;
    }
    true
}

/// Whether a line of progress is due after this many packets.
pub fn is_milestone(packets: usize) -> (due: bool)
    ensures
        due == (packets % REPORT_INTERVAL == 0),
{
    packets % REPORT_INTERVAL == 0
}

/// How much one peer has sent.
pub struct TrafficView {
    pub packets: nat,
    pub bytes: nat,
}

#[derive(Debug, Clone, Copy)]
pub struct Traffic {
    pub packets: usize,
    pub bytes: usize,
}

impl View for Traffic {
    type V = TrafficView;

    open spec fn view(&self) -> TrafficView {
        TrafficView { packets: self.packets as nat, bytes: self.bytes as nat }
    }
}

impl TrafficView {
    /// The traffic after one more payload.
    pub open spec fn plus(self, len: nat) -> TrafficView {
        TrafficView { packets: self.packets + 1, bytes: self.bytes + len }
    }
}

/// What is to be printed about a payload.
#[derive(Debug, PartialEq, Eq, Structural, Clone, Copy)]
pub enum Report {
    /// The payload itself.
    Text,
    /// How much the peer has sent so far.
    Progress { packets: usize, bytes: usize },
    /// Nothing.
    Quiet,
}

/// The report on a payload, given the peer's traffic with it counted.
pub open spec fn report_on(data: Seq<u8>, traffic: TrafficView) -> Report {
    if is_text(data) {
        Report::Text
    } else if traffic.packets % (REPORT_INTERVAL as nat) == 0 {
        Report::Progress { packets: traffic.packets as usize, bytes: traffic.bytes as usize }
    } else {
        Report::Quiet
    }
}

/// A tally of traffic per peer.
pub struct Tally {
    seen: AddrTable<Traffic>,
}

/// The traffic of a peer, nothing if it has not been seen.
pub open spec fn traffic_of(seen: Map<PeerAddr, TrafficView>, src: PeerAddr) -> TrafficView {
    if seen.contains_key(src) {
        seen[src]
    } else {
        TrafficView { packets: 0, bytes: 0 }
    }
}

impl View for Tally {
    type V = Map<PeerAddr, TrafficView>;

    closed spec fn view(&self) -> Map<PeerAddr, TrafficView> {
        self.seen@
    }
}

impl Tally {
    /// A tally of nothing.
    pub fn new() -> (tally: Self)
        ensures
            tally@ == Map::<PeerAddr, TrafficView>::empty(),
    {
        Tally { seen: AddrTable::new() }
    }

    /// How much a peer has sent so far.
    pub fn traffic(&self, src: PeerAddr) -> (traffic: Traffic)
        ensures
            traffic@ == traffic_of(self@, src),
    {
        match self.seen.get(src) {
            Some(traffic) => traffic,
            None => Traffic { packets: 0, bytes: 0 },
        }
    }

    /// Counts a payload and says what is to be printed about it.
    pub fn record(&mut self, src: PeerAddr, data: &[u8]) -> (report: Report)
        requires
            traffic_of(old(self)@, src).packets < usize::MAX,
            traffic_of(old(self)@, src).bytes + data@.len() <= usize::MAX,
        ensures
            final(self)@ == old(self)@.insert(
                src,
                traffic_of(old(self)@, src).plus(data@.len()),
            ),
            report == report_on(data@, traffic_of(old(self)@, src).plus(data@.len())),
    {
        let before = self.traffic(src);
        let packets: usize = before.packets + 1;
        let bytes: usize = before.bytes + data.len();
        self.seen.set(src, Traffic { packets, bytes });
        if is_printable(data) {
            Report::Text
        } else if is_milestone(packets) {
            Report::Progress { packets, bytes }
        } else {
            Report::Quiet
        }
    }
}

} // verus!
