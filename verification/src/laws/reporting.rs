//! What holds of the tally of traffic and of what is printed about it.

use crate::addr::PeerAddr;
use crate::report::{report_on, traffic_of, Report, Traffic, TrafficView};
use vstd::prelude::*;

verus! {

/// A payload is printed as text exactly if each of its bytes is a visible ASCII
/// character, a space, a tab, a line feed, a form feed or a carriage return. Of
/// any other payload a line with the counts is due once per thousand packets.
pub proof fn text_is_printed_and_the_rest_is_summed_up(data: Seq<u8>, traffic: TrafficView)
    requires
        traffic.packets <= usize::MAX,
        traffic.bytes <= usize::MAX,
    ensures
        ({
            let report = report_on(data, traffic);
            &&& report is Text <==> forall|i: int|
                0 <= i < data.len() ==> 33 <= #[trigger] data[i] <= 126 || data[i] == 32
                    || data[i] == 9 || data[i] == 10 || data[i] == 12 || data[i] == 13
            &&& report is Progress <==> !(report is Text) && traffic.packets % 1000 == 0
            &&& report matches Report::Progress { packets, bytes } ==> {
                &&& packets == traffic.packets
                &&& bytes == traffic.bytes
            }
        }),
{
}

/// The traffic of a peer is what its fields hold.
pub proof fn traffic_is_what_its_fields_hold(traffic: Traffic)
    ensures
        traffic@.packets == traffic.packets,
        traffic@.bytes == traffic.bytes,
{
}

/// The tally after a number of payloads.
pub open spec fn tally_after(payloads: Seq<(PeerAddr, Seq<u8>)>) -> Map<PeerAddr, TrafficView>
    decreases payloads.len(),
{
    if payloads.len() == 0 {
        Map::empty()
    } else {
        let seen = tally_after(payloads.drop_last());
        let (src, data) = payloads.last();
        seen.insert(src, traffic_of(seen, src).plus(data.len()))
    }
}

/// How many of the payloads are from this address.
pub open spec fn payload_count(payloads: Seq<(PeerAddr, Seq<u8>)>, src: PeerAddr) -> nat
    decreases payloads.len(),
{
    if payloads.len() == 0 {
        0
    } else if payloads.last().0 == src {
        payload_count(payloads.drop_last(), src) + 1
    } else {
        payload_count(payloads.drop_last(), src)
    }
}

/// How many bytes the payloads from this address have.
pub open spec fn byte_count(payloads: Seq<(PeerAddr, Seq<u8>)>, src: PeerAddr) -> nat
    decreases payloads.len(),
{
    if payloads.len() == 0 {
        0
    } else if payloads.last().0 == src {
        byte_count(payloads.drop_last(), src) + payloads.last().1.len()
    } else {
        byte_count(payloads.drop_last(), src)
    }
}

/// The tally of an address counts its own payloads, every one of them, and their
/// bytes, however they are mixed with those of others.
pub proof fn the_tally_adds_up(payloads: Seq<(PeerAddr, Seq<u8>)>, src: PeerAddr)
    ensures
        traffic_of(tally_after(payloads), src).packets == payload_count(payloads, src),
        traffic_of(tally_after(payloads), src).bytes == byte_count(payloads, src),
        tally_after(payloads).contains_key(src) <==> payload_count(payloads, src) > 0,
    decreases payloads.len(),
{
    if payloads.len() > 0 {
        the_tally_adds_up(payloads.drop_last(), src);
    }
}

} // verus!
