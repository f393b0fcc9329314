# ironlink_rudp

A reliable, ordered datagram protocol over UDP: stop-and-wait with
acknowledgements, a retransmission timeout learned per peer, exponential backoff
and bounded retries. The protocol core is written and proved in Verus; it does no
I/O. A send or a receive is a state machine that says what is to be done next and
takes in what happened.

* `src/packet.rs`: the five-byte header, to and from bytes
* `src/addr.rs`, `src/table.rs`: peer addresses in plain numbers, and a table by address
* `src/peer.rs`: sequence numbers and the retransmission timeout of one peer
* `src/stats.rs`: the counters of a socket
* `src/socket.rs`, `src/socket/send.rs`, `src/socket/receive.rs`: the socket, sending, receiving
* `src/report.rs`: what a receiving program prints about its traffic
* `src/laws/`: what holds over many steps, up to exactly-once, in-order delivery
* `app/`: the UDP socket, the floating-point arithmetic of the round-trip
  estimate and of the telemetry, and a program that runs as the benchmark client
  or as the listening server

Three things in `src/stats.rs` are taken on trust: the type `std::time::Instant`
and the two functions that read the clock, of whose results nothing is claimed.
