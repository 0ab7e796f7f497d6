//! Network-wide guarantees of the routing core, proved once and for all
//! over the mathematical model that the executable functions are verified
//! against.

use vstd::prelude::*;

use crate::network_manager::{
    find_ack_match, spec_gc, spec_handle_packets, spec_mint, spec_payload_to_send,
    spec_receive_packet, BatchStep, NmView, PayloadType, RecvStep,
};
use crate::packet::{FrameView, PacketType};
use crate::recent_seen::lemma_ring_push_contains;

verus! {

/// Law: a data frame that the manager neither remembers nor awaits,
/// received twice in a row, draws exactly one synthesized acknowledgement
/// — on the second receipt — and reaches the application at most once, on
/// the first. (A frame whose first receipt put a matching entry into the
/// pending table is settled as a passive acknowledgement instead and is
/// excluded here.)
pub proof fn lemma_duplicate_gets_one_ack(nm: NmView, f: FrameView, now1: u64, now2: u64)
    requires
        nm.wf(),
        f.packet_type == PacketType::Data,
        !nm.recent.contains(f.key()),
        find_ack_match(nm.pending, f) is None,
        find_ack_match(spec_receive_packet(nm, f, now1).nm.pending, f) is None,
    ensures
        ({
            let s1 = spec_receive_packet(nm, f, now1);
            let s2 = spec_receive_packet(s1.nm, f, now2);
            &&& s2.res == Ok::<_, crate::network_manager::NetworkManagerError>(
                Some((f, PayloadType::ACK)),
            )
            &&& !(s1.res matches Ok(Some((p, t))) && t == PayloadType::ACK)
            &&& s2.nm == s1.nm
        }),
{
    let s1 = spec_receive_packet(nm, f, now1);
    lemma_ring_push_contains(nm.recent, f.key(), nm.cap);
    assert(s1.nm.recent.contains(f.key()));
}

/// Law: a gateway-bound data frame seen for the first time is forwarded
/// iff the node is strictly closer to the gateway than the frame's
/// current holder, and the forwarded frame then advertises the node's own
/// gateway distance; otherwise the frame is dropped.
pub proof fn lemma_gateway_forwarding(nm: NmView, f: FrameView, now: u64)
    requires
        nm.wf(),
        f.packet_type == PacketType::Data,
        f.destination_id == 1,
        nm.source_id != 1,
        !nm.recent.contains(f.key()),
        find_ack_match(nm.pending, f) is None,
        nm.pending.len() < nm.cap,
    ensures
        ({
            let s = spec_receive_packet(nm, f, now);
            &&& (nm.gw_hops < f.hop_to_gw <==> s.res == Ok::<
                _,
                crate::network_manager::NetworkManagerError,
            >(Some((FrameView { hop_to_gw: nm.gw_hops, ..f }, PayloadType::Data))))
            &&& (nm.gw_hops >= f.hop_to_gw ==> s.res == Ok::<
                Option<(FrameView, PayloadType)>,
                crate::network_manager::NetworkManagerError,
            >(None))
        }),
{
}

/// Law: a gateway beacon never worsens the gateway-distance estimate, and
/// a relay is emitted iff the beacon's hop count beats the estimate; a
/// beacon that does not beat it changes nothing.
pub proof fn lemma_bootup_monotone(nm: NmView, f: FrameView, now: u64)
    requires
        f.packet_type == PacketType::BootUp,
    ensures
        ({
            let s = spec_receive_packet(nm, f, now);
            &&& s.nm.gw_hops <= nm.gw_hops
            &&& (s.res == Ok::<_, crate::network_manager::NetworkManagerError>(
                Some((f, PayloadType::Bootup)),
            ) <==> f.hop_count < nm.gw_hops)
            &&& (f.hop_count >= nm.gw_hops ==> s == (RecvStep {
                nm,
                res: Ok::<_, crate::network_manager::NetworkManagerError>(None),
            }))
        }),
{
}

/// Law: a successful send turn emits the newly minted frame as the last
/// frame of the batch, and the pending table ends exactly one entry — the
/// new frame's — larger than its garbage-collected size.
pub proof fn lemma_send_payload_growth(nm: NmView, payload: Seq<u8>, destination: u8, now: u64)
    requires
        nm.wf(),
    ensures
        ({
            let s = spec_payload_to_send(nm, payload, destination, now);
            let kept = spec_gc(nm.pending, nm.max_retries, now);
            let frame = spec_mint(nm, payload, destination).1;
            s.res matches Ok(batch) ==> batch.len() >= 1 && batch.last() == frame
                && s.nm.pending.len() == kept.len() + 1 && s.nm.pending.last().frame == frame
        }),
{
    let kept = spec_gc(nm.pending, nm.max_retries, now);
    crate::network_manager::lemma_retransmit_len(kept, now, nm.cap - 1);
}

/// Law: an empty batch leaves the manager untouched and yields neither
/// frames to send nor frames for the application.
pub proof fn lemma_handle_packets_empty(nm: NmView, now: u64)
    ensures
        spec_handle_packets(nm, Seq::<FrameView>::empty(), now) == (BatchStep {
            nm,
            to_send: Seq::<FrameView>::empty(),
            to_app: Seq::<FrameView>::empty(),
        }),
{
}

} // verus!
