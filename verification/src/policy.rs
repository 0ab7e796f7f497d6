//! The routing policies: how a node or a gateway turns a received batch
//! into frames to send on and frames for the application, and the
//! medium-access hook.

use vstd::prelude::*;

use crate::codec::frame_views;
use crate::network_manager::{
    spec_handle_packets, NetworkManager, NetworkManagerError, NmView,
};
use crate::node::MHNode;
use crate::packet::{FrameView, MHPacket, PacketType};

verus! {

/// A compile-time strategy: given the network manager and a received
/// batch, what to send on and what to keep for the application.
pub trait RoutingPolicy<const SIZE: usize, const LEN: usize>: Sized {
    /// The policy's transformation, mathematically: the manager after the
    /// batch, the frames to send on, and the frames for the application.
    spec fn spec_process(nm: NmView, pkts: Seq<FrameView>, now: u64) -> (
        NmView,
        Seq<FrameView>,
        Seq<FrameView>,
    );

    /// Splits a received batch into frames to send on and frames for the
    /// application, exactly as `spec_process` says.
    fn process_packets(
        manager: &mut NetworkManager<SIZE, LEN>,
        pkts: Vec<MHPacket<SIZE>>,
        now: u64,
    ) -> (r: Result<(Vec<MHPacket<SIZE>>, Vec<MHPacket<SIZE>>), NetworkManagerError>)
        requires
            old(manager).wf(),
            forall|i: int| 0 <= i < pkts@.len() ==> (#[trigger] pkts@[i]).wf(),
        ensures
            final(manager).wf(),
            ({
                let (nm2, snd, app) = Self::spec_process(old(manager)@, frame_views(pkts@), now);
                &&& final(manager)@ == nm2
                &&& r matches Ok((to_send, to_app)) && frame_views(to_send@) == snd
                    && frame_views(to_app@) == app && (forall|i: int|
                    0 <= i < to_send@.len() ==> (#[trigger] to_send@[i]).wf()) && (forall|i: int|
                    0 <= i < to_app@.len() ==> (#[trigger] to_app@[i]).wf())
            }),
    ;
}

/// The policy of an ordinary node: the network manager decides everything.
pub struct NodePolicy;

impl<const SIZE: usize, const LEN: usize> RoutingPolicy<SIZE, LEN> for NodePolicy {
    open spec fn spec_process(nm: NmView, pkts: Seq<FrameView>, now: u64) -> (
        NmView,
        Seq<FrameView>,
        Seq<FrameView>,
    ) {
        let b = spec_handle_packets(nm, pkts, now);
        (b.nm, b.to_send, b.to_app)
    }

    fn process_packets(
        manager: &mut NetworkManager<SIZE, LEN>,
        pkts: Vec<MHPacket<SIZE>>,
        now: u64,
    ) -> (r: Result<(Vec<MHPacket<SIZE>>, Vec<MHPacket<SIZE>>), NetworkManagerError>) {
        manager.handle_packets(pkts, now)
    }
}

/// The acknowledgement a gateway synthesizes for a heard frame.
pub open spec fn gw_ack_for(f: FrameView) -> FrameView {
    FrameView {
        destination_id: f.source_id,
        packet_type: PacketType::Ack,
        packet_id: f.packet_id,
        source_id: f.destination_id,
        payload: Seq::empty(),
        hop_count: 0,
        hop_to_gw: 0,
    }
}

/// Whether the gateway acknowledges a frame: it is no acknowledgement
/// itself, it is not the gateway's own, and no acknowledgement for the
/// same origin and packet id stands in the batch's acknowledgements yet.
pub open spec fn gw_wants_ack(own_id: u8, acks: Seq<FrameView>, f: FrameView) -> bool {
    &&& f.packet_type != PacketType::Ack
    &&& f.source_id != own_id
    &&& !(exists|k: int|
        0 <= k < acks.len() && (#[trigger] acks[k]).destination_id == f.source_id
            && acks[k].packet_id == f.packet_id)
}

/// The acknowledgements a gateway emits for a batch, in batch order, one
/// per distinct frame key.
pub open spec fn gw_acks(own_id: u8, pkts: Seq<FrameView>) -> Seq<FrameView>
    decreases pkts.len(),
{
    if pkts.len() == 0 {
        Seq::empty()
    } else {
        let prev = gw_acks(own_id, pkts.drop_last());
        if gw_wants_ack(own_id, prev, pkts.last()) {
            prev.push(gw_ack_for(pkts.last()))
        } else {
            prev
        }
    }
}

/// The gateway's policy: it leaves the manager alone, answers every frame
/// it did not send itself with one acknowledgement per frame key, and
/// hands the whole batch to the application, duplicates included.
pub struct GatewayPolicy;

impl<const SIZE: usize, const LEN: usize> RoutingPolicy<SIZE, LEN> for GatewayPolicy {
    open spec fn spec_process(nm: NmView, pkts: Seq<FrameView>, now: u64) -> (
        NmView,
        Seq<FrameView>,
        Seq<FrameView>,
    ) {
        (nm, gw_acks(nm.source_id, pkts), pkts)
    }

    #[verifier::loop_isolation(false)]
    fn process_packets(
        manager: &mut NetworkManager<SIZE, LEN>,
        pkts: Vec<MHPacket<SIZE>>,
        now: u64,
    ) -> (r: Result<(Vec<MHPacket<SIZE>>, Vec<MHPacket<SIZE>>), NetworkManagerError>) {
        let ghost vs = frame_views(pkts@);
        let own_id = manager.source_id();
        let mut to_send: Vec<MHPacket<SIZE>> = Vec::new();
        let mut i: usize = 0;
        proof {
            assert(vs.take(0) =~= Seq::<FrameView>::empty());
            assert(frame_views(to_send@) =~= Seq::<FrameView>::empty());
        }
        while i < pkts.len()
            invariant
                i <= pkts@.len(),
                frame_views(to_send@) == gw_acks(own_id, vs.take(i as int)),
                forall|k: int| 0 <= k < to_send@.len() ==> (#[trigger] to_send@[k]).wf(),
            decreases pkts@.len() - i,
        {
            let ghost ts_prev = to_send@;
            let f = &pkts[i];
            proof {
                assert(*f == pkts@[i as int]);
                assert(vs.take(i + 1).drop_last() =~= vs.take(i as int));
                assert(vs.take(i + 1).last() == f@);
            }
            if f.packet_type != PacketType::Ack && f.source_id != own_id {
                let mut dup: bool = false;
                let mut k: usize = 0;
                while k < to_send.len()
                    invariant
                        k <= to_send@.len(),
                        dup ==> exists|t: int|
                            0 <= t < frame_views(to_send@).len() && (#[trigger] frame_views(
                                to_send@,
                            )[t]).destination_id == f@.source_id && frame_views(
                                to_send@,
                            )[t].packet_id == f@.packet_id,
                        !dup ==> forall|t: int|
                            0 <= t < k ==> !((#[trigger] frame_views(to_send@)[t]).destination_id
                                == f@.source_id && frame_views(to_send@)[t].packet_id
                                == f@.packet_id),
                    decreases to_send@.len() - k,
                {
                    let a = &to_send[k];
                    proof {
                        assert(*a == to_send@[k as int]);
                        assert(a@ == frame_views(to_send@)[k as int]);
                    }
                    if a.destination_id == f.source_id && a.packet_id == f.packet_id {
                        dup = true;
                    }
                    k = k + 1;
                }
                proof {
                    assert(dup == !gw_wants_ack(own_id, frame_views(ts_prev), f@));
                }
                if !dup {
                    let ack = MHPacket {
                        destination_id: f.source_id,
                        packet_type: PacketType::Ack,
                        packet_id: f.packet_id,
                        source_id: f.destination_id,
                        payload: Vec::new(),
                        hop_count: 0,
                        hop_to_gw: 0,
                    };
                    proof {
                        assert(ack@.payload =~= Seq::<u8>::empty());
                        assert(ack@ =~= gw_ack_for(f@));
                    }
                    to_send.push(ack);
                    proof {
                        assert(frame_views(to_send@) =~= frame_views(ts_prev).push(
                            to_send@.last()@,
                        ));
                    }
                }
            }
            i = i + 1;
        }
        proof {
            assert(vs.take(pkts@.len() as int) =~= vs);
        }
        Ok((to_send, pkts))
    }
}

/// A hook for medium access: how a node interleaves flushing its transmit
/// queue with listening. Reserved for carrier-sense or slotted variants.
pub trait MacPolicy<Node, const SIZE: usize, const LEN: usize>: Sized where
    Node: MHNode<SIZE, LEN>,
 {
    /// Runs one medium-access turn over the radio: empties the transmit
    /// queue onto the air, then listens for and decodes one batch.
    fn run_mac(
        &mut self,
        node: &mut Node,
        tx_queue: &mut Vec<MHPacket<SIZE>>,
        rx_buffer: &mut Node::ReceiveBuffer,
    ) -> (r: Result<Vec<MHPacket<SIZE>>, Node::Error>)
        ensures
            r matches Ok(pkts) ==> (forall|i: int|
                0 <= i < pkts@.len() ==> (#[trigger] pkts@[i]).wf()) && final(tx_queue)@.len()
                == 0,
    ;
}

/// Plain random access: transmit whatever waits, then listen.
pub struct RandomAccessMac;

impl<Node, const SIZE: usize, const LEN: usize> MacPolicy<Node, SIZE, LEN> for RandomAccessMac where
    Node: MHNode<SIZE, LEN>,
 {
    fn run_mac(
        &mut self,
        node: &mut Node,
        tx_queue: &mut Vec<MHPacket<SIZE>>,
        rx_buffer: &mut Node::ReceiveBuffer,
    ) -> (r: Result<Vec<MHPacket<SIZE>>, Node::Error>) {
        if tx_queue.len() > 0 {
            match node.transmit(tx_queue.as_slice()) {
                Ok(()) => {},
                Err(e) => {
                    return Err(e);
                },
            }
            tx_queue.clear();
        }
        let conn = match node.listen(rx_buffer, false) {
            Ok(c) => c,
            Err(e) => {
                return Err(e);
            },
        };
        node.receive(conn, rx_buffer)
    }
}

} // verus!
