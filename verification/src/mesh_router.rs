//! The mesh router: it owns a radio, a network manager and a routing
//! policy, and turns application payloads and received batches into radio
//! calls — exactly one radio call per transition.

use vstd::prelude::*;

use crate::codec::frame_views;
use crate::network_manager::{
    spec_payload_to_send, wrap16, NetworkManager, NetworkManagerError, NmView,
};
use crate::node::MHNode;
use crate::packet::{FrameView, MHPacket};
use crate::policy::{GatewayPolicy, MacPolicy, RoutingPolicy};

verus! {

/// Why a router operation failed: the network manager refused, or the
/// radio did.
#[derive(Debug)]
pub enum MeshRouterError<E> {
    /// The network manager refused the turn.
    Manager(NetworkManagerError),
    /// The radio failed; the manager keeps its state and the next turn
    /// retries.
    Node(E),
}

impl<E> From<NetworkManagerError> for MeshRouterError<E> {
    fn from(err: NetworkManagerError) -> (r: Self) {
        MeshRouterError::Manager(err)
    }
}

impl<E> vstd::std_specs::convert::FromSpecImpl<NetworkManagerError> for MeshRouterError<E> {
    open spec fn obeys_from_spec() -> bool {
        true
    }

    open spec fn from_spec(t: NetworkManagerError) -> Self {
        MeshRouterError::Manager(t)
    }
}

/// Relies on std::time::SystemTime::now: the clock's current reading,
/// taken as whole seconds since the Unix epoch (zero if the clock stands
/// before the epoch). Nothing is assumed of the value.
#[verifier::external_body]
fn now_secs() -> u64 {
    match std::time::SystemTime::now().duration_since(std::time::UNIX_EPOCH) {
        Ok(d) => d.as_secs(),
        Err(_) => 0,
    }
}

/// Mathematical image of a router: its manager and its transmit queue.
/// The radio and the policy tags carry no modelled state.
#[verifier::ext_equal]
pub ghost struct RouterView {
    pub nm: NmView,
    pub tx_queue: Seq<FrameView>,
}

/// Ties a radio, a network manager and a routing policy together. The
/// router is the sole mutator of both; frames flow through by value.
pub struct MeshRouter<Node, Mac, Routing, const SIZE: usize, const LEN: usize> where
    Node: MHNode<SIZE, LEN>,
    Routing: RoutingPolicy<SIZE, LEN>,
    Mac: MacPolicy<Node, SIZE, LEN>,
 {
    node: Node,
    manager: NetworkManager<SIZE, LEN>,
    routing_policy: Routing,
    mac_policy: Mac,
    tx_queue: Vec<MHPacket<SIZE>>,
}

impl<Node, Mac, Routing, const SIZE: usize, const LEN: usize> View for MeshRouter<
    Node,
    Mac,
    Routing,
    SIZE,
    LEN,
> where
    Node: MHNode<SIZE, LEN>,
    Routing: RoutingPolicy<SIZE, LEN>,
    Mac: MacPolicy<Node, SIZE, LEN>,
 {
    type V = RouterView;

    closed spec fn view(&self) -> RouterView {
        RouterView { nm: self.manager@, tx_queue: frame_views(self.tx_queue@) }
    }
}

impl<Node, Mac, Routing, const SIZE: usize, const LEN: usize> MeshRouter<
    Node,
    Mac,
    Routing,
    SIZE,
    LEN,
> where
    Node: MHNode<SIZE, LEN>,
    Routing: RoutingPolicy<SIZE, LEN>,
    Mac: MacPolicy<Node, SIZE, LEN>,
 {
    /// The manager is well formed and the transmit queue fits `LEN`.
    pub open spec fn wf(self) -> bool {
        &&& self@.nm.wf()
        &&& self@.nm.cap == LEN as int
        &&& self@.nm.size == SIZE as int
        &&& self@.tx_queue.len() <= LEN
    }

    /// Moves radio, manager and policies in; no radio call is made.
    pub fn new(node: Node, manager: NetworkManager<SIZE, LEN>, mac_policy: Mac, routing: Routing)
        -> (r: Self)
        requires
            manager.wf(),
        ensures
            r.wf(),
            r@.nm == manager@,
            r@.tx_queue == Seq::<FrameView>::empty(),
    {
        let r = MeshRouter { node, manager, routing_policy: routing, mac_policy, tx_queue: Vec::new() };
        proof {
            assert(r@.tx_queue =~= Seq::<FrameView>::empty());
        }
        r
    }

    /// How many frames the manager still waits to hear acknowledged.
    pub fn get_pending_count(&self) -> (r: usize)
        ensures
            r == self@.nm.pending.len(),
    {
        self.manager.get_pending_count()
    }

    /// Runs one `payload_to_send` turn on the manager and parks the whole
    /// batch on the transmit queue instead of the air. Fails with
    /// `BufferFull` when the queue cannot take the whole batch; the frames
    /// that fit stay queued.
    #[verifier::loop_isolation(false)]
    pub fn queu_payload(&mut self, payload: Vec<u8>, destination: u8) -> (r: Result<
        (),
        MeshRouterError<Node::Error>,
    >)
        requires
            old(self).wf(),
        ensures
            final(self).wf(),
            exists|now: u64|
                {
                    let s = #[trigger] spec_payload_to_send(
                        old(self)@.nm,
                        payload@,
                        destination,
                        now,
                    );
                    let tq0 = old(self)@.tx_queue;
                    let tq1 = final(self)@.tx_queue;
                    &&& final(self)@.nm == s.nm
                    &&& match r {
                        Ok(()) => s.res matches Ok(batch) && tq1 == tq0 + batch,
                        Err(MeshRouterError::Manager(e)) => {
                            ||| (s.res == Err::<Seq<FrameView>, NetworkManagerError>(e) && tq1
                                == tq0)
                            ||| (e == NetworkManagerError::BufferFull && (s.res matches Ok(batch)
                                && tq0.len() + batch.len() > LEN && tq1 == tq0 + batch.take(
                                LEN - tq0.len(),
                            )))
                        },
                        Err(MeshRouterError::Node(_)) => false,
                    }
                },
    {
        let now = now_secs();
        let ghost s = spec_payload_to_send(self@.nm, payload@, destination, now);
        let pkts = match self.manager.payload_to_send(payload, destination, now) {
            Ok(pkts) => pkts,
            Err(e) => {
                return Err(MeshRouterError::Manager(e));
            },
        };
        let ghost batch = frame_views(pkts@);
        let ghost tq0 = frame_views(self.tx_queue@);
        let mut i: usize = 0;
        proof {
            assert(batch.take(0) =~= Seq::<FrameView>::empty());
            assert(frame_views(self.tx_queue@) =~= tq0 + batch.take(0));
        }
        while i < pkts.len()
            invariant
                i <= pkts@.len(),
                batch == frame_views(pkts@),
                frame_views(self.tx_queue@) == tq0 + batch.take(i as int),
                self.tx_queue@.len() <= LEN,
                self.tx_queue@.len() == tq0.len() + i,
                forall|k: int| 0 <= k < pkts@.len() ==> (#[trigger] pkts@[k]).wf(),
                self.manager@ == s.nm,
            decreases pkts@.len() - i,
        {
            if self.tx_queue.len() >= LEN {
                proof {
                    assert(frame_views(self.tx_queue@) =~= tq0 + batch.take(
                        LEN - tq0.len() as int,
                    ));
                }
                return Err(MeshRouterError::Manager(NetworkManagerError::BufferFull));
            }
            let ghost tq_prev = self.tx_queue@;
            let pkt = pkts[i].duplicate();
            self.tx_queue.push(pkt);
            i = i + 1;
            proof {
                assert(frame_views(self.tx_queue@) =~= frame_views(tq_prev).push(
                    self.tx_queue@.last()@,
                ));
                assert(batch.take(i as int).drop_last() =~= batch.take(i - 1));
                assert(frame_views(self.tx_queue@) =~= tq0 + batch.take(i as int));
            }
        }
        proof {
            assert(batch.take(pkts@.len() as int) =~= batch);
        }
        Ok(())
    }

    /// Awaits another node's transmission; one radio call, no state change.
    pub fn listen(&mut self, rec_buf: &mut Node::ReceiveBuffer) -> (r: Result<
        Node::Connection,
        MeshRouterError<Node::Error>,
    >)
        requires
            old(self).wf(),
        ensures
            final(self).wf(),
            final(self)@ == old(self)@,
    {
        match self.node.listen(rec_buf, false) {
            Ok(c) => Ok(c),
            Err(e) => Err(MeshRouterError::Node(e)),
        }
    }

    /// Runs one `payload_to_send` turn on the manager and transmits the
    /// whole batch — due retransmissions first, the new frame last — in
    /// one radio call. On a radio error the pending entries remain, so the
    /// next turn resends.
    pub fn send_payload(&mut self, payload: Vec<u8>, destination: u8) -> (r: Result<
        (),
        MeshRouterError<Node::Error>,
    >)
        requires
            old(self).wf(),
        ensures
            final(self).wf(),
            final(self)@.tx_queue == old(self)@.tx_queue,
            exists|now: u64|
                {
                    let s = #[trigger] spec_payload_to_send(
                        old(self)@.nm,
                        payload@,
                        destination,
                        now,
                    );
                    &&& final(self)@.nm == s.nm
                    &&& match r {
                        Ok(()) => s.res is Ok,
                        Err(MeshRouterError::Manager(e)) => s.res == Err::<
                            Seq<FrameView>,
                            NetworkManagerError,
                        >(e),
                        Err(MeshRouterError::Node(_)) => s.res is Ok,
                    }
                },
    {
        let now = now_secs();
        let pkts = match self.manager.payload_to_send(payload, destination, now) {
            Ok(pkts) => pkts,
            Err(e) => {
                return Err(MeshRouterError::Manager(e));
            },
        };
        match self.node.transmit(pkts.as_slice()) {
            Ok(()) => Ok(()),
            Err(e) => Err(MeshRouterError::Node(e)),
        }
    }

    /// One receive turn: decodes a batch from the radio, lets the policy
    /// split it, transmits what must go on (when anything must), and hands
    /// back the frames for the application. At most two radio calls, and
    /// the manager changes exactly by the policy's transformation of the
    /// batch that the radio decoded.
    pub fn receive(&mut self, conn: Node::Connection, receiving_buffer: &Node::ReceiveBuffer) -> (r:
        Result<Vec<MHPacket<SIZE>>, MeshRouterError<Node::Error>>)
        requires
            old(self).wf(),
        ensures
            final(self).wf(),
            final(self)@.tx_queue == old(self)@.tx_queue,
            exists|batch: Seq<FrameView>, now: u64|
                {
                    let (nm2, snd, app) = #[trigger] Routing::spec_process(
                        old(self)@.nm,
                        batch,
                        now,
                    );
                    match r {
                        Ok(my) => final(self)@.nm == nm2 && frame_views(my@) == app && (forall|
                            i: int,
                        | 0 <= i < my@.len() ==> (#[trigger] my@[i]).wf()),
                        Err(MeshRouterError::Node(_)) => final(self)@.nm == old(self)@.nm
                            || final(self)@.nm == nm2,
                        Err(MeshRouterError::Manager(_)) => false,
                    }
                },
    {
        let pkts = match self.node.receive(conn, receiving_buffer) {
            Ok(pkts) => pkts,
            Err(e) => {
                proof {
                    // The manager is untouched, so any batch witnesses the
                    // radio-error case; take the empty one.
                    let w = Routing::spec_process(old(self)@.nm, Seq::<FrameView>::empty(), 0);
                }
                return Err(MeshRouterError::Node(e));
            },
        };
        let ghost batch = frame_views(pkts@);
        let now = now_secs();
        let (to_send, my_pkt) = match Routing::process_packets(&mut self.manager, pkts, now) {
            Ok(x) => x,
            Err(e) => {
                proof {
                    assert(false);
                }
                return Err(MeshRouterError::Manager(e));
            },
        };
        if to_send.len() > 0 {
            match self.node.transmit(to_send.as_slice()) {
                Ok(()) => {},
                Err(e) => {
                    return Err(MeshRouterError::Node(e));
                },
            }
        }
        Ok(my_pkt)
    }
}

impl<Node, Mac, const SIZE: usize, const LEN: usize> MeshRouter<
    Node,
    Mac,
    GatewayPolicy,
    SIZE,
    LEN,
> where Node: MHNode<SIZE, LEN>, Mac: MacPolicy<Node, SIZE, LEN> {
    /// The gateway's announcement on startup: mints the beacon that tells
    /// every node its distance to the gateway, and transmits it as a
    /// single-frame batch.
    pub fn bootup(&mut self) -> (r: Result<(), MeshRouterError<Node::Error>>)
        requires
            old(self).wf(),
        ensures
            final(self).wf(),
            final(self)@.tx_queue == old(self)@.tx_queue,
            final(self)@.nm == (NmView {
                next_packet_id: wrap16(old(self)@.nm.next_packet_id + 1),
                ..old(self)@.nm
            }),
    {
        let bootup_pkt = match self.manager.handle_bootup() {
            Ok(p) => p,
            Err(e) => {
                return Err(MeshRouterError::Manager(e));
            },
        };
        let mut batch: Vec<MHPacket<SIZE>> = Vec::new();
        batch.push(bootup_pkt);
        match self.node.transmit(batch.as_slice()) {
            Ok(()) => Ok(()),
            Err(e) => Err(MeshRouterError::Node(e)),
        }
    }
}

} // verus!
