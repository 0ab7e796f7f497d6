use std::collections::HashMap;
use std::sync::{Arc, Mutex};

use must_hop::mesh_router::MeshRouter;
use must_hop::network_manager::{NetworkManager, NetworkManagerError};
use must_hop::node::MHNode;
use must_hop::packet::{MHPacket, PacketType};
use must_hop::policy::{GatewayPolicy, MacPolicy, NodePolicy, RandomAccessMac};

const SIZE: usize = 40;
const LEN: usize = 5;

struct MockRadio {
    air: Arc<Mutex<Vec<MHPacket<SIZE>>>>,
}

impl MHNode<SIZE, LEN> for MockRadio {
    type Error = NetworkManagerError;
    type Connection = ();
    type ReceiveBuffer = Vec<u8>;

    fn listen(&mut self, _rec_buf: &mut Vec<u8>, _with_timeout: bool) -> Result<(), Self::Error> {
        Ok(())
    }

    fn receive(
        &mut self,
        _conn: Self::Connection,
        _rec_buf: &Vec<u8>,
    ) -> Result<Vec<MHPacket<SIZE>>, Self::Error> {
        let mut air = self.air.lock().unwrap();
        let mut rec_vec: Vec<MHPacket<SIZE>> = Vec::new();
        // FIFO: take the oldest frames first.
        while !air.is_empty() {
            if rec_vec.len() == LEN {
                break;
            }
            rec_vec.push(air.remove(0));
        }
        Ok(rec_vec)
    }

    fn transmit(&mut self, packets: &[MHPacket<SIZE>]) -> Result<(), Self::Error> {
        let mut vc = self.air.lock().unwrap();
        for pkt in packets {
            vc.push(pkt.clone());
        }
        Ok(())
    }
}

fn create_air() -> Arc<Mutex<Vec<MHPacket<SIZE>>>> {
    Arc::new(Mutex::new(Vec::new()))
}

fn node_router(
    air: &Arc<Mutex<Vec<MHPacket<SIZE>>>>,
    id: u8,
) -> MeshRouter<MockRadio, RandomAccessMac, NodePolicy, SIZE, LEN> {
    MeshRouter::new(
        MockRadio { air: air.clone() },
        NetworkManager::<SIZE, LEN>::new(id, 5, 3),
        RandomAccessMac,
        NodePolicy,
    )
}

#[test]
fn two_node_network_simulation_test_node_to_node_logic() {
    let air = create_air();
    let mut router_a = node_router(&air, 1);
    let msg_to_send = vec![0xAA, 0xBB];

    // Let this be for node_b
    router_a.send_payload(msg_to_send.clone(), 2).unwrap();
    assert_eq!(router_a.get_pending_count(), 1);

    // Now assume node B heard everything perfectly
    let mut router_b = node_router(&air, 2);
    let rec_packets = msg_to_send;
    // This returns the list of packets for node B; destination 2 is node B.
    let res = router_b.receive((), &rec_packets).unwrap();
    assert_eq!(res.len(), 1);
}

#[test]
fn test_forwarding_and_passive_ack() {
    let air = create_air();
    // Scenario: Node A (1) -> Node B (2) -> Node C (3)
    // Node A sends to C. B is the intermediate hop.
    let mut router_a = node_router(&air, 1);
    let mut router_b = node_router(&air, 2);

    // 1. A sends packet to C (Destination 3)
    let msg = vec![0xCA, 0xFE];
    router_a.send_payload(msg.clone(), 3).unwrap();

    // CHECK: A should have 1 pending packet waiting for confirmation
    assert_eq!(router_a.get_pending_count(), 1, "Node A should have packet in pending");

    // 2. B Receives
    // B should see dest=3, source=1. Since B!=3, it should NOT return it as
    // a message for B. Instead, it should automatically queue it for
    // retransmission.
    let res = router_b.receive((), &Vec::new()).unwrap();
    assert_eq!(res.len(), 0, "Node B should not process data meant for Node C");

    // CHECK: Did B put the packet back into the air (retransmit)?
    {
        let air = air.lock().unwrap();
        assert_eq!(air.len(), 1, "B should have retransmitted the packet");
        assert_eq!(air[0].destination_id, 3); // Dest is still C
    }

    // 3. A Listens (Passive ACK)
    // A hears the packet B just transmitted: its own packet id
    // re-broadcast by someone else counts as an acknowledgement.
    let _ = router_a.receive((), &Vec::new()).unwrap();

    // CHECK: A's pending list should now be empty
    assert_eq!(
        router_a.get_pending_count(),
        0,
        "Node A should clear pending after hearing retransmission"
    );
}

#[test]
fn test_multiple_packets_fifo_order() {
    let air = create_air();
    let mut router_a = node_router(&air, 1);
    let mut router_b = node_router(&air, 2);

    let msg1 = vec![0x01];
    let msg2 = vec![0x02];
    let msg3 = vec![0x03];

    // 1. A sends three packets in sequence
    router_a.send_payload(msg1, 2).unwrap();
    assert_eq!(router_a.get_pending_count(), 1);
    router_a.send_payload(msg2, 2).unwrap();
    assert_eq!(router_a.get_pending_count(), 2);
    router_a.send_payload(msg3, 2).unwrap();
    assert_eq!(router_a.get_pending_count(), 3);

    // 2. B receives them. Should be in order 1 -> 2 -> 3
    let res1 = router_b.receive((), &Vec::new()).unwrap();
    assert_eq!(router_b.get_pending_count(), 0);
    assert_eq!(res1.len(), 3);
    assert_eq!(res1[0].payload[0], 0x01, "Should receive msg1 first");
    assert_eq!(res1[1].payload[0], 0x02, "Should receive msg2 second");
    assert_eq!(res1[2].payload[0], 0x03, "Should receive msg3 third");
}

#[test]
fn test_send_and_ack() {
    let air = create_air();
    let mut router_a = node_router(&air, 1);
    let mut router_b = node_router(&air, 2);
    let msg1 = vec![0x01];

    router_a.send_payload(msg1, 3).unwrap();
    assert_eq!(router_a.get_pending_count(), 1);

    // Node B now receives these
    let res1 = router_b.receive((), &Vec::new()).unwrap();
    // These packages were not meant for us, so we should not receive
    // anything here
    assert_eq!(res1.len(), 0);
    // But router b should have sent a new package, and have a pending ack
    assert_eq!(router_b.get_pending_count(), 1);

    // And should've also sent a package over the air, which router A can
    // receive
    let res2 = router_a.receive((), &Vec::new()).unwrap();
    assert_eq!(res2.len(), 0);
    // And node A should've removed the package now
    assert_eq!(router_a.get_pending_count(), 0);
}

#[test]
fn test_two_node_delivery() {
    let air = create_air();
    let mut router_a = node_router(&air, 1);
    let mut router_b = node_router(&air, 2);

    router_a.send_payload(vec![0xAA, 0xBB], 2).unwrap();

    // Exactly one frame on air, with every field as minted.
    let frame = {
        let air = air.lock().unwrap();
        assert_eq!(air.len(), 1);
        let f = &air[0];
        assert_eq!(f.destination_id, 2);
        assert_eq!(f.source_id, 1);
        assert_eq!(f.packet_id, 1);
        assert_eq!(f.packet_type, PacketType::Data);
        assert_eq!(f.payload, vec![0xAA, 0xBB]);
        assert_eq!(f.hop_count, 0);
        assert_eq!(f.hop_to_gw, 255);
        f.clone()
    };
    assert_eq!(router_a.get_pending_count(), 1);

    // B hears it: exactly this frame reaches B's application.
    let to_app = router_b.receive((), &Vec::new()).unwrap();
    assert_eq!(to_app, vec![frame.clone()]);

    // A retransmits after its timeout; B answers the duplicate with an
    // acknowledgement, and hearing it clears A's pending entry.
    air.lock().unwrap().push(frame);
    let to_app = router_b.receive((), &Vec::new()).unwrap();
    assert_eq!(to_app.len(), 0);
    {
        let air = air.lock().unwrap();
        assert_eq!(air.len(), 1);
        assert_eq!(air[0].packet_type, PacketType::Ack);
        assert_eq!(air[0].destination_id, 1);
    }
    let _ = router_a.receive((), &Vec::new()).unwrap();
    assert_eq!(router_a.get_pending_count(), 0);
}

#[test]
fn test_gateway_ack_storm_avoidance() {
    let air = create_air();
    let mut gateway = MeshRouter::new(
        MockRadio { air: air.clone() },
        NetworkManager::<SIZE, LEN>::new(1, 5, 3),
        RandomAccessMac,
        GatewayPolicy,
    );

    // Three duplicates of the same frame arrive in one batch.
    let dup = MHPacket::<SIZE> {
        destination_id: 1,
        packet_type: PacketType::Data,
        packet_id: 42,
        source_id: 5,
        payload: vec![0x11],
        hop_count: 0,
        hop_to_gw: 255,
    };
    {
        let mut a = air.lock().unwrap();
        a.push(dup.clone());
        a.push(dup.clone());
        a.push(dup.clone());
    }

    // The application sees all three; the air carries one ACK only.
    let to_app = gateway.receive((), &Vec::new()).unwrap();
    assert_eq!(to_app.len(), 3);
    let air = air.lock().unwrap();
    assert_eq!(air.len(), 1);
    assert_eq!(air[0].packet_type, PacketType::Ack);
    assert_eq!(air[0].destination_id, 5);
    assert_eq!(air[0].packet_id, 42);
}

#[test]
fn test_bootup_propagation() {
    let air = create_air();
    let mut gateway = MeshRouter::new(
        MockRadio { air: air.clone() },
        NetworkManager::<SIZE, LEN>::new(1, 5, 3),
        RandomAccessMac,
        GatewayPolicy,
    );
    let mut node_x = node_router(&air, 10);
    let mut node_y = node_router(&air, 11);

    // The gateway announces itself.
    gateway.bootup().unwrap();
    {
        let air = air.lock().unwrap();
        assert_eq!(air.len(), 1);
        assert_eq!(air[0].packet_type, PacketType::BootUp);
        assert_eq!(air[0].packet_id, 1);
        assert_eq!(air[0].hop_count, 0);
    }

    // X hears the beacon, learns distance 1, and relays with hop count 1.
    let to_app = node_x.receive((), &Vec::new()).unwrap();
    assert_eq!(to_app.len(), 0);
    let relay = {
        let air = air.lock().unwrap();
        assert_eq!(air.len(), 1);
        let relay = air[0].clone();
        assert_eq!(relay.packet_type, PacketType::BootUp);
        assert_eq!(relay.packet_id, 1);
        assert_eq!(relay.hop_count, 1);
        assert_eq!(relay.source_id, 10);
        assert_eq!(relay.hop_to_gw, 1);
        relay
    };

    // Y overhears X's relay and learns distance 2 (it relays in turn).
    let to_app = node_y.receive((), &Vec::new()).unwrap();
    assert_eq!(to_app.len(), 0);
    air.lock().unwrap().clear();

    // A second beacon that advertises no better route is dropped silently.
    let mut worse = relay;
    worse.packet_id = 2;
    worse.hop_count = 2;
    worse.source_id = 12;
    air.lock().unwrap().push(worse);
    let to_app = node_y.receive((), &Vec::new()).unwrap();
    assert_eq!(to_app.len(), 0);
    assert_eq!(air.lock().unwrap().len(), 0);
}

#[test]
fn test_queued_payloads_flushed_by_mac() {
    let air = create_air();
    let mut router = node_router(&air, 1);
    router.queu_payload(vec![0x01], 2).unwrap();
    router.queu_payload(vec![0x02], 2).unwrap();
    assert_eq!(router.get_pending_count(), 2);
    // Queueing transmits nothing by itself.
    assert_eq!(air.lock().unwrap().len(), 0);

    // One random-access turn flushes the queue onto the air.
    let mut mac = RandomAccessMac;
    let mut radio = MockRadio { air: air.clone() };
    let mut queue = vec![
        MHPacket::<SIZE> {
            destination_id: 2,
            packet_type: PacketType::Data,
            packet_id: 7,
            source_id: 1,
            payload: vec![0x07],
            hop_count: 0,
            hop_to_gw: 255,
        },
    ];
    let mut buf: Vec<u8> = Vec::new();
    let received = mac.run_mac(&mut radio, &mut queue, &mut buf).unwrap();
    assert!(queue.is_empty());
    // The turn hears its own transmission in this loopback arrangement.
    assert_eq!(received.len(), 1);
    assert_eq!(received[0].packet_id, 7);
}

struct TopologyRadio {
    node_id: u8,
    topology: Arc<Mutex<HashMap<u8, Vec<u8>>>>,
    inboxes: Arc<Mutex<HashMap<u8, Vec<MHPacket<SIZE>>>>>,
}

impl MHNode<SIZE, LEN> for TopologyRadio {
    type Error = NetworkManagerError;
    type Connection = ();
    type ReceiveBuffer = Vec<u8>;

    fn listen(&mut self, _rec_buf: &mut Vec<u8>, _with_timeout: bool) -> Result<(), Self::Error> {
        Ok(())
    }

    fn receive(
        &mut self,
        _conn: Self::Connection,
        _rec_buf: &Vec<u8>,
    ) -> Result<Vec<MHPacket<SIZE>>, Self::Error> {
        let mut inboxes = self.inboxes.lock().unwrap();
        let mut rec_vec: Vec<MHPacket<SIZE>> = Vec::new();
        if let Some(my_inbox) = inboxes.get_mut(&self.node_id) {
            while !my_inbox.is_empty() {
                if rec_vec.len() == LEN {
                    break;
                }
                rec_vec.push(my_inbox.remove(0));
            }
        }
        Ok(rec_vec)
    }

    fn transmit(&mut self, packets: &[MHPacket<SIZE>]) -> Result<(), Self::Error> {
        let topology = self.topology.lock().unwrap();
        let mut inboxes = self.inboxes.lock().unwrap();
        if let Some(neighbors) = topology.get(&self.node_id) {
            for neighbor_id in neighbors {
                if let Some(inbox) = inboxes.get_mut(neighbor_id) {
                    for pkt in packets {
                        inbox.push(pkt.clone());
                    }
                }
            }
        }
        Ok(())
    }
}

#[test]
fn test_mesh_topology() {
    let topology: Arc<Mutex<HashMap<u8, Vec<u8>>>> = Arc::new(Mutex::new(HashMap::new()));
    let inboxes: Arc<Mutex<HashMap<u8, Vec<MHPacket<SIZE>>>>> = Arc::new(Mutex::new(HashMap::new()));
    {
        // (A) <-> (B) <-> (C) <-> (D)
        let mut t = topology.lock().unwrap();
        let mut ib = inboxes.lock().unwrap();
        for (a, b) in [(1u8, 2u8), (2, 3), (3, 4)] {
            t.entry(a).or_default().push(b);
            t.entry(b).or_default().push(a);
            ib.entry(a).or_default();
            ib.entry(b).or_default();
        }
    }
    let radio = |id: u8| TopologyRadio {
        node_id: id,
        topology: topology.clone(),
        inboxes: inboxes.clone(),
    };
    let mut router_a = MeshRouter::new(
        radio(1),
        NetworkManager::<SIZE, LEN>::new(1, 5, 3),
        RandomAccessMac,
        NodePolicy,
    );
    let mut router_b = MeshRouter::new(
        radio(2),
        NetworkManager::<SIZE, LEN>::new(2, 5, 3),
        RandomAccessMac,
        NodePolicy,
    );
    let mut router_c = MeshRouter::new(
        radio(3),
        NetworkManager::<SIZE, LEN>::new(3, 5, 3),
        RandomAccessMac,
        NodePolicy,
    );

    let msg1 = vec![0x01];

    router_a.send_payload(msg1, 3).unwrap();
    assert_eq!(router_a.get_pending_count(), 1);

    // Node B now receives these
    let res1 = router_b.receive((), &Vec::new()).unwrap();
    // These packages were not meant for us, so we should not receive
    // anything here
    assert_eq!(res1.len(), 0);
    // But router b should have sent a new package, and have a pending ack
    assert_eq!(router_b.get_pending_count(), 1);

    // And should've also sent a package over the air, which router A can
    // receive
    let res2 = router_a.receive((), &Vec::new()).unwrap();
    assert_eq!(res2.len(), 0);
    // And node A should've removed the package now
    assert_eq!(router_a.get_pending_count(), 0);

    // Router C should've also received it, and since this is for it, it
    // receives the data
    let res3 = router_c.receive((), &Vec::new()).unwrap();
    assert_eq!(res3.len(), 1);
    // And does not send it on
    assert_eq!(router_c.get_pending_count(), 0);
}

struct WideRadio {
    air: Arc<Mutex<Vec<MHPacket<128>>>>,
}

impl MHNode<128, LEN> for WideRadio {
    type Error = NetworkManagerError;
    type Connection = ();
    type ReceiveBuffer = Vec<u8>;

    fn listen(&mut self, _rec_buf: &mut Vec<u8>, _with_timeout: bool) -> Result<(), Self::Error> {
        Ok(())
    }

    fn receive(
        &mut self,
        _conn: Self::Connection,
        _rec_buf: &Vec<u8>,
    ) -> Result<Vec<MHPacket<128>>, Self::Error> {
        let mut air = self.air.lock().unwrap();
        let mut rec_vec: Vec<MHPacket<128>> = Vec::new();
        while !air.is_empty() && rec_vec.len() < LEN {
            rec_vec.push(air.remove(0));
        }
        Ok(rec_vec)
    }

    fn transmit(&mut self, packets: &[MHPacket<128>]) -> Result<(), Self::Error> {
        let mut vc = self.air.lock().unwrap();
        for pkt in packets {
            vc.push(pkt.clone());
        }
        Ok(())
    }
}

#[test]
fn network_simulation_test_node_to_node_logic() {
    let air: Arc<Mutex<Vec<MHPacket<128>>>> = Arc::new(Mutex::new(Vec::new()));

    let manager_a = NetworkManager::<128, LEN>::new(1, 5, 3); // Source 1
    let radio_a = WideRadio { air: air.clone() };
    let mut router_a = MeshRouter::new(radio_a, manager_a, RandomAccessMac, NodePolicy);
    let msg_to_send = vec![0xAA, 0xBB];

    // Let this be for node_b
    router_a.send_payload(msg_to_send.clone(), 2).unwrap();

    // Now assume node B heard everything perfectly
    let manager_b = NetworkManager::<128, LEN>::new(2, 5, 3);
    let radio_b = WideRadio { air: air.clone() };
    let mut router_b = MeshRouter::new(radio_b, manager_b, RandomAccessMac, NodePolicy);
    let rec_packets = msg_to_send;
    // In this scenario the destination is 2, which is node b.
    let res = router_b.receive((), &rec_packets).unwrap();
    assert_eq!(res.len(), 1);
}
