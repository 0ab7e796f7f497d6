use must_hop::network_manager::{NetworkManager, NetworkManagerError, PayloadType};
use must_hop::packet::PacketType;

// A helper to make a dummy manager for testing
fn setup_manager() -> NetworkManager<40, 5> {
    NetworkManager::new(1, 10, 3) // Source ID 1, Timeout 10s, 3 Retries
}

#[test]
fn network_manager_test_packet_creation() {
    let mut manager = setup_manager();
    let payload = [0xAB, 0xCD];
    let vec = payload.to_vec();

    // Test basic packet creation
    let pkt = manager.new_packet(vec, 2).unwrap();

    assert_eq!(pkt.source_id, 1);
    assert_eq!(pkt.destination_id, 2);
    assert_eq!(pkt.packet_id, 1);
    assert_eq!(pkt.payload, payload);
}

#[test]
fn network_manager_test_send_queue_logic() {
    let mut manager = setup_manager();
    let payload = [1, 2, 3];
    let pkt = payload.to_vec();
    let pkt = manager.new_packet(pkt, 2).unwrap();

    // Receiving a first-sight packet for another node should queue it and
    // return it for sending
    let to_send = manager.receive_packet(pkt.clone(), 0).expect("Should queue packet");
    assert!(to_send.is_some());
    let (to_send, payload_type) = to_send.unwrap();

    // Check it returned the packet to be sent
    assert_eq!(to_send.packet_id, 1);
    assert_eq!(payload_type, PayloadType::Data);

    // Check it is actually in the pending list
    assert_eq!(manager.get_pending_count(), 1);

    // now act as if we transmitted this, and listened, and another node now
    // transmits this. That should mean the previous package gets removed
    // from pending acks
    let received = to_send;
    // Should be none, because we just received an ACK for a package we sent
    let should_be_none = manager.receive_packet(received, 0).unwrap();

    assert_eq!(should_be_none, None);
    assert_eq!(manager.get_pending_count(), 0);
}

#[test]
fn node_test_packet_creation() {
    let mut manager: NetworkManager<128, 5> = NetworkManager::new(1, 10, 3);
    let payload = [0xAB, 0xCD];

    // Test basic packet creation; a minted frame always carries Data.
    let pkt = manager.new_packet(payload.to_vec(), 2).unwrap();

    assert_eq!(pkt.source_id, 1);
    assert_eq!(pkt.destination_id, 2);
    assert_eq!(pkt.packet_id, 1);
    assert_eq!(pkt.payload, payload);
    assert_eq!(pkt.packet_type, PacketType::Data);
}

#[test]
fn test_payload_too_large_is_serialization_error() {
    let mut manager: NetworkManager<4, 5> = NetworkManager::new(1, 10, 3);
    let res = manager.new_packet(vec![1, 2, 3, 4, 5], 2);
    assert!(matches!(res, Err(NetworkManagerError::Serialization)));
    // Nothing changed: the next mint still gets packet id 1.
    let pkt = manager.new_packet(vec![9], 2).unwrap();
    assert_eq!(pkt.packet_id, 1);

    let res = manager.payload_to_send(vec![1, 2, 3, 4, 5], 2, 0);
    assert!(matches!(res, Err(NetworkManagerError::Serialization)));
}

#[test]
fn test_pending_table_full_is_buffer_full() {
    let mut manager: NetworkManager<40, 5> = NetworkManager::new(1, 10, 3);
    for i in 0..5 {
        let pkt = manager.new_packet(vec![i], 2).unwrap();
        manager.add_packet(pkt, 0).unwrap();
    }
    assert_eq!(manager.get_pending_count(), 5);
    let pkt = manager.new_packet(vec![9], 2).unwrap();
    let res = manager.add_packet(pkt, 0);
    assert!(matches!(res, Err(NetworkManagerError::BufferFull)));
    // The sixth payload cannot be recorded as pending either.
    let res = manager.payload_to_send(vec![10], 2, 0);
    assert!(matches!(res, Err(NetworkManagerError::BufferFull)));
}

#[test]
fn test_handle_packets_empty_batch_is_idle() {
    let mut manager = setup_manager();
    let pkt = manager.new_packet(vec![7], 2).unwrap();
    manager.add_packet(pkt, 0).unwrap();

    let (to_send, to_app) = manager.handle_packets(Vec::new(), 0).unwrap();
    assert!(to_send.is_empty());
    assert!(to_app.is_empty());
    // The manager is untouched: same pending count, same next packet id.
    assert_eq!(manager.get_pending_count(), 1);
    let pkt = manager.new_packet(vec![8], 2).unwrap();
    assert_eq!(pkt.packet_id, 2);
}

#[test]
fn test_retry_budget_garbage_collection() {
    // timeout 1 s, 3 retries, destination 4 is unreachable.
    let mut manager: NetworkManager<40, 5> = NetworkManager::new(1, 1, 3);

    let batch = manager.payload_to_send(vec![0x09], 4, 0).unwrap();
    assert_eq!(batch.len(), 1);
    assert_eq!(manager.get_pending_count(), 1);

    // Each turn advances the wall clock past every deadline; the first
    // frame is retransmitted with the batch until its retries run out.
    let batch = manager.payload_to_send(vec![0x09], 4, 2).unwrap();
    assert_eq!(batch.len(), 2);
    assert_eq!(batch[0].payload, [0x09]);
    assert_eq!(manager.get_pending_count(), 2);

    let batch = manager.payload_to_send(vec![0x09], 4, 4).unwrap();
    assert_eq!(batch.len(), 3);
    assert_eq!(manager.get_pending_count(), 3);

    let batch = manager.payload_to_send(vec![0x09], 4, 6).unwrap();
    assert_eq!(batch.len(), 4);
    assert_eq!(manager.get_pending_count(), 4);

    // Fifth call: the first entry has spent its three retries and its
    // deadline lies in the past, so it is garbage-collected.
    let batch = manager.payload_to_send(vec![0x09], 4, 8).unwrap();
    assert_eq!(batch.len(), 4);
    assert_eq!(manager.get_pending_count(), 4);
    assert_eq!(batch[0].packet_id, 2);
}

#[test]
fn test_retransmissions_before_new_frame() {
    let mut manager: NetworkManager<40, 5> = NetworkManager::new(1, 1, 3);
    manager.payload_to_send(vec![0x01], 2, 0).unwrap();
    let batch = manager.payload_to_send(vec![0x02], 2, 5).unwrap();
    // The due retransmission comes first, the freshly minted frame last.
    assert_eq!(batch.len(), 2);
    assert_eq!(batch[0].payload, [0x01]);
    assert_eq!(batch[0].packet_id, 1);
    assert_eq!(batch[1].payload, [0x02]);
    assert_eq!(batch[1].packet_id, 2);
}

#[test]
fn test_handle_bootup_frame_shape() {
    let mut manager: NetworkManager<40, 5> = NetworkManager::new(1, 10, 3);
    let pkt = manager.handle_bootup().unwrap();
    assert_eq!(pkt.destination_id, 0);
    assert_eq!(pkt.packet_type, PacketType::BootUp);
    assert_eq!(pkt.packet_id, 1);
    assert_eq!(pkt.source_id, 1);
    assert!(pkt.payload.is_empty());
    assert_eq!(pkt.hop_count, 0);
    assert_eq!(pkt.hop_to_gw, 0);
}

#[test]
fn test_duplicate_draws_exactly_one_ack() {
    // A frame addressed to this node, heard twice: delivered once,
    // acknowledged once.
    let mut sender: NetworkManager<40, 5> = NetworkManager::new(7, 10, 3);
    let frame = sender.new_packet(vec![0x55], 1).unwrap();

    let mut manager: NetworkManager<40, 5> = NetworkManager::new(1, 10, 3);
    let batch = vec![frame.clone(), frame.clone()];
    let (to_send, to_app) = manager.handle_packets(batch, 0).unwrap();

    assert_eq!(to_app.len(), 1);
    assert_eq!(to_app[0], frame);
    assert_eq!(to_send.len(), 1);
    assert_eq!(to_send[0].packet_type, PacketType::Ack);
    assert_eq!(to_send[0].destination_id, 7);
    assert_eq!(to_send[0].packet_id, frame.packet_id);
    assert_eq!(to_send[0].source_id, 1);

    // A third receipt is still answered with an acknowledgement and is
    // still not delivered again.
    let (to_send, to_app) = manager.handle_packets(vec![frame.clone()], 0).unwrap();
    assert_eq!(to_app.len(), 0);
    assert_eq!(to_send.len(), 1);
    assert_eq!(to_send[0].packet_type, PacketType::Ack);
}

#[test]
fn test_acks_are_not_acknowledged() {
    let mut manager: NetworkManager<40, 5> = NetworkManager::new(1, 10, 3);
    let ack = must_hop::packet::MHPacket::<40> {
        destination_id: 9,
        packet_type: PacketType::Ack,
        packet_id: 77,
        source_id: 5,
        payload: vec![0],
        hop_count: 0,
        hop_to_gw: 0,
    };
    // Heard twice: the duplicate of an acknowledgement is dropped, not
    // acknowledged in turn.
    let (to_send, to_app) = manager.handle_packets(vec![ack.clone(), ack], 0).unwrap();
    assert!(to_send.is_empty());
    assert!(to_app.is_empty());
}

#[test]
fn test_gateway_bound_forwarding_iff_closer() {
    // The node knows no route to the gateway (distance 255): a frame
    // advertising distance 3 is not forwarded.
    let mut far: NetworkManager<40, 5> = NetworkManager::new(9, 10, 3);
    let frame = must_hop::packet::MHPacket::<40> {
        destination_id: 1,
        packet_type: PacketType::Data,
        packet_id: 5,
        source_id: 6,
        payload: vec![0x42],
        hop_count: 0,
        hop_to_gw: 3,
    };
    let res = far.receive_packet(frame.clone(), 0).unwrap();
    assert_eq!(res, None);
    assert_eq!(far.get_pending_count(), 0);

    // A node that heard a beacon one hop from the gateway is strictly
    // closer: it forwards, advertising its own distance.
    let mut near: NetworkManager<40, 5> = NetworkManager::new(9, 10, 3);
    let beacon = must_hop::packet::MHPacket::<40> {
        destination_id: 0,
        packet_type: PacketType::BootUp,
        packet_id: 1,
        source_id: 1,
        payload: vec![],
        hop_count: 0,
        hop_to_gw: 0,
    };
    near.receive_packet(beacon, 0).unwrap();
    let res = near.receive_packet(frame.clone(), 0).unwrap();
    let (fwd, ptype) = res.unwrap();
    assert_eq!(ptype, PayloadType::Data);
    assert_eq!(fwd.hop_to_gw, 1);
    assert_eq!(fwd.packet_id, frame.packet_id);
    assert_eq!(fwd.source_id, frame.source_id);
    assert_eq!(near.get_pending_count(), 1);
}

#[test]
fn test_bootup_improves_distance_monotonically() {
    let mut manager: NetworkManager<40, 5> = NetworkManager::new(9, 10, 3);
    let mut beacon = must_hop::packet::MHPacket::<40> {
        destination_id: 0,
        packet_type: PacketType::BootUp,
        packet_id: 1,
        source_id: 1,
        payload: vec![],
        hop_count: 2,
        hop_to_gw: 0,
    };
    // First beacon: distance becomes 3, and the beacon is relayed.
    let res = manager.receive_packet(beacon.clone(), 0).unwrap();
    assert!(matches!(res, Some((_, PayloadType::Bootup))));

    // A worse beacon (hop count 4 >= 3) is dropped silently.
    beacon.hop_count = 4;
    beacon.packet_id = 2;
    let res = manager.receive_packet(beacon.clone(), 0).unwrap();
    assert_eq!(res, None);

    // A better beacon still improves the estimate.
    beacon.hop_count = 0;
    beacon.packet_id = 3;
    let res = manager.receive_packet(beacon.clone(), 0).unwrap();
    assert!(matches!(res, Some((_, PayloadType::Bootup))));
    // Now only frames from holders farther than 1 hop are forwarded.
    let frame = must_hop::packet::MHPacket::<40> {
        destination_id: 1,
        packet_type: PacketType::Data,
        packet_id: 5,
        source_id: 6,
        payload: vec![0x42],
        hop_count: 0,
        hop_to_gw: 1,
    };
    let res = manager.receive_packet(frame, 0).unwrap();
    assert_eq!(res, None);
}

#[test]
fn test_node_to_node_forwarding_between_ids() {
    // Node 2 lies between 1 and 3: it forwards.
    let mut between: NetworkManager<40, 5> = NetworkManager::new(2, 10, 3);
    let frame = must_hop::packet::MHPacket::<40> {
        destination_id: 3,
        packet_type: PacketType::Data,
        packet_id: 1,
        source_id: 1,
        payload: vec![0x01],
        hop_count: 0,
        hop_to_gw: 255,
    };
    let res = between.receive_packet(frame.clone(), 0).unwrap();
    assert!(matches!(res, Some((_, PayloadType::Data))));

    // Node 5 does not lie between 1 and 3: it drops the frame.
    let mut outside: NetworkManager<40, 5> = NetworkManager::new(5, 10, 3);
    let res = outside.receive_packet(frame, 0).unwrap();
    assert_eq!(res, None);
}

#[test]
fn test_packet_id_wraps_around() {
    let mut manager: NetworkManager<40, 5> = NetworkManager::new(1, 10, 3);
    for _ in 0..65535 {
        manager.new_packet(vec![], 2).unwrap();
    }
    let pkt = manager.new_packet(vec![], 2).unwrap();
    assert_eq!(pkt.packet_id, 0);
    let pkt = manager.new_packet(vec![], 2).unwrap();
    assert_eq!(pkt.packet_id, 1);
}
