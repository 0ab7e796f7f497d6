use must_hop::codec::serialize_frame;
use must_hop::concentrator::{
    BoardConf, BuilderError, ChannelConf, ComType, Concentrator, ConfTxGain, Error, FrontRadio,
    MultirateLoraChannel, ResetToken, Running, TxGain,
};
use must_hop::gwnode::{GWNode, RxPacket, RxPacketLoRa, TxMode, TxPacket};
use must_hop::packet::{MHPacket, PacketType};

fn board() -> BoardConf {
    BoardConf {
        lorawan_public: false,
        clksrc: FrontRadio::R0,
        spidev_path: String::from("/dev/spidev0.0"),
        com_type: ComType::Spi,
    }
}

fn gains(n: usize) -> Vec<TxGain> {
    let conf = ConfTxGain { rf_power: 14, dig_gain: 0, pa_gain: 1, mix_gain: 8 };
    (0..n).map(|_| TxGain::from(conf)).collect()
}

fn running_concentrator() -> Concentrator<Running> {
    let token = ResetToken::generate::<_, ()>(|| Ok(())).unwrap();
    Concentrator::open(&token)
        .unwrap()
        .set_config_board(board())
        .add_rx_rf(must_hop::concentrator::RxRFConf {
            radio: FrontRadio::R0,
            enable: true,
            freq: 868_100_000,
            rssi_offset_centib: -21500,
            type_: must_hop::concentrator::RadioType::SX1250,
            tx_enable: true,
            tx_notch_freq: 0,
        })
        .add_config_channel(0, ChannelConf::Multirate { radio: FrontRadio::R0, freq: -200_000 })
        .set_config_tx_gains(gains(2))
        .connect()
        .unwrap()
        .start()
        .unwrap()
}

#[test]
fn test_reset_token_propagates_the_routine_error() {
    let res = ResetToken::generate::<_, u32>(|| Err(17));
    assert!(matches!(res, Err(17)));
    assert!(ResetToken::generate::<_, u32>(|| Ok(())).is_ok());
}

#[test]
fn test_builder_demands_a_board_before_connect() {
    let token = ResetToken::generate::<_, ()>(|| Ok(())).unwrap();
    let res = Concentrator::open(&token).unwrap().connect();
    assert!(matches!(res, Err(Error::BuilderError(BuilderError::MissingBoard))));
}

#[test]
fn test_start_demands_connect_and_gains() {
    let token = ResetToken::generate::<_, ()>(|| Ok(())).unwrap();
    let res = Concentrator::open(&token).unwrap().set_config_board(board()).start();
    assert!(matches!(res, Err(Error::BuilderError(BuilderError::NotConnected))));

    // Connected, but with an empty gain table.
    let res = Concentrator::open(&token)
        .unwrap()
        .set_config_board(board())
        .connect()
        .unwrap()
        .start();
    assert!(matches!(res, Err(Error::Size)));

    // Seventeen gain entries do not fit the look-up table either.
    let res = Concentrator::open(&token)
        .unwrap()
        .set_config_board(board())
        .set_config_tx_gains(gains(17))
        .connect()
        .unwrap()
        .start();
    assert!(matches!(res, Err(Error::Size)));

    // The full chain goes through.
    let _ = running_concentrator();
}

#[test]
fn test_channel_from_multirate_checks_the_radio_index() {
    let good = MultirateLoraChannel { radio: 1, if_chain: -200_000 };
    let conf = ChannelConf::from_multirate(&good).unwrap();
    assert_eq!(conf, ChannelConf::Multirate { radio: FrontRadio::R1, freq: -200_000 });

    let bad = MultirateLoraChannel { radio: 2, if_chain: 0 };
    assert!(matches!(
        ChannelConf::from_multirate(&bad),
        Err(BuilderError::InvalidRxRFConf)
    ));
}

#[test]
fn test_tx_gain_from_conf_fills_the_defaults() {
    let conf = ConfTxGain { rf_power: 27, dig_gain: 3, pa_gain: 2, mix_gain: 9 };
    let gain = TxGain::from(conf);
    assert_eq!(gain.rf_power, 27);
    assert_eq!(gain.dig_gain, 3);
    assert_eq!(gain.pa_gain, 2);
    assert_eq!(gain.mix_gain, 9);
    assert_eq!(gain.dac_gain, 3);
    assert_eq!(gain.pwr_id, 0);
    assert_eq!(gain.offset_i, 0);
    assert_eq!(gain.offset_q, 0);
}

fn gw_frame(pid: u16, payload: Vec<u8>) -> MHPacket<128> {
    MHPacket {
        destination_id: 1,
        packet_type: PacketType::Data,
        packet_id: pid,
        source_id: 5,
        payload,
        hop_count: 0,
        hop_to_gw: 255,
    }
}

#[test]
fn test_gwnode_packs_a_batch_for_the_air() {
    let node = GWNode::new(running_concentrator());
    assert_eq!(node.pkt_params.mode, TxMode::Immediate);
    assert_eq!(node.pkt_params.freq, 868_100_000);

    let batch = vec![gw_frame(1, vec![0x0A]), gw_frame(2, vec![0x0B])];
    let TxPacket::LoRa(tx) = node.to_tx_packet(&batch).unwrap();
    let mut expected = serialize_frame(&batch[0]);
    expected.extend_from_slice(&serialize_frame(&batch[1]));
    assert_eq!(tx.payload, expected);
    assert_eq!(tx.freq, 868_100_000);

    // A batch whose encodings exceed one transmission is refused.
    let batch = vec![gw_frame(1, vec![0; 120]), gw_frame(2, vec![0; 120]), gw_frame(3, vec![0; 120])];
    assert!(matches!(node.to_tx_packet(&batch), Err(Error::Size)));
}

#[test]
fn test_gwnode_decodes_one_frame_per_packet() {
    let mut node = GWNode::new(running_concentrator());
    let a = gw_frame(1, vec![0x0A]);
    let b = gw_frame(2, vec![0x0B]);
    let rec_buf = vec![
        RxPacket::LoRa(RxPacketLoRa { payload: serialize_frame(&a) }),
        RxPacket::LoRa(RxPacketLoRa { payload: vec![0xFF, 0xFF] }),
        RxPacket::LoRa(RxPacketLoRa { payload: serialize_frame(&b) }),
    ];
    // The packet that spells no frame is dropped; the others decode.
    let frames = node.receive(&rec_buf).unwrap();
    assert_eq!(frames, vec![a.clone(), b]);

    // More than five decodable packets exceed one receive turn.
    let many: Vec<RxPacket> = (0..6)
        .map(|i| RxPacket::LoRa(RxPacketLoRa { payload: serialize_frame(&gw_frame(i, vec![])) }))
        .collect();
    assert!(matches!(node.receive(&many), Err(Error::Data)));
}
