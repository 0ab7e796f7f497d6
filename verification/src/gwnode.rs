//! The gateway-side node: frames the mesh traffic into concentrator
//! packets and decodes concentrator packets back into frames. Moving the
//! packets over the air is the concentrator driver's business.

use vstd::prelude::*;

use crate::codec::{
    deserialize_frame, frame_views, serialize_batch_into, spec_decode, spec_encode_batch,
    SpecDecodeResult,
};
use crate::concentrator::{Concentrator, Error, FrontRadio, Running};
use crate::packet::{FrameView, MHPacket};

verus! {

/// The payload bound of the frames the gateway exchanges with the mesh.
pub const SIZE: usize = 128;

/// How many frames one receive turn hands over at most.
pub const LEN: usize = 5;

/// The most bytes one on-air transmission can carry.
pub const TRANSMISSION_BUFFER: usize = 256;

/// When a queued transmission leaves the antenna.
#[derive(Clone, Copy, Debug, PartialEq, Eq, Structural)]
pub enum TxMode {
    /// Right away.
    Immediate,
    /// At a counter timestamp.
    Timestamped,
}

/// Modulation bandwidth.
#[derive(Clone, Copy, Debug, PartialEq, Eq, Structural)]
pub enum Bandwidth {
    BW125kHz,
    BW250kHz,
    BW500kHz,
}

/// Spreading factor.
#[derive(Clone, Copy, Debug, PartialEq, Eq, Structural)]
pub enum Spreading {
    SF7,
    SF8,
    SF9,
    SF10,
    SF11,
    SF12,
}

/// Error-correcting code rate.
#[derive(Clone, Copy, Debug, PartialEq, Eq, Structural)]
pub enum Coderate {
    Cr4_5,
    Cr4_6,
    Cr4_7,
    Cr4_8,
}

/// Radio parameters of one transmission.
#[derive(Clone, Debug, PartialEq)]
pub struct PacketParams {
    /// Center frequency to transmit on.
    pub freq: u32,
    /// When to send this packet.
    pub mode: TxMode,
    /// Which radio to transmit on.
    pub radio: FrontRadio,
    /// TX power (in dBm).
    pub power: i8,
    /// Modulation bandwidth.
    pub bandwidth: Bandwidth,
    /// Spreading factor to use with this packet.
    pub spreading: Spreading,
    /// Error-correcting code of the packet.
    pub coderate: Coderate,
    /// Invert signal polarity, for orthogonal downlinks.
    pub invert_polarity: bool,
    /// Preamble length, `None` for the default.
    pub preamble: Option<u16>,
    /// Leave the CRC out of the packet.
    pub omit_crc: bool,
    /// Use implicit header mode.
    pub implicit_header: bool,
}

impl Default for PacketParams {
    /// Mesh defaults: the European band, immediate single-radio
    /// transmission, CRC kept, explicit headers, standard preamble.
    fn default() -> (r: Self)
        ensures
            r == (PacketParams {
                freq: 868_100_000,
                mode: TxMode::Immediate,
                radio: FrontRadio::R0,
                power: 14,
                bandwidth: Bandwidth::BW125kHz,
                spreading: Spreading::SF7,
                coderate: Coderate::Cr4_8,
                invert_polarity: false,
                preamble: None::<u16>,
                omit_crc: false,
                implicit_header: false,
            }),
    {
        PacketParams {
            freq: 868_100_000,
            mode: TxMode::Immediate,
            radio: FrontRadio::R0,
            power: 14,
            bandwidth: Bandwidth::BW125kHz,
            spreading: Spreading::SF7,
            coderate: Coderate::Cr4_8,
            invert_polarity: false,
            preamble: None,
            omit_crc: false,
            implicit_header: false,
        }
    }
}

/// One LoRa transmission for the concentrator: radio parameters and the
/// bytes to put on air.
#[derive(Clone, Debug, PartialEq)]
pub struct TxPacketLoRa {
    pub freq: u32,
    pub mode: TxMode,
    pub radio: FrontRadio,
    pub power: i8,
    pub bandwidth: Bandwidth,
    pub spreading: Spreading,
    pub coderate: Coderate,
    pub invert_polarity: bool,
    pub preamble: Option<u16>,
    pub omit_crc: bool,
    pub implicit_header: bool,
    pub payload: Vec<u8>,
}

impl TxPacketLoRa {
    /// The parameters as a transmission with an empty payload.
    pub fn from_params(params: &PacketParams) -> (r: Self)
        ensures
            r.freq == params.freq,
            r.mode == params.mode,
            r.radio == params.radio,
            r.power == params.power,
            r.bandwidth == params.bandwidth,
            r.spreading == params.spreading,
            r.coderate == params.coderate,
            r.invert_polarity == params.invert_polarity,
            r.preamble == params.preamble,
            r.omit_crc == params.omit_crc,
            r.implicit_header == params.implicit_header,
            r.payload@ == Seq::<u8>::empty(),
    {
        let r = TxPacketLoRa {
            freq: params.freq,
            mode: params.mode,
            radio: params.radio,
            power: params.power,
            bandwidth: params.bandwidth,
            spreading: params.spreading,
            coderate: params.coderate,
            invert_polarity: params.invert_polarity,
            preamble: params.preamble,
            omit_crc: params.omit_crc,
            implicit_header: params.implicit_header,
            payload: Vec::new(),
        };
        proof {
            assert(r.payload@ =~= Seq::<u8>::empty());
        }
        r
    }
}

/// One transmission for the concentrator.
#[derive(Clone, Debug, PartialEq)]
pub enum TxPacket {
    LoRa(TxPacketLoRa),
}

/// One reception from the concentrator: the bytes that came off the air.
#[derive(Clone, Debug, PartialEq)]
pub struct RxPacketLoRa {
    pub payload: Vec<u8>,
}

/// One received packet.
#[derive(Clone, Debug, PartialEq)]
pub enum RxPacket {
    LoRa(RxPacketLoRa),
}

/// The payload bytes of a batch of received packets.
pub open spec fn rx_payloads(s: Seq<RxPacket>) -> Seq<Seq<u8>> {
    s.map_values(
        |p: RxPacket|
            match p {
                RxPacket::LoRa(rx) => rx.payload@,
            },
    )
}

/// The frames spelled by the fronts of the given byte buffers, one frame
/// per buffer at most; a buffer that spells no frame contributes nothing.
pub open spec fn gw_decoded(bufs: Seq<Seq<u8>>) -> Seq<FrameView>
    decreases bufs.len(),
{
    if bufs.len() == 0 {
        Seq::empty()
    } else {
        let prev = gw_decoded(bufs.drop_last());
        match spec_decode(bufs.last(), SIZE as int) {
            SpecDecodeResult::Frame(f, n) => prev.push(f),
            _ => prev,
        }
    }
}

/// The mesh node that runs on the gateway host: it owns the running
/// concentrator and the radio parameters of its transmissions.
pub struct GWNode {
    pub radio: Concentrator<Running>,
    pub pkt_params: PacketParams,
}

impl GWNode {
    /// Takes the running concentrator over, with the default radio
    /// parameters.
    pub fn new(concentrator: Concentrator<Running>) -> (r: Self)
        ensures
            r.pkt_params == (PacketParams {
                freq: 868_100_000,
                mode: TxMode::Immediate,
                radio: FrontRadio::R0,
                power: 14,
                bandwidth: Bandwidth::BW125kHz,
                spreading: Spreading::SF7,
                coderate: Coderate::Cr4_8,
                invert_polarity: false,
                preamble: None::<u16>,
                omit_crc: false,
                implicit_header: false,
            }),
    {
        GWNode { radio: concentrator, pkt_params: PacketParams::default() }
    }

    /// Packs a batch of frames into one transmission: the frames' wire
    /// encodings, one after the other, under this node's radio
    /// parameters. Fails with `Size` when the encodings together exceed
    /// what one transmission can carry.
    pub fn to_tx_packet(&self, packets: &Vec<MHPacket<SIZE>>) -> (r: Result<TxPacket, Error>)
        ensures
            ({
                let bytes = spec_encode_batch(frame_views(packets@));
                match r {
                    Ok(TxPacket::LoRa(t)) => {
                        &&& bytes.len() <= TRANSMISSION_BUFFER
                        &&& t.payload@ == bytes
                        &&& t.freq == self.pkt_params.freq
                        &&& t.mode == self.pkt_params.mode
                        &&& t.radio == self.pkt_params.radio
                        &&& t.power == self.pkt_params.power
                        &&& t.bandwidth == self.pkt_params.bandwidth
                        &&& t.spreading == self.pkt_params.spreading
                        &&& t.coderate == self.pkt_params.coderate
                        &&& t.invert_polarity == self.pkt_params.invert_polarity
                        &&& t.preamble == self.pkt_params.preamble
                        &&& t.omit_crc == self.pkt_params.omit_crc
                        &&& t.implicit_header == self.pkt_params.implicit_header
                    },
                    Err(e) => e == Error::Size && bytes.len() > TRANSMISSION_BUFFER,
                }
            }),
    {
        let mut payload: Vec<u8> = Vec::new();
        serialize_batch_into(packets, &mut payload);
        if payload.len() > TRANSMISSION_BUFFER {
            return Err(Error::Size);
        }
        Ok(
            TxPacket::LoRa(
                TxPacketLoRa {
                    freq: self.pkt_params.freq,
                    mode: self.pkt_params.mode,
                    radio: self.pkt_params.radio,
                    power: self.pkt_params.power,
                    bandwidth: self.pkt_params.bandwidth,
                    spreading: self.pkt_params.spreading,
                    coderate: self.pkt_params.coderate,
                    invert_polarity: self.pkt_params.invert_polarity,
                    preamble: self.pkt_params.preamble,
                    omit_crc: self.pkt_params.omit_crc,
                    implicit_header: self.pkt_params.implicit_header,
                    payload,
                },
            ),
        )
    }

    /// Decodes one frame from the front of every received packet, in
    /// order, dropping packets that spell no frame. Fails with `Data`
    /// when more than `LEN` frames decode.
    #[verifier::loop_isolation(false)]
    pub fn receive(&mut self, rec_buf: &Vec<RxPacket>) -> (r: Result<Vec<MHPacket<SIZE>>, Error>)
        ensures
            *final(self) == *old(self),
            ({
                let decoded = gw_decoded(rx_payloads(rec_buf@));
                match r {
                    Ok(pkts) => decoded.len() <= LEN && frame_views(pkts@) == decoded && (forall|
                        i: int,
                    | 0 <= i < pkts@.len() ==> (#[trigger] pkts@[i]).wf()),
                    Err(e) => e == Error::Data && decoded.len() > LEN,
                }
            }),
    {
        let ghost bufs = rx_payloads(rec_buf@);
        let mut out: Vec<MHPacket<SIZE>> = Vec::new();
        let mut i: usize = 0;
        proof {
            assert(bufs.take(0) =~= Seq::<Seq<u8>>::empty());
            assert(frame_views(out@) =~= Seq::<FrameView>::empty());
        }
        while i < rec_buf.len()
            invariant
                i <= rec_buf@.len(),
                out@.len() <= LEN,
                frame_views(out@) == gw_decoded(bufs.take(i as int)),
                forall|k: int| 0 <= k < out@.len() ==> (#[trigger] out@[k]).wf(),
            decreases rec_buf@.len() - i,
        {
            let ghost out_prev = out@;
            proof {
                assert(bufs.take(i + 1).drop_last() =~= bufs.take(i as int));
                assert(bufs.take(i + 1).last() == bufs[i as int]);
            }
            let pkt_ref = &rec_buf[i];
            proof {
                assert(*pkt_ref == rec_buf@[i as int]);
            }
            let rx = match pkt_ref {
                RxPacket::LoRa(rx) => rx,
            };
            proof {
                assert(rx.payload@ == bufs[i as int]);
            }
            match deserialize_frame::<SIZE>(rx.payload.as_slice(), 0) {
                Ok((f, n)) => {
                    proof {
                        assert(bufs[i as int].skip(0) =~= bufs[i as int]);
                    }
                    if out.len() >= LEN {
                        proof {
                            assert(gw_decoded(bufs.take(i + 1)).len() > LEN);
                            lemma_gw_decoded_grows(bufs, i as int + 1);
                        }
                        return Err(Error::Data);
                    }
                    out.push(f);
                    proof {
                        assert(frame_views(out@) =~= frame_views(out_prev).push(out@.last()@));
                    }
                },
                Err(_) => {
                    proof {
                        assert(bufs[i as int].skip(0) =~= bufs[i as int]);
                    }
                },
            }
            i = i + 1;
        }
        proof {
            assert(bufs.take(rec_buf@.len() as int) =~= bufs);
        }
        Ok(out)
    }
}

/// What a prefix of the buffers decodes to is a prefix of what all of
/// them decode to: later buffers only add frames.
pub proof fn lemma_gw_decoded_grows(bufs: Seq<Seq<u8>>, i: int)
    requires
        0 <= i <= bufs.len(),
    ensures
        gw_decoded(bufs.take(i)).len() <= gw_decoded(bufs).len(),
    decreases bufs.len() - i,
{
    if i < bufs.len() {
        lemma_gw_decoded_grows(bufs, i + 1);
        assert(bufs.take(i + 1).drop_last() =~= bufs.take(i));
    } else {
        assert(bufs.take(i) =~= bufs);
    }
}

} // verus!
