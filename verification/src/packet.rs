//! The packet model: the frame carried on air and its mathematical image.

use vstd::prelude::*;

verus! {

/// The kind of a frame, one byte on the wire.
#[derive(Clone, Copy, Debug, PartialEq, Eq, Structural)]
pub enum PacketType {
    /// Application data; the originator expects an acknowledgement.
    Data,
    /// Acknowledgement of a previously heard frame.
    Ack,
    /// Gateway beacon announcing a route towards the gateway.
    BootUp,
}

/// Mathematical image of a frame: every field as a plain value.
#[verifier::ext_equal]
pub ghost struct FrameView {
    pub destination_id: u8,
    pub packet_type: PacketType,
    pub packet_id: u16,
    pub source_id: u8,
    pub payload: Seq<u8>,
    pub hop_count: u8,
    pub hop_to_gw: u8,
}

impl FrameView {
    /// A frame is well formed when its payload fits the size bound.
    pub open spec fn wf(self, size: int) -> bool {
        self.payload.len() <= size
    }

    /// The pair that identifies a frame network-wide: who minted it, and
    /// which of their packets it is.
    pub open spec fn key(self) -> (u8, u16) {
        (self.source_id, self.packet_id)
    }
}

/// One frame of the mesh. `SIZE` bounds the payload length.
///
/// `destination_id` 0 is the broadcast address and 1 is the gateway;
/// `hop_to_gw` 255 means the holder does not know a route to the gateway.
#[derive(Clone, Debug, PartialEq)]
pub struct MHPacket<const SIZE: usize> {
    pub destination_id: u8,
    pub packet_type: PacketType,
    pub packet_id: u16,
    pub source_id: u8,
    pub payload: Vec<u8>,
    pub hop_count: u8,
    pub hop_to_gw: u8,
}

impl<const SIZE: usize> View for MHPacket<SIZE> {
    type V = FrameView;

    open spec fn view(&self) -> FrameView {
        FrameView {
            destination_id: self.destination_id,
            packet_type: self.packet_type,
            packet_id: self.packet_id,
            source_id: self.source_id,
            payload: self.payload@,
            hop_count: self.hop_count,
            hop_to_gw: self.hop_to_gw,
        }
    }
}

impl<const SIZE: usize> MHPacket<SIZE> {
    /// The payload fits the compile-time bound.
    pub open spec fn wf(self) -> bool {
        self@.wf(SIZE as int)
    }

    /// Field-for-field copy of the frame.
    pub fn duplicate(&self) -> (r: Self)
        ensures
            r@ == self@,
    {
        let r = MHPacket {
            destination_id: self.destination_id,
            packet_type: self.packet_type,
            packet_id: self.packet_id,
            source_id: self.source_id,
            payload: clone_bytes(&self.payload),
            hop_count: self.hop_count,
            hop_to_gw: self.hop_to_gw,
        };
        proof {
            assert(r@ =~= self@);
        }
        r
    }
}

/// Byte-for-byte copy of a byte vector.
fn clone_bytes(v: &Vec<u8>) -> (r: Vec<u8>)
    ensures
        r@ == v@,
{
    let r = v.clone();
    proof {
        assert(r@ =~= v@);
    }
    r
}

} // verus!
