//! The radio capability that any node hardware must provide.

use vstd::prelude::*;

use crate::packet::MHPacket;

verus! {

/// A half-duplex packet radio: it can park until a frame can be decoded,
/// decode a batch from its receive buffer, and transmit a batch. An
/// implementation lives with the hardware or with a test harness; the mesh
/// router is verified against this contract alone.
pub trait MHNode<const SIZE: usize, const LEN: usize>: Sized {
    /// The radio's error type; its kinds should cover at least a receive
    /// timeout, an unexpected payload size, and an operation failure.
    type Error;

    /// An opaque token handed from `listen` to `receive`.
    type Connection;

    /// The radio's receive buffer.
    type ReceiveBuffer;

    /// Parks until a frame can be decoded into the buffer; returns a
    /// connection token for `receive`. With `with_timeout`, gives up after
    /// the radio's deadline instead of parking forever.
    fn listen(&mut self, rec_buf: &mut Self::ReceiveBuffer, with_timeout: bool) -> (r: Result<
        Self::Connection,
        Self::Error,
    >);

    /// Decodes a batch of up to `LEN` frames from the buffer. Every frame
    /// handed back fits the payload bound; one that does not decode is
    /// dropped and does not abort the batch.
    fn receive(&mut self, conn: Self::Connection, rec_buf: &Self::ReceiveBuffer) -> (r: Result<
        Vec<MHPacket<SIZE>>,
        Self::Error,
    >)
        ensures
            r matches Ok(pkts) ==> pkts@.len() <= LEN && (forall|i: int|
                0 <= i < pkts@.len() ==> (#[trigger] pkts@[i]).wf()),
    ;

    /// Serializes the frames and emits them, waiting for clear air first
    /// where the radio requires carrier sense.
    fn transmit(&mut self, packets: &[MHPacket<SIZE>]) -> (r: Result<(), Self::Error>);
}

} // verus!
