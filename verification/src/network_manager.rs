//! The network manager: identity, packet-id allocation, the pending/retry
//! table, duplicate suppression, gateway-distance tracking, and the routing
//! decision for every received frame.

use vstd::prelude::*;

use crate::codec::frame_views;
use crate::packet::{FrameView, MHPacket, PacketType};
use crate::recent_seen::{RecentSeen, RingView};

verus! {

/// Why a network-manager operation failed.
#[derive(Clone, Copy, Debug, PartialEq, Eq, Structural)]
pub enum NetworkManagerError {
    /// A radio operation failed.
    Hardware,
    /// A payload does not fit the frame size bound.
    Serialization,
    /// A listen deadline passed.
    Timeout,
    /// A semantic check rejected the frame with this packet id.
    InvalidPacket(u16),
    /// The pending table or an outgoing batch is at capacity.
    BufferFull,
}

/// The disposition of a received frame.
#[derive(Clone, Copy, Debug, PartialEq, Eq, Structural)]
pub enum PayloadType {
    /// Forward the frame on.
    Data,
    /// Deliver the frame to the application.
    Command,
    /// Synthesize an acknowledgement back to the frame's origin.
    ACK,
    /// Relay a gateway beacon with an incremented hop count.
    Bootup,
}

/// Mathematical image of a pending-table entry.
#[verifier::ext_equal]
pub ghost struct PendingView {
    pub frame: FrameView,
    pub deadline: u64,
    pub retries: u8,
}

/// A frame awaiting a passive or explicit acknowledgement: the whole frame
/// is kept so it can be retransmitted, together with its deadline in whole
/// seconds and how often it has been retransmitted already.
#[derive(Debug, PartialEq)]
pub struct PendingPacket<const SIZE: usize> {
    packet: MHPacket<SIZE>,
    timeout: u64,
    retries: u8,
}

impl<const SIZE: usize> View for PendingPacket<SIZE> {
    type V = PendingView;

    closed spec fn view(&self) -> PendingView {
        PendingView { frame: self.packet@, deadline: self.timeout, retries: self.retries }
    }
}

/// The views of a sequence of pending entries.
pub open spec fn pending_views<const SIZE: usize>(s: Seq<PendingPacket<SIZE>>) -> Seq<PendingView> {
    s.map_values(|p: PendingPacket<SIZE>| p@)
}

/// Mathematical image of a network manager. `cap` is the pending-table
/// and ring capacity, `size` the payload bound of the frames.
#[verifier::ext_equal]
pub ghost struct NmView {
    pub cap: int,
    pub size: int,
    pub pending: Seq<PendingView>,
    pub next_packet_id: u16,
    pub recent: RingView,
    pub gw_hops: u8,
    pub source_id: u8,
    pub timeout: u8,
    pub max_retries: u8,
}

impl NmView {
    /// The table fits its capacity, the ring is well formed, and every
    /// stored frame fits the size bound.
    pub open spec fn wf(self) -> bool {
        &&& self.cap >= 1
        &&& self.size >= 1
        &&& self.pending.len() <= self.cap
        &&& self.recent.wf(self.cap)
        &&& forall|i: int|
            0 <= i < self.pending.len() ==> (#[trigger] self.pending[i]).frame.wf(self.size)
    }
}

/// The next packet id: one more, wrapping around at the top.
pub open spec fn wrap16(n: int) -> u16 {
    (n % 0x10000) as u16
}

/// A retransmission deadline, saturating at the top of the clock.
pub open spec fn spec_deadline(now: u64, timeout: u8) -> u64 {
    if now + timeout > u64::MAX {
        u64::MAX
    } else {
        (now + timeout) as u64
    }
}

/// The frame minted for a payload, and the manager after minting it.
pub open spec fn spec_mint(nm: NmView, payload: Seq<u8>, destination: u8) -> (NmView, FrameView) {
    let id = wrap16(nm.next_packet_id + 1);
    (
        NmView { next_packet_id: id, ..nm },
        FrameView {
            destination_id: destination,
            packet_type: PacketType::Data,
            packet_id: id,
            source_id: nm.source_id,
            payload: payload,
            hop_count: 0,
            hop_to_gw: nm.gw_hops,
        },
    )
}

/// Whether hearing `f` settles the pending entry `p`: either someone
/// rebroadcast our frame (a passive acknowledgement), or `f` is an explicit
/// acknowledgement addressed to the entry's originator.
pub open spec fn ack_matches(p: PendingView, f: FrameView) -> bool {
    &&& p.frame.packet_id == f.packet_id
    &&& (p.frame.source_id == f.source_id || (f.packet_type == PacketType::Ack
        && f.destination_id == p.frame.source_id))
}

/// The first pending entry that `f` settles, if any.
pub open spec fn find_ack_match(pending: Seq<PendingView>, f: FrameView) -> Option<int>
    decreases pending.len(),
{
    if pending.len() == 0 {
        None
    } else if ack_matches(pending[0], f) {
        Some(0)
    } else {
        match find_ack_match(pending.skip(1), f) {
            None => None,
            Some(i) => Some(i + 1),
        }
    }
}

/// `find_ack_match` yields the first match: a matching index with no match
/// before it, or nothing when no entry matches.
pub proof fn lemma_find_ack_match(pending: Seq<PendingView>, f: FrameView)
    ensures
        match find_ack_match(pending, f) {
            Some(i) => 0 <= i < pending.len() && ack_matches(pending[i], f) && (forall|j: int|
                0 <= j < i ==> !ack_matches(pending[j], f)),
            None => forall|j: int| 0 <= j < pending.len() ==> !ack_matches(pending[j], f),
        },
    decreases pending.len(),
{
    if pending.len() > 0 && !ack_matches(pending[0], f) {
        lemma_find_ack_match(pending.skip(1), f);
        match find_ack_match(pending.skip(1), f) {
            None => {
                assert forall|j: int| 0 <= j < pending.len() implies !ack_matches(
                    pending[j],
                    f,
                ) by {
                    if j > 0 {
                        assert(pending.skip(1)[j - 1] == pending[j]);
                    }
                }
            },
            Some(i) => {
                assert(pending.skip(1)[i] == pending[i + 1]);
                assert forall|j: int| 0 <= j < i + 1 implies !ack_matches(pending[j], f) by {
                    if j > 0 {
                        assert(pending.skip(1)[j - 1] == pending[j]);
                    }
                }
            },
        }
    }
}

/// Whether the manager should forward a frame that is not addressed to it:
/// a gateway-bound frame is forwarded when the manager is strictly closer
/// to the gateway than the frame's current holder; any other frame when the
/// manager's identity lies between source and destination.
pub open spec fn forward_eligible(nm: NmView, f: FrameView) -> bool {
    if f.destination_id == 1 {
        nm.gw_hops < f.hop_to_gw
    } else {
        let lo = if f.source_id <= f.destination_id {
            f.source_id
        } else {
            f.destination_id
        };
        let hi = if f.source_id <= f.destination_id {
            f.destination_id
        } else {
            f.source_id
        };
        lo <= nm.source_id <= hi
    }
}

/// The frame as the manager retransmits it: a gateway-bound frame carries
/// the manager's own gateway distance, any other frame is unchanged.
pub open spec fn forwarded_frame(nm: NmView, f: FrameView) -> FrameView {
    if f.destination_id == 1 {
        FrameView { hop_to_gw: nm.gw_hops, ..f }
    } else {
        f
    }
}

/// The manager after one received frame, and what came of the frame.
#[verifier::ext_equal]
pub ghost struct RecvStep {
    pub nm: NmView,
    pub res: Result<Option<(FrameView, PayloadType)>, NetworkManagerError>,
}

/// The routing decision for one received frame, in this order: a gateway
/// beacon updates the gateway distance and is relayed iff it improves it;
/// a frame that settles a pending entry removes that entry; a recently
/// seen frame is acknowledged once and otherwise ignored; a first-sight
/// frame is remembered and then delivered, forwarded or dropped.
pub open spec fn spec_receive_packet(nm: NmView, f: FrameView, now: u64) -> RecvStep {
    if f.packet_type is BootUp {
        if f.hop_count >= nm.gw_hops {
            RecvStep { nm, res: Ok(None) }
        } else {
            RecvStep {
                nm: NmView {
                    gw_hops: (f.hop_count + 1) as u8,
                    recent: nm.recent.push(f.key()),
                    ..nm
                },
                res: Ok(Some((f, PayloadType::Bootup))),
            }
        }
    } else if find_ack_match(nm.pending, f) is Some {
        let i = find_ack_match(nm.pending, f)->Some_0;
        RecvStep { nm: NmView { pending: nm.pending.remove(i), ..nm }, res: Ok(None) }
    } else if nm.recent.contains(f.key()) {
        if f.packet_type is Ack {
            RecvStep { nm, res: Ok(None) }
        } else {
            RecvStep { nm, res: Ok(Some((f, PayloadType::ACK))) }
        }
    } else {
        let nm1 = NmView { recent: nm.recent.push(f.key()), ..nm };
        if f.destination_id == nm.source_id {
            RecvStep { nm: nm1, res: Ok(Some((f, PayloadType::Command))) }
        } else if !forward_eligible(nm, f) {
            RecvStep { nm: nm1, res: Ok(None) }
        } else if nm.pending.len() >= nm.cap {
            RecvStep { nm: nm1, res: Err(NetworkManagerError::BufferFull) }
        } else {
            let fwd = forwarded_frame(nm, f);
            let entry = PendingView {
                frame: fwd,
                deadline: spec_deadline(now, nm.timeout),
                retries: 0,
            };
            RecvStep {
                nm: NmView { pending: nm.pending.push(entry), recent: nm1.recent, ..nm },
                res: Ok(Some((fwd, PayloadType::Data))),
            }
        }
    }
}

/// The acknowledgement synthesized for a duplicate: addressed to the
/// duplicate's origin, carrying the duplicate's packet id.
pub open spec fn synth_ack(nm: NmView, p: FrameView) -> FrameView {
    FrameView {
        destination_id: p.source_id,
        packet_type: PacketType::Ack,
        packet_id: p.packet_id,
        source_id: nm.source_id,
        payload: seq![0u8],
        hop_count: 0,
        hop_to_gw: nm.gw_hops,
    }
}

/// The relay synthesized for a gateway beacon: broadcast, with the hop
/// count one above the beacon's.
pub open spec fn synth_bootup_relay(nm: NmView, p: FrameView) -> FrameView {
    FrameView {
        destination_id: 0,
        packet_type: PacketType::BootUp,
        packet_id: p.packet_id,
        source_id: nm.source_id,
        payload: seq![0u8],
        hop_count: (p.hop_count + 1) as u8,
        hop_to_gw: nm.gw_hops,
    }
}

/// The manager and the two output batches after a batch of received
/// frames.
#[verifier::ext_equal]
pub ghost struct BatchStep {
    pub nm: NmView,
    pub to_send: Seq<FrameView>,
    pub to_app: Seq<FrameView>,
}

/// Processing a batch: each frame in arrival order through
/// `spec_receive_packet`, its disposition materialized; a frame whose
/// forwarding found the pending table full is skipped.
pub open spec fn spec_handle_packets(nm: NmView, pkts: Seq<FrameView>, now: u64) -> BatchStep
    decreases pkts.len(),
{
    if pkts.len() == 0 {
        BatchStep { nm, to_send: Seq::empty(), to_app: Seq::empty() }
    } else {
        let prev = spec_handle_packets(nm, pkts.drop_last(), now);
        let step = spec_receive_packet(prev.nm, pkts.last(), now);
        match step.res {
            Ok(Some((p, PayloadType::Data))) => BatchStep {
                nm: step.nm,
                to_send: prev.to_send.push(p),
                to_app: prev.to_app,
            },
            Ok(Some((p, PayloadType::Command))) => BatchStep {
                nm: step.nm,
                to_send: prev.to_send,
                to_app: prev.to_app.push(p),
            },
            Ok(Some((p, PayloadType::ACK))) => BatchStep {
                nm: step.nm,
                to_send: prev.to_send.push(synth_ack(step.nm, p)),
                to_app: prev.to_app,
            },
            Ok(Some((p, PayloadType::Bootup))) => BatchStep {
                nm: step.nm,
                to_send: prev.to_send.push(synth_bootup_relay(step.nm, p)),
                to_app: prev.to_app,
            },
            Ok(None) => BatchStep { nm: step.nm, to_send: prev.to_send, to_app: prev.to_app },
            Err(_) => BatchStep { nm: step.nm, to_send: prev.to_send, to_app: prev.to_app },
        }
    }
}

/// Whether garbage collection keeps a pending entry: it still has retries
/// left, or its deadline has not passed.
pub open spec fn gc_keep(p: PendingView, max_retries: u8, now: u64) -> bool {
    p.retries < max_retries || p.deadline >= now
}

/// The pending table after garbage collection, order kept.
pub open spec fn spec_gc(pending: Seq<PendingView>, max_retries: u8, now: u64) -> Seq<PendingView>
    decreases pending.len(),
{
    if pending.len() == 0 {
        Seq::empty()
    } else {
        spec_gc(pending.drop_last(), max_retries, now) + (if gc_keep(
            pending.last(),
            max_retries,
            now,
        ) {
            seq![pending.last()]
        } else {
            Seq::empty()
        })
    }
}

/// Every entry that garbage collection keeps satisfies `gc_keep`.
pub proof fn lemma_gc_all_keep(pending: Seq<PendingView>, max_retries: u8, now: u64)
    ensures
        forall|i: int|
            0 <= i < spec_gc(pending, max_retries, now).len() ==> gc_keep(
                #[trigger] spec_gc(pending, max_retries, now)[i],
                max_retries,
                now,
            ),
    decreases pending.len(),
{
    if pending.len() > 0 {
        lemma_gc_all_keep(pending.drop_last(), max_retries, now);
        let g0 = spec_gc(pending.drop_last(), max_retries, now);
        let g = spec_gc(pending, max_retries, now);
        assert forall|i: int| 0 <= i < g.len() implies gc_keep(g[i], max_retries, now) by {
            if i < g0.len() {
                assert(g[i] == g0[i]);
            } else {
                assert(g[i] == pending.last());
            }
        }
    }
}

/// Whether a pending entry is due for retransmission.
pub open spec fn is_due(p: PendingView, now: u64) -> bool {
    p.deadline < now
}

/// Walks the pending table in order, emitting the frames of due entries
/// while the budget lasts; an emitted entry's retries rise by one, its
/// deadline stays. Returns the table and the emitted frames.
pub open spec fn spec_retransmit(pending: Seq<PendingView>, now: u64, budget: int) -> (
    Seq<PendingView>,
    Seq<FrameView>,
)
    decreases pending.len(),
{
    if pending.len() == 0 {
        (Seq::empty(), Seq::empty())
    } else {
        let p = pending[0];
        if is_due(p, now) && budget > 0 {
            let rest = spec_retransmit(pending.skip(1), now, budget - 1);
            (
                seq![PendingView { retries: (p.retries + 1) as u8, ..p }] + rest.0,
                seq![p.frame] + rest.1,
            )
        } else {
            let rest = spec_retransmit(pending.skip(1), now, budget);
            (seq![p] + rest.0, rest.1)
        }
    }
}

/// Retransmission keeps the table's length.
pub proof fn lemma_retransmit_len(pending: Seq<PendingView>, now: u64, budget: int)
    ensures
        spec_retransmit(pending, now, budget).0.len() == pending.len(),
        spec_retransmit(pending, now, budget).1.len() <= pending.len(),
    decreases pending.len(),
{
    if pending.len() > 0 {
        if is_due(pending[0], now) && budget > 0 {
            lemma_retransmit_len(pending.skip(1), now, budget - 1);
        } else {
            lemma_retransmit_len(pending.skip(1), now, budget);
        }
    }
}

/// The manager and the outgoing batch after one `payload_to_send` turn.
#[verifier::ext_equal]
pub ghost struct SendStep {
    pub nm: NmView,
    pub res: Result<Seq<FrameView>, NetworkManagerError>,
}

/// One application turn: garbage-collect the pending table, select due
/// retransmissions (truncated so the new frame always fits the batch),
/// mint a frame for the payload, and append a pending entry for it.
/// Fails with `Serialization` when the payload is too large, with
/// `BufferFull` when the pending table has no room for the new entry;
/// either way the garbage collection and the retry increments stand.
pub open spec fn spec_payload_to_send(
    nm: NmView,
    payload: Seq<u8>,
    destination: u8,
    now: u64,
) -> SendStep {
    let kept = spec_gc(nm.pending, nm.max_retries, now);
    let (pend2, emitted) = spec_retransmit(kept, now, nm.cap - 1);
    if payload.len() > nm.size {
        SendStep {
            nm: NmView { pending: pend2, ..nm },
            res: Err(NetworkManagerError::Serialization),
        }
    } else {
        let (nm3, frame) = spec_mint(NmView { pending: pend2, ..nm }, payload, destination);
        if pend2.len() >= nm.cap {
            SendStep { nm: nm3, res: Err(NetworkManagerError::BufferFull) }
        } else {
            let entry = PendingView {
                frame,
                deadline: spec_deadline(now, nm.timeout),
                retries: 0,
            };
            SendStep {
                nm: NmView { pending: pend2.push(entry), ..nm3 },
                res: Ok(emitted.push(frame)),
            }
        }
    }
}

/// The view of a `receive_packet` result.
pub open spec fn recv_result_view<const SIZE: usize>(
    r: Result<Option<(MHPacket<SIZE>, PayloadType)>, NetworkManagerError>,
) -> Result<Option<(FrameView, PayloadType)>, NetworkManagerError> {
    match r {
        Ok(None) => Ok(None),
        Ok(Some((f, t))) => Ok(Some((f@, t))),
        Err(e) => Err(e),
    }
}

/// The view of a `payload_to_send` result.
pub open spec fn send_result_view<const SIZE: usize>(
    r: Result<Vec<MHPacket<SIZE>>, NetworkManagerError>,
) -> Result<Seq<FrameView>, NetworkManagerError> {
    match r {
        Ok(batch) => Ok(frame_views(batch@)),
        Err(e) => Err(e),
    }
}

/// Keeps record of the frames this node sent or forwarded, so that they are
/// retransmitted until somebody acknowledges them; decides for every
/// received frame whether it is dropped, delivered, forwarded,
/// acknowledged or relayed.
pub struct NetworkManager<const SIZE: usize, const LEN: usize> {
    pending_acks: Vec<PendingPacket<SIZE>>,
    next_packet_id: u16,
    recent_seen: RecentSeen<LEN>,
    gw_hops: u8,
    source_id: u8,
    timeout: u8,
    max_retries: u8,
}

impl<const SIZE: usize, const LEN: usize> View for NetworkManager<SIZE, LEN> {
    type V = NmView;

    closed spec fn view(&self) -> NmView {
        NmView {
            cap: LEN as int,
            size: SIZE as int,
            pending: pending_views(self.pending_acks@),
            next_packet_id: self.next_packet_id,
            recent: self.recent_seen@,
            gw_hops: self.gw_hops,
            source_id: self.source_id,
            timeout: self.timeout,
            max_retries: self.max_retries,
        }
    }
}

impl<const SIZE: usize, const LEN: usize> NetworkManager<SIZE, LEN> {
    /// The manager's image is well formed and carries the compile-time
    /// capacities.
    pub open spec fn wf(self) -> bool {
        &&& self@.wf()
        &&& self@.cap == LEN as int
        &&& self@.size == SIZE as int
    }

    /// A fresh manager: empty pending table, packet ids starting at zero,
    /// empty ring, and an unknown gateway distance.
    pub fn new(source_id: u8, timeout: u8, max_retries: u8) -> (r: Self)
        requires
            SIZE >= 1,
            LEN >= 1,
        ensures
            r.wf(),
            r@.pending == Seq::<PendingView>::empty(),
            r@.next_packet_id == 0,
            r@.gw_hops == 255,
            r@.source_id == source_id,
            r@.timeout == timeout,
            r@.max_retries == max_retries,
            forall|key: (u8, u16)| !r@.recent.contains(key),
    {
        let r = NetworkManager {
            pending_acks: Vec::new(),
            next_packet_id: 0,
            recent_seen: RecentSeen::new(),
            gw_hops: 255,
            source_id,
            timeout,
            max_retries,
        };
        proof {
            assert(r@.pending =~= Seq::<PendingView>::empty());
        }
        r
    }

    /// The node identity this manager stamps on the frames it mints.
    pub fn source_id(&self) -> (r: u8)
        ensures
            r == self@.source_id,
    {
        self.source_id
    }

    /// How many frames await an acknowledgement.
    pub fn get_pending_count(&self) -> (r: usize)
        ensures
            r == self@.pending.len(),
    {
        self.pending_acks.len()
    }

    /// Mints a `Data` frame for a payload: the next packet id (wrapping at
    /// the top), hop count zero, and the manager's own gateway distance.
    /// Fails with `Serialization`, changing nothing, when the payload is
    /// too large.
    pub fn new_packet(&mut self, payload: Vec<u8>, destination: u8) -> (r: Result<
        MHPacket<SIZE>,
        NetworkManagerError,
    >)
        ensures
            match r {
                Ok(f) => {
                    &&& old(self)@.size >= payload@.len()
                    &&& final(self)@ == spec_mint(old(self)@, payload@, destination).0
                    &&& f@ == spec_mint(old(self)@, payload@, destination).1
                    &&& f.wf()
                },
                Err(e) => {
                    &&& e == NetworkManagerError::Serialization
                    &&& payload@.len() > old(self)@.size
                    &&& final(self)@ == old(self)@
                },
            },
    {
        if payload.len() > SIZE {
            return Err(NetworkManagerError::Serialization);
        }
        self.next_packet_id = if self.next_packet_id == u16::MAX {
            0
        } else {
            self.next_packet_id + 1
        };
        let f = MHPacket {
            destination_id: destination,
            packet_type: PacketType::Data,
            packet_id: self.next_packet_id,
            source_id: self.source_id,
            payload,
            hop_count: 0,
            hop_to_gw: self.gw_hops,
        };
        proof {
            assert(self@ =~= spec_mint(old(self)@, f.payload@, destination).0);
            assert(f@ =~= spec_mint(old(self)@, f.payload@, destination).1);
        }
        Ok(f)
    }

    /// Appends a pending entry for `packet` with a fresh deadline and no
    /// retries yet; fails with `BufferFull`, changing nothing, when the
    /// table is at capacity.
    pub fn add_packet(&mut self, packet: MHPacket<SIZE>, now: u64) -> (r: Result<
        (),
        NetworkManagerError,
    >)
        requires
            old(self).wf(),
            packet.wf(),
        ensures
            final(self).wf(),
            match r {
                Ok(()) => {
                    &&& old(self)@.pending.len() < old(self)@.cap
                    &&& final(self)@ == NmView {
                        pending: old(self)@.pending.push(
                            PendingView {
                                frame: packet@,
                                deadline: spec_deadline(now, old(self)@.timeout),
                                retries: 0,
                            },
                        ),
                        ..old(self)@
                    }
                },
                Err(e) => {
                    &&& e == NetworkManagerError::BufferFull
                    &&& old(self)@.pending.len() == old(self)@.cap
                    &&& final(self)@ == old(self)@
                },
            },
    {
        if self.pending_acks.len() >= LEN {
            return Err(NetworkManagerError::BufferFull);
        }
        let deadline = self.deadline_from(now);
        let entry = PendingPacket { packet, timeout: deadline, retries: 0 };
        let ghost prev = self.pending_acks@;
        self.pending_acks.push(entry);
        proof {
            assert(pending_views(self.pending_acks@) =~= pending_views(prev).push(entry@));
            assert(self@ =~= NmView {
                pending: old(self)@.pending.push(entry@),
                ..old(self)@
            });
        }
        Ok(())
    }

    /// The deadline `now + timeout`, saturating at the top of the clock.
    fn deadline_from(&self, now: u64) -> (r: u64)
        ensures
            r == spec_deadline(now, self@.timeout),
    {
        if now > u64::MAX - (self.timeout as u64) {
            u64::MAX
        } else {
            now + (self.timeout as u64)
        }
    }

    /// The routing decision for one received frame; `spec_receive_packet`
    /// gives the order of the cases. `now` stamps the deadline of the
    /// pending entry created for a forwarded frame. Fails with
    /// `BufferFull` when a frame should be forwarded but the pending table
    /// is at capacity; the frame still counts as seen.
    #[verifier::loop_isolation(false)]
    pub fn receive_packet(&mut self, pkt: MHPacket<SIZE>, now: u64) -> (r: Result<
        Option<(MHPacket<SIZE>, PayloadType)>,
        NetworkManagerError,
    >)
        requires
            old(self).wf(),
            pkt.wf(),
        ensures
            final(self).wf(),
            final(self)@ == spec_receive_packet(old(self)@, pkt@, now).nm,
            recv_result_view(r) == spec_receive_packet(old(self)@, pkt@, now).res,
    {
        let ghost step = spec_receive_packet(old(self)@, pkt@, now);
        if pkt.packet_type == PacketType::BootUp {
            if pkt.hop_count >= self.gw_hops {
                return Ok(None);
            }
            self.gw_hops = pkt.hop_count + 1;
            self.recent_seen.push((pkt.source_id, pkt.packet_id));
            proof {
                assert(self@ =~= step.nm);
            }
            return Ok(Some((pkt, PayloadType::Bootup)));
        }
        proof {
            lemma_find_ack_match(self@.pending, pkt@);
        }
        let n = self.pending_acks.len();
        let mut i: usize = 0;
        while i < n
            invariant
                i <= n,
                n == self.pending_acks@.len(),
                self@ == old(self)@,
                pkt@.packet_type !is BootUp,
                forall|j: int| 0 <= j < i ==> !ack_matches(self@.pending[j], pkt@),
            decreases n - i,
        {
            let p = &self.pending_acks[i];
            proof {
                assert(*p == self.pending_acks@[i as int]);
                assert(self@.pending[i as int] == self.pending_acks@[i as int]@);
            }
            let hit = p.packet.packet_id == pkt.packet_id && (p.packet.source_id == pkt.source_id
                || (pkt.packet_type == PacketType::Ack && pkt.destination_id
                == p.packet.source_id));
            proof {
                assert(hit == ack_matches(self@.pending[i as int], pkt@));
            }
            if hit {
                let ghost prev = self.pending_acks@;
                self.pending_acks.remove(i);
                proof {
                    assert(find_ack_match(old(self)@.pending, pkt@) == Some(i as int));
                    assert(pending_views(self.pending_acks@) =~= pending_views(prev).remove(
                        i as int,
                    ));
                    assert(self@ =~= step.nm);
                }
                return Ok(None);
            }
            i = i + 1;
        }
        proof {
            assert(find_ack_match(old(self)@.pending, pkt@) is None);
        }
        if self.recent_seen.contains((pkt.source_id, pkt.packet_id)) {
            if pkt.packet_type == PacketType::Ack {
                return Ok(None);
            }
            return Ok(Some((pkt, PayloadType::ACK)));
        }
        self.recent_seen.push((pkt.source_id, pkt.packet_id));
        if pkt.destination_id == self.source_id {
            proof {
                assert(self@ =~= step.nm);
            }
            return Ok(Some((pkt, PayloadType::Command)));
        }
        let should_forward = if pkt.destination_id == 1 {
            self.gw_hops < pkt.hop_to_gw
        } else {
            let lo = if pkt.source_id <= pkt.destination_id {
                pkt.source_id
            } else {
                pkt.destination_id
            };
            let hi = if pkt.source_id <= pkt.destination_id {
                pkt.destination_id
            } else {
                pkt.source_id
            };
            lo <= self.source_id && self.source_id <= hi
        };
        if !should_forward {
            proof {
                assert(self@ =~= step.nm);
            }
            return Ok(None);
        }
        if self.pending_acks.len() >= LEN {
            proof {
                assert(self@ =~= step.nm);
            }
            return Err(NetworkManagerError::BufferFull);
        }
        let mut fwd = pkt;
        if fwd.destination_id == 1 {
            fwd.hop_to_gw = self.gw_hops;
        }
        let deadline = self.deadline_from(now);
        let entry = PendingPacket { packet: fwd.duplicate(), timeout: deadline, retries: 0 };
        let ghost prev = self.pending_acks@;
        self.pending_acks.push(entry);
        proof {
            assert(fwd@ =~= forwarded_frame(old(self)@, pkt@));
            assert(pending_views(self.pending_acks@) =~= pending_views(prev).push(entry@));
            assert(self@ =~= step.nm);
        }
        Ok(Some((fwd, PayloadType::Data)))
    }

    /// Processes a batch of received frames in arrival order and
    /// materializes the dispositions: frames to transmit (forwards,
    /// synthesized acknowledgements and beacon relays, in arrival order)
    /// and frames for the application. A frame whose forwarding found the
    /// pending table full is skipped; nothing else fails.
    #[verifier::loop_isolation(false)]
    pub fn handle_packets(&mut self, pkts: Vec<MHPacket<SIZE>>, now: u64) -> (r: Result<
        (Vec<MHPacket<SIZE>>, Vec<MHPacket<SIZE>>),
        NetworkManagerError,
    >)
        requires
            old(self).wf(),
            forall|i: int| 0 <= i < pkts@.len() ==> (#[trigger] pkts@[i]).wf(),
        ensures
            final(self).wf(),
            ({
                let b = spec_handle_packets(old(self)@, frame_views(pkts@), now);
                &&& final(self)@ == b.nm
                &&& r matches Ok((to_send, to_app)) && frame_views(to_send@) == b.to_send
                    && frame_views(to_app@) == b.to_app && (forall|i: int|
                    0 <= i < to_send@.len() ==> (#[trigger] to_send@[i]).wf()) && (forall|i: int|
                    0 <= i < to_app@.len() ==> (#[trigger] to_app@[i]).wf())
            }),
    {
        let ghost vs = frame_views(pkts@);
        let mut to_send: Vec<MHPacket<SIZE>> = Vec::new();
        let mut commands: Vec<MHPacket<SIZE>> = Vec::new();
        let mut i: usize = 0;
        proof {
            assert(vs.take(0) =~= Seq::<FrameView>::empty());
            assert(frame_views(to_send@) =~= Seq::<FrameView>::empty());
            assert(frame_views(commands@) =~= Seq::<FrameView>::empty());
        }
        while i < pkts.len()
            invariant
                i <= pkts@.len(),
                vs == frame_views(pkts@),
                forall|k: int| 0 <= k < pkts@.len() ==> (#[trigger] pkts@[k]).wf(),
                self.wf(),
                spec_handle_packets(old(self)@, vs.take(i as int), now) == (BatchStep {
                    nm: self@,
                    to_send: frame_views(to_send@),
                    to_app: frame_views(commands@),
                }),
                forall|k: int| 0 <= k < to_send@.len() ==> (#[trigger] to_send@[k]).wf(),
                forall|k: int| 0 <= k < commands@.len() ==> (#[trigger] commands@[k]).wf(),
            decreases pkts@.len() - i,
        {
            let ghost prev_nm = self@;
            let ghost ts_prev = to_send@;
            let ghost cmd_prev = commands@;
            let pkt = pkts[i].duplicate();
            proof {
                assert(pkt@ == vs[i as int]);
            }
            let res = self.receive_packet(pkt, now);
            proof {
                assert(vs.take(i + 1).drop_last() =~= vs.take(i as int));
                assert(vs.take(i + 1).last() == vs[i as int]);
            }
            match res {
                Ok(Some((packet, ptype))) => {
                    match ptype {
                        PayloadType::Data => {
                            to_send.push(packet);
                            proof {
                                assert(frame_views(to_send@) =~= frame_views(ts_prev).push(
                                    to_send@.last()@,
                                ));
                            }
                        },
                        PayloadType::Command => {
                            commands.push(packet);
                            proof {
                                assert(frame_views(commands@) =~= frame_views(cmd_prev).push(
                                    commands@.last()@,
                                ));
                            }
                        },
                        PayloadType::ACK => {
                            let mut payload: Vec<u8> = Vec::new();
                            payload.push(0u8);
                            let ack = MHPacket {
                                destination_id: packet.source_id,
                                packet_type: PacketType::Ack,
                                packet_id: packet.packet_id,
                                source_id: self.source_id,
                                payload,
                                hop_count: 0,
                                hop_to_gw: self.gw_hops,
                            };
                            proof {
                                assert(ack@.payload =~= seq![0u8]);
                                assert(ack@ =~= synth_ack(self@, packet@));
                            }
                            to_send.push(ack);
                            proof {
                                assert(frame_views(to_send@) =~= frame_views(ts_prev).push(
                                    to_send@.last()@,
                                ));
                            }
                        },
                        PayloadType::Bootup => {
                            assert(packet@.hop_count < 255);
                            let mut payload: Vec<u8> = Vec::new();
                            payload.push(0u8);
                            let relay = MHPacket {
                                destination_id: 0,
                                packet_type: PacketType::BootUp,
                                packet_id: packet.packet_id,
                                source_id: self.source_id,
                                payload,
                                hop_count: packet.hop_count + 1,
                                hop_to_gw: self.gw_hops,
                            };
                            proof {
                                assert(relay@.payload =~= seq![0u8]);
                                assert(relay@ =~= synth_bootup_relay(self@, packet@));
                            }
                            to_send.push(relay);
                            proof {
                                assert(frame_views(to_send@) =~= frame_views(ts_prev).push(
                                    to_send@.last()@,
                                ));
                            }
                        },
                    }
                },
                Ok(None) => {},
                Err(_) => {},
            }
            i = i + 1;
            proof {
                assert(spec_handle_packets(old(self)@, vs.take(i as int), now) =~= (BatchStep {
                    nm: self@,
                    to_send: frame_views(to_send@),
                    to_app: frame_views(commands@),
                }));
            }
        }
        proof {
            assert(vs.take(pkts@.len() as int) =~= vs);
        }
        Ok((to_send, commands))
    }

    /// One application turn, atomically: garbage-collects the pending
    /// table, gathers every due retransmission (oldest first, truncated so
    /// the new frame always fits a batch of `LEN`), mints a frame for the
    /// payload, appends it to the batch, and records it as pending. Fails
    /// with `Serialization` when the payload is too large and with
    /// `BufferFull` when the pending table has no room for the new entry;
    /// the garbage collection and the retry increments stand either way.
    #[verifier::loop_isolation(false)]
    pub fn payload_to_send(&mut self, payload: Vec<u8>, destination: u8, now: u64) -> (r: Result<
        Vec<MHPacket<SIZE>>,
        NetworkManagerError,
    >)
        requires
            old(self).wf(),
        ensures
            final(self).wf(),
            final(self)@ == spec_payload_to_send(old(self)@, payload@, destination, now).nm,
            send_result_view(r) == spec_payload_to_send(old(self)@, payload@, destination, now).res,
            r matches Ok(batch) ==> forall|i: int|
                0 <= i < batch@.len() ==> (#[trigger] batch@[i]).wf(),
    {
        let ghost pv = self@.pending;
        let ghost s = spec_payload_to_send(old(self)@, payload@, destination, now);
        // Garbage-collect entries that are both out of retries and expired.
        let mut kept: Vec<PendingPacket<SIZE>> = Vec::new();
        let mut i: usize = 0;
        proof {
            assert(pv.take(0) =~= Seq::<PendingView>::empty());
            assert(pending_views(kept@) =~= spec_gc(pv.take(0), self@.max_retries, now));
        }
        while i < self.pending_acks.len()
            invariant
                i <= self.pending_acks@.len(),
                self@ == old(self)@,
                pv == self@.pending,
                kept@.len() <= i,
                pending_views(kept@) == spec_gc(pv.take(i as int), self@.max_retries, now),
                forall|k: int| 0 <= k < kept@.len() ==> (#[trigger] kept@[k])@.frame.wf(self@.size),
            decreases self.pending_acks@.len() - i,
        {
            let ghost kept_prev = kept@;
            let p = &self.pending_acks[i];
            if p.retries < self.max_retries || p.timeout >= now {
                kept.push(
                    PendingPacket {
                        packet: p.packet.duplicate(),
                        timeout: p.timeout,
                        retries: p.retries,
                    },
                );
                proof {
                    assert(kept@.last()@ =~= pv[i as int]);
                    assert(pending_views(kept@) =~= pending_views(kept_prev).push(kept@.last()@));
                }
            }
            i = i + 1;
            proof {
                assert(pv.take(i as int).drop_last() =~= pv.take(i - 1));
                assert(pending_views(kept@) =~= spec_gc(pv.take(i as int), self@.max_retries, now));
            }
        }
        proof {
            assert(pv.take(self.pending_acks@.len() as int) =~= pv);
        }
        let ghost kv = pending_views(kept@);
        let ghost full = spec_retransmit(kv, now, self@.cap - 1);
        proof {
            lemma_gc_all_keep(pv, self@.max_retries, now);
        }
        // Gather due retransmissions, bumping their retry counts, while a
        // batch slot for the new frame remains.
        let mut pend2: Vec<PendingPacket<SIZE>> = Vec::new();
        let mut to_send: Vec<MHPacket<SIZE>> = Vec::new();
        let mut budget: usize = LEN - 1;
        let mut j: usize = 0;
        proof {
            assert(kv.skip(0) =~= kv);
            assert(pending_views(pend2@) + full.0 =~= full.0);
            assert(frame_views(to_send@) + full.1 =~= full.1);
        }
        while j < kept.len()
            invariant
                j <= kept@.len(),
                self@ == old(self)@,
                kv == pending_views(kept@),
                full == spec_retransmit(kv, now, self@.cap - 1),
                budget <= self@.cap - 1,
                pend2@.len() == j,
                forall|k: int| 0 <= k < kv.len() ==> gc_keep(#[trigger] kv[k], self@.max_retries, now),
                forall|k: int| 0 <= k < kv.len() ==> (#[trigger] kv[k]).frame.wf(self@.size),
                full.0 == pending_views(pend2@) + spec_retransmit(
                    kv.skip(j as int),
                    now,
                    budget as int,
                ).0,
                full.1 == frame_views(to_send@) + spec_retransmit(
                    kv.skip(j as int),
                    now,
                    budget as int,
                ).1,
                forall|k: int| 0 <= k < pend2@.len() ==> (#[trigger] pend2@[k])@.frame.wf(
                    self@.size,
                ),
                forall|k: int| 0 <= k < to_send@.len() ==> (#[trigger] to_send@[k]).wf(),
            decreases kept@.len() - j,
        {
            let ghost pend2_prev = pend2@;
            let ghost ts_prev = to_send@;
            let p = &kept[j];
            proof {
                assert(kv.skip(j as int)[0] == kv[j as int]);
                assert(kv.skip(j as int).skip(1) =~= kv.skip(j + 1));
            }
            if p.timeout < now && budget > 0 {
                proof {
                    assert(gc_keep(kv[j as int], self@.max_retries, now));
                }
                to_send.push(p.packet.duplicate());
                pend2.push(
                    PendingPacket {
                        packet: p.packet.duplicate(),
                        timeout: p.timeout,
                        retries: p.retries + 1,
                    },
                );
                budget = budget - 1;
                proof {
                    assert(pending_views(pend2@) =~= pending_views(pend2_prev).push(
                        pend2@.last()@,
                    ));
                    assert(frame_views(to_send@) =~= frame_views(ts_prev).push(to_send@.last()@));
                    assert(pend2@.last()@ =~= (PendingView {
                        retries: (kv[j as int].retries + 1) as u8,
                        ..kv[j as int]
                    }));
                    assert(pending_views(pend2_prev) + (seq![
                        PendingView { retries: (kv[j as int].retries + 1) as u8, ..kv[j as int] },
                    ] + spec_retransmit(kv.skip(j + 1), now, budget as int).0) =~= pending_views(
                        pend2@,
                    ) + spec_retransmit(kv.skip(j + 1), now, budget as int).0);
                    assert(frame_views(ts_prev) + (seq![kv[j as int].frame] + spec_retransmit(
                        kv.skip(j + 1),
                        now,
                        budget as int,
                    ).1) =~= frame_views(to_send@) + spec_retransmit(
                        kv.skip(j + 1),
                        now,
                        budget as int,
                    ).1);
                }
            } else {
                pend2.push(
                    PendingPacket {
                        packet: p.packet.duplicate(),
                        timeout: p.timeout,
                        retries: p.retries,
                    },
                );
                proof {
                    assert(pending_views(pend2@) =~= pending_views(pend2_prev).push(
                        pend2@.last()@,
                    ));
                    assert(pend2@.last()@ =~= kv[j as int]);
                    assert(pending_views(pend2_prev) + (seq![kv[j as int]] + spec_retransmit(
                        kv.skip(j + 1),
                        now,
                        budget as int,
                    ).0) =~= pending_views(pend2@) + spec_retransmit(
                        kv.skip(j + 1),
                        now,
                        budget as int,
                    ).0);
                }
            }
            j = j + 1;
        }
        proof {
            assert(kv.skip(kept@.len() as int) =~= Seq::<PendingView>::empty());
            assert(pending_views(pend2@) + Seq::<PendingView>::empty() =~= pending_views(pend2@));
            assert(frame_views(to_send@) + Seq::<FrameView>::empty() =~= frame_views(to_send@));
        }
        self.pending_acks = pend2;
        proof {
            assert(self@ =~= (NmView { pending: full.0, ..old(self)@ }));
        }
        let new_pkt = match self.new_packet(payload, destination) {
            Ok(p) => p,
            Err(e) => {
                proof {
                    assert(self@ =~= s.nm);
                }
                return Err(e);
            },
        };
        let ghost ts_prev = to_send@;
        match self.add_packet(new_pkt.duplicate(), now) {
            Ok(()) => {},
            Err(e) => {
                proof {
                    assert(self@ =~= s.nm);
                }
                return Err(e);
            },
        }
        to_send.push(new_pkt);
        proof {
            assert(frame_views(to_send@) =~= frame_views(ts_prev).push(to_send@.last()@));
            assert(self@ =~= s.nm);
            assert(send_result_view(Ok::<_, NetworkManagerError>(to_send)) == s.res);
        }
        Ok(to_send)
    }

    /// Mints the gateway's startup beacon: broadcast, the next packet id,
    /// hop count zero, gateway distance zero, empty payload.
    pub fn handle_bootup(&mut self) -> (r: Result<MHPacket<SIZE>, NetworkManagerError>)
        requires
            old(self).wf(),
        ensures
            final(self).wf(),
            final(self)@ == (NmView {
                next_packet_id: wrap16(old(self)@.next_packet_id + 1),
                ..old(self)@
            }),
            r matches Ok(f) && f@ == (FrameView {
                destination_id: 0,
                packet_type: PacketType::BootUp,
                packet_id: wrap16(old(self)@.next_packet_id + 1),
                source_id: old(self)@.source_id,
                payload: Seq::<u8>::empty(),
                hop_count: 0,
                hop_to_gw: 0,
            }) && f.wf(),
    {
        self.next_packet_id = if self.next_packet_id == u16::MAX {
            0
        } else {
            self.next_packet_id + 1
        };
        let f = MHPacket {
            destination_id: 0,
            packet_type: PacketType::BootUp,
            packet_id: self.next_packet_id,
            source_id: self.source_id,
            payload: Vec::new(),
            hop_count: 0,
            hop_to_gw: 0,
        };
        proof {
            assert(f@.payload =~= Seq::<u8>::empty());
        }
        Ok(f)
    }
}

} // verus!
