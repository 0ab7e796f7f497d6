//! The wire codec: a frame is a varint-prefixed, little-endian
//! concatenation of its fields, in this exact order:
//! `destination_id | tag | packet_id (u16 LE) | source_id |
//! payload_len (varint) | payload | hop_count | hop_to_gw`.
//! Frames are self-delimiting, so several frames can be packed into one
//! radio packet by repeating this structure.

use vstd::arithmetic::div_mod::{lemma_div_decreases, lemma_fundamental_div_mod};
use vstd::prelude::*;

use crate::packet::{FrameView, MHPacket, PacketType};

verus! {

/// Why a byte sequence was rejected by the decoder.
#[derive(Clone, Copy, Debug, PartialEq, Eq, Structural)]
pub enum DecodeError {
    /// The bytes do not spell a complete frame.
    Malformed,
    /// The frame is complete up to its payload length, but the payload
    /// would not fit the local size bound.
    PayloadSizeUnexpected,
}

/// What decoding one frame from the start of a byte sequence yields.
#[verifier::ext_equal]
pub ghost enum SpecDecodeResult {
    /// A frame, and how many bytes it took.
    Frame(FrameView, int),
    /// The advertised payload length exceeds the local size bound.
    TooLarge,
    /// Anything else: truncated bytes or an unknown tag.
    Bad,
}

/// The one-byte tag of a packet kind.
pub open spec fn tag_of(t: PacketType) -> u8 {
    match t {
        PacketType::Data => 0,
        PacketType::Ack => 1,
        PacketType::BootUp => 2,
    }
}

/// The packet kind a tag byte spells, if any.
pub open spec fn tag_to_type(b: u8) -> Option<PacketType> {
    match b {
        0u8 => Some(PacketType::Data),
        1u8 => Some(PacketType::Ack),
        2u8 => Some(PacketType::BootUp),
        _ => None,
    }
}

/// Little-endian base-128 encoding of a number; the high bit of a byte
/// says that more bytes follow.
pub open spec fn spec_varint(n: nat) -> Seq<u8>
    decreases n,
{
    if n < 128 {
        seq![n as u8]
    } else {
        proof {
            lemma_div_decreases(n as int, 128);
        }
        seq![(n % 128 + 128) as u8] + spec_varint(n / 128)
    }
}

/// The number spelled by a varint at the start of `bytes`, and how many
/// bytes it takes.
pub open spec fn spec_decode_varint(bytes: Seq<u8>) -> Option<(nat, int)>
    decreases bytes.len(),
{
    if bytes.len() == 0 {
        None
    } else if bytes[0] < 128 {
        Some((bytes[0] as nat, 1))
    } else {
        match spec_decode_varint(bytes.skip(1)) {
            None => None,
            Some((v, n)) => Some((((bytes[0] - 128) + 128 * v) as nat, n + 1)),
        }
    }
}

/// The encoding of one frame.
pub open spec fn spec_encode(f: FrameView) -> Seq<u8> {
    seq![
        f.destination_id,
        tag_of(f.packet_type),
        (f.packet_id % 256) as u8,
        (f.packet_id / 256) as u8,
        f.source_id,
    ] + spec_varint(f.payload.len()) + f.payload + seq![f.hop_count, f.hop_to_gw]
}

/// What decoding one frame from the start of `bytes` yields, with
/// payloads bounded by `size`.
pub open spec fn spec_decode(bytes: Seq<u8>, size: int) -> SpecDecodeResult {
    if bytes.len() < 5 {
        SpecDecodeResult::Bad
    } else if tag_to_type(bytes[1]) is None {
        SpecDecodeResult::Bad
    } else {
        match spec_decode_varint(bytes.skip(5)) {
            None => SpecDecodeResult::Bad,
            Some((plen, vn)) => {
                if plen > size {
                    SpecDecodeResult::TooLarge
                } else if bytes.len() < 5 + vn + plen + 2 {
                    SpecDecodeResult::Bad
                } else {
                    SpecDecodeResult::Frame(
                        FrameView {
                            destination_id: bytes[0],
                            packet_type: tag_to_type(bytes[1])->Some_0,
                            packet_id: (bytes[2] + 256 * bytes[3]) as u16,
                            source_id: bytes[4],
                            payload: bytes.subrange(5 + vn, 5 + vn + plen),
                            hop_count: bytes[5 + vn + plen],
                            hop_to_gw: bytes[5 + vn + plen + 1],
                        },
                        5 + vn + plen + 2,
                    )
                }
            },
        }
    }
}

/// Appends the varint encoding of `n` to `out`.
fn encode_varint(n: usize, out: &mut Vec<u8>)
    ensures
        final(out)@ == old(out)@ + spec_varint(n as nat),
    decreases n,
{
    if n < 128 {
        out.push(n as u8);
        proof {
            assert(out@ =~= old(out)@ + spec_varint(n as nat));
        }
    } else {
        out.push((n % 128 + 128) as u8);
        encode_varint(n / 128, out);
        proof {
            assert(out@ =~= old(out)@ + spec_varint(n as nat));
        }
    }
}

/// Appends the encoding of one frame to `out`.
pub fn serialize_frame_into<const SIZE: usize>(f: &MHPacket<SIZE>, out: &mut Vec<u8>)
    ensures
        final(out)@ == old(out)@ + spec_encode(f@),
{
    out.push(f.destination_id);
    let tag: u8 = match f.packet_type {
        PacketType::Data => 0,
        PacketType::Ack => 1,
        PacketType::BootUp => 2,
    };
    out.push(tag);
    out.push((f.packet_id % 256) as u8);
    out.push((f.packet_id / 256) as u8);
    out.push(f.source_id);
    encode_varint(f.payload.len(), out);
    let ghost mid = out@;
    let mut k: usize = 0;
    while k < f.payload.len()
        invariant
            k <= f.payload@.len(),
            out@ == mid + f.payload@.subrange(0, k as int),
        decreases f.payload@.len() - k,
    {
        out.push(f.payload[k]);
        k = k + 1;
        proof {
            assert(out@ =~= mid + f.payload@.subrange(0, k as int));
        }
    }
    out.push(f.hop_count);
    out.push(f.hop_to_gw);
    proof {
        assert(f.payload@.subrange(0, f.payload@.len() as int) =~= f.payload@);
        assert(out@ =~= old(out)@ + spec_encode(f@));
    }
}

/// The encoding of one frame, as a fresh byte vector.
pub fn serialize_frame<const SIZE: usize>(f: &MHPacket<SIZE>) -> (r: Vec<u8>)
    ensures
        r@ == spec_encode(f@),
{
    let mut out: Vec<u8> = Vec::new();
    serialize_frame_into(f, &mut out);
    out
}

/// Reads a varint at `buf[i..]`, rejecting values above `max`.
fn decode_varint(buf: &[u8], i: usize, max: usize) -> (r: Result<(usize, usize), DecodeError>)
    requires
        i <= buf@.len(),
    ensures
        match r {
            Ok((v, j)) => {
                &&& spec_decode_varint(buf@.skip(i as int)) == Some((v as nat, j - i))
                &&& v <= max
                &&& i < j <= buf@.len()
            },
            Err(e) => match spec_decode_varint(buf@.skip(i as int)) {
                None => e == DecodeError::Malformed,
                Some((v, n)) => v > max && e == DecodeError::PayloadSizeUnexpected,
            },
        },
    decreases buf@.len() - i,
{
    if i == buf.len() {
        return Err(DecodeError::Malformed);
    }
    let b = buf[i];
    if b < 128 {
        if b as usize <= max {
            Ok((b as usize, i + 1))
        } else {
            Err(DecodeError::PayloadSizeUnexpected)
        }
    } else {
        let low: usize = (b - 128) as usize;
        let max2: usize = if low <= max {
            (max - low) / 128
        } else {
            0
        };
        proof {
            assert(buf@.skip(i as int).skip(1) =~= buf@.skip(i + 1));
        }
        match decode_varint(buf, i + 1, max2) {
            Err(e) => {
                proof {
                    if let Some((v, n)) = spec_decode_varint(buf@.skip(i + 1)) {
                        // The rest spells a value above `max2`, so the whole
                        // varint spells a value above `max`.
                        lemma_fundamental_div_mod(max as int - low as int, 128);
                    }
                }
                Err(e)
            },
            Ok((v, j)) => {
                if low <= max {
                    proof {
                        lemma_fundamental_div_mod(max as int - low as int, 128);
                    }
                    Ok((low + 128 * v, j))
                } else {
                    Err(DecodeError::PayloadSizeUnexpected)
                }
            },
        }
    }
}

/// The views of a sequence of frames.
pub open spec fn frame_views<const SIZE: usize>(s: Seq<MHPacket<SIZE>>) -> Seq<FrameView> {
    s.map_values(|p: MHPacket<SIZE>| p@)
}

/// The encoding of a batch: the frames' encodings, one after the other.
pub open spec fn spec_encode_batch(s: Seq<FrameView>) -> Seq<u8>
    decreases s.len(),
{
    if s.len() == 0 {
        Seq::empty()
    } else {
        spec_encode_batch(s.drop_last()) + spec_encode(s.last())
    }
}

/// The frames spelled by `bytes`, one after the other, up to the first
/// byte position that does not spell a frame.
pub open spec fn spec_decode_batch(bytes: Seq<u8>, size: int) -> Seq<FrameView>
    decreases bytes.len(),
{
    if bytes.len() == 0 {
        Seq::empty()
    } else {
        match spec_decode(bytes, size) {
            SpecDecodeResult::Frame(f, n) => if 0 < n <= bytes.len() {
                seq![f] + spec_decode_batch(bytes.skip(n), size)
            } else {
                seq![f]
            },
            _ => Seq::empty(),
        }
    }
}

/// Appends the encodings of all frames in `batch` to `out`.
pub fn serialize_batch_into<const SIZE: usize>(batch: &Vec<MHPacket<SIZE>>, out: &mut Vec<u8>)
    ensures
        final(out)@ == old(out)@ + spec_encode_batch(frame_views(batch@)),
{
    let ghost vs = frame_views(batch@);
    let mut i: usize = 0;
    proof {
        assert(vs.take(0) =~= Seq::<FrameView>::empty());
        assert(out@ =~= old(out)@ + spec_encode_batch(vs.take(0)));
    }
    while i < batch.len()
        invariant
            i <= batch@.len(),
            vs == frame_views(batch@),
            out@ == old(out)@ + spec_encode_batch(vs.take(i as int)),
        decreases batch@.len() - i,
    {
        serialize_frame_into(&batch[i], out);
        i = i + 1;
        proof {
            assert(vs.take(i as int).drop_last() =~= vs.take(i - 1));
            assert(out@ =~= old(out)@ + spec_encode_batch(vs.take(i as int)));
        }
    }
    proof {
        assert(vs.take(batch@.len() as int) =~= vs);
    }
}

/// Decodes frames from `buf`, one after the other, until the bytes end or
/// a position does not spell a frame; what follows such a position is
/// dropped.
pub fn deserialize_frames<const SIZE: usize>(buf: &[u8]) -> (r: Vec<MHPacket<SIZE>>)
    ensures
        frame_views(r@) == spec_decode_batch(buf@, SIZE as int),
        forall|i: int| 0 <= i < r@.len() ==> (#[trigger] r@[i]).wf(),
{
    let mut out: Vec<MHPacket<SIZE>> = Vec::new();
    let mut offset: usize = 0;
    let mut failed: bool = false;
    proof {
        assert(frame_views(out@) =~= Seq::<FrameView>::empty());
        assert(buf@.skip(0) =~= buf@);
        assert(frame_views(out@) + spec_decode_batch(buf@, SIZE as int) =~= spec_decode_batch(
            buf@,
            SIZE as int,
        ));
    }
    while offset < buf.len() && !failed
        invariant
            offset <= buf@.len(),
            spec_decode_batch(buf@, SIZE as int) == frame_views(out@) + spec_decode_batch(
                buf@.skip(offset as int),
                SIZE as int,
            ),
            failed ==> spec_decode_batch(buf@.skip(offset as int), SIZE as int)
                == Seq::<FrameView>::empty(),
            forall|i: int| 0 <= i < out@.len() ==> (#[trigger] out@[i]).wf(),
        decreases buf@.len() - offset, if failed { 0int } else { 1int },
    {
        match deserialize_frame::<SIZE>(buf, offset) {
            Ok((f, n)) => {
                let ghost prev = out@;
                out.push(f);
                proof {
                    assert(buf@.skip(offset as int).skip(n as int) =~= buf@.skip(
                        offset + n as int,
                    ));
                    assert(frame_views(out@) =~= frame_views(prev).push(f@));
                    assert(frame_views(prev) + (seq![f@] + spec_decode_batch(
                        buf@.skip(offset + n as int),
                        SIZE as int,
                    )) =~= frame_views(out@) + spec_decode_batch(
                        buf@.skip(offset + n as int),
                        SIZE as int,
                    ));
                }
                offset = offset + n;
            },
            Err(_) => {
                failed = true;
            },
        }
    }
    proof {
        if !failed {
            assert(buf@.skip(offset as int) =~= Seq::<u8>::empty());
        }
        assert(frame_views(out@) + Seq::<FrameView>::empty() =~= frame_views(out@));
    }
    out
}

/// Decoding a varint right after encoding it gives the number back, with
/// exactly the encoding's bytes consumed, whatever bytes follow.
proof fn lemma_varint_round_trip(n: nat, rest: Seq<u8>)
    ensures
        spec_decode_varint(spec_varint(n) + rest) == Some((n, spec_varint(n).len() as int)),
    decreases n,
{
    let v = spec_varint(n);
    if n < 128 {
        assert((v + rest)[0] == n as u8);
    } else {
        assert((v + rest)[0] == (n % 128 + 128) as u8);
        assert((v + rest).skip(1) =~= spec_varint(n / 128) + rest);
        lemma_varint_round_trip(n / 128, rest);
        lemma_fundamental_div_mod(n as int, 128);
    }
}

/// Law: decoding right after encoding gives the frame back, field for
/// field, with exactly the encoding's bytes consumed, whatever bytes
/// follow; so frames are self-delimiting within a radio packet.
pub proof fn lemma_frame_round_trip(f: FrameView, size: int, rest: Seq<u8>)
    requires
        f.wf(size),
    ensures
        spec_decode(spec_encode(f) + rest, size) == SpecDecodeResult::Frame(
            f,
            spec_encode(f).len() as int,
        ),
{
    let e = spec_encode(f);
    let s = e + rest;
    let v = spec_varint(f.payload.len());
    let vn = v.len() as int;
    let plen = f.payload.len() as int;
    let tail = f.payload + seq![f.hop_count, f.hop_to_gw] + rest;
    assert(s[1] == tag_of(f.packet_type));
    assert(tag_to_type(tag_of(f.packet_type)) == Some(f.packet_type));
    assert(s.skip(5) =~= v + tail);
    lemma_varint_round_trip(f.payload.len(), tail);
    lemma_fundamental_div_mod(f.packet_id as int, 256);
    assert((s[2] + 256 * s[3]) as u16 == f.packet_id);
    assert(s.subrange(5 + vn, 5 + vn + plen) =~= f.payload);
    assert(s[5 + vn + plen] == f.hop_count);
    assert(s[5 + vn + plen + 1] == f.hop_to_gw);
    assert(spec_decode(s, size) matches SpecDecodeResult::Frame(fv, n) && fv =~= f && n
        == e.len() as int);
}

/// The encoding of a batch, decomposed at the front.
proof fn lemma_encode_batch_first(s: Seq<FrameView>)
    requires
        s.len() > 0,
    ensures
        spec_encode_batch(s) == spec_encode(s[0]) + spec_encode_batch(s.skip(1)),
    decreases s.len(),
{
    if s.len() == 1 {
        assert(s.drop_last() =~= Seq::<FrameView>::empty());
        assert(s.skip(1) =~= Seq::<FrameView>::empty());
        assert(Seq::<u8>::empty() + spec_encode(s[0]) =~= spec_encode(s[0]));
        assert(spec_encode(s[0]) + Seq::<u8>::empty() =~= spec_encode(s[0]));
    } else {
        lemma_encode_batch_first(s.drop_last());
        assert(s.drop_last()[0] == s[0]);
        assert(s.drop_last().skip(1) =~= s.skip(1).drop_last());
        assert(s.skip(1).last() == s.last());
        assert((spec_encode(s[0]) + spec_encode_batch(s.skip(1).drop_last())) + spec_encode(
            s.last(),
        ) =~= spec_encode(s[0]) + (spec_encode_batch(s.skip(1).drop_last()) + spec_encode(
            s.skip(1).last(),
        )));
    }
}

/// Law: decoding right after encoding a whole batch gives the frames back,
/// in order and in full — packing frames by repeating the wire structure
/// loses nothing.
pub proof fn lemma_batch_round_trip(s: Seq<FrameView>, size: int)
    requires
        forall|i: int| 0 <= i < s.len() ==> (#[trigger] s[i]).wf(size),
    ensures
        spec_decode_batch(spec_encode_batch(s), size) == s,
    decreases s.len(),
{
    if s.len() == 0 {
        assert(spec_decode_batch(spec_encode_batch(s), size) =~= s);
    } else {
        lemma_encode_batch_first(s);
        let head = spec_encode(s[0]);
        let rest = spec_encode_batch(s.skip(1));
        lemma_frame_round_trip(s[0], size, rest);
        assert(forall|i: int| 0 <= i < s.skip(1).len() ==> (#[trigger] s.skip(1)[i]) == s[i + 1]);
        lemma_batch_round_trip(s.skip(1), size);
        assert((head + rest).skip(head.len() as int) =~= rest);
        assert(seq![s[0]] + s.skip(1) =~= s);
    }
}

/// Decodes one frame at `buf[offset..]`.
pub fn deserialize_frame<const SIZE: usize>(buf: &[u8], offset: usize) -> (r: Result<
    (MHPacket<SIZE>, usize),
    DecodeError,
>)
    requires
        offset <= buf@.len(),
    ensures
        match r {
            Ok((f, n)) => {
                &&& spec_decode(buf@.skip(offset as int), SIZE as int) == SpecDecodeResult::Frame(
                    f@,
                    n as int,
                )
                &&& f.wf()
                &&& 7 <= n
                &&& offset + n <= buf@.len()
            },
            Err(DecodeError::PayloadSizeUnexpected) => spec_decode(
                buf@.skip(offset as int),
                SIZE as int,
            ) is TooLarge,
            Err(DecodeError::Malformed) => spec_decode(
                buf@.skip(offset as int),
                SIZE as int,
            ) is Bad,
        },
{
    let ghost s = buf@.skip(offset as int);
    if buf.len() - offset < 5 {
        return Err(DecodeError::Malformed);
    }
    let packet_type = match buf[offset + 1] {
        0u8 => PacketType::Data,
        1u8 => PacketType::Ack,
        2u8 => PacketType::BootUp,
        _ => {
            return Err(DecodeError::Malformed);
        },
    };
    let destination_id = buf[offset];
    let packet_id: u16 = buf[offset + 2] as u16 + 256 * (buf[offset + 3] as u16);
    let source_id = buf[offset + 4];
    proof {
        assert(s.skip(5) =~= buf@.skip(offset + 5));
    }
    let (plen, poff) = match decode_varint(buf, offset + 5, SIZE) {
        Ok(x) => x,
        Err(e) => {
            return Err(e);
        },
    };
    if buf.len() - poff < 2 || buf.len() - poff - 2 < plen {
        return Err(DecodeError::Malformed);
    }
    let mut payload: Vec<u8> = Vec::new();
    let mut k: usize = 0;
    while k < plen
        invariant
            k <= plen,
            poff + plen + 2 <= buf@.len() <= usize::MAX,
            payload@ == buf@.subrange(poff as int, poff + k),
        decreases plen - k,
    {
        payload.push(buf[poff + k]);
        k = k + 1;
        proof {
            assert(payload@ =~= buf@.subrange(poff as int, poff + k));
        }
    }
    let hop_count = buf[poff + plen];
    let hop_to_gw = buf[poff + plen + 1];
    let f = MHPacket {
        destination_id,
        packet_type,
        packet_id,
        source_id,
        payload,
        hop_count,
        hop_to_gw,
    };
    let n = poff + plen + 2 - offset;
    proof {
        let vn = poff - offset - 5;
        assert(s.subrange(5 + vn, 5 + vn + plen as int) =~= buf@.subrange(
            poff as int,
            poff + plen as int,
        ));
        assert(spec_decode(s, SIZE as int) matches SpecDecodeResult::Frame(fv, m) && fv =~= f@ && m
            == n as int);
    }
    Ok((f, n))
}

} // verus!
