use vstd::prelude::*;
use vstd::bytes::{
    lemma_auto_spec_u16_to_from_le_bytes, lemma_auto_spec_u32_to_from_le_bytes,
    spec_u16_from_le_bytes, spec_u16_to_le_bytes, spec_u32_from_le_bytes, spec_u32_to_le_bytes,
    u16_from_le_bytes, u16_to_le_bytes, u32_from_le_bytes, u32_to_le_bytes,
};
use vstd::slice::slice_subrange;
use crate::packet::{
    ChannelsHeader, ColumnV, Header, OusterPacketHeader, OusterPacketHeaderSafety, PacketV,
};
use crate::profile::{
    Channel, DualChannel, DualLowChannel, LowDataChannel, Profile, ProfileKind, SingleChannel,
};
use crate::packet::RangeData;

verus! {

pub const PACKET_HEADER_BYTES: usize = 32;

pub const CHANNELS_HEADER_BYTES: usize = 12;

pub const RANGE_DATA_BYTES: usize = 4;

pub const SINGLE_CHANNEL_BYTES: usize = 12;

pub const DUAL_CHANNEL_BYTES: usize = 16;

pub const LOW_DATA_CHANNEL_BYTES: usize = 4;

pub const DUAL_LOW_CHANNEL_BYTES: usize = 8;

pub const PACKET_RESERVED_BYTES: usize = 32;

/// `n` zero bytes, as the wire's reserved gaps hold.
pub open spec fn spec_zeros(n: int) -> Seq<u8> {
    Seq::new(n as nat, |i: int| 0u8)
}

fn push_u8(out: &mut Vec<u8>, x: u8)
    ensures
        final(out)@ == old(out)@ + seq![x],
{
    out.push(x);
    proof {
        assert(out@ =~= old(out)@ + seq![x]);
    }
}

fn push_u16(out: &mut Vec<u8>, x: u16)
    ensures
        final(out)@ == old(out)@ + spec_u16_to_le_bytes(x),
{
    let mut b = u16_to_le_bytes(x);
    out.append(&mut b);
}

fn push_u32(out: &mut Vec<u8>, x: u32)
    ensures
        final(out)@ == old(out)@ + spec_u32_to_le_bytes(x),
{
    let mut b = u32_to_le_bytes(x);
    out.append(&mut b);
}

fn push_zeros(out: &mut Vec<u8>, n: usize)
    ensures
        final(out)@ == old(out)@ + spec_zeros(n as int),
{
    let mut i: usize = 0;
    while i < n
        invariant
            i <= n,
            out@ =~= old(out)@ + spec_zeros(i as int),
        decreases n - i,
    {
        out.push(0u8);
        i = i + 1;
    }
    proof {
        assert(out@ =~= old(out)@ + spec_zeros(n as int));
    }
}

fn read_u8(buf: &[u8], off: usize) -> (r: u8)
    requires
        off < buf@.len(),
    ensures
        r == buf@[off as int],
{
    buf[off]
}

fn read_u16(buf: &[u8], off: usize) -> (r: u16)
    requires
        off + 2 <= buf@.len(),
    ensures
        r == spec_u16_from_le_bytes(buf@.subrange(off as int, off as int + 2)),
{
    let _slice_len = buf.len();
    u16_from_le_bytes(slice_subrange(buf, off, off + 2))
}

fn read_u32(buf: &[u8], off: usize) -> (r: u32)
    requires
        off + 4 <= buf@.len(),
    ensures
        r == spec_u32_from_le_bytes(buf@.subrange(off as int, off as int + 4)),
{
    let _slice_len = buf.len();
    u32_from_le_bytes(slice_subrange(buf, off, off + 4))
}

// --- standard packet header ---------------------------------------------

pub open spec fn spec_std_header_bytes(h: OusterPacketHeader) -> Seq<u8> {
    spec_u16_to_le_bytes(h.packet_type) + spec_u16_to_le_bytes(h.frame_id) + spec_u16_to_le_bytes(
        h.init_id_part1,
    ) + seq![h.init_id_part2, h.serial_no_1] + spec_u32_to_le_bytes(h.serial_no_2) + spec_zeros(4)
        + seq![
        h.shutdown_countdown,
        h.shot_limiting_countdown,
        h.shutdown_status_and_reserve,
        h.shot_limiting_status_and_reserve,
    ] + spec_zeros(12)
}

pub open spec fn spec_std_header_of_bytes(s: Seq<u8>) -> OusterPacketHeader
    recommends
        s.len() == PACKET_HEADER_BYTES,
{
    OusterPacketHeader {
        packet_type: spec_u16_from_le_bytes(s.subrange(0, 2)),
        frame_id: spec_u16_from_le_bytes(s.subrange(2, 4)),
        init_id_part1: spec_u16_from_le_bytes(s.subrange(4, 6)),
        init_id_part2: s[6],
        serial_no_1: s[7],
        serial_no_2: spec_u32_from_le_bytes(s.subrange(8, 12)),
        shutdown_countdown: s[16],
        shot_limiting_countdown: s[17],
        shutdown_status_and_reserve: s[18],
        shot_limiting_status_and_reserve: s[19],
    }
}

pub proof fn lemma_std_header_len(h: OusterPacketHeader)
    ensures
        spec_std_header_bytes(h).len() == PACKET_HEADER_BYTES,
{
    lemma_auto_spec_u16_to_from_le_bytes();
    lemma_auto_spec_u32_to_from_le_bytes();
}

pub proof fn lemma_std_header_round_trip(h: OusterPacketHeader)
    ensures
        spec_std_header_of_bytes(spec_std_header_bytes(h)) == h,
{
    lemma_auto_spec_u16_to_from_le_bytes();
    lemma_auto_spec_u32_to_from_le_bytes();
    let s = spec_std_header_bytes(h);
    assert(s.subrange(0, 2) =~= spec_u16_to_le_bytes(h.packet_type));
    assert(s.subrange(2, 4) =~= spec_u16_to_le_bytes(h.frame_id));
    assert(s.subrange(4, 6) =~= spec_u16_to_le_bytes(h.init_id_part1));
    assert(s.subrange(8, 12) =~= spec_u32_to_le_bytes(h.serial_no_2));
}

fn encode_std_header(h: &OusterPacketHeader, out: &mut Vec<u8>)
    ensures
        final(out)@ == old(out)@ + spec_std_header_bytes(*h),
{
    push_u16(out, h.packet_type);
    push_u16(out, h.frame_id);
    push_u16(out, h.init_id_part1);
    push_u8(out, h.init_id_part2);
    push_u8(out, h.serial_no_1);
    push_u32(out, h.serial_no_2);
    push_zeros(out, 4);
    push_u8(out, h.shutdown_countdown);
    push_u8(out, h.shot_limiting_countdown);
    push_u8(out, h.shutdown_status_and_reserve);
    push_u8(out, h.shot_limiting_status_and_reserve);
    push_zeros(out, 12);
    proof {
        assert(out@ =~= old(out)@ + spec_std_header_bytes(*h));
    }
}

fn decode_std_header(buf: &[u8], off: usize) -> (r: OusterPacketHeader)
    requires
        off + PACKET_HEADER_BYTES <= buf@.len(),
    ensures
        r == spec_std_header_of_bytes(buf@.subrange(off as int, off as int + 32)),
{
    let _slice_len = buf.len();
    let ghost o = off as int;
    let r = OusterPacketHeader {
        packet_type: read_u16(buf, off),
        frame_id: read_u16(buf, off + 2),
        init_id_part1: read_u16(buf, off + 4),
        init_id_part2: read_u8(buf, off + 6),
        serial_no_1: read_u8(buf, off + 7),
        serial_no_2: read_u32(buf, off + 8),
        shutdown_countdown: read_u8(buf, off + 16),
        shot_limiting_countdown: read_u8(buf, off + 17),
        shutdown_status_and_reserve: read_u8(buf, off + 18),
        shot_limiting_status_and_reserve: read_u8(buf, off + 19),
    };
    proof {
        let s = buf@.subrange(o, o + 32);
        assert(buf@.subrange(o, o + 2) =~= s.subrange(0, 2));
        assert(buf@.subrange(o + 2, o + 4) =~= s.subrange(2, 4));
        assert(buf@.subrange(o + 4, o + 6) =~= s.subrange(4, 6));
        assert(buf@.subrange(o + 8, o + 12) =~= s.subrange(8, 12));
    }
    r
}

// --- safety packet header -----------------------------------------------

pub open spec fn spec_safety_header_bytes(h: OusterPacketHeaderSafety) -> Seq<u8> {
    seq![h.packet_type, h.init_id_part2] + spec_u16_to_le_bytes(h.init_id_part1)
        + spec_u32_to_le_bytes(h.frame_id) + seq![h.alert_flag] + spec_zeros(2)
        + seq![h.serial_no_1] + spec_u32_to_le_bytes(h.serial_no_2) + seq![
        h.shutdown_countdown,
        h.shot_limiting_countdown,
        h.shutdown_status_and_reserve,
        h.shot_limiting_status_and_reserve,
    ] + spec_zeros(12)
}

pub open spec fn spec_safety_header_of_bytes(s: Seq<u8>) -> OusterPacketHeaderSafety
    recommends
        s.len() == PACKET_HEADER_BYTES,
{
    OusterPacketHeaderSafety {
        packet_type: s[0],
        init_id_part2: s[1],
        init_id_part1: spec_u16_from_le_bytes(s.subrange(2, 4)),
        frame_id: spec_u32_from_le_bytes(s.subrange(4, 8)),
        alert_flag: s[8],
        serial_no_1: s[11],
        serial_no_2: spec_u32_from_le_bytes(s.subrange(12, 16)),
        shutdown_countdown: s[16],
        shot_limiting_countdown: s[17],
        shutdown_status_and_reserve: s[18],
        shot_limiting_status_and_reserve: s[19],
    }
}

pub proof fn lemma_safety_header_len(h: OusterPacketHeaderSafety)
    ensures
        spec_safety_header_bytes(h).len() == PACKET_HEADER_BYTES,
{
    lemma_auto_spec_u16_to_from_le_bytes();
    lemma_auto_spec_u32_to_from_le_bytes();
}

pub proof fn lemma_safety_header_round_trip(h: OusterPacketHeaderSafety)
    ensures
        spec_safety_header_of_bytes(spec_safety_header_bytes(h)) == h,
{
    lemma_auto_spec_u16_to_from_le_bytes();
    lemma_auto_spec_u32_to_from_le_bytes();
    let s = spec_safety_header_bytes(h);
    assert(s.subrange(2, 4) =~= spec_u16_to_le_bytes(h.init_id_part1));
    assert(s.subrange(4, 8) =~= spec_u32_to_le_bytes(h.frame_id));
    assert(s.subrange(12, 16) =~= spec_u32_to_le_bytes(h.serial_no_2));
}

fn encode_safety_header(h: &OusterPacketHeaderSafety, out: &mut Vec<u8>)
    ensures
        final(out)@ == old(out)@ + spec_safety_header_bytes(*h),
{
    push_u8(out, h.packet_type);
    push_u8(out, h.init_id_part2);
    push_u16(out, h.init_id_part1);
    push_u32(out, h.frame_id);
    push_u8(out, h.alert_flag);
    push_zeros(out, 2);
    push_u8(out, h.serial_no_1);
    push_u32(out, h.serial_no_2);
    push_u8(out, h.shutdown_countdown);
    push_u8(out, h.shot_limiting_countdown);
    push_u8(out, h.shutdown_status_and_reserve);
    push_u8(out, h.shot_limiting_status_and_reserve);
    push_zeros(out, 12);
    proof {
        assert(out@ =~= old(out)@ + spec_safety_header_bytes(*h));
    }
}

fn decode_safety_header(buf: &[u8], off: usize) -> (r: OusterPacketHeaderSafety)
    requires
        off + PACKET_HEADER_BYTES <= buf@.len(),
    ensures
        r == spec_safety_header_of_bytes(buf@.subrange(off as int, off as int + 32)),
{
    let _slice_len = buf.len();
    let ghost o = off as int;
    let r = OusterPacketHeaderSafety {
        packet_type: read_u8(buf, off),
        init_id_part2: read_u8(buf, off + 1),
        init_id_part1: read_u16(buf, off + 2),
        frame_id: read_u32(buf, off + 4),
        alert_flag: read_u8(buf, off + 8),
        serial_no_1: read_u8(buf, off + 11),
        serial_no_2: read_u32(buf, off + 12),
        shutdown_countdown: read_u8(buf, off + 16),
        shot_limiting_countdown: read_u8(buf, off + 17),
        shutdown_status_and_reserve: read_u8(buf, off + 18),
        shot_limiting_status_and_reserve: read_u8(buf, off + 19),
    };
    proof {
        let s = buf@.subrange(o, o + 32);
        assert(buf@.subrange(o + 2, o + 4) =~= s.subrange(2, 4));
        assert(buf@.subrange(o + 4, o + 8) =~= s.subrange(4, 8));
        assert(buf@.subrange(o + 12, o + 16) =~= s.subrange(12, 16));
    }
    r
}

// --- header of either layout --------------------------------------------

/// The header layout that a profile's packets carry.
pub open spec fn spec_header_bytes(h: Header) -> Seq<u8> {
    match h {
        Header::Standard(sh) => spec_std_header_bytes(sh),
        Header::Safety(sh) => spec_safety_header_bytes(sh),
    }
}

pub open spec fn spec_header_of_bytes(s: Seq<u8>, kind: ProfileKind) -> Header
    recommends
        s.len() == PACKET_HEADER_BYTES,
{
    if kind is DualLow {
        Header::Safety(spec_safety_header_of_bytes(s))
    } else {
        Header::Standard(spec_std_header_of_bytes(s))
    }
}

pub proof fn lemma_header_len(h: Header)
    ensures
        spec_header_bytes(h).len() == PACKET_HEADER_BYTES,
{
    match h {
        Header::Standard(sh) => lemma_std_header_len(sh),
        Header::Safety(sh) => lemma_safety_header_len(sh),
    }
}

/// Re-reading an encoded header of the matching layout gives the header back.
pub proof fn lemma_header_round_trip(h: Header, kind: ProfileKind)
    requires
        h is Safety <==> kind is DualLow,
    ensures
        spec_header_of_bytes(spec_header_bytes(h), kind) == h,
{
    match h {
        Header::Standard(sh) => lemma_std_header_round_trip(sh),
        Header::Safety(sh) => lemma_safety_header_round_trip(sh),
    }
}

fn encode_header(h: &Header, out: &mut Vec<u8>)
    ensures
        final(out)@ == old(out)@ + spec_header_bytes(*h),
{
    match h {
        Header::Standard(sh) => encode_std_header(sh, out),
        Header::Safety(sh) => encode_safety_header(sh, out),
    }
}

fn decode_header(buf: &[u8], off: usize, kind: ProfileKind) -> (r: Header)
    requires
        off + PACKET_HEADER_BYTES <= buf@.len(),
    ensures
        r == spec_header_of_bytes(buf@.subrange(off as int, off as int + 32), kind),
{
    if let ProfileKind::DualLow = kind {
        Header::Safety(decode_safety_header(buf, off))
    } else {
        Header::Standard(decode_std_header(buf, off))
    }
}

// --- column header --------------------------------------------------------

pub open spec fn spec_channels_header_bytes(h: ChannelsHeader) -> Seq<u8> {
    spec_u32_to_le_bytes(h.timestamp_a) + spec_u32_to_le_bytes(h.timestamp_b)
        + spec_u16_to_le_bytes(h.measurement_id) + spec_u16_to_le_bytes(h.status_and_reserve)
}

pub open spec fn spec_channels_header_of_bytes(s: Seq<u8>) -> ChannelsHeader
    recommends
        s.len() == CHANNELS_HEADER_BYTES,
{
    ChannelsHeader {
        timestamp_a: spec_u32_from_le_bytes(s.subrange(0, 4)),
        timestamp_b: spec_u32_from_le_bytes(s.subrange(4, 8)),
        measurement_id: spec_u16_from_le_bytes(s.subrange(8, 10)),
        status_and_reserve: spec_u16_from_le_bytes(s.subrange(10, 12)),
    }
}

pub proof fn lemma_channels_header_len(h: ChannelsHeader)
    ensures
        spec_channels_header_bytes(h).len() == CHANNELS_HEADER_BYTES,
{
    lemma_auto_spec_u16_to_from_le_bytes();
    lemma_auto_spec_u32_to_from_le_bytes();
}

pub proof fn lemma_channels_header_round_trip(h: ChannelsHeader)
    ensures
        spec_channels_header_of_bytes(spec_channels_header_bytes(h)) == h,
{
    lemma_auto_spec_u16_to_from_le_bytes();
    lemma_auto_spec_u32_to_from_le_bytes();
    let s = spec_channels_header_bytes(h);
    assert(s.subrange(0, 4) =~= spec_u32_to_le_bytes(h.timestamp_a));
    assert(s.subrange(4, 8) =~= spec_u32_to_le_bytes(h.timestamp_b));
    assert(s.subrange(8, 10) =~= spec_u16_to_le_bytes(h.measurement_id));
    assert(s.subrange(10, 12) =~= spec_u16_to_le_bytes(h.status_and_reserve));
}

fn encode_channels_header(h: &ChannelsHeader, out: &mut Vec<u8>)
    ensures
        final(out)@ == old(out)@ + spec_channels_header_bytes(*h),
{
    push_u32(out, h.timestamp_a);
    push_u32(out, h.timestamp_b);
    push_u16(out, h.measurement_id);
    push_u16(out, h.status_and_reserve);
    proof {
        assert(out@ =~= old(out)@ + spec_channels_header_bytes(*h));
    }
}

fn decode_channels_header(buf: &[u8], off: usize) -> (r: ChannelsHeader)
    requires
        off + CHANNELS_HEADER_BYTES <= buf@.len(),
    ensures
        r == spec_channels_header_of_bytes(buf@.subrange(off as int, off as int + 12)),
{
    let _slice_len = buf.len();
    let ghost o = off as int;
    let r = ChannelsHeader {
        timestamp_a: read_u32(buf, off),
        timestamp_b: read_u32(buf, off + 4),
        measurement_id: read_u16(buf, off + 8),
        status_and_reserve: read_u16(buf, off + 10),
    };
    proof {
        let s = buf@.subrange(o, o + 12);
        assert(buf@.subrange(o, o + 4) =~= s.subrange(0, 4));
        assert(buf@.subrange(o + 4, o + 8) =~= s.subrange(4, 8));
        assert(buf@.subrange(o + 8, o + 10) =~= s.subrange(8, 10));
        assert(buf@.subrange(o + 10, o + 12) =~= s.subrange(10, 12));
    }
    r
}

// --- channels -------------------------------------------------------------

/// Encoded size of one sample of a wire variant.
pub open spec fn spec_channel_size(kind: ProfileKind) -> int {
    match kind {
        ProfileKind::Single => SINGLE_CHANNEL_BYTES as int,
        ProfileKind::Dual => DUAL_CHANNEL_BYTES as int,
        ProfileKind::LowData => LOW_DATA_CHANNEL_BYTES as int,
        ProfileKind::DualLow => DUAL_LOW_CHANNEL_BYTES as int,
    }
}

/// Encoded size of one sample of a wire variant.
pub fn channel_size(kind: ProfileKind) -> (r: usize)
    ensures
        r == spec_channel_size(kind),
{
    match kind {
        ProfileKind::Single => SINGLE_CHANNEL_BYTES,
        ProfileKind::Dual => DUAL_CHANNEL_BYTES,
        ProfileKind::LowData => LOW_DATA_CHANNEL_BYTES,
        ProfileKind::DualLow => DUAL_LOW_CHANNEL_BYTES,
    }
}

pub open spec fn spec_channel_bytes(ch: Channel) -> Seq<u8> {
    match ch {
        Channel::Single(c) => spec_u32_to_le_bytes(c.range_and_reserved) + seq![c.reflectifity]
            + spec_zeros(1) + spec_u16_to_le_bytes(c.signal) + spec_u16_to_le_bytes(c.nir)
            + spec_zeros(2),
        Channel::Dual(c) => spec_u32_to_le_bytes(c.info_ret1.raw) + spec_u32_to_le_bytes(
            c.info_ret2.raw,
        ) + spec_u16_to_le_bytes(c.signal_ret_1) + spec_u16_to_le_bytes(c.signal_ret_2)
            + spec_u16_to_le_bytes(c.nir) + spec_zeros(2),
        Channel::LowData(c) => spec_u16_to_le_bytes(c.distance_and_reserve) + seq![
            c.reflectifity,
            c.nir,
        ],
        Channel::DualLow(c) => spec_u16_to_le_bytes(c.range_ret1) + seq![c.reflect_ret_1, c.nir]
            + spec_u16_to_le_bytes(c.range_ret2) + seq![c.reflect_ret_2] + spec_zeros(1),
    }
}

pub open spec fn spec_channel_of_bytes(s: Seq<u8>, kind: ProfileKind) -> Channel
    recommends
        s.len() == spec_channel_size(kind),
{
    match kind {
        ProfileKind::Single => Channel::Single(
            SingleChannel {
                range_and_reserved: spec_u32_from_le_bytes(s.subrange(0, 4)),
                reflectifity: s[4],
                signal: spec_u16_from_le_bytes(s.subrange(6, 8)),
                nir: spec_u16_from_le_bytes(s.subrange(8, 10)),
            },
        ),
        ProfileKind::Dual => Channel::Dual(
            DualChannel {
                info_ret1: RangeData { raw: spec_u32_from_le_bytes(s.subrange(0, 4)) },
                info_ret2: RangeData { raw: spec_u32_from_le_bytes(s.subrange(4, 8)) },
                signal_ret_1: spec_u16_from_le_bytes(s.subrange(8, 10)),
                signal_ret_2: spec_u16_from_le_bytes(s.subrange(10, 12)),
                nir: spec_u16_from_le_bytes(s.subrange(12, 14)),
            },
        ),
        ProfileKind::LowData => Channel::LowData(
            LowDataChannel {
                distance_and_reserve: spec_u16_from_le_bytes(s.subrange(0, 2)),
                reflectifity: s[2],
                nir: s[3],
            },
        ),
        ProfileKind::DualLow => Channel::DualLow(
            DualLowChannel {
                range_ret1: spec_u16_from_le_bytes(s.subrange(0, 2)),
                reflect_ret_1: s[2],
                nir: s[3],
                range_ret2: spec_u16_from_le_bytes(s.subrange(4, 6)),
                reflect_ret_2: s[6],
            },
        ),
    }
}

pub proof fn lemma_channel_len(ch: Channel)
    ensures
        spec_channel_bytes(ch).len() == spec_channel_size(crate::profile::spec_channel_kind(ch)),
{
    lemma_auto_spec_u16_to_from_le_bytes();
    lemma_auto_spec_u32_to_from_le_bytes();
}

pub proof fn lemma_channel_round_trip(ch: Channel)
    ensures
        spec_channel_of_bytes(spec_channel_bytes(ch), crate::profile::spec_channel_kind(ch)) == ch,
{
    lemma_auto_spec_u16_to_from_le_bytes();
    lemma_auto_spec_u32_to_from_le_bytes();
    let s = spec_channel_bytes(ch);
    match ch {
        Channel::Single(c) => {
            assert(s.subrange(0, 4) =~= spec_u32_to_le_bytes(c.range_and_reserved));
            assert(s.subrange(6, 8) =~= spec_u16_to_le_bytes(c.signal));
            assert(s.subrange(8, 10) =~= spec_u16_to_le_bytes(c.nir));
        },
        Channel::Dual(c) => {
            assert(s.subrange(0, 4) =~= spec_u32_to_le_bytes(c.info_ret1.raw));
            assert(s.subrange(4, 8) =~= spec_u32_to_le_bytes(c.info_ret2.raw));
            assert(s.subrange(8, 10) =~= spec_u16_to_le_bytes(c.signal_ret_1));
            assert(s.subrange(10, 12) =~= spec_u16_to_le_bytes(c.signal_ret_2));
            assert(s.subrange(12, 14) =~= spec_u16_to_le_bytes(c.nir));
        },
        Channel::LowData(c) => {
            assert(s.subrange(0, 2) =~= spec_u16_to_le_bytes(c.distance_and_reserve));
        },
        Channel::DualLow(c) => {
            assert(s.subrange(0, 2) =~= spec_u16_to_le_bytes(c.range_ret1));
            assert(s.subrange(4, 6) =~= spec_u16_to_le_bytes(c.range_ret2));
        },
    }
}

fn encode_channel(ch: &Channel, out: &mut Vec<u8>)
    ensures
        final(out)@ == old(out)@ + spec_channel_bytes(*ch),
{
    match ch {
        Channel::Single(c) => {
            push_u32(out, c.range_and_reserved);
            push_u8(out, c.reflectifity);
            push_zeros(out, 1);
            push_u16(out, c.signal);
            push_u16(out, c.nir);
            push_zeros(out, 2);
        },
        Channel::Dual(c) => {
            push_u32(out, c.info_ret1.raw);
            push_u32(out, c.info_ret2.raw);
            push_u16(out, c.signal_ret_1);
            push_u16(out, c.signal_ret_2);
            push_u16(out, c.nir);
            push_zeros(out, 2);
        },
        Channel::LowData(c) => {
            push_u16(out, c.distance_and_reserve);
            push_u8(out, c.reflectifity);
            push_u8(out, c.nir);
        },
        Channel::DualLow(c) => {
            push_u16(out, c.range_ret1);
            push_u8(out, c.reflect_ret_1);
            push_u8(out, c.nir);
            push_u16(out, c.range_ret2);
            push_u8(out, c.reflect_ret_2);
            push_zeros(out, 1);
        },
    }
    proof {
        assert(out@ =~= old(out)@ + spec_channel_bytes(*ch));
    }
}

fn decode_channel(buf: &[u8], off: usize, kind: ProfileKind) -> (r: Channel)
    requires
        off + spec_channel_size(kind) <= buf@.len(),
    ensures
        r == spec_channel_of_bytes(
            buf@.subrange(off as int, off as int + spec_channel_size(kind)),
            kind,
        ),
{
    let _slice_len = buf.len();
    let ghost o = off as int;
    match kind {
        ProfileKind::Single => {
            let r = Channel::Single(
                SingleChannel {
                    range_and_reserved: read_u32(buf, off),
                    reflectifity: read_u8(buf, off + 4),
                    signal: read_u16(buf, off + 6),
                    nir: read_u16(buf, off + 8),
                },
            );
            proof {
                let s = buf@.subrange(o, o + 12);
                assert(buf@.subrange(o, o + 4) =~= s.subrange(0, 4));
                assert(buf@.subrange(o + 6, o + 8) =~= s.subrange(6, 8));
                assert(buf@.subrange(o + 8, o + 10) =~= s.subrange(8, 10));
            }
            r
        },
        ProfileKind::Dual => {
            let r = Channel::Dual(
                DualChannel {
                    info_ret1: RangeData { raw: read_u32(buf, off) },
                    info_ret2: RangeData { raw: read_u32(buf, off + 4) },
                    signal_ret_1: read_u16(buf, off + 8),
                    signal_ret_2: read_u16(buf, off + 10),
                    nir: read_u16(buf, off + 12),
                },
            );
            proof {
                let s = buf@.subrange(o, o + 16);
                assert(buf@.subrange(o, o + 4) =~= s.subrange(0, 4));
                assert(buf@.subrange(o + 4, o + 8) =~= s.subrange(4, 8));
                assert(buf@.subrange(o + 8, o + 10) =~= s.subrange(8, 10));
                assert(buf@.subrange(o + 10, o + 12) =~= s.subrange(10, 12));
                assert(buf@.subrange(o + 12, o + 14) =~= s.subrange(12, 14));
            }
            r
        },
        ProfileKind::LowData => {
            let r = Channel::LowData(
                LowDataChannel {
                    distance_and_reserve: read_u16(buf, off),
                    reflectifity: read_u8(buf, off + 2),
                    nir: read_u8(buf, off + 3),
                },
            );
            proof {
                let s = buf@.subrange(o, o + 4);
                assert(buf@.subrange(o, o + 2) =~= s.subrange(0, 2));
            }
            r
        },
        ProfileKind::DualLow => {
            let r = Channel::DualLow(
                DualLowChannel {
                    range_ret1: read_u16(buf, off),
                    reflect_ret_1: read_u8(buf, off + 2),
                    nir: read_u8(buf, off + 3),
                    range_ret2: read_u16(buf, off + 4),
                    reflect_ret_2: read_u8(buf, off + 6),
                },
            );
            proof {
                let s = buf@.subrange(o, o + 8);
                assert(buf@.subrange(o, o + 2) =~= s.subrange(0, 2));
                assert(buf@.subrange(o + 4, o + 6) =~= s.subrange(4, 6));
            }
            r
        },
    }
}

} // verus!

use vstd::arithmetic::mul::lemma_mul_inequality;
use crate::profile::spec_channel_kind;

verus! {

// --- sequences of channels ------------------------------------------------

pub open spec fn spec_channels_bytes(cs: Seq<Channel>) -> Seq<u8>
    decreases cs.len(),
{
    if cs.len() == 0 {
        Seq::empty()
    } else {
        spec_channel_bytes(cs[0]) + spec_channels_bytes(cs.drop_first())
    }
}

pub open spec fn spec_channels_of_bytes(s: Seq<u8>, kind: ProfileKind, n: int) -> Seq<Channel>
    recommends
        s.len() == n * spec_channel_size(kind),
{
    Seq::new(
        n as nat,
        |i: int|
            spec_channel_of_bytes(
                s.subrange(i * spec_channel_size(kind), (i + 1) * spec_channel_size(kind)),
                kind,
            ),
    )
}

pub proof fn lemma_channels_bytes_len(cs: Seq<Channel>, kind: ProfileKind)
    requires
        forall|i: int| 0 <= i < cs.len() ==> spec_channel_kind(#[trigger] cs[i]) == kind,
    ensures
        spec_channels_bytes(cs).len() == cs.len() * spec_channel_size(kind),
    decreases cs.len(),
{
    let z = spec_channel_size(kind);
    if cs.len() == 0 {
        assert(cs.len() * z == 0) by (nonlinear_arith)
            requires
                cs.len() == 0,
        ;
    } else {
        lemma_channel_len(cs[0]);
        lemma_channels_bytes_len(cs.drop_first(), kind);
        assert((cs.len() - 1) * z + z == cs.len() * z) by (nonlinear_arith);
    }
}

pub proof fn lemma_channels_bytes_index(cs: Seq<Channel>, kind: ProfileKind, i: int)
    requires
        forall|j: int| 0 <= j < cs.len() ==> spec_channel_kind(#[trigger] cs[j]) == kind,
        0 <= i < cs.len(),
    ensures
        spec_channels_bytes(cs).subrange(
            i * spec_channel_size(kind),
            (i + 1) * spec_channel_size(kind),
        ) == spec_channel_bytes(cs[i]),
    decreases i,
{
    let z = spec_channel_size(kind);
    let s = spec_channels_bytes(cs);
    lemma_channels_bytes_len(cs, kind);
    lemma_channel_len(cs[0]);
    lemma_channels_bytes_len(cs.drop_first(), kind);
    if i == 0 {
        assert(s.subrange(0, z) =~= spec_channel_bytes(cs[0]));
    } else {
        lemma_channels_bytes_index(cs.drop_first(), kind, i - 1);
        assert((i - 1) * z == i * z - z) by (nonlinear_arith);
        assert(i * z == (i + 1) * z - z) by (nonlinear_arith);
        assert(0 <= (i - 1) * z) by (nonlinear_arith)
            requires
                i >= 1,
                z >= 0,
        ;
        lemma_mul_inequality(i + 1, cs.len() as int, z);
        lemma_mul_inequality(i, cs.len() as int - 1, z);
        assert(s.subrange(i * z, (i + 1) * z) =~= spec_channels_bytes(cs.drop_first()).subrange(
            (i - 1) * z,
            i * z,
        ));
        assert(cs.drop_first()[i - 1] == cs[i]);
    }
}

pub proof fn lemma_channels_round_trip(cs: Seq<Channel>, kind: ProfileKind)
    requires
        forall|j: int| 0 <= j < cs.len() ==> spec_channel_kind(#[trigger] cs[j]) == kind,
    ensures
        spec_channels_of_bytes(spec_channels_bytes(cs), kind, cs.len() as int) == cs,
{
    let d = spec_channels_of_bytes(spec_channels_bytes(cs), kind, cs.len() as int);
    assert forall|i: int| 0 <= i < cs.len() implies d[i] == cs[i] by {
        lemma_channels_bytes_index(cs, kind, i);
        lemma_channel_round_trip(cs[i]);
    }
    assert(d =~= cs);
}

pub proof fn lemma_channels_bytes_snoc(cs: Seq<Channel>, x: Channel)
    ensures
        spec_channels_bytes(cs.push(x)) == spec_channels_bytes(cs) + spec_channel_bytes(x),
    decreases cs.len(),
{
    if cs.len() == 0 {
        assert(cs.push(x)[0] == x);
        assert(cs.push(x).drop_first() =~= Seq::<Channel>::empty());
        assert(spec_channels_bytes(cs.push(x)) == spec_channel_bytes(x) + spec_channels_bytes(
            Seq::<Channel>::empty(),
        ));
        assert(spec_channel_bytes(x) + Seq::<u8>::empty() =~= Seq::<u8>::empty()
            + spec_channel_bytes(x));
    } else {
        let a = spec_channel_bytes(cs[0]);
        let b = spec_channels_bytes(cs.drop_first());
        let c = spec_channel_bytes(x);
        assert(cs.push(x)[0] == cs[0]);
        assert(cs.push(x).drop_first() =~= cs.drop_first().push(x));
        lemma_channels_bytes_snoc(cs.drop_first(), x);
        assert(spec_channels_bytes(cs.push(x)) == a + (b + c));
        assert(a + (b + c) =~= (a + b) + c);
    }
}

fn encode_channels(cs: &Vec<Channel>, out: &mut Vec<u8>)
    ensures
        final(out)@ == old(out)@ + spec_channels_bytes(cs@),
{
    let n = cs.len();
    let mut i: usize = 0;
    proof {
        assert(cs@.take(0) =~= Seq::<Channel>::empty());
    }
    while i < n
        invariant
            i <= n,
            n == cs@.len(),
            out@ == old(out)@ + spec_channels_bytes(cs@.take(i as int)),
        decreases n - i,
    {
        encode_channel(&cs[i], out);
        proof {
            assert(cs@.take(i + 1) =~= cs@.take(i as int).push(cs@[i as int]));
            lemma_channels_bytes_snoc(cs@.take(i as int), cs@[i as int]);
        }
        i = i + 1;
    }
    proof {
        assert(cs@.take(n as int) =~= cs@);
    }
}

fn decode_channels(buf: &[u8], off: usize, kind: ProfileKind, n: usize) -> (r: Vec<Channel>)
    requires
        n <= 4096,
        off + n * spec_channel_size(kind) <= buf@.len(),
    ensures
        r@ == spec_channels_of_bytes(
            buf@.subrange(off as int, off as int + n * spec_channel_size(kind)),
            kind,
            n as int,
        ),
        r@.len() == n,
        forall|j: int| 0 <= j < n ==> spec_channel_kind(#[trigger] r@[j]) == kind,
{
    let _slice_len = buf.len();
    let z = channel_size(kind);
    let ghost zz = spec_channel_size(kind);
    let ghost s = buf@.subrange(off as int, off as int + n * zz);
    let mut r: Vec<Channel> = Vec::new();
    let mut i: usize = 0;
    while i < n
        invariant
            i <= n,
            n <= 4096,
            z == zz,
            zz == spec_channel_size(kind),
            1 <= zz <= 16,
            off + n * zz <= buf@.len() <= usize::MAX,
            s == buf@.subrange(off as int, off as int + n * zz),
            r@.len() == i,
            forall|j: int|
                0 <= j < i ==> #[trigger] r@[j] == spec_channel_of_bytes(
                    s.subrange(j * zz, (j + 1) * zz),
                    kind,
                ),
        decreases n - i,
    {
        proof {
            lemma_mul_inequality(i + 1, n as int, zz);
            assert((i + 1) * zz == i * zz + zz) by (nonlinear_arith);
            assert(0 <= i * zz <= 65536) by (nonlinear_arith)
                requires
                    0 <= i <= 4096,
                    0 <= zz <= 16,
            ;
            assert(off + i * zz + zz <= buf@.len());
        }
        let ch = decode_channel(buf, off + i * z, kind);
        proof {
            let o = off as int + i * zz;
            assert(buf@.subrange(o, o + zz) =~= s.subrange(i * zz, i * zz + zz));
        }
        r.push(ch);
        i = i + 1;
    }
    proof {
        assert(r@ =~= spec_channels_of_bytes(s, kind, n as int));
        assert forall|j: int| 0 <= j < n implies spec_channel_kind(#[trigger] r@[j]) == kind by {
            let c = r@[j];
            match c {
                Channel::Single(_) => {},
                Channel::Dual(_) => {},
                Channel::LowData(_) => {},
                Channel::DualLow(_) => {},
            }
        }
    }
    r
}

} // verus!

verus! {

// --- columns ----------------------------------------------------------------

/// Encoded size of one column of a profile.
pub open spec fn spec_column_size(p: Profile) -> int {
    CHANNELS_HEADER_BYTES + p.layers * spec_channel_size(p.kind)
}

/// Encoded size of one column of a profile.
pub fn column_size(p: &Profile) -> (r: usize)
    requires
        p.wf(),
    ensures
        r == spec_column_size(*p),
        r <= 65548,
{
    let z = channel_size(p.kind);
    proof {
        assert(0 <= p.layers as int * spec_channel_size(p.kind) <= 65536) by (nonlinear_arith)
            requires
                0 <= p.layers <= 4096,
                0 <= spec_channel_size(p.kind) <= 16,
        ;
    }
    CHANNELS_HEADER_BYTES + (p.layers as usize) * z
}

pub open spec fn spec_column_bytes(c: ColumnV) -> Seq<u8> {
    spec_channels_header_bytes(c.channels_header) + spec_channels_bytes(c.channels)
}

pub open spec fn spec_column_of_bytes(s: Seq<u8>, p: Profile) -> ColumnV
    recommends
        s.len() == spec_column_size(p),
{
    ColumnV {
        channels_header: spec_channels_header_of_bytes(s.subrange(0, CHANNELS_HEADER_BYTES as int)),
        channels: spec_channels_of_bytes(
            s.subrange(CHANNELS_HEADER_BYTES as int, spec_column_size(p)),
            p.kind,
            p.layers as int,
        ),
    }
}

pub proof fn lemma_column_len(c: ColumnV, p: Profile)
    requires
        c.wf(p),
    ensures
        spec_column_bytes(c).len() == spec_column_size(p),
{
    lemma_channels_header_len(c.channels_header);
    lemma_channels_bytes_len(c.channels, p.kind);
}

pub proof fn lemma_column_round_trip(c: ColumnV, p: Profile)
    requires
        c.wf(p),
    ensures
        spec_column_of_bytes(spec_column_bytes(c), p) == c,
{
    let s = spec_column_bytes(c);
    lemma_channels_header_len(c.channels_header);
    lemma_channels_bytes_len(c.channels, p.kind);
    assert(s.subrange(0, 12) =~= spec_channels_header_bytes(c.channels_header));
    lemma_channels_header_round_trip(c.channels_header);
    assert(s.subrange(12, spec_column_size(p)) =~= spec_channels_bytes(c.channels));
    lemma_channels_round_trip(c.channels, p.kind);
    let d = spec_column_of_bytes(s, p);
    assert(d.channels == c.channels);
    assert(d == c);
}

fn encode_column(c: &crate::packet::Column, out: &mut Vec<u8>)
    ensures
        final(out)@ == old(out)@ + spec_column_bytes(c@),
{
    encode_channels_header(&c.channels_header, out);
    encode_channels(&c.channels, out);
    proof {
        assert(out@ =~= old(out)@ + spec_column_bytes(c@));
    }
}

fn decode_column(buf: &[u8], off: usize, p: &Profile) -> (r: crate::packet::Column)
    requires
        p.wf(),
        off + spec_column_size(*p) <= buf@.len(),
    ensures
        r@ == spec_column_of_bytes(buf@.subrange(off as int, off as int + spec_column_size(*p)), *p),
        r@.wf(*p),
{
    let _slice_len = buf.len();
    let ghost cz = spec_column_size(*p);
    proof {
        assert(0 <= p.layers as int * spec_channel_size(p.kind) <= 65536) by (nonlinear_arith)
            requires
                0 <= p.layers <= 4096,
                0 <= spec_channel_size(p.kind) <= 16,
        ;
    }
    let channels_header = decode_channels_header(buf, off);
    let channels = decode_channels(buf, off + CHANNELS_HEADER_BYTES, p.kind, p.layers as usize);
    let r = crate::packet::Column { channels_header, channels };
    proof {
        let o = off as int;
        let s = buf@.subrange(o, o + cz);
        assert(buf@.subrange(o, o + 12) =~= s.subrange(0, 12));
        assert(buf@.subrange(o + 12, o + 12 + p.layers as int * spec_channel_size(p.kind)) =~= s
            .subrange(12, cz));
    }
    r
}

// --- sequences of columns ---------------------------------------------------

pub open spec fn spec_columns_bytes(cols: Seq<ColumnV>) -> Seq<u8>
    decreases cols.len(),
{
    if cols.len() == 0 {
        Seq::empty()
    } else {
        spec_column_bytes(cols[0]) + spec_columns_bytes(cols.drop_first())
    }
}

pub proof fn lemma_columns_bytes_len(cols: Seq<ColumnV>, p: Profile)
    requires
        forall|i: int| 0 <= i < cols.len() ==> (#[trigger] cols[i]).wf(p),
    ensures
        spec_columns_bytes(cols).len() == cols.len() * spec_column_size(p),
    decreases cols.len(),
{
    let z = spec_column_size(p);
    if cols.len() == 0 {
        assert(cols.len() * z == 0) by (nonlinear_arith)
            requires
                cols.len() == 0,
        ;
    } else {
        lemma_column_len(cols[0], p);
        lemma_columns_bytes_len(cols.drop_first(), p);
        assert((cols.len() - 1) * z + z == cols.len() * z) by (nonlinear_arith);
    }
}

pub proof fn lemma_columns_bytes_index(cols: Seq<ColumnV>, p: Profile, i: int)
    requires
        forall|j: int| 0 <= j < cols.len() ==> (#[trigger] cols[j]).wf(p),
        0 <= i < cols.len(),
    ensures
        spec_columns_bytes(cols).subrange(i * spec_column_size(p), (i + 1) * spec_column_size(p))
            == spec_column_bytes(cols[i]),
    decreases i,
{
    let z = spec_column_size(p);
    let s = spec_columns_bytes(cols);
    lemma_columns_bytes_len(cols, p);
    lemma_column_len(cols[0], p);
    lemma_columns_bytes_len(cols.drop_first(), p);
    if i == 0 {
        assert(i * z == 0) by (nonlinear_arith)
            requires
                i == 0,
        ;
        assert((i + 1) * z == z) by (nonlinear_arith)
            requires
                i == 0,
        ;
        assert(s.subrange(0, z) =~= spec_column_bytes(cols[0]));
        assert(s.subrange(i * z, (i + 1) * z) == spec_column_bytes(cols[i]));
    } else {
        lemma_columns_bytes_index(cols.drop_first(), p, i - 1);
        assert((i - 1) * z == i * z - z) by (nonlinear_arith);
        assert(i * z == (i + 1) * z - z) by (nonlinear_arith);
        assert(0 <= (i - 1) * z) by (nonlinear_arith)
            requires
                i >= 1,
                z >= 0,
        ;
        lemma_mul_inequality(i + 1, cols.len() as int, z);
        lemma_mul_inequality(i, cols.len() as int - 1, z);
        assert(s.subrange(i * z, (i + 1) * z) =~= spec_columns_bytes(cols.drop_first()).subrange(
            (i - 1) * z,
            i * z,
        ));
        assert(cols.drop_first()[i - 1] == cols[i]);
        assert(spec_columns_bytes(cols.drop_first()).subrange((i - 1) * z, i * z)
            == spec_column_bytes(cols[i]));
        assert(s.subrange(i * z, (i + 1) * z) == spec_column_bytes(cols[i]));
    }
}

pub proof fn lemma_columns_bytes_snoc(cols: Seq<ColumnV>, x: ColumnV)
    ensures
        spec_columns_bytes(cols.push(x)) == spec_columns_bytes(cols) + spec_column_bytes(x),
    decreases cols.len(),
{
    if cols.len() == 0 {
        assert(cols.push(x)[0] == x);
        assert(cols.push(x).drop_first() =~= Seq::<ColumnV>::empty());
        assert(spec_columns_bytes(cols.push(x)) == spec_column_bytes(x) + spec_columns_bytes(
            Seq::<ColumnV>::empty(),
        ));
        assert(spec_column_bytes(x) + Seq::<u8>::empty() =~= Seq::<u8>::empty()
            + spec_column_bytes(x));
    } else {
        let a = spec_column_bytes(cols[0]);
        let b = spec_columns_bytes(cols.drop_first());
        let c = spec_column_bytes(x);
        assert(cols.push(x)[0] == cols[0]);
        assert(cols.push(x).drop_first() =~= cols.drop_first().push(x));
        lemma_columns_bytes_snoc(cols.drop_first(), x);
        assert(spec_columns_bytes(cols.push(x)) == a + (b + c));
        assert(a + (b + c) =~= (a + b) + c);
    }
}

fn encode_columns(cols: &Vec<crate::packet::Column>, out: &mut Vec<u8>)
    ensures
        final(out)@ == old(out)@ + spec_columns_bytes(
            Seq::new(cols@.len(), |c: int| cols@[c]@),
        ),
{
    let ghost view_seq = Seq::new(cols@.len(), |c: int| cols@[c]@);
    let n = cols.len();
    let mut i: usize = 0;
    proof {
        assert(view_seq.take(0) =~= Seq::<ColumnV>::empty());
    }
    while i < n
        invariant
            i <= n,
            n == cols@.len(),
            view_seq == Seq::new(cols@.len(), |c: int| cols@[c]@),
            out@ == old(out)@ + spec_columns_bytes(view_seq.take(i as int)),
        decreases n - i,
    {
        encode_column(&cols[i], out);
        proof {
            assert(view_seq.take(i + 1) =~= view_seq.take(i as int).push(view_seq[i as int]));
            lemma_columns_bytes_snoc(view_seq.take(i as int), view_seq[i as int]);
        }
        i = i + 1;
    }
    proof {
        assert(view_seq.take(n as int) =~= view_seq);
    }
}

fn decode_columns(buf: &[u8], off: usize, p: &Profile, n: usize) -> (r: Vec<
    crate::packet::Column,
>)
    requires
        p.wf(),
        n <= 4096,
        off + n * spec_column_size(*p) <= buf@.len(),
    ensures
        r@.len() == n,
        forall|c: int|
            0 <= c < n ==> (#[trigger] r@[c])@ == spec_column_of_bytes(
                buf@.subrange(
                    off as int + c * spec_column_size(*p),
                    off as int + (c + 1) * spec_column_size(*p),
                ),
                *p,
            ),
        forall|c: int| 0 <= c < n ==> (#[trigger] r@[c])@.wf(*p),
{
    let _slice_len = buf.len();
    let z = column_size(p);
    let ghost zz = spec_column_size(*p);
    let mut r: Vec<crate::packet::Column> = Vec::new();
    let mut i: usize = 0;
    while i < n
        invariant
            i <= n,
            n <= 4096,
            p.wf(),
            z == zz,
            zz == spec_column_size(*p),
            12 <= zz <= 65548,
            off + n * zz <= buf@.len() <= usize::MAX,
            r@.len() == i,
            forall|c: int|
                0 <= c < i ==> (#[trigger] r@[c])@ == spec_column_of_bytes(
                    buf@.subrange(off as int + c * zz, off as int + (c + 1) * zz),
                    *p,
                ),
            forall|c: int| 0 <= c < i ==> (#[trigger] r@[c])@.wf(*p),
        decreases n - i,
    {
        proof {
            lemma_mul_inequality(i + 1, n as int, zz);
            assert((i + 1) * zz == i * zz + zz) by (nonlinear_arith);
            assert(0 <= i * zz <= 0x2000_0000) by (nonlinear_arith)
                requires
                    0 <= i <= 4096,
                    0 <= zz <= 65548,
            ;
            assert(off + i * zz + zz <= buf@.len());
        }
        let col = decode_column(buf, off + i * z, p);
        r.push(col);
        i = i + 1;
    }
    r
}

} // verus!

verus! {

// --- whole packets ----------------------------------------------------------

/// Encoded size of a packet of a profile: header, columns, reserved tail.
pub open spec fn spec_packet_size(p: Profile) -> int {
    PACKET_HEADER_BYTES + p.columns * spec_column_size(p) + PACKET_RESERVED_BYTES
}

/// Encoded size of a packet of a profile.
pub fn packet_size(p: &Profile) -> (r: usize)
    requires
        p.wf(),
    ensures
        r == spec_packet_size(*p),
        r <= 0x2000_0000,
{
    let cz = column_size(p);
    proof {
        assert(0 <= p.columns as int * spec_column_size(*p) <= 0x2000_0000 - 64)
            by (nonlinear_arith)
            requires
                0 <= p.columns <= 4096,
                0 <= spec_column_size(*p) <= 65548,
        ;
    }
    PACKET_HEADER_BYTES + (p.columns as usize) * cz + PACKET_RESERVED_BYTES
}

pub open spec fn spec_reserved_bytes(rs: Seq<u32>) -> Seq<u8>
    recommends
        rs.len() == 8,
{
    spec_u32_to_le_bytes(rs[0]) + spec_u32_to_le_bytes(rs[1]) + spec_u32_to_le_bytes(rs[2])
        + spec_u32_to_le_bytes(rs[3]) + spec_u32_to_le_bytes(rs[4]) + spec_u32_to_le_bytes(rs[5])
        + spec_u32_to_le_bytes(rs[6]) + spec_u32_to_le_bytes(rs[7])
}

pub open spec fn spec_packet_bytes(v: PacketV) -> Seq<u8> {
    spec_header_bytes(v.header) + spec_columns_bytes(v.columns) + spec_reserved_bytes(v.reserved)
}

pub open spec fn spec_packet_of_bytes(s: Seq<u8>, p: Profile) -> PacketV
    recommends
        s.len() == spec_packet_size(p),
{
    let cz = spec_column_size(p);
    let ro = spec_packet_size(p) - PACKET_RESERVED_BYTES;
    PacketV {
        header: spec_header_of_bytes(s.subrange(0, PACKET_HEADER_BYTES as int), p.kind),
        columns: Seq::new(
            p.columns as nat,
            |c: int|
                spec_column_of_bytes(
                    s.subrange(
                        PACKET_HEADER_BYTES + c * cz,
                        PACKET_HEADER_BYTES + (c + 1) * cz,
                    ),
                    p,
                ),
        ),
        reserved: Seq::new(
            8,
            |i: int| spec_u32_from_le_bytes(s.subrange(ro + 4 * i, ro + 4 * i + 4)),
        ),
    }
}

/// An encoded packet of a profile has that profile's packet size.
pub proof fn lemma_packet_bytes_len(v: PacketV, p: Profile)
    requires
        v.wf(p),
    ensures
        spec_packet_bytes(v).len() == spec_packet_size(p),
{
    lemma_auto_spec_u32_to_from_le_bytes();
    lemma_header_len(v.header);
    lemma_columns_bytes_len(v.columns, p);
}

/// Decoding an encoded packet with its own profile gives the packet back.
pub proof fn lemma_packet_round_trip(v: PacketV, p: Profile)
    requires
        v.wf(p),
    ensures
        spec_packet_of_bytes(spec_packet_bytes(v), p) == v,
{
    lemma_auto_spec_u32_to_from_le_bytes();
    let s = spec_packet_bytes(v);
    let cz = spec_column_size(p);
    let n = p.columns as int;
    let cb = spec_columns_bytes(v.columns);
    let rb = spec_reserved_bytes(v.reserved);
    lemma_header_len(v.header);
    lemma_columns_bytes_len(v.columns, p);
    assert(s.subrange(0, 32) =~= spec_header_bytes(v.header));
    lemma_header_round_trip(v.header, p.kind);
    let d = spec_packet_of_bytes(s, p);
    assert forall|c: int| 0 <= c < n implies d.columns[c] == v.columns[c] by {
        lemma_mul_inequality(c + 1, n, cz);
        assert((c + 1) * cz == c * cz + cz) by (nonlinear_arith);
        assert(0 <= c * cz) by (nonlinear_arith)
            requires
                0 <= c,
                0 <= cz,
        ;
        lemma_columns_bytes_index(v.columns, p, c);
        assert(s.subrange(32 + c * cz, 32 + (c + 1) * cz) =~= cb.subrange(c * cz, (c + 1) * cz));
        lemma_column_round_trip(v.columns[c], p);
    }
    assert(d.columns =~= v.columns);
    let ro = spec_packet_size(p) - 32;
    assert(s.subrange(ro + 4 * 0, ro + 4 * 0 + 4) =~= spec_u32_to_le_bytes(v.reserved[0]));
    assert(s.subrange(ro + 4 * 1, ro + 4 * 1 + 4) =~= spec_u32_to_le_bytes(v.reserved[1]));
    assert(s.subrange(ro + 4 * 2, ro + 4 * 2 + 4) =~= spec_u32_to_le_bytes(v.reserved[2]));
    assert(s.subrange(ro + 4 * 3, ro + 4 * 3 + 4) =~= spec_u32_to_le_bytes(v.reserved[3]));
    assert(s.subrange(ro + 4 * 4, ro + 4 * 4 + 4) =~= spec_u32_to_le_bytes(v.reserved[4]));
    assert(s.subrange(ro + 4 * 5, ro + 4 * 5 + 4) =~= spec_u32_to_le_bytes(v.reserved[5]));
    assert(s.subrange(ro + 4 * 6, ro + 4 * 6 + 4) =~= spec_u32_to_le_bytes(v.reserved[6]));
    assert(s.subrange(ro + 4 * 7, ro + 4 * 7 + 4) =~= spec_u32_to_le_bytes(v.reserved[7]));
    assert forall|i: int| 0 <= i < 8 implies d.reserved[i] == v.reserved[i] by {
        assert(0 <= i < 8);
    }
    assert(d.reserved =~= v.reserved);
    assert(d == v);
}

/// The packet sizes of this wire format family. The two 128-layer sizes are
/// the ones the device documentation tabulates; the headers take 32 bytes
/// and every column header 12.
pub proof fn lemma_tabulated_packet_sizes()
    ensures
        spec_packet_size(
            Profile { kind: ProfileKind::Dual, columns: 16, layers: 128 },
        ) == 33024,
        spec_packet_size(
            Profile { kind: ProfileKind::Single, columns: 16, layers: 128 },
        ) == 24832,
        spec_packet_size(
            Profile { kind: ProfileKind::LowData, columns: 16, layers: 128 },
        ) == 8448,
        spec_packet_size(
            Profile { kind: ProfileKind::Dual, columns: 16, layers: 64 },
        ) == 16640,
        forall|h: Header| (#[trigger] spec_header_bytes(h)).len() == PACKET_HEADER_BYTES,
        forall|ch: ChannelsHeader|
            (#[trigger] spec_channels_header_bytes(ch)).len() == CHANNELS_HEADER_BYTES,
{
    assert forall|h: Header| (#[trigger] spec_header_bytes(h)).len() == PACKET_HEADER_BYTES by {
        lemma_header_len(h);
    }
    assert forall|ch: ChannelsHeader|
        (#[trigger] spec_channels_header_bytes(ch)).len() == CHANNELS_HEADER_BYTES by {
        lemma_channels_header_len(ch);
    }
}

impl crate::packet::OusterPacket {
    /// The packet re-encoded as the bytes it came from, for sending or
    /// persisting.
    pub fn as_slice(&self) -> (r: Vec<u8>)
        ensures
            r@ == spec_packet_bytes(self@),
    {
        let mut out: Vec<u8> = Vec::new();
        encode_header(&self.header, &mut out);
        encode_columns(&self.columns, &mut out);
        push_u32(&mut out, self.reserved[0]);
        push_u32(&mut out, self.reserved[1]);
        push_u32(&mut out, self.reserved[2]);
        push_u32(&mut out, self.reserved[3]);
        push_u32(&mut out, self.reserved[4]);
        push_u32(&mut out, self.reserved[5]);
        push_u32(&mut out, self.reserved[6]);
        push_u32(&mut out, self.reserved[7]);
        proof {
            assert(out@ =~= spec_packet_bytes(self@));
        }
        out
    }

    /// Decode a packet from a byte buffer of any alignment. Fails exactly
    /// when the buffer does not have the profile's packet size.
    pub fn from_maybe_unaligned(buffer: &[u8], profile: &Profile) -> (r: Result<
        crate::packet::OusterPacket,
        crate::packet::SizeMismatchError,
    >)
        requires
            profile.wf(),
        ensures
            match r {
                Ok(pk) => {
                    &&& buffer@.len() == spec_packet_size(*profile)
                    &&& pk@ == spec_packet_of_bytes(buffer@, *profile)
                    &&& pk@.wf(*profile)
                },
                Err(e) => {
                    &&& buffer@.len() != spec_packet_size(*profile)
                    &&& e.expected == spec_packet_size(*profile)
                    &&& e.actual == buffer@.len()
                },
            },
    {
        let expected = packet_size(profile);
        let actual = buffer.len();
        if actual != expected {
            return Err(crate::packet::SizeMismatchError { expected, actual });
        }
        let ghost cz = spec_column_size(*profile);
        let ghost n = profile.columns as int;
        let header = decode_header(buffer, 0, profile.kind);
        let columns = decode_columns(buffer, PACKET_HEADER_BYTES, profile, profile.columns as usize);
        let ro = expected - PACKET_RESERVED_BYTES;
        let reserved = [
            read_u32(buffer, ro),
            read_u32(buffer, ro + 4),
            read_u32(buffer, ro + 8),
            read_u32(buffer, ro + 12),
            read_u32(buffer, ro + 16),
            read_u32(buffer, ro + 20),
            read_u32(buffer, ro + 24),
            read_u32(buffer, ro + 28),
        ];
        let pk = crate::packet::OusterPacket { header, columns, reserved };
        proof {
            let d = spec_packet_of_bytes(buffer@, *profile);
            assert(buffer@.subrange(0, 32) == buffer@.subrange(0, PACKET_HEADER_BYTES as int));
            assert(pk@.columns =~= d.columns);
            assert forall|i: int| 0 <= i < 8 implies pk@.reserved[i] == d.reserved[i] by {
                assert(0 <= i < 8);
            }
            assert(pk@.reserved =~= d.reserved);
            assert(pk@ == d);
        }
        Ok(pk)
    }
}

} // verus!
