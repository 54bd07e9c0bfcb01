use vstd::prelude::*;
use crate::profile::{
    spec_channel_kind, spec_decode_range20, spec_zero_channel, Channel, Profile, ProfileKind,
};

verus! {

/// A packed 32-bit range word: 20 bits of range, topmost byte reflectivity.
#[derive(Clone, Copy, PartialEq, Eq, Structural, Debug, Default)]
pub struct RangeData {
    pub raw: u32,
}

impl RangeData {
    /// Corrected distance: 20-bit range minus `n_vec`, saturating at zero
    /// and clipped to 16 bits.
    pub fn get_distance(&self, n_vec: u32) -> (r: u16)
        ensures
            r == spec_decode_range20(self.raw, n_vec),
    {
        proof {
            let w = self.raw;
            assert(w & 0xFFFFF <= 0xFFFFF) by (bit_vector);
        }
        let masked = self.raw & 0xFFFFF;
        let sub = masked.saturating_sub(n_vec);
        if sub > 0xFFFF {
            0xFFFF
        } else {
            sub as u16
        }
    }

    /// The reflectivity byte packed above the range bits.
    pub fn get_reflectifity(&self) -> (r: u8)
        ensures
            r == (self.raw >> 24) as u8,
    {
        proof {
            let w = self.raw;
            assert(w >> 24 < 256) by (bit_vector);
        }
        (self.raw >> 24) as u8
    }
}

/// The packet header layout of the standard profiles, with a 16-bit frame id.
#[derive(Clone, Copy, PartialEq, Eq, Structural, Debug, Default)]
pub struct OusterPacketHeader {
    pub packet_type: u16,
    pub frame_id: u16,
    pub init_id_part1: u16,
    pub init_id_part2: u8,
    pub serial_no_1: u8,
    pub serial_no_2: u32,
    pub shutdown_countdown: u8,
    pub shot_limiting_countdown: u8,
    pub shutdown_status_and_reserve: u8,
    pub shot_limiting_status_and_reserve: u8,
}

/// The packet header layout of the safety profile, with a 32-bit frame id
/// whose low 16 bits are used for frame matching.
#[derive(Clone, Copy, PartialEq, Eq, Structural, Debug, Default)]
pub struct OusterPacketHeaderSafety {
    pub packet_type: u8,
    pub init_id_part2: u8,
    pub init_id_part1: u16,
    pub frame_id: u32,
    pub alert_flag: u8,
    pub serial_no_1: u8,
    pub serial_no_2: u32,
    pub shutdown_countdown: u8,
    pub shot_limiting_countdown: u8,
    pub shutdown_status_and_reserve: u8,
    pub shot_limiting_status_and_reserve: u8,
}

/// The 16-bit frame id a header offers for frame matching.
pub trait PacketHeader {
    spec fn spec_frame_id(&self) -> u16;

    fn frame_id(&self) -> (r: u16)
        ensures
            r == self.spec_frame_id(),
    ;
}

impl PacketHeader for OusterPacketHeader {
    open spec fn spec_frame_id(&self) -> u16 {
        self.frame_id
    }

    fn frame_id(&self) -> (r: u16) {
        self.frame_id
    }
}

impl PacketHeader for OusterPacketHeaderSafety {
    /// The upper half is ignored for compatibility with the other headers.
    open spec fn spec_frame_id(&self) -> u16 {
        (self.frame_id & 0xFFFF) as u16
    }

    fn frame_id(&self) -> (r: u16) {
        proof {
            let f = self.frame_id;
            assert(f & 0xFFFF < 0x10000) by (bit_vector);
        }
        (self.frame_id & 0xFFFF) as u16
    }
}

/// A packet header of either layout.
#[derive(Clone, Copy, PartialEq, Eq, Structural, Debug)]
pub enum Header {
    Standard(OusterPacketHeader),
    Safety(OusterPacketHeaderSafety),
}

impl Header {
    pub open spec fn spec_frame_id(&self) -> u16 {
        match self {
            Header::Standard(h) => h.spec_frame_id(),
            Header::Safety(h) => h.spec_frame_id(),
        }
    }

    pub fn frame_id(&self) -> (r: u16)
        ensures
            r == self.spec_frame_id(),
    {
        match self {
            Header::Standard(h) => h.frame_id(),
            Header::Safety(h) => h.frame_id(),
        }
    }
}

/// The all-zero header in the layout of a wire variant.
pub open spec fn spec_zero_header(kind: ProfileKind) -> Header {
    if kind is DualLow {
        Header::Safety(
            OusterPacketHeaderSafety {
                packet_type: 0,
                init_id_part2: 0,
                init_id_part1: 0,
                frame_id: 0,
                alert_flag: 0,
                serial_no_1: 0,
                serial_no_2: 0,
                shutdown_countdown: 0,
                shot_limiting_countdown: 0,
                shutdown_status_and_reserve: 0,
                shot_limiting_status_and_reserve: 0,
            },
        )
    } else {
        Header::Standard(
            OusterPacketHeader {
                packet_type: 0,
                frame_id: 0,
                init_id_part1: 0,
                init_id_part2: 0,
                serial_no_1: 0,
                serial_no_2: 0,
                shutdown_countdown: 0,
                shot_limiting_countdown: 0,
                shutdown_status_and_reserve: 0,
                shot_limiting_status_and_reserve: 0,
            },
        )
    }
}

/// The header every column carries before its samples: a 64-bit timestamp
/// split in two halves, the column's measurement id and a status word.
#[derive(Clone, Copy, PartialEq, Eq, Structural, Debug, Default)]
pub struct ChannelsHeader {
    pub timestamp_a: u32,
    pub timestamp_b: u32,
    pub measurement_id: u16,
    pub status_and_reserve: u16,
}

impl ChannelsHeader {
    /// The column timestamp in nanoseconds.
    pub fn timestamp(&self) -> (r: u64)
        ensures
            r == self.timestamp_a as int + self.timestamp_b as int * 0x1_0000_0000,
    {
        self.timestamp_a as u64 + (self.timestamp_b as u64) * 0x1_0000_0000
    }
}

/// One azimuth column: its header and one sample per layer.
#[derive(Clone, PartialEq, Debug)]
pub struct Column {
    pub channels_header: ChannelsHeader,
    pub channels: Vec<Channel>,
}

/// The mathematical value of a column.
pub struct ColumnV {
    pub channels_header: ChannelsHeader,
    pub channels: Seq<Channel>,
}

impl View for Column {
    type V = ColumnV;

    open spec fn view(&self) -> ColumnV {
        ColumnV { channels_header: self.channels_header, channels: self.channels@ }
    }
}

impl ColumnV {
    pub open spec fn wf(self, p: Profile) -> bool {
        &&& self.channels.len() == p.layers
        &&& forall|l: int|
            0 <= l < self.channels.len() ==> spec_channel_kind(#[trigger] self.channels[l])
                == p.kind
    }
}

/// The all-zero column of a profile.
pub open spec fn spec_zero_column(p: Profile) -> ColumnV {
    ColumnV {
        channels_header: ChannelsHeader {
            timestamp_a: 0,
            timestamp_b: 0,
            measurement_id: 0,
            status_and_reserve: 0,
        },
        channels: Seq::new(p.layers as nat, |l: int| spec_zero_channel(p.kind)),
    }
}

impl Column {
    pub fn new_zeroed(p: &Profile) -> (r: Column)
        ensures
            r@ == spec_zero_column(*p),
            r@.wf(*p),
    {
        let mut channels: Vec<Channel> = Vec::new();
        let mut l: usize = 0;
        while l < p.layers as usize
            invariant
                l <= p.layers,
                channels@ =~= Seq::new(l as nat, |i: int| spec_zero_channel(p.kind)),
            decreases p.layers - l,
        {
            channels.push(Channel::new_zeroed(p.kind));
            l = l + 1;
        }
        let r = Column {
            channels_header: ChannelsHeader {
                timestamp_a: 0,
                timestamp_b: 0,
                measurement_id: 0,
                status_and_reserve: 0,
            },
            channels,
        };
        proof {
            assert(r@.channels =~= spec_zero_column(*p).channels);
        }
        r
    }
}

/// One decoded UDP datagram: a header, the columns it carries and the
/// reserved tail words.
#[derive(Clone, PartialEq, Debug)]
pub struct OusterPacket {
    pub header: Header,
    pub columns: Vec<Column>,
    pub reserved: [u32; 8],
}

/// The mathematical value of a packet.
pub struct PacketV {
    pub header: Header,
    pub columns: Seq<ColumnV>,
    pub reserved: Seq<u32>,
}

impl View for OusterPacket {
    type V = PacketV;

    open spec fn view(&self) -> PacketV {
        PacketV {
            header: self.header,
            columns: Seq::new(self.columns@.len(), |c: int| self.columns@[c]@),
            reserved: self.reserved@,
        }
    }
}

impl PacketV {
    pub open spec fn wf(self, p: Profile) -> bool {
        &&& (self.header is Safety <==> p.kind is DualLow)
        &&& self.columns.len() == p.columns
        &&& self.reserved.len() == 8
        &&& forall|c: int| 0 <= c < self.columns.len() ==> (#[trigger] self.columns[c]).wf(p)
    }

    pub open spec fn spec_frame_id(self) -> u16 {
        self.header.spec_frame_id()
    }

    /// The measurement id of the packet's first column, which addresses the
    /// packet's slot within a frame.
    pub open spec fn spec_measurement_id(self) -> u16
        recommends
            self.columns.len() >= 1,
    {
        self.columns[0].channels_header.measurement_id
    }
}

/// The all-zero packet of a profile.
pub open spec fn spec_zero_packet(p: Profile) -> PacketV {
    PacketV {
        header: spec_zero_header(p.kind),
        columns: Seq::new(p.columns as nat, |c: int| spec_zero_column(p)),
        reserved: Seq::new(8, |i: int| 0u32),
    }
}

impl OusterPacket {
    pub fn new_zeroed(p: &Profile) -> (r: OusterPacket)
        ensures
            r@ == spec_zero_packet(*p),
            r@.wf(*p),
    {
        let header = if let ProfileKind::DualLow = p.kind {
            Header::Safety(
                OusterPacketHeaderSafety {
                    packet_type: 0,
                    init_id_part2: 0,
                    init_id_part1: 0,
                    frame_id: 0,
                    alert_flag: 0,
                    serial_no_1: 0,
                    serial_no_2: 0,
                    shutdown_countdown: 0,
                    shot_limiting_countdown: 0,
                    shutdown_status_and_reserve: 0,
                    shot_limiting_status_and_reserve: 0,
                },
            )
        } else {
            Header::Standard(
                OusterPacketHeader {
                    packet_type: 0,
                    frame_id: 0,
                    init_id_part1: 0,
                    init_id_part2: 0,
                    serial_no_1: 0,
                    serial_no_2: 0,
                    shutdown_countdown: 0,
                    shot_limiting_countdown: 0,
                    shutdown_status_and_reserve: 0,
                    shot_limiting_status_and_reserve: 0,
                },
            )
        };
        let mut columns: Vec<Column> = Vec::new();
        let mut c: usize = 0;
        while c < p.columns as usize
            invariant
                c <= p.columns,
                columns@.len() == c,
                forall|i: int| 0 <= i < c ==> (#[trigger] columns@[i])@ == spec_zero_column(*p),
            decreases p.columns - c,
        {
            columns.push(Column::new_zeroed(p));
            c = c + 1;
        }
        let r = OusterPacket { header, columns, reserved: [0u32; 8] };
        proof {
            assert(r@.columns =~= spec_zero_packet(*p).columns);
            assert(r@.reserved =~= spec_zero_packet(*p).reserved);
        }
        r
    }
}

/// The buffer handed in for decoding does not have the packet size of the
/// profile.
#[derive(Clone, Copy, PartialEq, Eq, Structural, Debug)]
pub struct SizeMismatchError {
    pub expected: usize,
    pub actual: usize,
}

} // verus!
