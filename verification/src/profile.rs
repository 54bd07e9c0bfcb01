use vstd::prelude::*;
use crate::packet::RangeData;

verus! {

/// Which of the four wire variants a packet stream uses. The variant fixes
/// the per-sample channel layout and which header layout the packet carries.
#[derive(Clone, Copy, PartialEq, Eq, Structural, Debug)]
pub enum ProfileKind {
    Single,
    Dual,
    LowData,
    DualLow,
}

/// Value-level descriptor of the wire format: channel variant, columns per
/// packet and layers (beams) per column.
#[derive(Clone, Copy, PartialEq, Eq, Structural, Debug)]
pub struct Profile {
    pub kind: ProfileKind,
    pub columns: u16,
    pub layers: u16,
}

impl Profile {
    /// Bounds that keep all packet-size arithmetic inside `usize`.
    pub open spec fn wf(&self) -> bool {
        &&& 1 <= self.columns <= 4096
        &&& 1 <= self.layers <= 4096
    }

    pub fn new(kind: ProfileKind, columns: u16, layers: u16) -> (r: Profile)
        requires
            1 <= columns <= 4096,
            1 <= layers <= 4096,
        ensures
            r == (Profile { kind, columns, layers }),
            r.wf(),
    {
        Profile { kind, columns, layers }
    }
}

/// Decode of a 20-bit range field: mask, subtract the beam-origin offset
/// `n_vec` saturating at zero, clip to 16 bits.
pub open spec fn spec_decode_range20(raw: u32, n_vec: u32) -> u16 {
    let masked = (raw & 0xFFFFF) as int;
    let sub = if masked >= n_vec as int {
        masked - n_vec as int
    } else {
        0
    };
    if sub > 0xFFFF {
        0xFFFF as u16
    } else {
        sub as u16
    }
}

/// Decode of a 15-bit range field: strip the reserved top bit, scale by 8,
/// subtract `n_vec` saturating at zero, clip to 16 bits.
pub open spec fn spec_decode_range15(raw: u16, n_vec: u32) -> u16 {
    let scaled = ((raw & 0x7FFF) as int) * 8;
    let sub = if scaled >= n_vec as int {
        scaled - n_vec as int
    } else {
        0
    };
    if sub > 0xFFFF {
        0xFFFF as u16
    } else {
        sub as u16
    }
}

/// Corrected distance from a 15-bit range field, as the low-data variants
/// store it.
pub fn decode_range15(raw: u16, n_vec: u32) -> (r: u16)
    ensures
        r == spec_decode_range15(raw, n_vec),
{
    proof {
        assert(raw & 0x7FFF <= 0x7FFF) by (bit_vector);
    }
    let scaled = ((raw & 0x7FFF) as u32) * 8;
    let sub = scaled.saturating_sub(n_vec);
    if sub > 0xFFFF {
        0xFFFF
    } else {
        sub as u16
    }
}

/// One decoded return of one sample.
#[derive(Clone, Copy, PartialEq, Eq, Structural, Debug)]
pub struct PointChannelInfo {
    pub distance: u16,
    pub reflectifity: u8,
    pub signal: Option<u16>,
}

impl PointChannelInfo {
    /// The signal strength, on profiles that carry one.
    pub fn unwrap_signal(&self) -> (r: u16)
        requires
            self.signal is Some,
        ensures
            self.signal == Some(r),
    {
        if let Some(x) = self.signal {
            x
        } else {
            0
        }
    }
}

/// All decoded returns of one sample, with the shared near-infrared byte.
#[derive(Clone, Debug)]
pub struct PointInfo {
    pub channel_info: Vec<PointChannelInfo>,
    pub nir: u8,
}

/// The first decoded return of one sample.
#[derive(Clone, Copy, PartialEq, Eq, Structural, Debug)]
pub struct PrimaryPointInfo {
    pub distance: u16,
    pub reflectifity: u8,
    pub nir: u8,
    pub signal: Option<u16>,
}

impl PrimaryPointInfo {
    /// The signal strength, on profiles that carry one.
    pub fn unwrap_signal(&self) -> (r: u16)
        requires
            self.signal is Some,
        ensures
            self.signal == Some(r),
    {
        if let Some(x) = self.signal {
            x
        } else {
            0
        }
    }
}

/// Decoding one stored sample into point records, corrected by `n_vec`.
pub trait PointInfos {
    spec fn spec_primary(&self, n_vec: u32) -> PrimaryPointInfo;

    spec fn spec_channel_infos(&self, n_vec: u32) -> Seq<PointChannelInfo>;

    fn get_primary_infos(&self, n_vec: u32) -> (r: PrimaryPointInfo)
        ensures
            r == self.spec_primary(n_vec),
    ;

    fn get_infos(&self, n_vec: u32) -> (r: PointInfo)
        ensures
            r.nir == self.spec_primary(n_vec).nir,
            r.channel_info@ == self.spec_channel_infos(n_vec),
    ;
}

/// One sample of the single-return variant: 20-bit range, reflectivity
/// byte, 16-bit signal, 16-bit near infrared.
#[derive(Clone, Copy, PartialEq, Eq, Structural, Debug, Default)]
pub struct SingleChannel {
    pub range_and_reserved: u32,
    pub reflectifity: u8,
    pub signal: u16,
    pub nir: u16,
}

impl PointInfos for SingleChannel {
    open spec fn spec_primary(&self, n_vec: u32) -> PrimaryPointInfo {
        PrimaryPointInfo {
            distance: spec_decode_range20(self.range_and_reserved, n_vec),
            reflectifity: self.reflectifity,
            nir: (self.nir >> 8) as u8,
            signal: Some(self.signal),
        }
    }

    open spec fn spec_channel_infos(&self, n_vec: u32) -> Seq<PointChannelInfo> {
        seq![
            PointChannelInfo {
                distance: spec_decode_range20(self.range_and_reserved, n_vec),
                reflectifity: self.reflectifity,
                signal: Some(self.signal),
            },
        ]
    }

    fn get_primary_infos(&self, n_vec: u32) -> (r: PrimaryPointInfo) {
        proof {
            let n = self.nir;
            assert(n >> 8 < 256) by (bit_vector);
        }
        PrimaryPointInfo {
            distance: RangeData { raw: self.range_and_reserved }.get_distance(n_vec),
            reflectifity: self.reflectifity,
            nir: (self.nir >> 8) as u8,
            signal: Some(self.signal),
        }
    }

    fn get_infos(&self, n_vec: u32) -> (r: PointInfo) {
        let primary = self.get_primary_infos(n_vec);
        let mut channel_info: Vec<PointChannelInfo> = Vec::new();
        channel_info.push(
            PointChannelInfo {
                distance: primary.distance,
                reflectifity: primary.reflectifity,
                signal: primary.signal,
            },
        );
        proof {
            assert(channel_info@ =~= self.spec_channel_infos(n_vec));
        }
        PointInfo { nir: primary.nir, channel_info }
    }
}

/// One sample of the dual-return variant: two packed range/reflectivity
/// words, two signals, one shared near-infrared field.
#[derive(Clone, Copy, PartialEq, Eq, Structural, Debug, Default)]
pub struct DualChannel {
    pub info_ret1: RangeData,
    pub info_ret2: RangeData,
    pub signal_ret_1: u16,
    pub signal_ret_2: u16,
    pub nir: u16,
}

impl PointInfos for DualChannel {
    open spec fn spec_primary(&self, n_vec: u32) -> PrimaryPointInfo {
        PrimaryPointInfo {
            distance: spec_decode_range20(self.info_ret1.raw, n_vec),
            reflectifity: (self.info_ret1.raw >> 24) as u8,
            nir: (self.nir >> 8) as u8,
            signal: Some(self.signal_ret_1),
        }
    }

    open spec fn spec_channel_infos(&self, n_vec: u32) -> Seq<PointChannelInfo> {
        seq![
            PointChannelInfo {
                distance: spec_decode_range20(self.info_ret1.raw, n_vec),
                reflectifity: (self.info_ret1.raw >> 24) as u8,
                signal: Some(self.signal_ret_1),
            },
            PointChannelInfo {
                distance: spec_decode_range20(self.info_ret2.raw, n_vec),
                reflectifity: (self.info_ret2.raw >> 24) as u8,
                signal: Some(self.signal_ret_2),
            },
        ]
    }

    fn get_primary_infos(&self, n_vec: u32) -> (r: PrimaryPointInfo) {
        proof {
            let n = self.nir;
            assert(n >> 8 < 256) by (bit_vector);
        }
        PrimaryPointInfo {
            distance: self.info_ret1.get_distance(n_vec),
            reflectifity: self.info_ret1.get_reflectifity(),
            nir: (self.nir >> 8) as u8,
            signal: Some(self.signal_ret_1),
        }
    }

    fn get_infos(&self, n_vec: u32) -> (r: PointInfo) {
        let primary = self.get_primary_infos(n_vec);
        let mut channel_info: Vec<PointChannelInfo> = Vec::new();
        channel_info.push(
            PointChannelInfo {
                distance: primary.distance,
                reflectifity: primary.reflectifity,
                signal: Some(self.signal_ret_1),
            },
        );
        channel_info.push(
            PointChannelInfo {
                distance: self.info_ret2.get_distance(n_vec),
                reflectifity: self.info_ret2.get_reflectifity(),
                signal: Some(self.signal_ret_2),
            },
        );
        proof {
            assert(channel_info@ =~= self.spec_channel_infos(n_vec));
        }
        PointInfo { nir: primary.nir, channel_info }
    }
}

/// One sample of the low-data variant: 15-bit range scaled by 8 on decode,
/// reflectivity and near-infrared bytes, no signal.
#[derive(Clone, Copy, PartialEq, Eq, Structural, Debug, Default)]
pub struct LowDataChannel {
    pub distance_and_reserve: u16,
    pub reflectifity: u8,
    pub nir: u8,
}

impl PointInfos for LowDataChannel {
    open spec fn spec_primary(&self, n_vec: u32) -> PrimaryPointInfo {
        PrimaryPointInfo {
            distance: spec_decode_range15(self.distance_and_reserve, n_vec),
            reflectifity: self.reflectifity,
            nir: self.nir,
            signal: None,
        }
    }

    open spec fn spec_channel_infos(&self, n_vec: u32) -> Seq<PointChannelInfo> {
        seq![
            PointChannelInfo {
                distance: spec_decode_range15(self.distance_and_reserve, n_vec),
                reflectifity: self.reflectifity,
                signal: None,
            },
        ]
    }

    fn get_primary_infos(&self, n_vec: u32) -> (r: PrimaryPointInfo) {
        PrimaryPointInfo {
            distance: decode_range15(self.distance_and_reserve, n_vec),
            reflectifity: self.reflectifity,
            nir: self.nir,
            signal: None,
        }
    }

    fn get_infos(&self, n_vec: u32) -> (r: PointInfo) {
        let primary = self.get_primary_infos(n_vec);
        let mut channel_info: Vec<PointChannelInfo> = Vec::new();
        channel_info.push(
            PointChannelInfo {
                distance: primary.distance,
                reflectifity: primary.reflectifity,
                signal: None,
            },
        );
        proof {
            assert(channel_info@ =~= self.spec_channel_infos(n_vec));
        }
        PointInfo { nir: primary.nir, channel_info }
    }
}

/// One sample of the dual-return low-data variant: two 15-bit ranges with
/// reflectivity bytes, one near-infrared byte, no signal.
#[derive(Clone, Copy, PartialEq, Eq, Structural, Debug, Default)]
pub struct DualLowChannel {
    pub range_ret1: u16,
    pub reflect_ret_1: u8,
    pub nir: u8,
    pub range_ret2: u16,
    pub reflect_ret_2: u8,
}

impl PointInfos for DualLowChannel {
    open spec fn spec_primary(&self, n_vec: u32) -> PrimaryPointInfo {
        PrimaryPointInfo {
            distance: spec_decode_range15(self.range_ret1, n_vec),
            reflectifity: self.reflect_ret_1,
            nir: self.nir,
            signal: None,
        }
    }

    open spec fn spec_channel_infos(&self, n_vec: u32) -> Seq<PointChannelInfo> {
        seq![
            PointChannelInfo {
                distance: spec_decode_range15(self.range_ret1, n_vec),
                reflectifity: self.reflect_ret_1,
                signal: None,
            },
            PointChannelInfo {
                distance: spec_decode_range15(self.range_ret2, n_vec),
                reflectifity: self.reflect_ret_2,
                signal: None,
            },
        ]
    }

    fn get_primary_infos(&self, n_vec: u32) -> (r: PrimaryPointInfo) {
        PrimaryPointInfo {
            distance: decode_range15(self.range_ret1, n_vec),
            reflectifity: self.reflect_ret_1,
            nir: self.nir,
            signal: None,
        }
    }

    fn get_infos(&self, n_vec: u32) -> (r: PointInfo) {
        let primary = self.get_primary_infos(n_vec);
        let mut channel_info: Vec<PointChannelInfo> = Vec::new();
        channel_info.push(
            PointChannelInfo {
                distance: primary.distance,
                reflectifity: primary.reflectifity,
                signal: None,
            },
        );
        channel_info.push(
            PointChannelInfo {
                distance: decode_range15(self.range_ret2, n_vec),
                reflectifity: self.reflect_ret_2,
                signal: None,
            },
        );
        proof {
            assert(channel_info@ =~= self.spec_channel_infos(n_vec));
        }
        PointInfo { nir: primary.nir, channel_info }
    }
}

/// One stored sample, tagged with its wire variant.
#[derive(Clone, Copy, PartialEq, Eq, Structural, Debug)]
pub enum Channel {
    Single(SingleChannel),
    Dual(DualChannel),
    LowData(LowDataChannel),
    DualLow(DualLowChannel),
}

/// The wire variant a stored sample belongs to.
pub open spec fn spec_channel_kind(ch: Channel) -> ProfileKind {
    match ch {
        Channel::Single(_) => ProfileKind::Single,
        Channel::Dual(_) => ProfileKind::Dual,
        Channel::LowData(_) => ProfileKind::LowData,
        Channel::DualLow(_) => ProfileKind::DualLow,
    }
}

/// The all-zero sample of a wire variant.
pub open spec fn spec_zero_channel(kind: ProfileKind) -> Channel {
    match kind {
        ProfileKind::Single => Channel::Single(
            SingleChannel { range_and_reserved: 0, reflectifity: 0, signal: 0, nir: 0 },
        ),
        ProfileKind::Dual => Channel::Dual(
            DualChannel {
                info_ret1: RangeData { raw: 0 },
                info_ret2: RangeData { raw: 0 },
                signal_ret_1: 0,
                signal_ret_2: 0,
                nir: 0,
            },
        ),
        ProfileKind::LowData => Channel::LowData(
            LowDataChannel { distance_and_reserve: 0, reflectifity: 0, nir: 0 },
        ),
        ProfileKind::DualLow => Channel::DualLow(
            DualLowChannel {
                range_ret1: 0,
                reflect_ret_1: 0,
                nir: 0,
                range_ret2: 0,
                reflect_ret_2: 0,
            },
        ),
    }
}

impl Channel {
    pub fn new_zeroed(kind: ProfileKind) -> (r: Channel)
        ensures
            r == spec_zero_channel(kind),
    {
        match kind {
            ProfileKind::Single => Channel::Single(
                SingleChannel { range_and_reserved: 0, reflectifity: 0, signal: 0, nir: 0 },
            ),
            ProfileKind::Dual => Channel::Dual(
                DualChannel {
                    info_ret1: RangeData { raw: 0 },
                    info_ret2: RangeData { raw: 0 },
                    signal_ret_1: 0,
                    signal_ret_2: 0,
                    nir: 0,
                },
            ),
            ProfileKind::LowData => Channel::LowData(
                LowDataChannel { distance_and_reserve: 0, reflectifity: 0, nir: 0 },
            ),
            ProfileKind::DualLow => Channel::DualLow(
                DualLowChannel {
                    range_ret1: 0,
                    reflect_ret_1: 0,
                    nir: 0,
                    range_ret2: 0,
                    reflect_ret_2: 0,
                },
            ),
        }
    }
}

impl PointInfos for Channel {
    open spec fn spec_primary(&self, n_vec: u32) -> PrimaryPointInfo {
        match self {
            Channel::Single(c) => c.spec_primary(n_vec),
            Channel::Dual(c) => c.spec_primary(n_vec),
            Channel::LowData(c) => c.spec_primary(n_vec),
            Channel::DualLow(c) => c.spec_primary(n_vec),
        }
    }

    open spec fn spec_channel_infos(&self, n_vec: u32) -> Seq<PointChannelInfo> {
        match self {
            Channel::Single(c) => c.spec_channel_infos(n_vec),
            Channel::Dual(c) => c.spec_channel_infos(n_vec),
            Channel::LowData(c) => c.spec_channel_infos(n_vec),
            Channel::DualLow(c) => c.spec_channel_infos(n_vec),
        }
    }

    fn get_primary_infos(&self, n_vec: u32) -> (r: PrimaryPointInfo) {
        match self {
            Channel::Single(c) => c.get_primary_infos(n_vec),
            Channel::Dual(c) => c.get_primary_infos(n_vec),
            Channel::LowData(c) => c.get_primary_infos(n_vec),
            Channel::DualLow(c) => c.get_primary_infos(n_vec),
        }
    }

    fn get_infos(&self, n_vec: u32) -> (r: PointInfo) {
        match self {
            Channel::Single(c) => c.get_infos(n_vec),
            Channel::Dual(c) => c.get_infos(n_vec),
            Channel::LowData(c) => c.get_infos(n_vec),
            Channel::DualLow(c) => c.get_infos(n_vec),
        }
    }
}

} // verus!
