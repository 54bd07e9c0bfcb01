use vstd::prelude::*;
use crate::packet::{spec_zero_packet, OusterPacket, PacketV};
use crate::profile::{PointInfo, PointInfos, PrimaryPointInfo, Profile};
use crate::valid_window::ValidWindow;

verus! {

/// Number of next-frame packets after which the frame being filled is
/// closed and emitted; it gives late out-of-order packets time to arrive.
pub const COMMIT_DELAY: usize = 10;

/// One in-flight frame: its id, one packet buffer per slot, the bitmap of
/// filled slots and the count of packets taken in.
struct AggregatorEntry {
    frame_id: u16,
    complete_buf: Vec<OusterPacket>,
    missing_packet_histogram: u128,
    count_packets: usize,
}

/// The mathematical value of an in-flight frame.
pub struct EntryModel {
    pub frame_id: u16,
    pub packets: Seq<PacketV>,
    pub bitmap: u128,
    pub count: usize,
}

impl View for AggregatorEntry {
    type V = EntryModel;

    closed spec fn view(&self) -> EntryModel {
        EntryModel {
            frame_id: self.frame_id,
            packets: Seq::new(self.complete_buf@.len(), |i: int| self.complete_buf@[i]@),
            bitmap: self.missing_packet_histogram,
            count: self.count_packets,
        }
    }
}

/// A frame entry as it starts: frame id zero, all slots zeroed, nothing
/// filled.
pub open spec fn spec_fresh_entry(p: Profile, required: int) -> EntryModel {
    EntryModel {
        frame_id: 0,
        packets: Seq::new(required as nat, |i: int| spec_zero_packet(p)),
        bitmap: 0,
        count: 0,
    }
}

impl AggregatorEntry {
    fn new(profile: &Profile, required: usize) -> (r: AggregatorEntry)
        requires
            profile.wf(),
        ensures
            r@ == spec_fresh_entry(*profile, required as int),
    {
        let mut complete_buf: Vec<OusterPacket> = Vec::new();
        let mut i: usize = 0;
        while i < required
            invariant
                i <= required,
                profile.wf(),
                complete_buf@.len() == i,
                forall|j: int|
                    0 <= j < i ==> (#[trigger] complete_buf@[j])@ == spec_zero_packet(*profile),
            decreases required - i,
        {
            complete_buf.push(OusterPacket::new_zeroed(profile));
            i = i + 1;
        }
        let r = AggregatorEntry {
            frame_id: 0,
            complete_buf,
            missing_packet_histogram: 0,
            count_packets: 0,
        };
        proof {
            assert(r@.packets =~= spec_fresh_entry(*profile, required as int).packets);
        }
        r
    }
}

/// Whether bit `i` of the slot bitmap is set.
pub open spec fn spec_bit(bitmap: u128, i: int) -> bool {
    (bitmap >> (i as u128)) & 1 == 1
}

/// Running statistics of an aggregator, as handed to callers.
#[derive(Debug)]
pub struct AggregatorStatistics {
    pub completion_historgram: Vec<u32>,
    pub dropped_frames: u32,
    pub missing_packets: Vec<u32>,
}

/// The frame reassembly state machine: two in-flight frames, the window
/// metadata and the quality statistics.
pub struct Aggregator {
    profile: Profile,
    start_measurement_id: u16,
    total_measurements_per_frame: u16,
    entry_active: AggregatorEntry,
    entry_other: AggregatorEntry,
    completion_historgram: Vec<u32>,
    missing_packets: Vec<u32>,
    dropped_packets: u32,
}

/// The mathematical value of an aggregator.
pub struct AggregatorModel {
    pub profile: Profile,
    pub start_measurement_id: u16,
    pub total_measurements_per_frame: u16,
    pub active: EntryModel,
    pub other: EntryModel,
    pub hist: Seq<u32>,
    pub missing: Seq<u32>,
    pub dropped: u32,
}

impl View for Aggregator {
    type V = AggregatorModel;

    closed spec fn view(&self) -> AggregatorModel {
        AggregatorModel {
            profile: self.profile,
            start_measurement_id: self.start_measurement_id,
            total_measurements_per_frame: self.total_measurements_per_frame,
            active: self.entry_active@,
            other: self.entry_other@,
            hist: self.completion_historgram@,
            missing: self.missing_packets@,
            dropped: self.dropped_packets,
        }
    }
}

impl EntryModel {
    pub open spec fn wf(self, p: Profile, required: int) -> bool {
        &&& self.packets.len() == required
        &&& forall|i: int| 0 <= i < required ==> (#[trigger] self.packets[i]).wf(p)
    }
}

impl AggregatorModel {
    /// Packet slots per frame within the configured window.
    pub open spec fn required(self) -> int {
        self.missing.len() as int
    }

    pub open spec fn inv(self) -> bool {
        &&& self.profile.wf()
        &&& self.required() <= 128
        &&& self.hist.len() == self.required() + 2
        &&& self.start_measurement_id <= self.total_measurements_per_frame
        &&& self.active.wf(self.profile, self.required())
        &&& self.other.wf(self.profile, self.required())
    }
}

/// The frame slot a packet addresses: its first column's measurement id in
/// packet units, shifted to the window start with wrap-around.
pub open spec fn spec_slot_index(m: AggregatorModel, pv: PacketV) -> int {
    let pos = pv.spec_measurement_id() as int / m.profile.columns as int;
    if pos < m.start_measurement_id as int {
        pos + m.total_measurements_per_frame - m.start_measurement_id
    } else {
        pos - m.start_measurement_id
    }
}

/// Close the statistics of an outgoing frame over slots `[0, k)`: each
/// unfilled slot is zeroed in the packet buffer and counted as missing.
pub open spec fn spec_close_stats(
    packets: Seq<PacketV>,
    bitmap: u128,
    missing: Seq<u32>,
    zero: PacketV,
    k: int,
) -> (Seq<PacketV>, Seq<u32>)
    decreases k,
{
    if k <= 0 {
        (packets, missing)
    } else {
        let prev = spec_close_stats(packets, bitmap, missing, zero, k - 1);
        if !spec_bit(bitmap, k - 1) {
            (
                prev.0.update(k - 1, zero),
                prev.1.update(k - 1, prev.1[k - 1].saturating_add(1)),
            )
        } else {
            prev
        }
    }
}

/// One step of the reassembly state machine: the state after taking in one
/// packet, and the frame it emits, if any.
pub open spec fn spec_step(m: AggregatorModel, pv: PacketV) -> (AggregatorModel, Option<
    EntryModel,
>) {
    let idx = spec_slot_index(m, pv);
    let fid = pv.spec_frame_id();
    if idx < 0 || idx >= m.required() {
        // outside the configured window: ignored, not counted
        (m, None)
    } else if m.active.frame_id == fid {
        let active2 = EntryModel {
            frame_id: m.active.frame_id,
            packets: m.active.packets.update(idx, pv),
            bitmap: m.active.bitmap | (1u128 << (idx as u128)),
            count: m.active.count.saturating_add(1),
        };
        (AggregatorModel { active: active2, ..m }, None)
    } else if m.other.frame_id != fid {
        // a third frame id: repurpose the next-frame slot, dropping what it held
        let other2 = EntryModel {
            frame_id: fid,
            packets: m.other.packets.update(idx, pv),
            bitmap: 1u128 << (idx as u128),
            count: 1,
        };
        let dropped2 = m.dropped.saturating_add(m.other.count as u32);
        (AggregatorModel { other: other2, dropped: dropped2, ..m }, None)
    } else {
        let other2 = EntryModel {
            frame_id: m.other.frame_id,
            packets: m.other.packets.update(idx, pv),
            bitmap: m.other.bitmap | (1u128 << (idx as u128)),
            count: m.other.count.saturating_add(1),
        };
        if other2.count == COMMIT_DELAY {
            let fresh = spec_fresh_entry(m.profile, m.required());
            if m.active.count != 0 {
                let last = m.hist.len() - 1;
                let hidx = if m.active.count as int <= last {
                    m.active.count as int
                } else {
                    last
                };
                let hist2 = m.hist.update(hidx, m.hist[hidx].saturating_add(1));
                let closed = spec_close_stats(
                    m.active.packets,
                    m.active.bitmap,
                    m.missing,
                    spec_zero_packet(m.profile),
                    m.required(),
                );
                let emitted = EntryModel {
                    frame_id: m.active.frame_id,
                    packets: closed.0,
                    bitmap: m.active.bitmap,
                    count: m.active.count,
                };
                (
                    AggregatorModel {
                        active: other2,
                        other: fresh,
                        hist: hist2,
                        missing: closed.1,
                        ..m
                    },
                    Some(emitted),
                )
            } else {
                (AggregatorModel { active: other2, other: fresh, ..m }, None)
            }
        } else {
            (AggregatorModel { other: other2, ..m }, None)
        }
    }
}

/// The histogram snapshot: the running histogram with the still-in-flight
/// active frame counted as one more closed frame.
pub open spec fn spec_histogram(m: AggregatorModel) -> Seq<u32> {
    let i = if m.active.count as int <= m.missing.len() {
        m.active.count as int
    } else {
        m.missing.len() as int
    };
    m.hist.update(i, m.hist[i].saturating_add(1))
}

/// A completed frame: the packet storage of one emitted rotation window.
pub struct CompleteData {
    profile: Profile,
    entry: AggregatorEntry,
}

impl View for CompleteData {
    type V = EntryModel;

    closed spec fn view(&self) -> EntryModel {
        self.entry@
    }
}

impl CompleteData {
    pub closed spec fn spec_profile(&self) -> Profile {
        self.profile
    }

    pub open spec fn wf(&self) -> bool {
        &&& self.spec_profile().wf()
        &&& forall|i: int|
            0 <= i < self@.packets.len() ==> (#[trigger] self@.packets[i]).wf(self.spec_profile())
    }

    pub fn profile(&self) -> (r: Profile)
        ensures
            r == self.spec_profile(),
    {
        self.profile
    }

    /// Number of packets the frame closed with.
    pub fn len(&self) -> (r: usize)
        ensures
            r == self@.count,
    {
        self.entry.count_packets
    }

    pub fn is_empty(&self) -> (r: bool)
        ensures
            r == (self@.count == 0),
    {
        self.entry.count_packets == 0
    }

    /// The bitmap of slots that were filled when the frame closed.
    pub fn statistics(&self) -> (r: u128)
        ensures
            r == self@.bitmap,
    {
        self.entry.missing_packet_histogram
    }

    /// The packets of the frame, one per slot, zeroed where the slot was
    /// never filled.
    pub fn packets(&self) -> (r: &Vec<OusterPacket>)
        ensures
            r@.len() == self@.packets.len(),
            forall|i: int| 0 <= i < r@.len() ==> (#[trigger] r@[i])@ == self@.packets[i],
    {
        &self.entry.complete_buf
    }

    /// The first return of the sample at flat index
    /// `(packet * columns + column) * layers + row`, decoded with `n_vec`.
    #[inline(always)]
    pub fn get_row_first_infos_primary(&self, index: usize, n_vec: u32) -> (r: PrimaryPointInfo)
        requires
            self.wf(),
            index < self@.packets.len() * self.spec_profile().columns
                * self.spec_profile().layers,
        ensures
            ({
                let l = self.spec_profile().layers as int;
                let c = self.spec_profile().columns as int;
                let column_idx = index as int / l;
                let row = index as int % l;
                r == self@.packets[column_idx / c].columns[column_idx % c].channels[row]
                    .spec_primary(n_vec)
            }),
    {
        let l = self.profile.layers as usize;
        let c = self.profile.columns as usize;
        let column_idx = index / l;
        let column_idx_outer = column_idx % c;
        let column_idx_inner = column_idx / c;
        let row_idx = index % l;
        proof {
            let n = self@.packets.len() as int;
            let cc = c as int;
            let ll = l as int;
            assert(index < ll * (n * cc)) by (nonlinear_arith)
                requires
                    index < n * cc * ll,
            ;
            vstd::arithmetic::div_mod::lemma_multiply_divide_lt(index as int, ll, n * cc);
            assert(index as int / ll < cc * n) by (nonlinear_arith)
                requires
                    index as int / ll < n * cc,
            ;
            vstd::arithmetic::div_mod::lemma_multiply_divide_lt(column_idx as int, cc, n);
            vstd::arithmetic::div_mod::lemma_mod_bound(column_idx as int, cc);
            vstd::arithmetic::div_mod::lemma_mod_bound(index as int, ll);
        }
        let outer = &self.entry.complete_buf[column_idx_inner];
        let column_inner = &outer.columns[column_idx_outer];
        column_inner.channels[row_idx].get_primary_infos(n_vec)
    }
}

} // verus!

verus! {

/// The zeroed packet of a profile is well formed for that profile.
pub proof fn lemma_zero_packet_wf(p: Profile)
    requires
        p.wf(),
    ensures
        spec_zero_packet(p).wf(p),
{
    let v = spec_zero_packet(p);
    assert forall|c: int| 0 <= c < v.columns.len() implies (#[trigger] v.columns[c]).wf(p) by {
        assert(v.columns[c] == crate::packet::spec_zero_column(p));
    }
}

fn zeros_u32(n: usize) -> (r: Vec<u32>)
    ensures
        r@ == Seq::new(n as nat, |i: int| 0u32),
{
    let mut r: Vec<u32> = Vec::new();
    let mut i: usize = 0;
    while i < n
        invariant
            i <= n,
            r@ =~= Seq::new(i as nat, |j: int| 0u32),
        decreases n - i,
    {
        r.push(0);
        i = i + 1;
    }
    proof {
        assert(r@ =~= Seq::new(n as nat, |j: int| 0u32));
    }
    r
}

impl Aggregator {
    /// A fresh aggregator for the given window and wire profile.
    pub fn new(valid_config: &ValidWindow, profile: &Profile) -> (r: Aggregator)
        requires
            profile.wf(),
            valid_config.wf(),
            profile.columns == valid_config.columns_per_packet,
            valid_config.required_measurements <= 128,
            valid_config.start_measurement_id <= valid_config.measurements_per_frame,
        ensures
            r@.inv(),
            r@.profile == *profile,
            r@.start_measurement_id == valid_config.start_measurement_id,
            r@.total_measurements_per_frame == valid_config.measurements_per_frame,
            r@.active == spec_fresh_entry(*profile, valid_config.required_measurements as int),
            r@.other == spec_fresh_entry(*profile, valid_config.required_measurements as int),
            r@.hist == Seq::new((valid_config.required_measurements + 2) as nat, |i: int| 0u32),
            r@.missing == Seq::new(valid_config.required_measurements as nat, |i: int| 0u32),
            r@.dropped == 0,
    {
        let required = valid_config.required_measurements;
        Aggregator {
            profile: *profile,
            start_measurement_id: valid_config.start_measurement_id,
            total_measurements_per_frame: valid_config.measurements_per_frame,
            entry_active: AggregatorEntry::new(profile, required),
            entry_other: AggregatorEntry::new(profile, required),
            // the two extra buckets count empty closes and over-full frames
            completion_historgram: zeros_u32(required + 2),
            missing_packets: zeros_u32(required),
            dropped_packets: 0,
        }
    }

    /// The wire profile this aggregator was built for.
    pub fn profile(&self) -> (r: Profile)
        ensures
            r == self@.profile,
    {
        self.profile
    }

    /// The completion histogram with the in-flight active frame counted in.
    pub fn get_histogram(&self) -> (r: Vec<u32>)
        requires
            self@.inv(),
        ensures
            r@ == spec_histogram(self@),
    {
        let n = self.completion_historgram.len();
        let mut r: Vec<u32> = Vec::new();
        let mut i: usize = 0;
        while i < n
            invariant
                i <= n,
                n == self.completion_historgram@.len(),
                r@ =~= self.completion_historgram@.take(i as int),
            decreases n - i,
        {
            r.push(self.completion_historgram[i]);
            i = i + 1;
        }
        proof {
            assert(r@ =~= self.completion_historgram@);
        }
        let idx = if self.entry_active.count_packets <= self.missing_packets.len() {
            self.entry_active.count_packets
        } else {
            self.missing_packets.len()
        };
        let v = r[idx].saturating_add(1);
        r[idx] = v;
        r
    }

    /// The histogram together with the dropped-packet total and the
    /// per-slot miss counts.
    pub fn get_statistics(&self) -> (r: AggregatorStatistics)
        requires
            self@.inv(),
        ensures
            r.completion_historgram@ == spec_histogram(self@),
            r.dropped_frames == self@.dropped,
            r.missing_packets@ == self@.missing,
    {
        let n = self.missing_packets.len();
        let mut missing: Vec<u32> = Vec::new();
        let mut i: usize = 0;
        while i < n
            invariant
                i <= n,
                n == self.missing_packets@.len(),
                missing@ =~= self.missing_packets@.take(i as int),
            decreases n - i,
        {
            missing.push(self.missing_packets[i]);
            i = i + 1;
        }
        proof {
            assert(missing@ =~= self.missing_packets@);
        }
        AggregatorStatistics {
            completion_historgram: self.get_histogram(),
            dropped_frames: self.dropped_packets,
            missing_packets: missing,
        }
    }
}

} // verus!

verus! {

impl Aggregator {
    /// Take in one packet: store it in the frame it belongs to by frame id
    /// and slot, and commit and emit the previous frame once enough packets
    /// of the next frame have arrived.
    pub fn put_data_value(&mut self, data: OusterPacket) -> (r: Option<CompleteData>)
        requires
            old(self)@.inv(),
            data@.wf(old(self)@.profile),
        ensures
            final(self)@ == spec_step(old(self)@, data@).0,
            final(self)@.inv(),
            match (r, spec_step(old(self)@, data@).1) {
                (Some(cd), Some(e)) => cd@ == e && cd.spec_profile() == old(self)@.profile
                    && cd.wf(),
                (None, None) => true,
                _ => false,
            },
    {
        let ghost m0 = self@;
        let ghost pv = data@;
        let mut data = data;
        let pos = (data.columns[0].channels_header.measurement_id as usize) / (
        self.profile.columns as usize);
        proof {
            vstd::arithmetic::div_mod::lemma_div_nonincreasing(
                pv.spec_measurement_id() as int,
                m0.profile.columns as int,
            );
            vstd::arithmetic::div_mod::lemma_div_pos_is_pos(
                pv.spec_measurement_id() as int,
                m0.profile.columns as int,
            );
        }
        let idx = if pos < self.start_measurement_id as usize {
            pos + self.total_measurements_per_frame as usize
                - self.start_measurement_id as usize
        } else {
            pos - self.start_measurement_id as usize
        };
        proof {
            assert(idx == spec_slot_index(m0, pv));
        }

        if idx >= self.entry_active.complete_buf.len() {
            return None;
        }
        let fid = data.header.frame_id();

        if self.entry_active.frame_id == fid {
            core::mem::swap(&mut self.entry_active.complete_buf[idx], &mut data);
            self.entry_active.count_packets = self.entry_active.count_packets.saturating_add(1);
            self.entry_active.missing_packet_histogram = self.entry_active.missing_packet_histogram
                | (1u128 << (idx as u128));
            proof {
                let m1 = spec_step(m0, pv).0;
                assert(self@.active.packets =~= m1.active.packets);
                assert(self@ == m1);
            }
            None
        } else if self.entry_other.frame_id != fid {
            self.entry_other.frame_id = fid;
            core::mem::swap(&mut self.entry_other.complete_buf[idx], &mut data);
            self.dropped_packets = self.dropped_packets.saturating_add(
                #[verifier::truncate] (self.entry_other.count_packets as u32),
            );
            self.entry_other.count_packets = 1;
            self.entry_other.missing_packet_histogram = 1u128 << (idx as u128);
            proof {
                let m1 = spec_step(m0, pv).0;
                assert(self@.other.packets =~= m1.other.packets);
                assert(self@ == m1);
            }
            None
        } else {
            self.entry_other.missing_packet_histogram = self.entry_other.missing_packet_histogram
                | (1u128 << (idx as u128));
            self.entry_other.count_packets = self.entry_other.count_packets.saturating_add(1);
            core::mem::swap(&mut self.entry_other.complete_buf[idx], &mut data);
            proof {
                let so2 = EntryModel {
                    frame_id: m0.other.frame_id,
                    packets: m0.other.packets.update(spec_slot_index(m0, pv), pv),
                    bitmap: m0.other.bitmap | (1u128 << (spec_slot_index(m0, pv) as u128)),
                    count: m0.other.count.saturating_add(1),
                };
                assert(self.entry_other@.packets =~= so2.packets);
                assert(self.entry_other@ == so2);
            }
            // Finish delayed, so out-of-order packets are still assigned.
            if self.entry_other.count_packets == COMMIT_DELAY {
                let required = self.missing_packets.len();
                let ghost other2 = self.entry_other@;
                let mut emitted = AggregatorEntry::new(&self.profile, required);
                core::mem::swap(&mut emitted, &mut self.entry_active);
                core::mem::swap(&mut self.entry_active, &mut self.entry_other);
                proof {
                    assert(self@.active == other2);
                    assert(self@.other == spec_fresh_entry(m0.profile, m0.required()));
                    assert(emitted@ == m0.active);
                    lemma_zero_packet_wf(m0.profile);
                }
                let result = if emitted.count_packets != 0 {
                    let last = self.completion_historgram.len() - 1;
                    let hidx = if emitted.count_packets <= last {
                        emitted.count_packets
                    } else {
                        last
                    };
                    let v = self.completion_historgram[hidx].saturating_add(1);
                    self.completion_historgram[hidx] = v;

                    let ghost zero = spec_zero_packet(m0.profile);
                    let ghost active1 = self.entry_active@;
                    let ghost other1 = self.entry_other@;
                    let ghost hist1 = self.completion_historgram@;
                    let ghost dropped1 = self.dropped_packets;
                    let mut x: usize = 0;
                    while x < required
                        invariant
                            x <= required,
                            required == m0.required(),
                            required <= 128,
                            m0.profile.wf(),
                            emitted@.packets.len() == required,
                            emitted@.frame_id == m0.active.frame_id,
                            emitted@.bitmap == m0.active.bitmap,
                            emitted@.count == m0.active.count,
                            zero == spec_zero_packet(m0.profile),
                            zero.wf(m0.profile),
                            self.profile == m0.profile,
                            self.start_measurement_id == m0.start_measurement_id,
                            self.total_measurements_per_frame == m0.total_measurements_per_frame,
                            self.entry_active@ == active1,
                            self.entry_other@ == other1,
                            self.completion_historgram@ == hist1,
                            self.dropped_packets == dropped1,
                            forall|i: int|
                                0 <= i < required ==> (#[trigger] emitted@.packets[i]).wf(
                                    m0.profile,
                                ),
                            (emitted@.packets, self.missing_packets@) == spec_close_stats(
                                m0.active.packets,
                                m0.active.bitmap,
                                m0.missing,
                                zero,
                                x as int,
                            ),
                            self.missing_packets@.len() == required,
                        decreases required - x,
                    {
                        if (emitted.missing_packet_histogram >> (x as u128)) & 1 == 0 {
                            emitted.complete_buf[x] = OusterPacket::new_zeroed(&self.profile);
                            let mv = self.missing_packets[x].saturating_add(1);
                            self.missing_packets[x] = mv;
                            proof {
                                assert(emitted@.packets =~= spec_close_stats(
                                    m0.active.packets,
                                    m0.active.bitmap,
                                    m0.missing,
                                    zero,
                                    x + 1,
                                ).0);
                            }
                        }
                        proof {
                            let h = m0.active.bitmap;
                            let xx = x as u128;
                            assert((h >> xx) & 1 == 0 || (h >> xx) & 1 == 1) by (bit_vector);
                            let prev = spec_close_stats(
                                m0.active.packets,
                                m0.active.bitmap,
                                m0.missing,
                                zero,
                                x as int,
                            );
                            let cur = spec_close_stats(
                                m0.active.packets,
                                m0.active.bitmap,
                                m0.missing,
                                zero,
                                x + 1,
                            );
                            if !spec_bit(m0.active.bitmap, x as int) {
                                assert(cur == (
                                    prev.0.update(x as int, zero),
                                    prev.1.update(
                                        x as int,
                                        prev.1[x as int].saturating_add(1),
                                    ),
                                ));
                            } else {
                                assert(cur == prev);
                            }
                        }
                        x = x + 1;
                    }
                    Some(CompleteData { profile: self.profile, entry: emitted })
                } else {
                    None
                };
                proof {
                    let m1 = spec_step(m0, pv).0;
                    assert(self@ == m1);
                }
                result
            } else {
                proof {
                    let m1 = spec_step(m0, pv).0;
                    assert(self@.other.packets =~= m1.other.packets);
                    assert(self@ == m1);
                }
                None
            }
        }
    }
}

} // verus!

verus! {

impl CompleteData {
    /// All first returns of the frame in emission order (packet, then
    /// column, then layer), decoded with `n_vec`.
    pub fn iter_infos_primary(&self, n_vec: u32) -> (r: Vec<PrimaryPointInfo>)
        requires
            self.wf(),
            self@.packets.len() <= 128,
        ensures
            r@.len() == self@.packets.len() * self.spec_profile().columns
                * self.spec_profile().layers,
            forall|k: int|
                0 <= k < r@.len() ==> #[trigger] r@[k] == ({
                    let l = self.spec_profile().layers as int;
                    let c = self.spec_profile().columns as int;
                    let column_idx = k / l;
                    self@.packets[column_idx / c].columns[column_idx % c].channels[k
                        % l].spec_primary(n_vec)
                }),
    {
        let c = self.profile.columns as usize;
        let l = self.profile.layers as usize;
        let n = self.entry.complete_buf.len();
        proof {
            assert(0 <= n * c <= 0x8_0000 && 0 <= n * c * l <= 0x8000_0000)
                by (nonlinear_arith)
                requires
                    0 <= n <= 128,
                    0 <= c <= 4096,
                    0 <= l <= 4096,
            ;
        }
        let total = n * c * l;
        let mut r: Vec<PrimaryPointInfo> = Vec::new();
        let mut k: usize = 0;
        while k < total
            invariant
                k <= total,
                self.wf(),
                c == self.spec_profile().columns,
                l == self.spec_profile().layers,
                1 <= c,
                1 <= l,
                total == self@.packets.len() * self.spec_profile().columns
                    * self.spec_profile().layers,
                r@.len() == k,
                forall|j: int|
                    0 <= j < k ==> #[trigger] r@[j] == ({
                        let ll = self.spec_profile().layers as int;
                        let cc = self.spec_profile().columns as int;
                        let column_idx = j / ll;
                        self@.packets[column_idx / cc].columns[column_idx % cc].channels[j
                            % ll].spec_primary(n_vec)
                    }),
            decreases total - k,
        {
            r.push(self.get_row_first_infos_primary(k, n_vec));
            k = k + 1;
        }
        r
    }

    /// All returns of every sample of the frame in emission order, decoded
    /// with `n_vec`.
    pub fn iter_infos(&self, n_vec: u32) -> (r: Vec<PointInfo>)
        requires
            self.wf(),
            self@.packets.len() <= 128,
        ensures
            r@.len() == self@.packets.len() * self.spec_profile().columns
                * self.spec_profile().layers,
            forall|k: int|
                0 <= k < r@.len() ==> ({
                    let ll = self.spec_profile().layers as int;
                    let cc = self.spec_profile().columns as int;
                    let column_idx = k / ll;
                    let ch = self@.packets[column_idx / cc].columns[column_idx % cc].channels[k
                        % ll];
                    (#[trigger] r@[k]).nir == ch.spec_primary(n_vec).nir && r@[k].channel_info@
                        == ch.spec_channel_infos(n_vec)
                }),
    {
        let c = self.profile.columns as usize;
        let l = self.profile.layers as usize;
        let n = self.entry.complete_buf.len();
        proof {
            assert(0 <= n * c <= 0x8_0000 && 0 <= n * c * l <= 0x8000_0000)
                by (nonlinear_arith)
                requires
                    0 <= n <= 128,
                    0 <= c <= 4096,
                    0 <= l <= 4096,
            ;
        }
        let total = n * c * l;
        let mut r: Vec<PointInfo> = Vec::new();
        let mut k: usize = 0;
        while k < total
            invariant
                k <= total,
                self.wf(),
                c == self.spec_profile().columns,
                l == self.spec_profile().layers,
                1 <= c,
                1 <= l,
                total == self@.packets.len() * self.spec_profile().columns
                    * self.spec_profile().layers,
                r@.len() == k,
                forall|j: int|
                    0 <= j < k ==> ({
                        let ll = self.spec_profile().layers as int;
                        let cc = self.spec_profile().columns as int;
                        let column_idx = j / ll;
                        let ch = self@.packets[column_idx / cc].columns[column_idx
                            % cc].channels[j % ll];
                        (#[trigger] r@[j]).nir == ch.spec_primary(n_vec).nir
                            && r@[j].channel_info@ == ch.spec_channel_infos(n_vec)
                    }),
            decreases total - k,
        {
            let column_idx = k / l;
            let column_idx_outer = column_idx % c;
            let column_idx_inner = column_idx / c;
            let row_idx = k % l;
            proof {
                let nn = self@.packets.len() as int;
                let cc = c as int;
                let ll = l as int;
                assert(k < ll * (nn * cc)) by (nonlinear_arith)
                    requires
                        k < nn * cc * ll,
                ;
                vstd::arithmetic::div_mod::lemma_multiply_divide_lt(k as int, ll, nn * cc);
                assert(k as int / ll < cc * nn) by (nonlinear_arith)
                    requires
                        k as int / ll < nn * cc,
                ;
                vstd::arithmetic::div_mod::lemma_multiply_divide_lt(column_idx as int, cc, nn);
                vstd::arithmetic::div_mod::lemma_mod_bound(column_idx as int, cc);
                vstd::arithmetic::div_mod::lemma_mod_bound(k as int, ll);
            }
            let outer = &self.entry.complete_buf[column_idx_inner];
            proof {
                assert(outer@ == self@.packets[column_idx_inner as int]);
                assert(outer@.wf(self.spec_profile()));
                assert(outer@.columns[column_idx_outer as int].wf(self.spec_profile()));
            }
            let column_inner = &outer.columns[column_idx_outer];
            r.push(column_inner.channels[row_idx].get_infos(n_vec));
            k = k + 1;
        }
        r
    }
}

} // verus!
