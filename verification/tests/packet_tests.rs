use ouster_rs_ce::{
    packet_size, Channel, Header, OusterPacket, OusterPacketHeader, OusterPacketHeaderSafety,
    PacketHeader, Profile, ProfileKind, RangeData, CHANNELS_HEADER_BYTES, DUAL_CHANNEL_BYTES,
    DUAL_LOW_CHANNEL_BYTES, PACKET_HEADER_BYTES, RANGE_DATA_BYTES, SINGLE_CHANNEL_BYTES,
};

#[test]
fn assert_correct_structsize() {
    assert_eq!(256 / 8, PACKET_HEADER_BYTES);
    assert_eq!(96 / 8, CHANNELS_HEADER_BYTES);
    assert_eq!(128 / 8, DUAL_CHANNEL_BYTES);
    assert_eq!(96 / 8, SINGLE_CHANNEL_BYTES);
    assert_eq!(32 / 8, RANGE_DATA_BYTES);
    assert_eq!(64 / 8, DUAL_LOW_CHANNEL_BYTES);
    assert_eq!(
        33024,
        packet_size(&Profile::new(ProfileKind::Dual, 16, 128))
    );
    assert_eq!(
        24832,
        packet_size(&Profile::new(ProfileKind::Single, 16, 128))
    );
}

fn sample_packet(profile: &Profile) -> OusterPacket {
    let mut p = OusterPacket::new_zeroed(profile);
    match &mut p.header {
        Header::Standard(h) => {
            h.packet_type = 1;
            h.frame_id = 77;
            h.serial_no_2 = 0xDEAD_BEEF;
            h.shutdown_countdown = 3;
        }
        Header::Safety(h) => {
            h.packet_type = 1;
            h.frame_id = 0x0003_0041;
            h.alert_flag = 9;
        }
    }
    for (c, col) in p.columns.iter_mut().enumerate() {
        col.channels_header.measurement_id = (c * 16) as u16;
        col.channels_header.timestamp_a = 0x1111_2222;
        col.channels_header.timestamp_b = 0x0000_0042;
        for (l, ch) in col.channels.iter_mut().enumerate() {
            match ch {
                Channel::Single(s) => {
                    s.range_and_reserved = (l as u32) * 3 + 5;
                    s.reflectifity = l as u8;
                    s.signal = 100 + l as u16;
                    s.nir = 0x4100 + l as u16;
                }
                Channel::Dual(d) => {
                    d.info_ret1.raw = (l as u32) * 7 + 1;
                    d.info_ret2.raw = (l as u32) * 11 + 2;
                    d.signal_ret_1 = 10 + l as u16;
                    d.signal_ret_2 = 20 + l as u16;
                    d.nir = 0x0200 + l as u16;
                }
                Channel::LowData(ld) => {
                    ld.distance_and_reserve = 200 + l as u16;
                    ld.reflectifity = 4;
                    ld.nir = 5;
                }
                Channel::DualLow(dl) => {
                    dl.range_ret1 = 300 + l as u16;
                    dl.reflect_ret_1 = 6;
                    dl.nir = 7;
                    dl.range_ret2 = 400 + l as u16;
                    dl.reflect_ret_2 = 8;
                }
            }
        }
    }
    p
}

#[test]
fn round_trip_all_profiles() {
    for kind in [
        ProfileKind::Single,
        ProfileKind::Dual,
        ProfileKind::LowData,
        ProfileKind::DualLow,
    ] {
        let profile = Profile::new(kind, 16, 64);
        let p = sample_packet(&profile);
        let bytes = p.as_slice();
        assert_eq!(bytes.len(), packet_size(&profile));
        let q = OusterPacket::from_maybe_unaligned(&bytes, &profile)
            .expect("encoded packet must decode");
        assert!(q == p, "round trip must give the packet back ({kind:?})");
    }
}

#[test]
fn from_maybe_unaligned_rejects_wrong_size() {
    let profile = Profile::new(ProfileKind::Dual, 16, 64);
    let p = OusterPacket::new_zeroed(&profile);
    let mut bytes = p.as_slice();
    bytes.push(0);
    let err = OusterPacket::from_maybe_unaligned(&bytes, &profile).unwrap_err();
    assert_eq!(err.expected, packet_size(&profile));
    assert_eq!(err.actual, packet_size(&profile) + 1);
}

#[test]
fn range_decode_monotonic() {
    // above the offset the corrected distance is the difference
    assert_eq!(RangeData { raw: 5000 }.get_distance(1000), 4000);
    // below the offset it saturates at zero
    assert_eq!(RangeData { raw: 999 }.get_distance(1000), 0);
    assert_eq!(RangeData { raw: 1000 }.get_distance(1000), 0);
    // the 20-bit range is clipped to 16 bits after correction
    assert_eq!(RangeData { raw: 0xFFFFF }.get_distance(0), 0xFFFF);
    assert_eq!(RangeData { raw: 0xFFFFF }.get_distance(0xFFFFF - 0xFFFF), 0xFFFF);
    // bits above the 20-bit range are ignored
    assert_eq!(RangeData { raw: 0xFFF0_0123 }.get_distance(0x23), 0x100);
}

#[test]
fn reflectivity_is_top_byte() {
    assert_eq!(RangeData { raw: 0xAB00_0123 }.get_reflectifity(), 0xAB);
}

#[test]
fn safety_header_frame_id_truncates() {
    let h = OusterPacketHeaderSafety {
        frame_id: 0x0003_0041,
        ..Default::default()
    };
    assert_eq!(h.frame_id(), 0x41);
    let s = OusterPacketHeader {
        frame_id: 0x41,
        ..Default::default()
    };
    assert_eq!(s.frame_id(), 0x41);
}

#[test]
fn timestamp_combines_halves() {
    let p = Profile::new(ProfileKind::Dual, 16, 64);
    let mut pk = OusterPacket::new_zeroed(&p);
    pk.columns[0].channels_header.timestamp_a = 0x1111_2222;
    pk.columns[0].channels_header.timestamp_b = 0x0000_0042;
    assert_eq!(
        pk.columns[0].channels_header.timestamp(),
        0x42_1111_2222u64
    );
}
