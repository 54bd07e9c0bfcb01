use ouster_rs_ce::{
    AzimuthWindow, Channel, ConfigParams, LidarDataFormat, LidarMode, LidarProfile, OusterPacket,
    PointInfos, Profile, ProfileKind, SignalMultiplier, ValidLidarDataFormat,
    ValidateConfigParamsError,
};

#[test]
fn profile_from_str() {
    assert_eq!(
        LidarProfile::from_str("RNG19_RFL8_SIG16_NIR16").unwrap(),
        LidarProfile::SingleReturn
    );
    assert_eq!(
        LidarProfile::from_str("RNG19_RFL8_SIG16_NIR16_DUAL").unwrap(),
        LidarProfile::DualReturn
    );
    assert_eq!(
        LidarProfile::from_str("RNG15_RFL8_NIR8").unwrap(),
        LidarProfile::LowData
    );
    assert!(LidarProfile::from_str("RNG19_RFL8").is_err());
}

#[test]
fn horizontal_resolution() {
    assert_eq!(LidarMode::Mode512x10.horizontal_resolution(), 512);
    assert_eq!(LidarMode::Mode512x20.horizontal_resolution(), 512);
    assert_eq!(LidarMode::Mode1024x10.horizontal_resolution(), 1024);
    assert_eq!(LidarMode::Mode1024x20.horizontal_resolution(), 1024);
    assert_eq!(LidarMode::Mode2048x10.horizontal_resolution(), 2048);
}

#[test]
fn azimuth_window_bounds() {
    assert!(AzimuthWindow::new([0, 360_000]).is_ok());
    assert_eq!(
        AzimuthWindow::new([360_001, 0]).unwrap_err(),
        ValidateConfigParamsError::InvalidRange
    );
}

#[test]
fn azimuth_window_width() {
    assert_eq!(AzimuthWindow::new([10_000, 30_000]).unwrap().milli_angle_deg(), 20_000);
    // a window whose start lies past its end wraps around the full turn
    assert_eq!(AzimuthWindow::new([30_000, 10_000]).unwrap().milli_angle_deg(), 380_000);
    assert_eq!(AzimuthWindow::new([0, 0]).unwrap().milli_angle_deg(), 360_000);
}

#[test]
fn signal_multiplier_limits() {
    assert_eq!(SignalMultiplier::Quarter.maximum_supported_azimuth_angle_deg(), 360);
    assert_eq!(SignalMultiplier::Half.maximum_supported_azimuth_angle_deg(), 360);
    assert_eq!(SignalMultiplier::One.maximum_supported_azimuth_angle_deg(), 360);
    assert_eq!(SignalMultiplier::Two.maximum_supported_azimuth_angle_deg(), 180);
    assert_eq!(SignalMultiplier::Three.maximum_supported_azimuth_angle_deg(), 120);
}

#[test]
fn config_params_checks_multiplier() {
    let narrow = AzimuthWindow::new([0, 90_000]).unwrap();
    assert!(ConfigParams::new(narrow, LidarMode::Mode1024x10, SignalMultiplier::Three).is_ok());
    let wide = AzimuthWindow::new([0, 200_000]).unwrap();
    assert!(ConfigParams::new(wide, LidarMode::Mode1024x10, SignalMultiplier::Three).is_err());
    assert!(ConfigParams::new(wide, LidarMode::Mode1024x10, SignalMultiplier::One).is_ok());
}

fn format(columns_per_packet: u8, pixels_per_column: u8) -> LidarDataFormat {
    LidarDataFormat {
        columns_per_packet,
        pixels_per_column,
        columns_per_frame: 1024,
        pixel_shift_by_row: vec![-1, 0, 1],
        column_window: (16, 159),
        udp_profile_lidar: LidarProfile::DualReturn,
    }
}

#[test]
fn data_format_validation() {
    let profile = Profile::new(ProfileKind::Dual, 16, 64);
    let ok = ValidLidarDataFormat::new(format(16, 64), &profile).unwrap();
    assert_eq!(ok.column_window.required_measurements, 9);
    assert_eq!(ok.columns_per_frame, 1024);
    assert!(ValidLidarDataFormat::new(format(16, 128), &profile).is_err());
    assert!(ValidLidarDataFormat::new(format(8, 64), &profile).is_err());
    let mut out_of_range = format(16, 64);
    out_of_range.column_window = (1024, 0);
    assert!(ValidLidarDataFormat::new(out_of_range, &profile).is_err());
}

#[test]
fn data_format_complete_cols() {
    let profile = Profile::new(ProfileKind::Dual, 16, 128);
    let mut f = format(16, 128);
    f.pixel_shift_by_row = vec![-64, 63];
    let v = ValidLidarDataFormat::new(f, &profile).unwrap();
    assert_eq!(v.calc_complete_cols_aligned(16), (64, 16));
}

#[test]
fn low_data_decode_scales_by_eight() {
    let profile = Profile::new(ProfileKind::LowData, 16, 64);
    let mut p = OusterPacket::new_zeroed(&profile);
    if let Channel::LowData(ld) = &mut p.columns[0].channels[0] {
        // the top bit is reserved and must be ignored
        ld.distance_and_reserve = 0x8000 | 100;
        ld.reflectifity = 9;
        ld.nir = 8;
    }
    let info = p.columns[0].channels[0].get_primary_infos(0);
    assert_eq!(info.distance, 800);
    assert_eq!(info.reflectifity, 9);
    assert_eq!(info.nir, 8);
    assert_eq!(info.signal, None);
    let full = p.columns[0].channels[0].get_infos(3);
    assert_eq!(full.channel_info.len(), 1);
    assert_eq!(full.channel_info[0].distance, 797);
}

#[test]
fn dual_decode_returns_both() {
    let profile = Profile::new(ProfileKind::Dual, 16, 64);
    let mut p = OusterPacket::new_zeroed(&profile);
    if let Channel::Dual(d) = &mut p.columns[0].channels[0] {
        d.info_ret1.raw = 0xAA00_0000 | 1500;
        d.info_ret2.raw = 0xBB00_0000 | 2500;
        d.signal_ret_1 = 11;
        d.signal_ret_2 = 22;
        d.nir = 0x4D00;
    }
    let info = p.columns[0].channels[0].get_infos(500);
    assert_eq!(info.nir, 0x4D);
    assert_eq!(info.channel_info.len(), 2);
    assert_eq!(info.channel_info[0].distance, 1000);
    assert_eq!(info.channel_info[0].reflectifity, 0xAA);
    assert_eq!(info.channel_info[0].unwrap_signal(), 11);
    assert_eq!(info.channel_info[1].distance, 2000);
    assert_eq!(info.channel_info[1].reflectifity, 0xBB);
    assert_eq!(info.channel_info[1].unwrap_signal(), 22);
    let primary = p.columns[0].channels[0].get_primary_infos(500);
    assert_eq!(primary.distance, 1000);
    assert_eq!(primary.unwrap_signal(), 11);
}

#[test]
fn single_decode() {
    let profile = Profile::new(ProfileKind::Single, 16, 64);
    let mut p = OusterPacket::new_zeroed(&profile);
    if let Channel::Single(s) = &mut p.columns[0].channels[0] {
        s.range_and_reserved = 4000;
        s.reflectifity = 77;
        s.signal = 123;
        s.nir = 0x3C00;
    }
    let info = p.columns[0].channels[0].get_primary_infos(1000);
    assert_eq!(info.distance, 3000);
    assert_eq!(info.reflectifity, 77);
    assert_eq!(info.nir, 0x3C);
    assert_eq!(info.unwrap_signal(), 123);
}

#[test]
fn dual_low_decode() {
    let profile = Profile::new(ProfileKind::DualLow, 16, 64);
    let mut p = OusterPacket::new_zeroed(&profile);
    if let Channel::DualLow(dl) = &mut p.columns[0].channels[0] {
        dl.range_ret1 = 100;
        dl.reflect_ret_1 = 1;
        dl.nir = 2;
        dl.range_ret2 = 200;
        dl.reflect_ret_2 = 3;
    }
    let info = p.columns[0].channels[0].get_infos(0);
    assert_eq!(info.channel_info.len(), 2);
    assert_eq!(info.channel_info[0].distance, 800);
    assert_eq!(info.channel_info[1].distance, 1600);
    assert_eq!(info.channel_info[0].signal, None);
    assert_eq!(info.nir, 2);
}
