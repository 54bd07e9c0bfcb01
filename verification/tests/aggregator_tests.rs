use ouster_rs_ce::{
    Aggregator, Channel, CompleteData, Header, OusterPacket, Profile, ProfileKind, ValidWindow,
};

fn dual64_profile() -> Profile {
    Profile::new(ProfileKind::Dual, 16, 64)
}

fn make_packet(profile: &Profile, frame_id: u16, measurement_id: u16, raw: u32) -> OusterPacket {
    let mut x = OusterPacket::new_zeroed(profile);
    if let Header::Standard(h) = &mut x.header {
        h.frame_id = frame_id;
    }
    x.columns[0].channels_header.measurement_id = measurement_id;
    for col in x.columns.iter_mut() {
        for ch in col.channels.iter_mut() {
            if let Channel::Dual(d) = ch {
                d.info_ret1.raw = raw;
            }
        }
    }
    x
}

fn all_first_returns_raw(pc: &CompleteData, raw: u32) -> bool {
    pc.packets().iter().all(|x| {
        x.columns.iter().all(|col| {
            col.channels.iter().all(|ch| match ch {
                Channel::Dual(d) => d.info_ret1.raw == raw,
                _ => false,
            })
        })
    })
}

fn test_window(window: (u16, u16)) {
    let profile = dual64_profile();
    let valid_win = ValidWindow::new(window, 1024, 16);
    let start = valid_win.start_measurement_id();
    let mut input = (0u16..).map(|i| {
        make_packet(&profile, i / 64, ((i + start) % 64) * 16, 1)
    });
    let mut aggregator = Aggregator::new(&valid_win, &profile);

    for i in (&mut input).take(63 + 10) {
        assert!(aggregator.put_data_value(i).is_none());
    }
    let pc = aggregator
        .put_data_value(input.next().unwrap())
        .expect("Pointcloud should be complete");
    assert!(all_first_returns_raw(&pc, 1));
}

#[test]
fn bellow_start_measurement_id() {
    test_window((32, 0));
}

#[test]
fn without_missing() {
    test_window((0, 1023));
}

#[test]
fn high_start_measurement_id() {
    test_window((740, 240));
}

#[test]
fn ignore_old_frame() {
    let profile = dual64_profile();
    let win = ValidWindow::new((0, 1023), 1024, 16);
    let mut aggregator = Aggregator::new(&win, &profile);
    aggregator.put_data_value(make_packet(&profile, 10, 0, 0));
    aggregator.put_data_value(make_packet(&profile, 0, 0, 0));
}

#[test]
fn with_unordered() {
    let profile = dual64_profile();
    let mut input = (0u32..).map(|i| {
        let frame_id = match i {
            0..=62 => 0,
            63 => 1,
            64 => 0,
            65..=127 => 1,
            128.. => 2,
        };
        make_packet(&profile, frame_id, 0, 0)
    });
    let win = ValidWindow::new((0, 1023), 1024, 16);
    let mut aggregator = Aggregator::new(&win, &profile);

    for (i, data) in (&mut input).take(64 + 9).enumerate() {
        assert!(aggregator.put_data_value(data).is_none(), "Item {i}");
    }
    aggregator
        .put_data_value(input.next().unwrap())
        .expect("Pointcloud should be complete");
    for i in (&mut input).take(63) {
        assert!(aggregator.put_data_value(i).is_none());
    }
    aggregator
        .put_data_value(input.next().unwrap())
        .expect("Pointcloud should be complete");
    let hist = aggregator.get_histogram();
    assert_eq!(0, hist[0], "{:?}", hist);
    assert_eq!(2, hist[64], "{:?}", hist);
}

#[test]
fn single_frame_happy_path() {
    // frame 0 complete, then one commit delay of frame-1 packets
    let profile = dual64_profile();
    let win = ValidWindow::new((0, 1023), 1024, 16);
    let mut agg = Aggregator::new(&win, &profile);
    for i in 0u16..64 {
        assert!(agg.put_data_value(make_packet(&profile, 0, 16 * i, 1)).is_none());
    }
    let mut emitted = None;
    for t in 0u16..10 {
        let r = agg.put_data_value(make_packet(&profile, 1, 16 * t, 2));
        if t < 9 {
            assert!(r.is_none());
        } else {
            emitted = r;
        }
    }
    let pc = emitted.expect("frame must be emitted at the commit boundary");
    assert_eq!(pc.len(), 64);
    assert!(!pc.is_empty());
    assert_eq!(pc.statistics(), (1u128 << 64) - 1);
    assert!(all_first_returns_raw(&pc, 1));
}

#[test]
fn cross_frame_reorder() {
    // one frame-0 packet arrives late, after the first frame-1 packet
    let profile = dual64_profile();
    let win = ValidWindow::new((0, 1023), 1024, 16);
    let mut agg = Aggregator::new(&win, &profile);
    for i in 0u16..63 {
        assert!(agg.put_data_value(make_packet(&profile, 0, 16 * i, 1)).is_none());
    }
    assert!(agg.put_data_value(make_packet(&profile, 1, 0, 2)).is_none());
    assert!(agg.put_data_value(make_packet(&profile, 0, 16 * 63, 1)).is_none());
    let mut emitted = None;
    for t in 1u16..10 {
        let r = agg.put_data_value(make_packet(&profile, 1, 16 * t, 2));
        if t < 9 {
            assert!(r.is_none());
        } else {
            emitted = r;
        }
    }
    let pc = emitted.expect("frame must be emitted");
    assert_eq!(pc.len(), 64);
    let stats = agg.get_statistics();
    assert!(stats.missing_packets.iter().all(|&m| m == 0));
    assert!(all_first_returns_raw(&pc, 1));
}

#[test]
fn lost_packet_is_counted_and_zeroed() {
    // slot 7 of frame 0 never arrives
    let profile = dual64_profile();
    let win = ValidWindow::new((0, 1023), 1024, 16);
    let mut agg = Aggregator::new(&win, &profile);
    for i in 0u16..64 {
        if i == 7 {
            continue;
        }
        assert!(agg.put_data_value(make_packet(&profile, 0, 16 * i, 1)).is_none());
    }
    let mut emitted = None;
    for t in 0u16..10 {
        emitted = agg.put_data_value(make_packet(&profile, 1, 16 * t, 2));
    }
    let pc = emitted.expect("frame must be emitted");
    assert_eq!(pc.len(), 63);
    assert_eq!(pc.statistics() & (1 << 7), 0);
    let stats = agg.get_statistics();
    assert_eq!(stats.missing_packets[7], 1);
    for (i, m) in stats.missing_packets.iter().enumerate() {
        if i != 7 {
            assert_eq!(*m, 0, "slot {i}");
        }
    }
    // the packet at the missing slot reads as zeroes
    let slot7 = &pc.packets()[7];
    assert!(slot7.columns.iter().all(|col| {
        col.channels.iter().all(|ch| match ch {
            Channel::Dual(d) => d.info_ret1.raw == 0,
            _ => false,
        })
    }));
}

#[test]
fn reordered_frame_still_completes() {
    // feed the 64 slots of frame 0 in reverse order
    let profile = dual64_profile();
    let win = ValidWindow::new((0, 1023), 1024, 16);
    let mut agg = Aggregator::new(&win, &profile);
    for i in (0u16..64).rev() {
        assert!(agg.put_data_value(make_packet(&profile, 0, 16 * i, 1)).is_none());
    }
    let mut emitted = None;
    for t in 0u16..10 {
        emitted = agg.put_data_value(make_packet(&profile, 1, 16 * t, 2));
    }
    let pc = emitted.expect("frame must be emitted");
    assert_eq!(pc.len(), 64);
    assert_eq!(pc.statistics(), (1u128 << 64) - 1);
}

#[test]
fn wrapping_window_slot_placement() {
    // window (32, 0): the rotation wraps, and column 0 lands in slot 62
    let profile = dual64_profile();
    let win = ValidWindow::new((32, 0), 1024, 16);
    assert_eq!(win.required_measurements, 63);
    let mut agg = Aggregator::new(&win, &profile);
    assert!(agg.put_data_value(make_packet(&profile, 0, 0, 1)).is_none());
    let mut emitted = None;
    for t in 0u16..10 {
        emitted = agg.put_data_value(make_packet(&profile, 1, 16 * ((t + 2) % 64), 2));
    }
    let pc = emitted.expect("frame must be emitted");
    assert_eq!(pc.len(), 1);
    assert_eq!(pc.statistics(), 1u128 << 62);
}

#[test]
fn out_of_window_packet_is_ignored() {
    let profile = dual64_profile();
    // half a rotation: slots 0..32
    let win = ValidWindow::new((0, 511), 1024, 16);
    assert_eq!(win.required_measurements, 32);
    let mut agg = Aggregator::new(&win, &profile);
    // measurement id 512 lies outside the window
    assert!(agg.put_data_value(make_packet(&profile, 0, 512, 1)).is_none());
    let hist = agg.get_histogram();
    assert_eq!(hist[0], 1, "nothing was taken in");
    let stats = agg.get_statistics();
    assert_eq!(stats.dropped_frames, 0);
}

#[test]
fn dropped_packets_counted_on_third_frame() {
    let profile = dual64_profile();
    let win = ValidWindow::new((0, 1023), 1024, 16);
    let mut agg = Aggregator::new(&win, &profile);
    // three packets of frame 1 land in the next-frame entry
    for t in 0u16..3 {
        assert!(agg.put_data_value(make_packet(&profile, 1, 16 * t, 1)).is_none());
    }
    // a frame-2 packet repurposes that entry and drops its three packets
    assert!(agg.put_data_value(make_packet(&profile, 2, 0, 1)).is_none());
    let stats = agg.get_statistics();
    assert_eq!(stats.dropped_frames, 3);
}
