use ouster_rs_ce::{
    Channel, CompleteData, Header, OusterPacket, Profile, ProfileKind, ScanPositionIterator,
    ValidWindow,
};
use ouster_rs_ce::Aggregator;

fn collect_scan(mut it: ScanPositionIterator) -> Vec<(usize, usize)> {
    let mut out = Vec::new();
    while let Some(p) = it.next() {
        out.push(p);
    }
    out
}

#[test]
fn scan_covers_window_times_layers() {
    let win = ValidWindow::new((16, 159), 1024, 16);
    let got = collect_scan(ScanPositionIterator::new(&win, 64));
    assert_eq!(got.len(), 144 * 64);
    assert_eq!(got[0], (16, 0));
    assert_eq!(got[63], (16, 63));
    assert_eq!(got[64], (17, 0));
    assert_eq!(*got.last().unwrap(), (159, 63));
}

#[test]
fn scan_layers_iterate_fastest() {
    let win = ValidWindow::new((0, 1), 8, 1);
    let got = collect_scan(ScanPositionIterator::new(&win, 3));
    assert_eq!(got, vec![(0, 0), (0, 1), (0, 2), (1, 0), (1, 1), (1, 2)]);
}

fn emit_one_frame(profile: &Profile, win: &ValidWindow) -> CompleteData {
    let mut agg = Aggregator::new(win, profile);
    let start = win.start_measurement_id();
    for i in 0u16..win.required_measurements as u16 {
        let mut p = OusterPacket::new_zeroed(profile);
        if let Header::Standard(h) = &mut p.header {
            h.frame_id = 0;
        }
        p.columns[0].channels_header.measurement_id =
            ((i + start) % win.measurements_per_frame) * 16;
        for (c, col) in p.columns.iter_mut().enumerate() {
            for (l, ch) in col.channels.iter_mut().enumerate() {
                if let Channel::Dual(d) = ch {
                    d.info_ret1.raw = (i as u32) * 1000 + (c as u32) * 10 + l as u32;
                }
            }
        }
        assert!(agg.put_data_value(p).is_none());
    }
    let mut emitted = None;
    for t in 0u16..10 {
        let mut p = OusterPacket::new_zeroed(profile);
        if let Header::Standard(h) = &mut p.header {
            h.frame_id = 1;
        }
        p.columns[0].channels_header.measurement_id = ((t + start) % win.measurements_per_frame) * 16;
        emitted = agg.put_data_value(p);
    }
    emitted.expect("frame must complete")
}

#[test]
fn row_first_index_reads_the_right_sample() {
    let profile = Profile::new(ProfileKind::Dual, 16, 64);
    let win = ValidWindow::new((0, 1023), 1024, 16);
    let frame = emit_one_frame(&profile, &win);
    assert_eq!(frame.len(), 64);
    // index = (packet * columns + column) * layers + row
    let index = ((3 * 16 + 5) * 64) + 7;
    let info = frame.get_row_first_infos_primary(index, 0);
    let expected_raw: u32 = 3 * 1000 + 5 * 10 + 7;
    assert_eq!(info.distance as u32, expected_raw);
    let info_corr = frame.get_row_first_infos_primary(index, 1000);
    assert_eq!(info_corr.distance as u32, expected_raw - 1000);
}

#[test]
fn flat_infos_match_indexed_access() {
    let profile = Profile::new(ProfileKind::Dual, 16, 64);
    let win = ValidWindow::new((0, 1023), 1024, 16);
    let frame = emit_one_frame(&profile, &win);
    let infos = frame.iter_infos_primary(100);
    assert_eq!(infos.len(), 64 * 16 * 64);
    for k in [0usize, 1, 63, 64, 1024, 12345, 64 * 16 * 64 - 1] {
        assert_eq!(infos[k], frame.get_row_first_infos_primary(k, 100));
    }
    let full = frame.iter_infos(100);
    assert_eq!(full.len(), infos.len());
    assert_eq!(full[12345].channel_info[0].distance, infos[12345].distance);
    assert_eq!(full[12345].channel_info.len(), 2);
}
