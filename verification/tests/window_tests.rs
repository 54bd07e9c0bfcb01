use ouster_rs_ce::ValidWindow;

#[test]
fn wrapping_end_in_same() {
    let window = ValidWindow::new((2, 0), 1024, 16);
    assert_eq!(window.required_measurements, 1024 / 16);
}

#[test]
fn wrapping_without_packet_overlap() {
    let window = ValidWindow::new((16, 0), 1024, 16);
    assert_eq!(window.required_measurements, 1024 / 16);
}

#[test]
fn complete_cols_wrapping() {
    let res = ValidWindow::new((33, 15), 1024, 16).calc_complete_cols_aligned(&[-1, 1], 16);
    assert_eq!((8, ((15 + 1024 - 33) / 16) * 16), res);
}

#[test]
fn calc_17_remaining() {
    let res = ValidWindow::new((16, 159), 1024, 16).calc_complete_cols_aligned(&[-64, 63], 16);
    assert_eq!((64, 16), res);
}

#[test]
fn calc_33_remaining() {
    let res = ValidWindow::new((16, 160), 1024, 16).calc_complete_cols_aligned(&[-64, 63], 16);
    assert_eq!((64, 32), res);
}

#[test]
fn calc_32_remaining() {
    let res = ValidWindow::new((16, 160), 1024, 16).calc_complete_cols_aligned(&[-64, 64], 16);
    assert_eq!((64, 32), res);
}

#[test]
fn calc_complete_cols_evenly_aligned() {
    let res = ValidWindow::new((16, 160), 1024, 16).calc_complete_cols_aligned(&[-64, 60], 16);
    assert_eq!((66, 32), res);
}

#[test]
fn small_doesnt_panic() {
    let w = ValidWindow::new((0, 1), 1024, 13);
    assert_eq!((32, 0), w.calc_complete_cols_aligned(&[32; 128], 16));
}

#[test]
fn window_start_len_end() {
    let w = ValidWindow::new((16, 159), 1024, 16);
    assert_eq!(w.start(), 16);
    assert_eq!(w.len(), 144);
    assert_eq!(w.end(), 160);
    assert_eq!(w.start_measurement_id(), 1);
}

#[test]
fn wrapping_window_with_offset_start() {
    // a wrapped window whose start lies two slots past its end covers one
    // slot less than the full rotation
    let w = ValidWindow::new((32, 0), 1024, 16);
    assert_eq!(w.required_measurements, 63);
    assert_eq!(w.start_measurement_id, 2);
    assert_eq!(w.measurements_per_frame, 64);
}
