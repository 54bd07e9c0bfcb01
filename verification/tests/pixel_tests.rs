use ouster_rs_ce::PixelPositionIterator;

fn collect_positions(mut it: PixelPositionIterator) -> Vec<(usize, usize)> {
    let mut out = Vec::new();
    while let Some(p) = it.next() {
        out.push(p);
    }
    out
}

#[test]
fn fill_all_fields() {
    let iter = PixelPositionIterator::new(&[1, -1, 3], 4);

    let mut data = [0; 12];
    for (col, row) in collect_positions(iter) {
        data[row + col * 3] = 1;
    }
    assert!(data.iter().all(|&x| x == 1), "{data:?}");
}

#[test]
fn simple() {
    let iter = PixelPositionIterator::new(&[1, -1], 3);

    assert_eq!(
        vec![(1, 0), (2, 1), (2, 0), (0, 1), (0, 0), (1, 1)],
        collect_positions(iter)
    );
}

#[test]
fn upper_overflow() {
    let iter = PixelPositionIterator::new(&[1], 3);

    assert_eq!(vec![(1, 0), (2, 0), (0, 0)], collect_positions(iter));
}

#[test]
fn col_len_zero_returns_empty_iterator() {
    assert_eq!(0, collect_positions(PixelPositionIterator::new(&[1], 0)).len());
}

#[test]
fn no_rows_returns_empty_iterator() {
    assert_eq!(0, collect_positions(PixelPositionIterator::new(&[], 5)).len());
}

#[test]
fn yields_each_pair_once() {
    let iter = PixelPositionIterator::new(&[-2, 7, 1, 0], 9);
    let got = collect_positions(iter);
    assert_eq!(got.len(), 9 * 4);
    for (i, a) in got.iter().enumerate() {
        assert!(a.0 < 9 && a.1 < 4);
        for b in got[i + 1..].iter() {
            assert_ne!(a, b);
        }
    }
}

#[test]
fn large_negative_shift_wraps() {
    // a shift larger than the window still wraps into range
    let got = collect_positions(PixelPositionIterator::new(&[-7], 3));
    assert_eq!(vec![(2, 0), (0, 0), (1, 0)], got);
}
