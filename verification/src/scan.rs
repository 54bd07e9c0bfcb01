use vstd::prelude::*;
use crate::valid_window::ValidWindow;

verus! {

/// The `(column, layer)` position of the `k`-th point of a scan that starts
/// at column `start` and has `layers` beams: layers iterate fastest.
pub open spec fn spec_scan_position(start: int, layers: int, k: int) -> (int, int)
    recommends
        layers >= 1,
        0 <= k,
{
    (start + k / layers, k % layers)
}

/// Walks the `(column, layer)` positions of one frame's scan in emission
/// order: all layers of a column, then the next column of the window.
#[derive(Clone, Copy, PartialEq, Eq, Structural, Debug)]
pub struct ScanPositionIterator {
    start: usize,
    col: usize,
    layer: usize,
    layers: usize,
    end: usize,
}

impl ScanPositionIterator {
    pub closed spec fn spec_start(&self) -> int {
        self.start as int
    }

    pub closed spec fn spec_layers(&self) -> int {
        self.layers as int
    }

    /// Number of positions the walk yields in all.
    pub open spec fn spec_total(&self) -> int {
        self.spec_cols() * self.spec_layers()
    }

    /// Number of columns of the window.
    pub closed spec fn spec_cols(&self) -> int {
        self.end - self.start
    }

    /// Number of positions already yielded.
    pub closed spec fn spec_emitted(&self) -> int {
        (self.col - self.start) * self.layers + self.layer
    }

    pub closed spec fn wf(&self) -> bool {
        &&& self.layers >= 1
        &&& self.start <= self.col <= self.end
        &&& self.end <= 0x80000
        &&& (self.layer < self.layers && self.col < self.end) || (self.col == self.end
            && self.layer == 0)
    }

    /// A fresh scan over the columns of `window` with `layers` beams per
    /// column. It yields exactly `window.len() * layers` positions.
    pub fn new(window: &ValidWindow, layers: u16) -> (r: ScanPositionIterator)
        requires
            window.wf(),
            layers >= 1,
        ensures
            r.wf(),
            r.spec_layers() == layers,
            r.spec_start() == window.start_measurement_id as int
                * window.columns_per_packet as int,
            r.spec_cols() == window.required_measurements as int
                * window.columns_per_packet as int,
            r.spec_total() == window.required_measurements as int
                * window.columns_per_packet as int * layers,
            r.spec_emitted() == 0,
    {
        let start = window.start();
        let end = window.end();
        let col = if start == end {
            end
        } else {
            start
        };
        let r = ScanPositionIterator { start, col, layer: 0, layers: layers as usize, end };
        proof {
            let s = window.start_measurement_id as int;
            let q = window.required_measurements as int;
            let cc = window.columns_per_packet as int;
            assert((s + q) * cc == s * cc + q * cc) by (nonlinear_arith);
            assert((r.col - r.start) * r.layers == 0) by (nonlinear_arith)
                requires
                    r.col == r.start,
            ;
        }
        r
    }

    /// The next `(column, layer)` position, the `k`-th being
    /// `spec_scan_position(spec_start(), spec_layers(), k)`.
    pub fn next(&mut self) -> (r: Option<(usize, usize)>)
        requires
            old(self).wf(),
        ensures
            final(self).wf(),
            final(self).spec_start() == old(self).spec_start(),
            final(self).spec_layers() == old(self).spec_layers(),
            final(self).spec_cols() == old(self).spec_cols(),
            match r {
                Some(p) => {
                    &&& old(self).spec_emitted() < old(self).spec_total()
                    &&& (p.0 as int, p.1 as int) == spec_scan_position(
                        old(self).spec_start(),
                        old(self).spec_layers(),
                        old(self).spec_emitted(),
                    )
                    &&& final(self).spec_emitted() == old(self).spec_emitted() + 1
                },
                None => {
                    &&& old(self).spec_emitted() == old(self).spec_total()
                    &&& final(self).spec_emitted() == old(self).spec_emitted()
                },
            },
    {
        if self.layer < self.layers && self.col < self.end {
            let ghost k = self.spec_emitted();
            let ghost nn = self.layers as int;
            proof {
                vstd::arithmetic::div_mod::lemma_fundamental_div_mod_converse(
                    k,
                    nn,
                    self.col - self.start,
                    self.layer as int,
                );
                assert((self.col - self.start) * nn + self.layer < (self.end - self.start) * nn)
                    by (nonlinear_arith)
                    requires
                        self.col < self.end,
                        self.layer < nn,
                        nn >= 1,
                ;
            }
            let col = self.col;
            let layer = self.layer;
            self.layer = self.layer + 1;
            if self.layer == self.layers {
                self.layer = 0;
                self.col = self.col + 1;
                proof {
                    assert((self.col - self.start) * nn == (self.col - 1 - self.start) * nn + nn)
                        by (nonlinear_arith);
                }
            }
            Some((col, layer))
        } else {
            None
        }
    }
}

/// A full scan of a window yields exactly `window.len() * layers` points:
/// one per layer of each column of the window.
pub proof fn lemma_scan_position_count(it: ScanPositionIterator, window: ValidWindow, layers: u16)
    requires
        window.wf(),
        layers >= 1,
        it.spec_layers() == layers,
        it.spec_cols() == window.required_measurements as int * window.columns_per_packet as int,
    ensures
        it.spec_total() == window.required_measurements as int * window.columns_per_packet as int
            * layers,
{
}

} // verus!
