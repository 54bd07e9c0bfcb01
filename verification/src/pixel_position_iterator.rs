use vstd::prelude::*;
use vstd::arithmetic::div_mod::{
    lemma_fundamental_div_mod, lemma_fundamental_div_mod_converse, lemma_mod_bound,
    lemma_mod_multiples_vanish, lemma_multiply_divide_lt, lemma_small_mod,
};
use vstd::slice::slice_to_vec;
use crate::config::ValidLidarDataFormat;

verus! {

/// The pair `(column_out, row)` that the `k`-th step of the pixel walk
/// yields: rows iterate fastest, and the emitted column is the input column
/// shifted by the row's azimuth correction, wrapped into `[0, col_len)`.
pub open spec fn spec_pixel_position(shifts: Seq<i8>, col_len: int, k: int) -> (int, int)
    recommends
        col_len >= 1,
        shifts.len() >= 1,
        0 <= k,
{
    let row = k % shifts.len() as int;
    let col = k / shifts.len() as int;
    ((col + shifts[row]) % col_len, row)
}

/// Shift a column by a row correction, wrapping into `[0, col_len)`.
fn wrap_col(col: usize, shift: i8, col_len: usize) -> (r: usize)
    requires
        1 <= col_len <= 0x4000_0000,
        col < col_len,
    ensures
        r as int == (col + shift) % (col_len as int),
        r < col_len,
{
    let m = col_len;
    if shift >= 0 {
        let s = shift as usize;
        proof {
            lemma_mod_bound(col as int + shift, m as int);
        }
        (col + s) % m
    } else {
        let d = (-(shift as i32)) as usize;
        let dm = d % m;
        proof {
            lemma_fundamental_div_mod(d as int, m as int);
            lemma_mod_bound(d as int, m as int);
            // col - d differs from col - dm by a multiple of m
            let q = d as int / m as int;
            lemma_mod_multiples_vanish(-q, col - dm, m as int);
            assert((m as int) * (-q) + (col - dm) == col - d) by (nonlinear_arith)
                requires
                    d == (m as int) * q + dm,
            ;
            if col >= dm {
                lemma_small_mod((col - dm) as nat, m as nat);
            } else {
                lemma_mod_multiples_vanish(-1, col + m - dm, m as int);
                lemma_small_mod((col + m - dm) as nat, m as nat);
                assert((m as int) * (-1) + (col + m - dm) == col - dm) by (nonlinear_arith);
            }
        }
        if col >= dm {
            col - dm
        } else {
            col + m - dm
        }
    }
}

/// Walks the output pixel positions of one frame: for each input column of
/// the window and each row, the destination `(column_out, row)` after the
/// per-row azimuth shift.
pub struct PixelPositionIterator {
    pixel_shifts: Vec<i8>,
    col: usize,
    row: usize,
    col_len: usize,
}

impl PixelPositionIterator {
    pub closed spec fn spec_shifts(&self) -> Seq<i8> {
        self.pixel_shifts@
    }

    pub closed spec fn spec_col_len(&self) -> int {
        self.col_len as int
    }

    /// Number of pairs the iterator yields in all.
    pub open spec fn spec_total(&self) -> int {
        self.spec_col_len() * self.spec_shifts().len()
    }

    /// Number of pairs already yielded.
    pub closed spec fn spec_emitted(&self) -> int {
        self.col * self.spec_shifts().len() + self.row
    }

    pub closed spec fn wf(&self) -> bool {
        &&& self.col_len <= 0x4000_0000
        &&& (self.row < self.pixel_shifts@.len() && self.col < self.col_len) || (self.col
            == self.col_len && self.row == 0)
    }

    /// A fresh walk over `col_len` columns with the given per-row shifts.
    /// With no rows or no columns it yields nothing.
    pub fn new(pixel_shifts: &[i8], col_len: usize) -> (r: PixelPositionIterator)
        requires
            col_len <= 0x4000_0000,
        ensures
            r.wf(),
            r.spec_shifts() == pixel_shifts@,
            r.spec_col_len() == col_len,
            r.spec_emitted() == 0,
    {
        let shifts: Vec<i8> = slice_to_vec(pixel_shifts);
        let col: usize = if shifts.len() == 0 {
            col_len
        } else {
            0
        };
        let r = PixelPositionIterator { pixel_shifts: shifts, col, row: 0, col_len };
        proof {
            assert(r.spec_emitted() == r.col * r.spec_shifts().len() + 0);
            if pixel_shifts@.len() == 0 {
                assert(r.col as int * r.spec_shifts().len() == 0) by (nonlinear_arith)
                    requires
                        r.spec_shifts().len() == 0,
                ;
            }
        }
        r
    }

    /// The walk over a validated data format: one pair per column of its
    /// window and per row of its shift table.
    pub fn from_config(config: &ValidLidarDataFormat) -> (r: PixelPositionIterator)
        requires
            config.column_window.wf(),
        ensures
            r.wf(),
            r.spec_shifts() == config.pixel_shift_by_row@,
            r.spec_col_len() == config.column_window.required_measurements as int
                * config.column_window.columns_per_packet as int,
            r.spec_emitted() == 0,
    {
        let window = &config.column_window;
        proof {
            assert(window.required_measurements as int * window.columns_per_packet as int
                <= (window.start_measurement_id as int + window.required_measurements as int)
                    * window.columns_per_packet as int) by (nonlinear_arith)
                requires
                    window.start_measurement_id >= 0,
                    window.required_measurements >= 0,
                    window.columns_per_packet >= 0,
            ;
        }
        PixelPositionIterator::new(config.pixel_shift_by_row.as_slice(), window.len())
    }

    /// The next `(column_out, row)` pair. Yields exactly
    /// `spec_col_len() * spec_shifts().len()` pairs, the `k`-th being
    /// `spec_pixel_position(shifts, col_len, k)`.
    pub fn next(&mut self) -> (r: Option<(usize, usize)>)
        requires
            old(self).wf(),
        ensures
            final(self).wf(),
            final(self).spec_shifts() == old(self).spec_shifts(),
            final(self).spec_col_len() == old(self).spec_col_len(),
            match r {
                Some(p) => {
                    &&& old(self).spec_emitted() < old(self).spec_total()
                    &&& (p.0 as int, p.1 as int) == spec_pixel_position(
                        old(self).spec_shifts(),
                        old(self).spec_col_len(),
                        old(self).spec_emitted(),
                    )
                    &&& final(self).spec_emitted() == old(self).spec_emitted() + 1
                },
                None => {
                    &&& old(self).spec_emitted() == old(self).spec_total()
                    &&& final(self).spec_emitted() == old(self).spec_emitted()
                },
            },
    {
        let n = self.pixel_shifts.len();
        if self.row < n && self.col < self.col_len {
            let ghost k = self.spec_emitted();
            let ghost nn = n as int;
            proof {
                // the emitted index decomposes into this column and row
                vstd::arithmetic::div_mod::lemma_fundamental_div_mod_converse(
                    k,
                    nn,
                    self.col as int,
                    self.row as int,
                );
                assert(self.col as int * nn + self.row < self.col_len as int * nn)
                    by (nonlinear_arith)
                    requires
                        self.col < self.col_len,
                        self.row < nn,
                        nn >= 1,
                ;
            }
            let offset = self.pixel_shifts[self.row];
            let c = wrap_col(self.col, offset, self.col_len);
            let row = self.row;
            self.row = self.row + 1;
            if self.row == n {
                self.row = 0;
                self.col = self.col + 1;
                proof {
                    assert((self.col) * nn == (self.col - 1) * nn + nn) by (nonlinear_arith);
                }
            }
            Some((c, row))
        } else {
            proof {
                if self.pixel_shifts@.len() == 0 {
                    assert(self.spec_emitted() == self.spec_total()) by (nonlinear_arith)
                        requires
                            self.spec_emitted() == self.col * self.spec_shifts().len()
                                + self.row,
                            self.spec_total() == self.spec_col_len()
                                * self.spec_shifts().len(),
                            self.spec_shifts().len() == 0,
                            self.row == 0,
                    ;
                }
            }
            None
        }
    }
}

/// Every pair of the pixel walk appears only once: two different step
/// indices of a full walk yield two different `(column_out, row)` pairs.
/// Together with the count stated by `PixelPositionIterator::next`, the walk
/// covers `col_len * shifts.len()` distinct pairs exactly once.
pub proof fn lemma_pixel_positions_distinct(shifts: Seq<i8>, col_len: int, k1: int, k2: int)
    requires
        col_len >= 1,
        shifts.len() >= 1,
        0 <= k1 < col_len * shifts.len(),
        0 <= k2 < col_len * shifts.len(),
        k1 != k2,
    ensures
        spec_pixel_position(shifts, col_len, k1) != spec_pixel_position(shifts, col_len, k2),
{
    let n = shifts.len() as int;
    let r1 = k1 % n;
    let r2 = k2 % n;
    let c1 = k1 / n;
    let c2 = k2 / n;
    lemma_mod_bound(k1, n);
    lemma_mod_bound(k2, n);
    lemma_fundamental_div_mod(k1, n);
    lemma_fundamental_div_mod(k2, n);
    if r1 == r2 {
        assert(c1 != c2);
        assert(k1 < n * col_len && k2 < n * col_len) by (nonlinear_arith)
            requires
                k1 < col_len * n,
                k2 < col_len * n,
        ;
        lemma_multiply_divide_lt(k1, n, col_len);
        lemma_multiply_divide_lt(k2, n, col_len);
        let s = shifts[r1] as int;
        let v1 = (c1 + s) % col_len;
        let v2 = (c2 + s) % col_len;
        lemma_mod_bound(c1 + s, col_len);
        lemma_mod_bound(c2 + s, col_len);
        lemma_fundamental_div_mod(c1 + s, col_len);
        lemma_fundamental_div_mod(c2 + s, col_len);
        if v1 == v2 {
            let q1 = (c1 + s) / col_len;
            let q2 = (c2 + s) / col_len;
            assert(c1 - c2 == col_len * (q1 - q2)) by (nonlinear_arith)
                requires
                    c1 + s == col_len * q1 + v1,
                    c2 + s == col_len * q2 + v2,
                    v1 == v2,
            ;
            assert(false) by (nonlinear_arith)
                requires
                    c1 - c2 == col_len * (q1 - q2),
                    c1 != c2,
                    0 <= c1 < col_len,
                    0 <= c2 < col_len,
            ;
        }
    }
}

} // verus!
