use vstd::prelude::*;
use vstd::arithmetic::div_mod::{
    lemma_fundamental_div_mod, lemma_div_is_ordered, lemma_div_nonincreasing, lemma_mod_bound,
};

verus! {

/// Number of packet slots needed to cover the inclusive column window
/// `[column_from, column_to]` of a rotation of `columns_per_frame` columns,
/// when each packet carries `columns_per_packet` consecutive columns.
/// A window with `column_from > column_to` wraps around the end of the
/// rotation.
pub open spec fn spec_required_measurements(
    column_from: u16,
    column_to: u16,
    columns_per_frame: u16,
    columns_per_packet: u16,
) -> int
    recommends
        columns_per_packet >= 1,
{
    let start = column_from as int / columns_per_packet as int;
    let end = column_to as int / columns_per_packet as int;
    let wrap = if column_from > column_to {
        columns_per_frame as int / columns_per_packet as int
    } else {
        0
    };
    let distinct: int = if start == end {
        0
    } else {
        1
    };
    end + wrap + distinct - start
}

/// A validated azimuth column window, measured in packet slots.
#[derive(Clone, Copy, PartialEq, Eq, Structural, Debug)]
pub struct ValidWindow {
    pub start_measurement_id: u16,
    pub required_measurements: usize,
    pub measurements_per_frame: u16,
    pub columns_per_packet: u16,
}

impl ValidWindow {
    /// Bounds that every constructed window satisfies; they keep the
    /// column arithmetic of `start`, `len` and `end` inside `usize`.
    pub open spec fn wf(&self) -> bool {
        &&& self.columns_per_packet >= 1
        &&& (self.start_measurement_id as int + self.required_measurements as int)
            * self.columns_per_packet as int <= 0x40000
    }

    pub fn new(
        column_window: (u16, u16),
        columns_per_frame: u16,
        columns_per_packet: u16,
    ) -> (r: ValidWindow)
        requires
            columns_per_packet >= 1,
            column_window.0 < columns_per_frame,
            column_window.1 < columns_per_frame,
        ensures
            r.wf(),
            r.columns_per_packet == columns_per_packet,
            r.start_measurement_id == column_window.0 as int / columns_per_packet as int,
            r.measurements_per_frame == columns_per_frame as int / columns_per_packet as int,
            r.required_measurements == spec_required_measurements(
                column_window.0,
                column_window.1,
                columns_per_frame,
                columns_per_packet,
            ),
    {
        let (column_from, column_to) = column_window;
        let c = columns_per_packet as usize;
        let start_measurement_id = column_from as usize / c;
        let end_measurement_id = column_to as usize / c;

        proof {
            let cc = columns_per_packet as int;
            lemma_div_nonincreasing(column_from as int, cc);
            lemma_div_nonincreasing(column_to as int, cc);
            lemma_div_nonincreasing(columns_per_frame as int, cc);
            lemma_div_is_ordered(column_from as int, columns_per_frame as int, cc);
            if column_from <= column_to {
                lemma_div_is_ordered(column_from as int, column_to as int, cc);
            }
        }

        let wrap: usize = if column_from > column_to {
            columns_per_frame as usize / c
        } else {
            0
        };
        let distinct: usize = if start_measurement_id == end_measurement_id {
            0
        } else {
            1
        };
        let required_measurements = end_measurement_id + wrap + distinct - start_measurement_id;

        proof {
            let cc = columns_per_packet as int;
            let s = start_measurement_id as int;
            let e = end_measurement_id as int;
            let w = wrap as int;
            let d = distinct as int;
            let r = required_measurements as int;
            lemma_fundamental_div_mod(column_from as int, cc);
            lemma_fundamental_div_mod(column_to as int, cc);
            lemma_fundamental_div_mod(columns_per_frame as int, cc);
            lemma_mod_bound(column_from as int, cc);
            lemma_mod_bound(column_to as int, cc);
            lemma_mod_bound(columns_per_frame as int, cc);
            assert(cc * e <= column_to as int);
            assert(cc * (columns_per_frame as int / cc) <= columns_per_frame as int);
            assert((s + r) * cc == cc * e + cc * w + cc * d) by (nonlinear_arith)
                requires
                    r == e + w + d - s,
            ;
            if column_from > column_to {
                assert(cc * w <= columns_per_frame as int);
            } else {
                assert(cc * w == 0) by (nonlinear_arith)
                    requires
                        w == 0,
                ;
            }
            if distinct == 1 {
                assert(cc * d == cc) by (nonlinear_arith)
                    requires
                        d == 1,
                ;
            } else {
                assert(cc * d == 0) by (nonlinear_arith)
                    requires
                        d == 0,
                ;
            }
        }

        ValidWindow {
            start_measurement_id: column_from / columns_per_packet,
            required_measurements,
            measurements_per_frame: columns_per_frame / columns_per_packet,
            columns_per_packet,
        }
    }

    pub fn start_measurement_id(&self) -> (r: u16)
        ensures
            r == self.start_measurement_id,
    {
        self.start_measurement_id
    }

    /// First column of the window.
    pub fn start(&self) -> (r: usize)
        requires
            self.wf(),
        ensures
            r == self.start_measurement_id as int * self.columns_per_packet as int,
    {
        proof {
            assert(self.start_measurement_id as int * self.columns_per_packet as int
                <= (self.start_measurement_id as int + self.required_measurements as int)
                    * self.columns_per_packet as int) by (nonlinear_arith)
                requires
                    self.required_measurements >= 0,
                    self.columns_per_packet >= 1,
            ;
        }
        self.start_measurement_id as usize * self.columns_per_packet as usize
    }

    /// Width of the window in columns.
    pub fn len(&self) -> (r: usize)
        requires
            self.wf(),
        ensures
            r == self.required_measurements as int * self.columns_per_packet as int,
    {
        proof {
            assert(self.required_measurements as int * self.columns_per_packet as int
                <= (self.start_measurement_id as int + self.required_measurements as int)
                    * self.columns_per_packet as int) by (nonlinear_arith)
                requires
                    self.start_measurement_id >= 0,
                    self.required_measurements >= 0,
                    self.columns_per_packet >= 1,
            ;
        }
        self.required_measurements * self.columns_per_packet as usize
    }

    /// One past the last column of the window (before wrap-around).
    pub fn end(&self) -> (r: usize)
        requires
            self.wf(),
        ensures
            r == (self.start_measurement_id as int + self.required_measurements as int)
                * self.columns_per_packet as int,
    {
        proof {
            let s = self.start_measurement_id as int;
            let q = self.required_measurements as int;
            let cc = self.columns_per_packet as int;
            assert((s + q) * cc == s * cc + q * cc) by (nonlinear_arith);
        }
        self.start() + self.len()
    }
}

/// Smallest value of a non-empty sequence of row shifts.
pub open spec fn spec_shift_min(s: Seq<i8>) -> int
    recommends
        s.len() >= 1,
    decreases s.len(),
{
    if s.len() <= 1 {
        s[0] as int
    } else {
        let rest = spec_shift_min(s.drop_last());
        let last = s[s.len() - 1] as int;
        if last <= rest {
            last
        } else {
            rest
        }
    }
}

/// Largest value of a non-empty sequence of row shifts.
pub open spec fn spec_shift_max(s: Seq<i8>) -> int
    recommends
        s.len() >= 1,
    decreases s.len(),
{
    if s.len() <= 1 {
        s[0] as int
    } else {
        let rest = spec_shift_max(s.drop_last());
        let last = s[s.len() - 1] as int;
        if last >= rest {
            last
        } else {
            rest
        }
    }
}

/// Columns that remain usable after trimming `|min(shifts)|` columns at the
/// start and `max(shifts)` at the end of a window of `len` columns, with the
/// remaining width rounded down to a multiple of `alignment` and the rounding
/// slack split evenly: returns `(skip_first, take)`.
pub open spec fn spec_complete_cols(len: int, shifts: Seq<i8>, alignment: int) -> (int, int)
    recommends
        shifts.len() >= 1,
        alignment >= 1,
{
    let mn = spec_shift_min(shifts);
    let mx = spec_shift_max(shifts);
    let cut_start = if mn < 0 {
        -mn
    } else {
        mn
    };
    let cut_len = {
        let after_end = if mx < 0 || len < mx {
            0
        } else {
            len - mx
        };
        if after_end < cut_start {
            0
        } else {
            after_end - cut_start
        }
    };
    let modulo = cut_len % alignment;
    (cut_start + modulo / 2, cut_len - modulo)
}

impl ValidWindow {
    /// `(skip_first, take)` of the columns of this window that stay usable
    /// under the per-row azimuth shifts, aligned to `alignment` columns.
    pub fn calc_complete_cols_aligned(&self, pixel_shift_by_row: &[i8], alignment: usize) -> (r: (
        usize,
        usize,
    ))
        requires
            self.wf(),
            pixel_shift_by_row@.len() >= 1,
            alignment >= 1,
        ensures
            ({
                let (skip, take) = spec_complete_cols(
                    self.required_measurements as int * self.columns_per_packet as int,
                    pixel_shift_by_row@,
                    alignment as int,
                );
                r.0 == skip && r.1 == take
            }),
    {
        let n = pixel_shift_by_row.len();
        let mut mn: i8 = pixel_shift_by_row[0];
        let mut mx: i8 = pixel_shift_by_row[0];
        let mut i: usize = 1;
        while i < n
            invariant
                1 <= i <= n,
                n == pixel_shift_by_row@.len(),
                mn as int == spec_shift_min(pixel_shift_by_row@.take(i as int)),
                mx as int == spec_shift_max(pixel_shift_by_row@.take(i as int)),
            decreases n - i,
        {
            let v = pixel_shift_by_row[i];
            proof {
                assert(pixel_shift_by_row@.take(i + 1).drop_last() =~= pixel_shift_by_row@.take(
                    i as int,
                ));
                assert(pixel_shift_by_row@.take(i + 1)[i as int] == pixel_shift_by_row@[i as int]);
            }
            if v < mn {
                mn = v;
            }
            if v > mx {
                mx = v;
            }
            i = i + 1;
        }
        proof {
            assert(pixel_shift_by_row@.take(n as int) =~= pixel_shift_by_row@);
        }

        let cut_start: usize = if mn < 0 {
            (-(mn as i32)) as usize
        } else {
            mn as usize
        };
        let cut_len: usize = if mx < 0 {
            0
        } else {
            self.len().saturating_sub(mx as usize).saturating_sub(cut_start)
        };
        let modulo = cut_len % alignment;
        proof {
            vstd::arithmetic::div_mod::lemma_mod_decreases(cut_len as nat, alignment as nat);
        }
        let modulo_half = modulo / 2;

        let skip_first = cut_start + modulo_half;
        let take = cut_len - modulo;
        (skip_first, take)
    }
}

/// A fully wrapping window needs one packet slot per `columns_per_packet`
/// columns of the rotation. This holds whenever the wrapped window starts
/// in the packet slot of its end column or in the one right after it; a
/// window such as `(32, 0)` with 16 columns per packet starts two slots
/// past its end and covers one slot less than the full rotation.
pub proof fn lemma_wrapping_window_covers_frame(
    column_from: u16,
    column_to: u16,
    columns_per_frame: u16,
    columns_per_packet: u16,
)
    requires
        columns_per_packet >= 1,
        column_from < columns_per_frame,
        column_to < columns_per_frame,
        column_from > column_to,
        column_from as int / columns_per_packet as int
            <= column_to as int / columns_per_packet as int + 1,
    ensures
        spec_required_measurements(column_from, column_to, columns_per_frame, columns_per_packet)
            == columns_per_frame as int / columns_per_packet as int,
{
    let cc = columns_per_packet as int;
    let start = column_from as int / cc;
    let end = column_to as int / cc;
    lemma_div_is_ordered(column_to as int, column_from as int, cc);
    assert(end <= start);
}

} // verus!
