//! The layout of the histogram trace image: one row per analysed box, each
//! row holding a square copy of the box followed by its histogram, with
//! `256` bars of a fixed width.

use vstd::prelude::*;

use crate::geometry::IntRect;

verus! {

/// Number of bars drawn for one histogram.
pub const BARS: i32 = 256;

/// The state of a series: the row to fill next, the number of rows, the
/// height of a row and the width of one bar.
pub struct SeriesState {
    pub next: int,
    pub count: int,
    pub height: int,
    pub bar_width: int,
}

/// Rows of a trace image, filled one after the other from the top.
pub struct HistSeries {
    next: i32,
    count: i32,
    height: i32,
    bar_width: i32,
}

/// Why a series could not be set up.
#[derive(Clone, Copy, Debug, PartialEq, Eq, Structural)]
pub enum SeriesError {
    /// The canvas would have a negative number of rows or columns.
    NegativeCanvas,
}

impl View for HistSeries {
    type V = SeriesState;

    closed spec fn view(&self) -> SeriesState {
        SeriesState {
            next: self.next as int,
            count: self.count as int,
            height: self.height as int,
            bar_width: self.bar_width as int,
        }
    }
}

/// Rows of the canvas: one row of `height` pixels per histogram.
pub open spec fn canvas_rows(s: SeriesState) -> int {
    s.height * s.count
}

/// Columns of the canvas: the square copy of the box, then the bars.
pub open spec fn canvas_cols(s: SeriesState) -> int {
    s.height + s.bar_width * BARS
}

/// The value fits in an `i32`.
pub open spec fn in_i32(v: int) -> bool {
    i32::MIN <= v <= i32::MAX
}

/// A state every series keeps: its fields and the sizes derived from them
/// fit in an `i32`, the canvas has no negative dimension, and the next row
/// is one the canvas can hold or has just filled.
pub open spec fn series_valid(s: SeriesState) -> bool {
    &&& in_i32(s.count)
    &&& in_i32(s.height)
    &&& in_i32(s.bar_width)
    &&& in_i32(s.bar_width * BARS)
    &&& 0 <= s.next <= i32::MAX
    &&& 0 <= canvas_rows(s) <= i32::MAX
    &&& 0 <= canvas_cols(s) <= i32::MAX
    &&& s.height > 0 ==> s.next <= s.count
    &&& s.height < 0 ==> s.next == 0
}

/// A rectangle with corner `(x, y)` and size `w` by `h` lies within a canvas
/// of `rows` by `cols` pixels.
pub open spec fn rect_fits(x: int, y: int, w: int, h: int, rows: int, cols: int) -> bool {
    &&& 0 <= x
    &&& 0 <= w
    &&& x + w <= cols
    &&& 0 <= y
    &&& 0 <= h
    &&& y + h <= rows
}

/// Both rectangles of the next row, the copy of the box at the left edge
/// and the histogram right of it, lie within the canvas.
pub open spec fn slot_fits(s: SeriesState) -> bool {
    &&& rect_fits(0, s.next * s.height, s.height, s.height, canvas_rows(s), canvas_cols(s))
    &&& rect_fits(
        s.height,
        s.next * s.height,
        s.bar_width * BARS,
        s.height,
        canvas_rows(s),
        canvas_cols(s),
    )
}

/// Where the copy of the box of row `s.next` goes.
pub open spec fn source_slot(s: SeriesState) -> IntRect {
    IntRect {
        x: 0,
        y: (s.next * s.height) as i32,
        width: s.height as i32,
        height: s.height as i32,
    }
}

/// Where the histogram of row `s.next` goes, right of the copy of the box.
pub open spec fn histogram_slot(s: SeriesState) -> IntRect {
    IntRect {
        x: s.height as i32,
        y: (s.next * s.height) as i32,
        width: (s.bar_width * BARS) as i32,
        height: s.height as i32,
    }
}

/// The state after filling one row.
pub open spec fn advanced(s: SeriesState) -> SeriesState {
    SeriesState { next: s.next + 1, ..s }
}

/// The state after filling `k` rows.
pub open spec fn advanced_by(s: SeriesState, k: int) -> SeriesState {
    SeriesState { next: s.next + k, ..s }
}

/// The state of a series just set up.
pub open spec fn started(height: int, bar_width: int, count: int) -> SeriesState {
    SeriesState { next: 0, count, height, bar_width }
}

proof fn lemma_fits_row_below_count(next: int, count: int, height: int)
    requires
        0 < height,
        0 <= next,
    ensures
        (next * height + height <= height * count) <==> (next < count),
        0 <= next * height,
{
    assert((next * height + height <= height * count) <==> (next < count)) by (nonlinear_arith)
        requires
            0 < height,
    ;
    assert(0 <= next * height) by (nonlinear_arith)
        requires
            0 < height,
            0 <= next,
    ;
}

/// With a positive row height and non-negative bar width, the next row
/// fits exactly while rows are left.
pub proof fn law_slot_fits_iff_row_left(s: SeriesState)
    requires
        series_valid(s),
        s.height > 0,
        s.bar_width >= 0,
    ensures
        slot_fits(s) <==> s.next < s.count,
{
    lemma_fits_row_below_count(s.next, s.count, s.height);
}

/// Filling a row that fits keeps the series valid.
pub proof fn law_advance_keeps_valid(s: SeriesState)
    requires
        series_valid(s),
        slot_fits(s),
        s.next < i32::MAX,
    ensures
        series_valid(advanced(s)),
{
    if s.height > 0 {
        lemma_fits_row_below_count(s.next, s.count, s.height);
    }
}

/// A series set up with `count` rows of positive height holds exactly
/// `count` rows: after filling `k` rows, another row fits exactly when
/// `k < count`.
pub proof fn law_series_capacity(height: int, bar_width: int, count: int, k: int)
    requires
        0 < height,
        0 <= bar_width,
        0 <= count,
        height * count <= i32::MAX,
        height + bar_width * BARS <= i32::MAX,
        0 <= k,
    ensures
        slot_fits(advanced_by(started(height, bar_width, count), k)) <==> k < count,
{
    lemma_fits_row_below_count(k, count, height);
    assert(0 <= bar_width * BARS) by (nonlinear_arith)
        requires
            0 <= bar_width,
    ;
}

/// Rows are filled top to bottom without gaps: after filling a row, the
/// next row starts where the filled one ends, and each histogram sits
/// directly right of its box, at the same height.
pub proof fn law_rows_stack(s: SeriesState)
    requires
        series_valid(s),
        slot_fits(s),
    ensures
        (s.next + 1) * s.height == s.next * s.height + s.height,
        slot_fits(advanced(s)) ==> source_slot(advanced(s)).y == source_slot(s).y
            + source_slot(s).height,
        histogram_slot(s).x == source_slot(s).x + source_slot(s).width,
        histogram_slot(s).y == source_slot(s).y,
        histogram_slot(s).height == source_slot(s).height,
{
    assert((s.next + 1) * s.height == s.next * s.height + s.height) by (nonlinear_arith);
}

/// Distinct rows never overlap: a row filled earlier ends before a row
/// filled later begins.
pub proof fn law_rows_disjoint(s: SeriesState, t: SeriesState)
    requires
        slot_fits(s),
        slot_fits(t),
        s.height == t.height,
        s.next < t.next,
    ensures
        s.next * s.height + s.height <= t.next * t.height,
{
    assert(s.next * s.height + s.height <= t.next * s.height) by (nonlinear_arith)
        requires
            s.next < t.next,
            0 <= s.height,
    ;
}

proof fn lemma_i32_product_fits_i64(a: i32, b: i32)
    ensures
        -0x4000_0000_0000_0000 <= (a as int) * (b as int) <= 0x4000_0000_0000_0000,
{
    assert(-0x8000_0000 * 0x8000_0000 <= (a as int) * (b as int) <= 0x8000_0000 * 0x8000_0000)
        by (nonlinear_arith)
        requires
            -0x8000_0000 <= a <= 0x7fff_ffff,
            -0x8000_0000 <= b <= 0x7fff_ffff,
    ;
}

impl HistSeries {
    #[verifier::type_invariant]
    spec fn inv(self) -> bool {
        series_valid(self@)
    }

    /// Number of rows of the canvas.
    pub fn canvas_rows(&self) -> (r: i32)
        ensures
            r == canvas_rows(self@),
    {
        proof {
            use_type_invariant(self);
        }
        self.height * self.count
    }

    /// Number of columns of the canvas.
    pub fn canvas_cols(&self) -> (r: i32)
        ensures
            r == canvas_cols(self@),
    {
        proof {
            use_type_invariant(self);
        }
        self.height + self.bar_width * BARS
    }

    /// The row filled next; every series is in a valid state.
    pub fn next_row(&self) -> (r: i32)
        ensures
            r == self@.next,
            series_valid(self@),
    {
        proof {
            use_type_invariant(self);
        }
        self.next
    }

    /// The two rectangles of the next row, the copy of the box and its
    /// histogram, or `None` when they do not both lie within the canvas.
    pub fn slot(&self) -> (r: Option<(IntRect, IntRect)>)
        ensures
            r is Some <==> slot_fits(self@),
            r matches Some((src, hist)) ==> {
                &&& src == source_slot(self@)
                &&& hist == histogram_slot(self@)
                &&& src.inside(canvas_rows(self@), canvas_cols(self@))
                &&& hist.inside(canvas_rows(self@), canvas_cols(self@))
            },
    {
        proof {
            use_type_invariant(self);
            lemma_i32_product_fits_i64(self.next, self.height);
        }
        let rows: i64 = (self.height * self.count) as i64;
        let cols: i64 = (self.height + self.bar_width * BARS) as i64;
        let h: i64 = self.height as i64;
        let y: i64 = (self.next as i64) * h;
        let bars: i64 = (self.bar_width * BARS) as i64;
        let fits = 0 <= h && 0 <= y && y + h <= rows && h <= cols && 0 <= bars && h + bars <= cols;
        if !fits {
            return None;
        }
        let y32: i32 = y as i32;
        let src = IntRect { x: 0, y: y32, width: self.height, height: self.height };
        let hist = IntRect { x: self.height, y: y32, width: self.bar_width * BARS, height: self.height };
        Some((src, hist))
    }

    /// Moves on to the following row, once the current one is filled.
    pub fn advance(&mut self)
        requires
            slot_fits(old(self)@),
            old(self)@.next < i32::MAX,
        ensures
            final(self)@ == advanced(old(self)@),
    {
        proof {
            use_type_invariant(&*self);
            law_advance_keeps_valid(self@);
        }
        self.next = self.next + 1;
    }
}

/// Sets up a series of `histogram_count` rows of `histogram_height` pixels,
/// each with bars `bar_width` pixels wide; the first row is filled first.
/// The canvas has `histogram_height * histogram_count` rows and
/// `histogram_height + 256 * bar_width` columns; neither may be negative.
pub fn startup_hist_serie(histogram_height: i32, bar_width: i32, histogram_count: i32) -> (r: Result<
    HistSeries,
    SeriesError,
>)
    requires
        in_i32((histogram_height as int) * (histogram_count as int)),
        in_i32((bar_width as int) * 256),
        in_i32(histogram_height + (bar_width as int) * 256),
    ensures
        r is Err <==> ((histogram_height as int) * (histogram_count as int) < 0 || histogram_height
            + (bar_width as int) * 256 < 0),
        r matches Err(e) ==> e == SeriesError::NegativeCanvas,
        r matches Ok(s) ==> s@ == started(
            histogram_height as int,
            bar_width as int,
            histogram_count as int,
        ),
{
    let rows = histogram_height * histogram_count;
    let cols = histogram_height + bar_width * BARS;
    if rows < 0 || cols < 0 {
        return Err(SeriesError::NegativeCanvas);
    }
    proof {
        if histogram_height > 0 {
            assert(histogram_count >= 0) by (nonlinear_arith)
                requires
                    histogram_height > 0,
                    (histogram_height as int) * (histogram_count as int) >= 0,
            ;
        }
    }
    Ok(HistSeries { next: 0, count: histogram_count, height: histogram_height, bar_width })
}

} // verus!
