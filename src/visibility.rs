use vstd::arithmetic::div_mod::{
    lemma_div_is_ordered, lemma_div_multiples_vanish,
    lemma_fundamental_div_mod, lemma_fundamental_div_mod_converse_div,
    lemma_fundamental_div_mod_converse_mod, lemma_mod_multiples_basic,
};
use vstd::prelude::*;

verus! {

/// An inclusive range of indices `[start, end]`.
#[derive(Debug, Clone, Copy, PartialEq, Eq, Structural)]
pub struct BoundedRange {
    pub start: usize,
    pub end: usize,
}

impl BoundedRange {
    pub fn contains(&self, value: usize) -> (r: bool)
        ensures
            r == (self.start <= value && value <= self.end),
    {
        (self.start <= value) && (value <= self.end)
    }
}

/// The size of a viewport, in whole pixels.
#[derive(Debug, Clone, Copy, PartialEq, Eq, Structural)]
pub struct Size {
    pub width: u32,
    pub height: u32,
}

/// A normalised vertical scroll position `numerator / denominator`:
/// zero is the top of the content and one is the bottom.
#[derive(Debug, Clone, Copy, PartialEq, Eq, Structural)]
pub struct RelativeOffset {
    pub numerator: u32,
    pub denominator: u32,
}

impl RelativeOffset {
    pub open spec fn wf(self) -> bool {
        0 < self.denominator && self.numerator <= self.denominator
    }

    /// The top of the content.
    pub fn start() -> (r: RelativeOffset)
        ensures
            r.wf(),
            r == (RelativeOffset { numerator: 0, denominator: 1 }),
    {
        RelativeOffset { numerator: 0, denominator: 1 }
    }

    /// The bottom of the content.
    pub fn end() -> (r: RelativeOffset)
        ensures
            r.wf(),
            r == (RelativeOffset { numerator: 1, denominator: 1 }),
    {
        RelativeOffset { numerator: 1, denominator: 1 }
    }
}

/// How far the top of the viewport can travel, in pixels: the content's
/// height less the viewport's, or nothing when the content is shorter.
pub open spec fn scroll_span(len: int, element_height: int, height: int) -> int {
    if len * element_height > height {
        len * element_height - height
    } else {
        0
    }
}

pub open spec fn min(a: int, b: int) -> int {
    if a < b {
        a
    } else {
        b
    }
}

/// The row under the top edge of the viewport: `floor(span * offset)` in rows,
/// never past the last row.
pub open spec fn first_row(len: int, element_height: int, height: int, num: int, den: int) -> int {
    min(scroll_span(len, element_height, height) * num / (element_height * den), len - 1)
}

/// The row under the bottom edge of the viewport: the unrounded top plus the
/// viewport's height in rows, rounded down and never past the last row.
pub open spec fn last_row(len: int, element_height: int, height: int, num: int, den: int) -> int {
    min(
        (scroll_span(len, element_height, height) * num + height * den) / (element_height * den),
        len - 1,
    )
}

/// The number of whole or partial rows that the viewport can show at once.
pub open spec fn rows_in_view(element_height: int, height: int) -> int {
    (height + element_height - 1) / element_height
}

/// The number of rows that `len` tiles take in `n_columns` columns; a
/// trailing partial row counts as a row.
pub open spec fn tile_rows(n_columns: int, len: int) -> int {
    (len + n_columns - 1) / n_columns
}

pub open spec fn tile_start(
    n_columns: int,
    len: int,
    element_height: int,
    height: int,
    num: int,
    den: int,
) -> int {
    first_row(tile_rows(n_columns, len), element_height, height, num, den) * n_columns
}

pub open spec fn tile_end(
    n_columns: int,
    len: int,
    element_height: int,
    height: int,
    num: int,
    den: int,
) -> int {
    min(
        (last_row(tile_rows(n_columns, len), element_height, height, num, den) + 1) * n_columns - 1,
        len - 1,
    )
}

/// The rows of `len` rows, each `element_height` pixels high, that a viewport
/// of `widget_size` scrolled to `offset` shows.
pub fn visible_rows(
    len: usize,
    element_height: u16,
    widget_size: Size,
    offset: RelativeOffset,
) -> (r: BoundedRange)
    requires
        len > 0,
        element_height > 0,
        offset.wf(),
    ensures
        r.start == first_row(
            len as int,
            element_height as int,
            widget_size.height as int,
            offset.numerator as int,
            offset.denominator as int,
        ),
        r.end == last_row(
            len as int,
            element_height as int,
            widget_size.height as int,
            offset.numerator as int,
            offset.denominator as int,
        ),
        r.start <= r.end < len,
{
    let n = len as u128;
    let e = element_height as u128;
    let h = widget_size.height as u128;
    let p = offset.numerator as u128;
    let q = offset.denominator as u128;
    assert(n * e <= 0xffff_ffff_ffff_ffff * 0xffffu128) by (nonlinear_arith)
        requires
            n <= 0xffff_ffff_ffff_ffff,
            e <= 0xffff,
    ;
    let total = n * e;
    let span = if total > h {
        total - h
    } else {
        0
    };
    assert(span * p <= 0xffff_ffff_ffff_ffff * 0xffffu128 * 0xffff_ffffu128) by (nonlinear_arith)
        requires
            span <= 0xffff_ffff_ffff_ffff * 0xffffu128,
            p <= 0xffff_ffff,
    ;
    assert(h * q <= 0xffff_ffffu128 * 0xffff_ffffu128) by (nonlinear_arith)
        requires
            h <= 0xffff_ffff,
            q <= 0xffff_ffff,
    ;
    assert(0 < e * q <= 0xffffu128 * 0xffff_ffffu128) by (nonlinear_arith)
        requires
            0 < e <= 0xffff,
            0 < q <= 0xffff_ffff,
    ;
    let d = e * q;
    let top = span * p / d;
    let bottom = (span * p + h * q) / d;
    proof {
        lemma_div_is_ordered((span * p) as int, (span * p + h * q) as int, d as int);
    }
    let last = n - 1;
    let start = if top < last {
        top
    } else {
        last
    };
    let end = if bottom < last {
        bottom
    } else {
        last
    };
    BoundedRange { start: start as usize, end: end as usize }
}

/// The tiles of `len` tiles, laid out in `n_columns` columns of rows
/// `element_height` pixels high, that a viewport of `widget_size` scrolled to
/// `offset` shows. The range covers whole rows; a trailing partial row is
/// included, so the range ends at the last tile there.
pub fn visible_tiles(
    n_columns: usize,
    len: usize,
    element_height: u16,
    widget_size: Size,
    offset: RelativeOffset,
) -> (r: BoundedRange)
    requires
        n_columns > 0,
        len > 0,
        element_height > 0,
        offset.wf(),
    ensures
        r.start == tile_start(
            n_columns as int,
            len as int,
            element_height as int,
            widget_size.height as int,
            offset.numerator as int,
            offset.denominator as int,
        ),
        r.end == tile_end(
            n_columns as int,
            len as int,
            element_height as int,
            widget_size.height as int,
            offset.numerator as int,
            offset.denominator as int,
        ),
        r.start <= r.end < len,
{
    let partial: usize = if len % n_columns == 0 {
        0
    } else {
        1
    };
    proof {
        lemma_row_count(n_columns as int, len as int);
    }
    let n_rows = len / n_columns + partial;
    let rows = visible_rows(n_rows, element_height, widget_size, offset);
    proof {
        lemma_row_fits(n_columns as int, len as int, rows.start as int);
        if rows.end + 1 < n_rows {
            lemma_row_fits(n_columns as int, len as int, rows.end as int + 1);
        }
        let (s, e, n) = (rows.start as int, rows.end as int, n_columns as int);
        assert(s * n + n <= (e + 1) * n) by (nonlinear_arith)
            requires
                s <= e,
                n > 0,
        ;
        assert((e + 1) * n == e * n + n) by (nonlinear_arith);
    }
    let start = rows.start * n_columns;
    let end = if rows.end + 1 == n_rows {
        len - 1
    } else {
        (rows.end + 1) * n_columns - 1
    };
    BoundedRange { start, end }
}

proof fn lemma_ceil_div(x: int, d: int)
    requires
        d > 0,
        x >= 0,
    ensures
        (x + d - 1) / d == x / d + if x % d == 0 {
            0int
        } else {
            1int
        },
{
    lemma_fundamental_div_mod(x, d);
    let k = x / d;
    let m = x % d;
    if m == 0 {
        assert(x + d - 1 == k * d + (d - 1)) by (nonlinear_arith)
            requires
                x == d * k,
        ;
        lemma_fundamental_div_mod_converse_div(x + d - 1, d, k, d - 1);
    } else {
        assert(x + d - 1 == (k + 1) * d + (m - 1)) by (nonlinear_arith)
            requires
                x == d * k + m,
        ;
        lemma_fundamental_div_mod_converse_div(x + d - 1, d, k + 1, m - 1);
    }
}

proof fn lemma_row_count(n: int, len: int)
    requires
        n > 0,
        len > 0,
    ensures
        tile_rows(n, len) == len / n + if len % n == 0 {
            0int
        } else {
            1int
        },
        0 < tile_rows(n, len) <= len,
        (tile_rows(n, len) - 1) * n < len <= tile_rows(n, len) * n,
{
    lemma_ceil_div(len, n);
    lemma_fundamental_div_mod(len, n);
    let k = len / n;
    let m = len % n;
    assert((tile_rows(n, len) - 1) * n < len <= tile_rows(n, len) * n) by (nonlinear_arith)
        requires
            len == n * k + m,
            0 <= m < n,
            m == 0 ==> tile_rows(n, len) == k,
            m != 0 ==> tile_rows(n, len) == k + 1,
    ;
    assert(0 < tile_rows(n, len) <= len) by (nonlinear_arith)
        requires
            len <= tile_rows(n, len) * n,
            (tile_rows(n, len) - 1) * n < len,
            len > 0,
            n > 0,
    ;
}

proof fn lemma_row_fits(n: int, len: int, row: int)
    requires
        n > 0,
        len > 0,
        0 <= row < tile_rows(n, len),
        (tile_rows(n, len) - 1) * n < len,
    ensures
        row * n < len,
{
    assert(row * n <= (tile_rows(n, len) - 1) * n) by (nonlinear_arith)
        requires
            row <= tile_rows(n, len) - 1,
            n > 0,
    ;
}

/// Scrolled to the top, the first row shown is row zero; scrolled to the
/// bottom, the last row shown is the last row.
pub proof fn law_scroll_extremes(len: int, element_height: int, height: int, den: int)
    requires
        len > 0,
        element_height > 0,
        height >= 0,
        den > 0,
    ensures
        first_row(len, element_height, height, 0, den) == 0,
        last_row(len, element_height, height, den, den) == len - 1,
{
    let e = element_height;
    let d = e * den;
    assert(e * den > 0) by (nonlinear_arith)
        requires
            e > 0,
            den > 0,
    ;
    let span = scroll_span(len, e, height);
    assert(span * 0 == 0);
    assert(0int / d == 0);
    assert(len * e * den == d * len) by (nonlinear_arith)
        requires
            d == e * den,
    ;
    lemma_div_multiples_vanish(len, d);
    if len * e > height {
        assert(span * den + height * den == len * e * den) by (nonlinear_arith)
            requires
                span == len * e - height,
        ;
    } else {
        assert(span * den + height * den >= len * e * den) by (nonlinear_arith)
            requires
                span == 0,
                height >= len * e,
                den > 0,
        ;
        lemma_div_is_ordered(d * len, span * den + height * den, d);
    }
}

/// Splits the bottom edge of the viewport, in rows, into the top edge and the
/// viewport's height.
proof fn lemma_bottom_edge(top_num: int, element_height: int, height: int, den: int)
    requires
        top_num >= 0,
        element_height > 0,
        height >= 0,
        den > 0,
    ensures
        (height * den) / (element_height * den) == height / element_height,
        (height * den) % (element_height * den) == (height % element_height) * den,
        (top_num + height * den) / (element_height * den) == top_num / (element_height * den)
            + height / element_height + if top_num % (element_height * den) + (height
            % element_height) * den < element_height * den {
            0int
        } else {
            1int
        },
{
    let e = element_height;
    let d = e * den;
    assert(e * den > 0) by (nonlinear_arith)
        requires
            e > 0,
            den > 0,
    ;
    lemma_fundamental_div_mod(height, e);
    let hq = height / e;
    let hr = height % e;
    assert(height * den == hq * d + hr * den) by (nonlinear_arith)
        requires
            height == e * hq + hr,
            d == e * den,
    ;
    assert(0 <= hr * den < d) by (nonlinear_arith)
        requires
            0 <= hr < e,
            den > 0,
            d == e * den,
    ;
    lemma_fundamental_div_mod_converse_div(height * den, d, hq, hr * den);
    lemma_fundamental_div_mod_converse_mod(height * den, d, hq, hr * den);
    lemma_fundamental_div_mod(top_num, d);
    let tq = top_num / d;
    let tr = top_num % d;
    if tr + hr * den < d {
        assert(top_num + height * den == (tq + hq) * d + (tr + hr * den)) by (nonlinear_arith)
            requires
                top_num == d * tq + tr,
                height * den == hq * d + hr * den,
        ;
        lemma_fundamental_div_mod_converse_div(top_num + height * den, d, tq + hq, tr + hr * den);
    } else {
        assert(top_num + height * den == (tq + hq + 1) * d + (tr + hr * den - d))
            by (nonlinear_arith)
            requires
                top_num == d * tq + tr,
                height * den == hq * d + hr * den,
        ;
        lemma_fundamental_div_mod_converse_div(
            top_num + height * den,
            d,
            tq + hq + 1,
            tr + hr * den - d,
        );
    }
}

/// The viewport never shows more rows than its height in rows, rounded up,
/// plus one, and never reaches past the last row.
pub proof fn law_window_extent(len: int, element_height: int, height: int, num: int, den: int)
    requires
        len > 0,
        element_height > 0,
        height >= 0,
        0 <= num <= den,
        den > 0,
    ensures
        0 <= first_row(len, element_height, height, num, den) <= last_row(
            len,
            element_height,
            height,
            num,
            den,
        ) < len,
        last_row(len, element_height, height, num, den) - first_row(
            len,
            element_height,
            height,
            num,
            den,
        ) <= rows_in_view(element_height, height),
{
    let e = element_height;
    let a = scroll_span(len, e, height) * num;
    assert(scroll_span(len, e, height) * num >= 0) by (nonlinear_arith)
        requires
            scroll_span(len, e, height) >= 0,
            num >= 0,
    ;
    lemma_bottom_edge(a, e, height, den);
    lemma_ceil_div(height, e);
    let d = e * den;
    assert(e * den > 0) by (nonlinear_arith)
        requires
            e > 0,
            den > 0,
    ;
    lemma_div_is_ordered(0, a, d);
    lemma_div_is_ordered(a, a + height * den, d);
    if height % e == 0 {
        assert((height % e) * den == 0);
        lemma_fundamental_div_mod(a, d);
    }
}

/// When the viewport's height is not a whole number of rows, and the part of a
/// row above its top edge together with the part of a row in its height adds
/// up to less than one row, the viewport shows at most its height in rows,
/// rounded up.
pub proof fn law_window_rows(len: int, element_height: int, height: int, num: int, den: int)
    requires
        len > 0,
        element_height > 0,
        height >= 0,
        0 <= num <= den,
        den > 0,
        height % element_height != 0,
        (scroll_span(len, element_height, height) * num) % (element_height * den) + (height
            * den) % (element_height * den) < element_height * den,
    ensures
        last_row(len, element_height, height, num, den) - first_row(
            len,
            element_height,
            height,
            num,
            den,
        ) + 1 <= rows_in_view(element_height, height),
        last_row(len, element_height, height, num, den) < len,
{
    let e = element_height;
    let a = scroll_span(len, e, height) * num;
    assert(scroll_span(len, e, height) * num >= 0) by (nonlinear_arith)
        requires
            scroll_span(len, e, height) >= 0,
            num >= 0,
    ;
    law_window_extent(len, e, height, num, den);
    lemma_bottom_edge(a, e, height, den);
    lemma_ceil_div(height, e);
}

/// A range of tiles starts at the first tile of a row, and ends at the last
/// tile of a row or at the last tile of all; where the tiles fill their last
/// row, it ends at the last tile of a row.
pub proof fn law_tiles_aligned(
    n_columns: int,
    len: int,
    element_height: int,
    height: int,
    num: int,
    den: int,
)
    requires
        n_columns > 0,
        len > 0,
        element_height > 0,
        height >= 0,
        0 <= num <= den,
        den > 0,
    ensures
        tile_start(n_columns, len, element_height, height, num, den) % n_columns == 0,
        (tile_end(n_columns, len, element_height, height, num, den) + 1) % n_columns == 0
            || tile_end(n_columns, len, element_height, height, num, den) == len - 1,
        len % n_columns == 0 ==> (tile_end(n_columns, len, element_height, height, num, den) + 1)
            % n_columns == 0,
{
    let rows = tile_rows(n_columns, len);
    lemma_row_count(n_columns, len);
    let f = first_row(rows, element_height, height, num, den);
    let l = last_row(rows, element_height, height, num, den);
    lemma_mod_multiples_basic(f, n_columns);
    lemma_mod_multiples_basic(l + 1, n_columns);
}

} // verus!
