use vstd::prelude::*;
use crate::error::ImgToTerminalError;

verus! {

/// `num / den` rounded to the nearest integer, halves away from zero (for
/// `num >= 0` and `den > 0`).
pub open spec fn round_ratio(num: int, den: int) -> int {
    (2 * num + den) / (2 * den)
}

/// A value converted to `u32` the way a float-to-integer cast does it for
/// non-negative values: values above `u32::MAX` saturate.
pub open spec fn saturate_u32(v: int) -> int {
    if v > u32::MAX as int {
        u32::MAX as int
    } else {
        v
    }
}

pub open spec fn max_int(a: int, b: int) -> int {
    if a >= b {
        a
    } else {
        b
    }
}

/// The height that fills width `max(max_width, 4)` at the source aspect
/// ratio, before it is checked against the height limit (at least 2).
pub open spec fn fitted_height(in_w: u32, in_h: u32, max_width: u32) -> int {
    let w = max_int(max_width as int, 4);
    max_int(saturate_u32(round_ratio(w * in_h, in_w as int)), 2)
}

/// The size that `proportional_size` returns.
pub open spec fn spec_proportional_size(in_w: u32, in_h: u32, max_width: u32, max_height: u32) -> (int, int) {
    let w = max_int(max_width as int, 4);
    if in_w == 0 || in_h == 0 {
        (w, 2)
    } else {
        let h = fitted_height(in_w, in_h, max_width);
        if h > max_height {
            let hc = max_int(max_height - max_height % 2, 2);
            let wc = max_int(saturate_u32(round_ratio(hc * in_w, in_h as int)), 4);
            (wc, hc)
        } else {
            (w, even_within(h, max_height as int))
        }
    }
}

/// `h` made even: rounded up, unless that would pass `limit`, then rounded down.
pub open spec fn even_within(h: int, limit: int) -> int {
    if h % 2 == 1 && h + 1 > limit {
        h - 1
    } else {
        h + h % 2
    }
}

/// `round_ratio(num, den)` computed exactly, saturated to `u32`.
fn rounded_ratio_u32(num: u64, den: u64) -> (r: u32)
    requires
        den > 0,
    ensures
        r == saturate_u32(round_ratio(num as int, den as int)),
{
    let n: u128 = num as u128;
    let d: u128 = den as u128;
    let q: u128 = (2 * n + d) / (2 * d);
    if q > u32::MAX as u128 {
        u32::MAX
    } else {
        q as u32
    }
}

/// Aspect-ratio-preserving size that fits within both constraints.
/// Height is rounded up to an even number (half-block needs 2 pixel rows),
/// or down where rounding up would pass the height limit.
///
/// Ratios are rounded exactly, halves away from zero.
pub fn proportional_size(in_w: u32, in_h: u32, max_width: u32, max_height: u32) -> (r: (u32, u32))
    ensures
        r.0 == spec_proportional_size(in_w, in_h, max_width, max_height).0,
        r.1 == spec_proportional_size(in_w, in_h, max_width, max_height).1,
        r.0 >= 4,
        r.1 >= 2,
        r.1 % 2 == 0,
{
    let w: u32 = if max_width > 4 { max_width } else { 4 };
    if in_w == 0 || in_h == 0 {
        return (w, 2);
    }
    assert((w as int) * (in_h as int) <= u64::MAX) by (nonlinear_arith)
        requires w <= u32::MAX, in_h <= u32::MAX;
    let raw: u32 = rounded_ratio_u32(w as u64 * in_h as u64, in_w as u64);
    let h: u32 = if raw > 2 { raw } else { 2 };
    if h > max_height {
        let even: u32 = max_height - max_height % 2;
        let hc: u32 = if even > 2 { even } else { 2 };
        assert((hc as int) * (in_w as int) <= u64::MAX) by (nonlinear_arith)
            requires hc <= u32::MAX, in_w <= u32::MAX;
        let raw_w: u32 = rounded_ratio_u32(hc as u64 * in_w as u64, in_h as u64);
        let wc: u32 = if raw_w > 4 { raw_w } else { 4 };
        return (wc, hc);
    }
    if h % 2 == 1 && h == max_height {
        (w, h - 1)
    } else {
        (w, h + h % 2)
    }
}

proof fn lemma_round_ratio_bounds(num: int, den: int)
    requires
        num >= 0,
        den > 0,
    ensures
        round_ratio(num, den) >= 0,
        2 * den * round_ratio(num, den) <= 2 * num + den,
        2 * num + den < 2 * den * (round_ratio(num, den) + 1),
{
    let n = 2 * num + den;
    let d = 2 * den;
    let q = round_ratio(num, den);
    assert(q == n / d);
    vstd::arithmetic::div_mod::lemma_fundamental_div_mod(n, d);
    vstd::arithmetic::div_mod::lemma_mod_bound(n, d);
    vstd::arithmetic::div_mod::lemma_div_pos_is_pos(n, d);
    assert(2 * den * q == d * q);
    assert(2 * den * (q + 1) == d * q + d) by (nonlinear_arith)
        requires
            d == 2 * den,
    ;
}

/// The size always fits the limits it is given, when the height limit is at
/// least 2: the width is at most `max(max_width, 4)` and the height at most
/// `max_height`.
pub proof fn lemma_size_fits(in_w: u32, in_h: u32, max_width: u32, max_height: u32)
    requires
        max_height >= 2,
    ensures
        spec_proportional_size(in_w, in_h, max_width, max_height).0 <= max_int(max_width as int, 4),
        spec_proportional_size(in_w, in_h, max_width, max_height).1 <= max_height,
{
    let w = max_int(max_width as int, 4);
    if in_w != 0 && in_h != 0 {
        let h = fitted_height(in_w, in_h, max_width);
        if h > max_height {
            let a = w * in_h;
            let hc = max_int(max_height - max_height % 2, 2);
            assert(hc <= max_height && hc + 1 >= max_height);
            assert(a >= 0) by (nonlinear_arith)
                requires
                    w >= 4,
                    in_h > 0,
                    a == w * in_h,
            ;
            lemma_round_ratio_bounds(a, in_w as int);
            let q = round_ratio(a, in_w as int);
            assert(hc + 1 <= q);
            let b = hc * in_w;
            assert(b >= 0) by (nonlinear_arith)
                requires
                    hc >= 2,
                    in_w > 0,
                    b == hc * in_w,
            ;
            lemma_round_ratio_bounds(b, in_h as int);
            let r = round_ratio(b, in_h as int);
            assert(2 * in_w * (hc + 1) <= 2 * in_w * q) by (nonlinear_arith)
                requires
                    hc + 1 <= q,
                    in_w > 0,
            ;
            assert(r <= w) by (nonlinear_arith)
                requires
                    2 * in_h * r <= 2 * b + in_h,
                    b == hc * in_w,
                    2 * in_w * (hc + 1) <= 2 * in_w * q,
                    2 * in_w * q <= 2 * a + in_w,
                    a == w * in_h,
                    in_w > 0,
                    in_h > 0,
            ;
        }
    }
}

/// The size keeps the source's aspect ratio. When the width limit decides the
/// size, the height is within one and a half rows of
/// `width * in_h / in_w`; when the height limit decides it, the width is
/// within half a column of `height * in_w / in_h` (each unless a minimum size
/// or the `u32` range takes over).
pub proof fn lemma_size_keeps_aspect(in_w: u32, in_h: u32, max_width: u32, max_height: u32)
    requires
        in_w > 0,
        in_h > 0,
    ensures
        ({
            let r = spec_proportional_size(in_w, in_h, max_width, max_height);
            let w = max_int(max_width as int, 4);
            let raw_h = round_ratio(w * in_h, in_w as int);
            raw_h >= 2 && raw_h <= u32::MAX && raw_h <= max_height ==> -3 * in_w <= 2 * (r.1 * in_w
                - r.0 * in_h) <= 3 * in_w
        }),
        ({
            let r = spec_proportional_size(in_w, in_h, max_width, max_height);
            let hc = max_int(max_height - max_height % 2, 2);
            let raw_w = round_ratio(hc * in_w, in_h as int);
            fitted_height(in_w, in_h, max_width) > max_height && raw_w >= 4 && raw_w <= u32::MAX
                ==> -in_h <= 2 * (r.0 * in_h - r.1 * in_w) <= in_h
        }),
{
    let w = max_int(max_width as int, 4);
    let a = w * in_h;
    assert(a >= 0) by (nonlinear_arith)
        requires
            w >= 4,
            in_h > 0,
            a == w * in_h,
    ;
    lemma_round_ratio_bounds(a, in_w as int);
    let hc = max_int(max_height - max_height % 2, 2);
    let b = hc * in_w;
    assert(b >= 0) by (nonlinear_arith)
        requires
            hc >= 2,
            in_w > 0,
            b == hc * in_w,
    ;
    lemma_round_ratio_bounds(b, in_h as int);
    let r = spec_proportional_size(in_w, in_h, max_width, max_height);
    let raw_h = round_ratio(a, in_w as int);
    if raw_h >= 2 && raw_h <= u32::MAX && raw_h <= max_height {
        assert(r.0 == w && (r.1 == raw_h || r.1 == raw_h + 1 || r.1 == raw_h - 1));
        assert(-3 * in_w <= 2 * (r.1 * in_w - r.0 * in_h) <= 3 * in_w) by (nonlinear_arith)
            requires
                r.0 == w,
                r.1 == raw_h || r.1 == raw_h + 1 || r.1 == raw_h - 1,
                a == w * in_h,
                2 * in_w * raw_h <= 2 * a + in_w,
                2 * a + in_w < 2 * in_w * (raw_h + 1),
        ;
    }
    let raw_w = round_ratio(b, in_h as int);
    if fitted_height(in_w, in_h, max_width) > max_height && raw_w >= 4 && raw_w <= u32::MAX {
        assert(r.0 == raw_w && r.1 == hc);
        assert(-in_h <= 2 * (r.0 * in_h - r.1 * in_w) <= in_h) by (nonlinear_arith)
            requires
                r.0 == raw_w,
                r.1 == hc,
                b == hc * in_w,
                2 * in_h * raw_w <= 2 * b + in_h,
                2 * b + in_h < 2 * in_h * (raw_w + 1),
        ;
    }
}

/// The output width used when none is asked for: two columns less than the
/// terminal.
pub open spec fn auto_width(term_cols: u16) -> int {
    term_cols - 2
}

/// The pixel rows available on a terminal of `term_rows` text rows: every
/// text row but the last shows two pixel rows.
pub open spec fn available_height(term_rows: u16) -> int {
    2 * max_int(term_rows - 1, 0)
}

/// The output width and the pixel-row limit for a terminal of
/// `term_cols x term_rows`. A requested width of 0 means the terminal's
/// width less two columns; the terminal must then be at least 20 columns wide.
pub fn screen_limits(width: u32, term_cols: u16, term_rows: u16) -> (r: Result<(u32, u32), ImgToTerminalError>)
    requires
        !(width == 0 && term_cols < 20) ==> term_rows <= 32768,
    ensures
        match r {
            Ok((target_width, max_height)) => {
                &&& !(width == 0 && term_cols < 20)
                &&& target_width == if width > 0 {
                    width as int
                } else {
                    auto_width(term_cols)
                }
                &&& max_height == available_height(term_rows)
                &&& width == 0 ==> target_width + 2 == term_cols
                &&& term_rows >= 1 ==> max_height == 2 * (term_rows - 1)
                &&& term_rows == 0 ==> max_height == 0
            },
            Err(e) => width == 0 && term_cols < 20 && e == ImgToTerminalError::TerminalTooSmall(
                term_cols,
                term_rows,
            ),
        },
{
    let target_width: u32 = if width > 0 {
        width
    } else {
        if term_cols < 20 {
            return Err(ImgToTerminalError::TerminalTooSmall(term_cols, term_rows));
        }
        (term_cols - 2) as u32
    };
    let rows_above: u16 = if term_rows > 0 { term_rows - 1 } else { 0 };
    let max_height: u32 = (rows_above * 2) as u32;
    Ok((target_width, max_height))
}

/// Every text row but the last shows two pixel rows: the pixel-row limit is
/// twice the rows above the last, so each added text row adds two pixel rows,
/// however tall the terminal is.
pub proof fn lemma_available_height_two_rows_each(term_rows: u16)
    ensures
        term_rows >= 1 ==> available_height(term_rows) == 2 * (term_rows - 1),
        term_rows == 0 ==> available_height(term_rows) == 0,
        term_rows < u16::MAX ==> available_height((term_rows + 1) as u16) == available_height(
            term_rows,
        ) + if term_rows >= 1 {
            2int
        } else {
            0int
        },
{
}

/// With no width asked for, the output leaves exactly two terminal columns
/// free: each added column widens it by one.
pub proof fn lemma_auto_width_two_columns_free(term_cols: u16)
    ensures
        auto_width(term_cols) + 2 == term_cols,
        term_cols < u16::MAX ==> auto_width((term_cols + 1) as u16) == auto_width(term_cols) + 1,
{
}

/// When the image fits under the height limit at the full width, it is drawn
/// at the full width `max(max_width, 4)`, with the height that width gives
/// (`max_width * in_h / in_w` rounded, halves up) made even and kept within
/// the limit.
pub proof fn lemma_size_uses_full_width(in_w: u32, in_h: u32, max_width: u32, max_height: u32)
    requires
        in_w > 0,
        in_h > 0,
    ensures
        ({
            let w = if max_width > 4 {
                max_width as int
            } else {
                4
            };
            let q = (2 * w * in_h + in_w) / (2 * in_w as int);
            let r = spec_proportional_size(in_w, in_h, max_width, max_height);
            2 <= q <= max_height ==> {
                &&& r.0 == w
                &&& r.1 % 2 == 0
                &&& r.1 <= max_height
                &&& r.1 == q || r.1 == q + 1 || r.1 == q - 1
            }
        }),
{
    let w = max_int(max_width as int, 4);
    assert(2 * w * in_h == 2 * (w * in_h)) by (nonlinear_arith);
}

} // verus!
