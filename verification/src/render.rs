use vstd::prelude::*;
use vstd::string::*;
use crate::frame::Frame;
use crate::text::{decimal, push_decimal};

verus! {

/// Begins synchronised output and homes the cursor.
pub open spec fn frame_header() -> Seq<char> {
    "\x1b[?2026h"@ + "\x1b[H"@
}

/// Clears to the end of the screen and ends synchronised output.
pub open spec fn frame_footer() -> Seq<char> {
    "\x1b[0J\x1b[?2026l"@
}

/// Resets the colours and ends a text row.
pub open spec fn row_end() -> Seq<char> {
    "\x1b[0m\n"@
}

/// One half-block character: foreground (the lower half) in colour `fg`,
/// background (the upper half) in colour `bg`, both as 24-bit SGR codes.
pub open spec fn half_block(fg: (u8, u8, u8), bg: (u8, u8, u8)) -> Seq<char> {
    "\x1b[38;2;"@ + decimal(fg.0 as nat) + ";"@ + decimal(fg.1 as nat) + ";"@ + decimal(fg.2 as nat)
        + "m\x1b[48;2;"@ + decimal(bg.0 as nat) + ";"@ + decimal(bg.1 as nat) + ";"@ + decimal(
        bg.2 as nat,
    ) + "m\u{2584}"@
}

/// The colour of pixel `(x, y)` of `f`.
pub open spec fn pixel_rgb(f: Frame, x: int, y: int) -> (u8, u8, u8) {
    (f.channel(x, y, 0), f.channel(x, y, 1), f.channel(x, y, 2))
}

/// The cell for column `x` of the text row that shows pixel rows `y` (upper)
/// and `y + 1` (lower).
pub open spec fn cell(f: Frame, x: int, y: int) -> Seq<char> {
    half_block(pixel_rgb(f, x, y + 1), pixel_rgb(f, x, y))
}

/// The first `n` cells of the text row that shows pixel rows `y` and `y + 1`.
pub open spec fn row_cells(f: Frame, y: int, n: nat) -> Seq<char>
    decreases n,
{
    if n == 0 {
        Seq::empty()
    } else {
        row_cells(f, y, (n - 1) as nat) + cell(f, n - 1, y)
    }
}

/// The first `k` text rows of `f`, each ended by a colour reset and a newline.
pub open spec fn text_rows(f: Frame, k: nat) -> Seq<char>
    decreases k,
{
    if k == 0 {
        Seq::empty()
    } else {
        text_rows(f, (k - 1) as nat) + row_cells(f, 2 * (k - 1), f.w() as nat) + row_end()
    }
}

/// The terminal output for `f`: one text row per pair of pixel rows (a last
/// odd row is left out), framed by the header and footer.
pub open spec fn rendered(f: Frame) -> Seq<char> {
    frame_header() + text_rows(f, (f.h() / 2) as nat) + frame_footer()
}

/// The frame sizes for which rendering stays in range: the output buffer that
/// rendering reserves, `(38 * width + 10) * (height / 2 + 1)` bytes, fits a
/// vector.
pub open spec fn render_in_range(width: u32, height: u32) -> bool {
    (width as int * 38 + 10) * (height as int / 2 + 1) <= isize::MAX
}

fn push_half_block(out: &mut String, fg: (u8, u8, u8), bg: (u8, u8, u8))
    ensures
        final(out)@ == old(out)@ + half_block(fg, bg),
{
    out.append("\x1b[38;2;");
    push_decimal(out, fg.0 as u64);
    out.append(";");
    push_decimal(out, fg.1 as u64);
    out.append(";");
    push_decimal(out, fg.2 as u64);
    out.append("m\x1b[48;2;");
    push_decimal(out, bg.0 as u64);
    out.append(";");
    push_decimal(out, bg.1 as u64);
    out.append(";");
    push_decimal(out, bg.2 as u64);
    out.append("m\u{2584}");
    assert(final(out)@ =~= old(out)@ + half_block(fg, bg));
}

/// Render a single frame to an ANSI escape-code string using half-block
/// characters (▄).  Wraps output in DEC 2026 synchronised mode to reduce
/// tearing on supporting terminals.
pub fn render_frame(img: &Frame) -> (out: String)
    requires
        render_in_range(img.w(), img.h()),
    ensures
        out@ == rendered(*img),
{
    let (w, h): (u32, u32) = img.dimensions();
    let mut out = String::new();
    out.append("\x1b[?2026h");
    out.append("\x1b[H");
    if h < 2 {
        out.append("\x1b[0J\x1b[?2026l");
        assert(out@ =~= rendered(*img));
        return out;
    }
    let mut y: u32 = 0;
    while y < h - 1
        invariant
            h == img.h(),
            w == img.w(),
            h >= 2,
            y % 2 == 0,
            y <= h,
            out@ == frame_header() + text_rows(*img, (y / 2) as nat),
        decreases h - y,
    {
        let ghost before = out@;
        let mut x: u32 = 0;
        while x < w
            invariant
                h == img.h(),
                w == img.w(),
                y + 1 < h,
                x <= w,
                out@ == before + row_cells(*img, y as int, x as nat),
            decreases w - x,
        {
            let upper: (u8, u8, u8) = img.rgb(x, y);
            let lower: (u8, u8, u8) = img.rgb(x, y + 1);
            push_half_block(&mut out, lower, upper);
            assert(out@ =~= before + row_cells(*img, y as int, (x + 1) as nat));
            x = x + 1;
        }
        out.append("\x1b[0m\n");
        assert(text_rows(*img, (y / 2 + 1) as nat) == text_rows(*img, (y / 2) as nat) + row_cells(
            *img,
            y as int,
            w as nat,
        ) + row_end());
        assert(out@ =~= frame_header() + text_rows(*img, ((y + 2) / 2) as nat));
        y = y + 2;
    }
    assert(y / 2 == h / 2);
    out.append("\x1b[0J\x1b[?2026l");
    assert(out@ =~= rendered(*img));
    out
}

/// How many times `c` occurs in `s`.
pub open spec fn occurrences(s: Seq<char>, c: char) -> nat
    decreases s.len(),
{
    if s.len() == 0 {
        0
    } else {
        occurrences(s.drop_last(), c) + if s.last() == c {
            1nat
        } else {
            0nat
        }
    }
}

proof fn lemma_occurrences_concat(a: Seq<char>, b: Seq<char>, c: char)
    ensures
        occurrences(a + b, c) == occurrences(a, c) + occurrences(b, c),
    decreases b.len(),
{
    if b.len() == 0 {
        assert(a + b =~= a);
    } else {
        lemma_occurrences_concat(a, b.drop_last(), c);
        assert((a + b).drop_last() =~= a + b.drop_last());
    }
}

proof fn lemma_occurrences_absent(s: Seq<char>, c: char)
    requires
        forall|i: int| 0 <= i < s.len() ==> s[i] != c,
    ensures
        occurrences(s, c) == 0,
    decreases s.len(),
{
    if s.len() > 0 {
        lemma_occurrences_absent(s.drop_last(), c);
    }
}

proof fn lemma_occurrences_single(s: Seq<char>, c: char, i: int)
    requires
        0 <= i < s.len(),
        s[i] == c,
        forall|j: int| 0 <= j < s.len() && j != i ==> s[j] != c,
    ensures
        occurrences(s, c) == 1,
    decreases s.len(),
{
    if i == s.len() - 1 {
        lemma_occurrences_absent(s.drop_last(), c);
    } else {
        lemma_occurrences_single(s.drop_last(), c, i);
    }
}

/// Decimal digits are neither newlines nor half blocks.
proof fn lemma_decimal_plain(n: nat, c: char)
    requires
        c == '\n' || c == '\u{2584}',
    ensures
        occurrences(decimal(n), c) == 0,
    decreases n,
{
    if n >= 10 {
        lemma_decimal_plain(n / 10, c);
        lemma_occurrences_concat(decimal(n / 10), seq![crate::text::digit_char(n % 10)], c);
        assert(decimal(n) =~= decimal(n / 10) + seq![crate::text::digit_char(n % 10)]);
    }
    lemma_occurrences_absent(seq![crate::text::digit_char(n % 10)], c);
}

/// A half-block cell holds one half block and no newline.
proof fn lemma_half_block_counts(fg: (u8, u8, u8), bg: (u8, u8, u8), c: char)
    requires
        c == '\n' || c == '\u{2584}',
    ensures
        occurrences(half_block(fg, bg), c) == if c == '\n' {
            0nat
        } else {
            1nat
        },
{
    reveal_strlit("\x1b[38;2;");
    reveal_strlit(";");
    reveal_strlit("m\x1b[48;2;");
    reveal_strlit("m\u{2584}");
    let p0 = "\x1b[38;2;"@;
    let p1 = decimal(fg.0 as nat);
    let p2 = ";"@;
    let p3 = decimal(fg.1 as nat);
    let p4 = decimal(fg.2 as nat);
    let p5 = "m\x1b[48;2;"@;
    let p6 = decimal(bg.0 as nat);
    let p7 = decimal(bg.1 as nat);
    let p8 = decimal(bg.2 as nat);
    let p9 = "m\u{2584}"@;
    lemma_occurrences_absent(p0, c);
    lemma_occurrences_absent(p2, c);
    lemma_occurrences_absent(p5, c);
    lemma_decimal_plain(fg.0 as nat, c);
    lemma_decimal_plain(fg.1 as nat, c);
    lemma_decimal_plain(fg.2 as nat, c);
    lemma_decimal_plain(bg.0 as nat, c);
    lemma_decimal_plain(bg.1 as nat, c);
    lemma_decimal_plain(bg.2 as nat, c);
    if c == '\n' {
        lemma_occurrences_absent(p9, c);
    } else {
        lemma_occurrences_single(p9, c, 1);
    }
    let s1 = p0 + p1;
    let s2 = s1 + p2;
    let s3 = s2 + p3;
    let s4 = s3 + p2;
    let s5 = s4 + p4;
    let s6 = s5 + p5;
    let s7 = s6 + p6;
    let s8 = s7 + p2;
    let s9 = s8 + p7;
    let s10 = s9 + p2;
    let s11 = s10 + p8;
    let s12 = s11 + p9;
    lemma_occurrences_concat(p0, p1, c);
    lemma_occurrences_concat(s1, p2, c);
    lemma_occurrences_concat(s2, p3, c);
    lemma_occurrences_concat(s3, p2, c);
    lemma_occurrences_concat(s4, p4, c);
    lemma_occurrences_concat(s5, p5, c);
    lemma_occurrences_concat(s6, p6, c);
    lemma_occurrences_concat(s7, p2, c);
    lemma_occurrences_concat(s8, p7, c);
    lemma_occurrences_concat(s9, p2, c);
    lemma_occurrences_concat(s10, p8, c);
    lemma_occurrences_concat(s11, p9, c);
    assert(half_block(fg, bg) == s12);
}

/// `n` cells of a row hold `n` half blocks and no newline.
proof fn lemma_row_counts(f: Frame, y: int, n: nat, c: char)
    requires
        c == '\n' || c == '\u{2584}',
    ensures
        occurrences(row_cells(f, y, n), c) == if c == '\n' {
            0nat
        } else {
            n
        },
    decreases n,
{
    if n > 0 {
        lemma_row_counts(f, y, (n - 1) as nat, c);
        lemma_half_block_counts(pixel_rgb(f, n - 1, y + 1), pixel_rgb(f, n - 1, y), c);
        lemma_occurrences_concat(row_cells(f, y, (n - 1) as nat), cell(f, n - 1, y), c);
    }
}

/// `k` text rows hold `k` newlines and `k * width` half blocks.
proof fn lemma_text_rows_counts(f: Frame, k: nat, c: char)
    requires
        c == '\n' || c == '\u{2584}',
    ensures
        occurrences(text_rows(f, k), c) == if c == '\n' {
            k as int
        } else {
            k * f.w()
        },
    decreases k,
{
    if k > 0 {
        reveal_strlit("\x1b[0m\n");
        lemma_text_rows_counts(f, (k - 1) as nat, c);
        lemma_row_counts(f, 2 * (k - 1), f.w() as nat, c);
        let before = text_rows(f, (k - 1) as nat);
        let row = row_cells(f, 2 * (k - 1), f.w() as nat);
        lemma_occurrences_concat(before, row, c);
        lemma_occurrences_concat(before + row, row_end(), c);
        if c == '\n' {
            lemma_occurrences_single(row_end(), c, 4);
        } else {
            lemma_occurrences_absent(row_end(), c);
        }
        assert((k - 1) * f.w() + f.w() == k * f.w()) by (nonlinear_arith);
    }
}

/// The output of `render_frame` has one line per pair of pixel rows: it holds
/// exactly `height / 2` newlines.
pub proof fn lemma_rendered_line_count(f: Frame)
    ensures
        occurrences(rendered(f), '\n') == f.h() / 2,
{
    lemma_rendered_counts(f, '\n');
}

/// The output of `render_frame` draws one half block for each column of each
/// text row: it holds exactly `width * (height / 2)` half blocks.
pub proof fn lemma_rendered_cell_count(f: Frame)
    ensures
        occurrences(rendered(f), '\u{2584}') == f.w() * (f.h() / 2),
{
    lemma_rendered_counts(f, '\u{2584}');
    assert((f.h() / 2) as nat * f.w() == f.w() * (f.h() / 2)) by (nonlinear_arith);
}

proof fn lemma_rendered_counts(f: Frame, c: char)
    requires
        c == '\n' || c == '\u{2584}',
    ensures
        occurrences(rendered(f), c) == if c == '\n' {
            (f.h() / 2) as int
        } else {
            (f.h() / 2) as nat * f.w()
        },
{
    reveal_strlit("\x1b[?2026h");
    reveal_strlit("\x1b[H");
    reveal_strlit("\x1b[0J\x1b[?2026l");
    let rows = text_rows(f, (f.h() / 2) as nat);
    lemma_text_rows_counts(f, (f.h() / 2) as nat, c);
    lemma_occurrences_absent(frame_header(), c);
    lemma_occurrences_absent(frame_footer(), c);
    lemma_occurrences_concat(frame_header(), rows, c);
    lemma_occurrences_concat(frame_header() + rows, frame_footer(), c);
}

/// `f` and `g` have the same size and the same red, green and blue values on
/// every pixel row that is shown (all rows but a last odd one).
pub open spec fn same_shown_colours(f: Frame, g: Frame) -> bool {
    &&& f.w() == g.w()
    &&& f.h() == g.h()
    &&& forall|x: int, y: int, k: int|
        0 <= x < f.w() && 0 <= y < 2 * (f.h() / 2) && 0 <= k < 3 ==> #[trigger] f.channel(x, y, k)
            == g.channel(x, y, k)
}

proof fn lemma_row_cells_same(f: Frame, g: Frame, y: int, n: nat)
    requires
        same_shown_colours(f, g),
        0 <= y,
        y + 1 < 2 * (f.h() / 2),
        n <= f.w(),
    ensures
        row_cells(f, y, n) == row_cells(g, y, n),
    decreases n,
{
    if n > 0 {
        lemma_row_cells_same(f, g, y, (n - 1) as nat);
        let x = n - 1;
        assert(f.channel(x, y, 0) == g.channel(x, y, 0));
        assert(f.channel(x, y, 1) == g.channel(x, y, 1));
        assert(f.channel(x, y, 2) == g.channel(x, y, 2));
        assert(f.channel(x, y + 1, 0) == g.channel(x, y + 1, 0));
        assert(f.channel(x, y + 1, 1) == g.channel(x, y + 1, 1));
        assert(f.channel(x, y + 1, 2) == g.channel(x, y + 1, 2));
        assert(cell(f, x, y) == cell(g, x, y));
    }
}

proof fn lemma_text_rows_same(f: Frame, g: Frame, k: nat)
    requires
        same_shown_colours(f, g),
        k <= f.h() / 2,
    ensures
        text_rows(f, k) == text_rows(g, k),
    decreases k,
{
    if k > 0 {
        lemma_text_rows_same(f, g, (k - 1) as nat);
        lemma_row_cells_same(f, g, 2 * (k - 1), f.w() as nat);
    }
}

/// Rendering reads only the colours it shows: the alpha channel, and the last
/// pixel row of an odd-height frame, never change the output.
pub proof fn lemma_render_reads_shown_colours_only(f: Frame, g: Frame)
    requires
        same_shown_colours(f, g),
    ensures
        rendered(f) == rendered(g),
{
    lemma_text_rows_same(f, g, (f.h() / 2) as nat);
}

/// The text of row `y`'s cells, column by column from the left: column `x`
/// shows pixel `(x, y + 1)` as foreground and pixel `(x, y)` as background.
proof fn lemma_row_cells_by_column(f: Frame, y: int, n: nat)
    ensures
        row_cells(f, y, n) == Seq::new(
            n,
            |x: int|
                "\x1b[38;2;"@ + decimal(f.channel(x, y + 1, 0) as nat) + ";"@ + decimal(
                    f.channel(x, y + 1, 1) as nat,
                ) + ";"@ + decimal(f.channel(x, y + 1, 2) as nat) + "m\x1b[48;2;"@ + decimal(
                    f.channel(x, y, 0) as nat,
                ) + ";"@ + decimal(f.channel(x, y, 1) as nat) + ";"@ + decimal(
                    f.channel(x, y, 2) as nat,
                ) + "m\u{2584}"@,
        ).flatten(),
    decreases n,
{
    let cells = Seq::new(
        n,
        |x: int|
            "\x1b[38;2;"@ + decimal(f.channel(x, y + 1, 0) as nat) + ";"@ + decimal(
                f.channel(x, y + 1, 1) as nat,
            ) + ";"@ + decimal(f.channel(x, y + 1, 2) as nat) + "m\x1b[48;2;"@ + decimal(
                f.channel(x, y, 0) as nat,
            ) + ";"@ + decimal(f.channel(x, y, 1) as nat) + ";"@ + decimal(f.channel(x, y, 2) as nat)
                + "m\u{2584}"@,
    );
    if n == 0 {
        assert(cells =~= Seq::<Seq<char>>::empty());
    } else {
        lemma_row_cells_by_column(f, y, (n - 1) as nat);
        let before = Seq::new(
            (n - 1) as nat,
            |x: int|
                "\x1b[38;2;"@ + decimal(f.channel(x, y + 1, 0) as nat) + ";"@ + decimal(
                    f.channel(x, y + 1, 1) as nat,
                ) + ";"@ + decimal(f.channel(x, y + 1, 2) as nat) + "m\x1b[48;2;"@ + decimal(
                    f.channel(x, y, 0) as nat,
                ) + ";"@ + decimal(f.channel(x, y, 1) as nat) + ";"@ + decimal(
                    f.channel(x, y, 2) as nat,
                ) + "m\u{2584}"@,
        );
        assert(cells =~= before.push(cells[n - 1]));
        before.lemma_flatten_push(cells[n - 1]);
        assert(cell(f, n - 1, y) == cells[n - 1]);
    }
}

/// The output of `render_frame`, laid out: the header, then for each pair of
/// pixel rows `2k` (upper, background) and `2k + 1` (lower, foreground), one
/// cell per pixel column from left to right followed by a colour reset and a
/// newline, then the footer.
pub proof fn lemma_render_layout(f: Frame)
    ensures
        rendered(f) == "\x1b[?2026h"@ + "\x1b[H"@ + Seq::new(
            (f.h() / 2) as nat,
            |k: int|
                Seq::new(
                    f.w() as nat,
                    |x: int|
                        "\x1b[38;2;"@ + decimal(f.channel(x, 2 * k + 1, 0) as nat) + ";"@ + decimal(
                            f.channel(x, 2 * k + 1, 1) as nat,
                        ) + ";"@ + decimal(f.channel(x, 2 * k + 1, 2) as nat) + "m\x1b[48;2;"@
                            + decimal(f.channel(x, 2 * k, 0) as nat) + ";"@ + decimal(
                            f.channel(x, 2 * k, 1) as nat,
                        ) + ";"@ + decimal(f.channel(x, 2 * k, 2) as nat) + "m\u{2584}"@,
                ).flatten() + "\x1b[0m\n"@,
        ).flatten() + "\x1b[0J\x1b[?2026l"@,
{
    lemma_text_rows_by_row(f, (f.h() / 2) as nat);
}

proof fn lemma_text_rows_by_row(f: Frame, m: nat)
    ensures
        text_rows(f, m) == Seq::new(
            m,
            |k: int|
                Seq::new(
                    f.w() as nat,
                    |x: int|
                        "\x1b[38;2;"@ + decimal(f.channel(x, 2 * k + 1, 0) as nat) + ";"@ + decimal(
                            f.channel(x, 2 * k + 1, 1) as nat,
                        ) + ";"@ + decimal(f.channel(x, 2 * k + 1, 2) as nat) + "m\x1b[48;2;"@
                            + decimal(f.channel(x, 2 * k, 0) as nat) + ";"@ + decimal(
                            f.channel(x, 2 * k, 1) as nat,
                        ) + ";"@ + decimal(f.channel(x, 2 * k, 2) as nat) + "m\u{2584}"@,
                ).flatten() + "\x1b[0m\n"@,
        ).flatten(),
    decreases m,
{
    let rows = Seq::new(
        m,
        |k: int|
            Seq::new(
                f.w() as nat,
                |x: int|
                    "\x1b[38;2;"@ + decimal(f.channel(x, 2 * k + 1, 0) as nat) + ";"@ + decimal(
                        f.channel(x, 2 * k + 1, 1) as nat,
                    ) + ";"@ + decimal(f.channel(x, 2 * k + 1, 2) as nat) + "m\x1b[48;2;"@
                        + decimal(f.channel(x, 2 * k, 0) as nat) + ";"@ + decimal(
                        f.channel(x, 2 * k, 1) as nat,
                    ) + ";"@ + decimal(f.channel(x, 2 * k, 2) as nat) + "m\u{2584}"@,
            ).flatten() + "\x1b[0m\n"@,
    );
    if m == 0 {
        assert(rows =~= Seq::<Seq<char>>::empty());
    } else {
        lemma_text_rows_by_row(f, (m - 1) as nat);
        let before = Seq::new(
            (m - 1) as nat,
            |k: int|
                Seq::new(
                    f.w() as nat,
                    |x: int|
                        "\x1b[38;2;"@ + decimal(f.channel(x, 2 * k + 1, 0) as nat) + ";"@ + decimal(
                            f.channel(x, 2 * k + 1, 1) as nat,
                        ) + ";"@ + decimal(f.channel(x, 2 * k + 1, 2) as nat) + "m\x1b[48;2;"@
                            + decimal(f.channel(x, 2 * k, 0) as nat) + ";"@ + decimal(
                            f.channel(x, 2 * k, 1) as nat,
                        ) + ";"@ + decimal(f.channel(x, 2 * k, 2) as nat) + "m\u{2584}"@,
                ).flatten() + "\x1b[0m\n"@,
        );
        assert(rows =~= before.push(rows[m - 1]));
        before.lemma_flatten_push(rows[m - 1]);
        lemma_row_cells_by_column(f, 2 * (m - 1), f.w() as nat);
        assert(2 * (m - 1) + 1 == 2 * (m - 1) + 1);
        assert(rows[m - 1] == row_cells(f, 2 * (m - 1), f.w() as nat) + row_end());
    }
}

} // verus!
