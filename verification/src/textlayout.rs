//! Multi-line text layout: wrapping, elision and alignment over a measured
//! font.
//!
//! The engine works in integer physical pixels.  A font is modelled by its
//! line height and a per-character advance table; measuring a run of text is
//! summing the advances (plus letter spacing).  Word wrapping asks for the
//! largest break index whose prefix fits a maximum width; elision replaces
//! the tail of an overlong line by an ellipsis.

use vstd::prelude::*;

verus! {

/// The ellipsis appended to elided lines.
pub const ELLIPSIS: char = '…';

/// Upper bound on the length of text handed to the layout engine.
pub const MAX_TEXT_LEN: usize = 0x0800_0000;

/// Upper bound on widths, heights and advances, in physical pixels.
pub const MAX_DIMENSION: i64 = 0x1000_0000;

/// Horizontal alignment of each laid-out line inside the maximum width.
#[derive(Clone, Copy, PartialEq, Eq, Structural, Debug)]
pub enum TextHorizontalAlignment {
    /// Lines start at x = 0.
    Left,
    /// Lines are centered inside the maximum width.
    Center,
    /// Lines end at the maximum width.
    Right,
}

/// Vertical alignment of the text block inside the maximum height.
#[derive(Clone, Copy, PartialEq, Eq, Structural, Debug)]
pub enum TextVerticalAlignment {
    /// The first baseline is at y = 0.
    Top,
    /// The block is centered inside the maximum height.
    Center,
    /// The block ends at the maximum height.
    Bottom,
}

/// Whether lines are broken at word boundaries to fit the maximum width.
#[derive(Clone, Copy, PartialEq, Eq, Structural, Debug)]
pub enum TextWrap {
    /// Lines are cut only at newlines.
    NoWrap,
    /// Lines are additionally broken at word boundaries.
    WordWrap,
}

/// What happens to text that exceeds the maximum width or height.
#[derive(Clone, Copy, PartialEq, Eq, Structural, Debug)]
pub enum TextOverflow {
    /// Overlong lines are cut.
    Clip,
    /// Overlong lines are cut and end in an ellipsis.
    Elide,
}

/// A measured font: a line height and character advances, all in physical
/// pixels.  The advance of a character is the table entry for it, or the
/// default advance, plus the letter spacing.
pub struct TextFont {
    /// Height of one line; the distance between consecutive baselines.
    pub height: i64,
    /// Advance for characters without a table entry.
    pub default_advance: i64,
    /// Per-character advances; the first matching entry wins.
    pub advances: Vec<(char, i64)>,
    /// Extra advance added after every character.
    pub letter_spacing: i64,
}

impl TextFont {
    /// Well-formedness: a positive line height and advances that stay
    /// nonnegative and bounded once letter spacing is added.
    pub open spec fn wf(&self) -> bool {
        &&& 0 < self.height <= MAX_DIMENSION
        &&& -MAX_DIMENSION <= self.letter_spacing <= MAX_DIMENSION
        &&& 0 <= self.default_advance + self.letter_spacing <= MAX_DIMENSION
        &&& forall|i: int|
            0 <= i < self.advances@.len() ==> 0 <= #[trigger] self.advances@[i].1
                + self.letter_spacing <= MAX_DIMENSION
    }

    /// The advance table entry for `c`, or the default advance.
    pub open spec fn raw_advance(&self, c: char) -> int {
        self.raw_advance_from(c, 0)
    }

    /// The first advance table entry for `c` at or after position `i`.
    pub open spec fn raw_advance_from(&self, c: char, i: int) -> int
        decreases self.advances@.len() - i,
    {
        if i < 0 || i >= self.advances@.len() {
            self.default_advance as int
        } else if self.advances@[i].0 == c {
            self.advances@[i].1 as int
        } else {
            self.raw_advance_from(c, i + 1)
        }
    }

    /// The advance of one character: table entry plus letter spacing.
    pub open spec fn advance(&self, c: char) -> int {
        self.raw_advance(c) + self.letter_spacing
    }

    /// The measured width of a run of text: the sum of its advances.
    pub open spec fn measure(&self, s: Seq<char>) -> int
        decreases s.len(),
    {
        if s.len() == 0 {
            0
        } else {
            self.measure(s.drop_last()) + self.advance(s.last())
        }
    }

    /// Every advance of a well-formed font lies in `[0, MAX_DIMENSION]`.
    pub proof fn lemma_advance_bounds(&self, c: char)
        requires
            self.wf(),
        ensures
            0 <= self.advance(c) <= MAX_DIMENSION,
    {
        self.lemma_raw_advance_from_bounds(c, 0);
    }

    proof fn lemma_raw_advance_from_bounds(&self, c: char, i: int)
        requires
            self.wf(),
        ensures
            0 <= self.raw_advance_from(c, i) + self.letter_spacing <= MAX_DIMENSION,
        decreases self.advances@.len() - i,
    {
        if i < 0 || i >= self.advances@.len() {
        } else if self.advances@[i].0 == c {
        } else {
            self.lemma_raw_advance_from_bounds(c, i + 1);
        }
    }

    /// A measured width is nonnegative and at most the length of the run
    /// times the maximum advance.
    pub proof fn lemma_measure_bounds(&self, s: Seq<char>)
        requires
            self.wf(),
        ensures
            0 <= self.measure(s) <= s.len() * MAX_DIMENSION,
        decreases s.len(),
    {
        if s.len() == 0 {
        } else {
            self.lemma_measure_bounds(s.drop_last());
            self.lemma_advance_bounds(s.last());
            assert((s.len() - 1) * MAX_DIMENSION + MAX_DIMENSION == s.len() * MAX_DIMENSION)
                by (nonlinear_arith);
        }
    }

    /// Measuring one more character adds its advance.
    pub proof fn lemma_measure_snoc(&self, s: Seq<char>, c: char)
        ensures
            self.measure(s.push(c)) == self.measure(s) + self.advance(c),
    {
        assert(s.push(c).drop_last() =~= s);
        assert(s.push(c).last() == c);
    }

    /// Exec advance lookup, equal to the `advance` spec function.
    pub fn advance_of(&self, c: char) -> (r: i64)
        requires
            self.wf(),
        ensures
            r == self.advance(c),
            0 <= r <= MAX_DIMENSION,
    {
        proof {
            self.lemma_advance_bounds(c);
        }
        let n = self.advances.len();
        let mut i: usize = 0;
        while i < n
            invariant
                self.wf(),
                n == self.advances@.len(),
                0 <= i <= n,
                self.raw_advance(c) == self.raw_advance_from(c, i as int),
            decreases n - i,
        {
            let (ec, ea) = self.advances[i];
            if ec == c {
                return ea + self.letter_spacing;
            }
            i += 1;
        }
        self.default_advance + self.letter_spacing
    }

    /// Exec measurement of `text[start..end]`, equal to the `measure` spec
    /// function on that range.
    pub fn measure_range(&self, text: &Vec<char>, start: usize, end: usize) -> (r: i64)
        requires
            self.wf(),
            start <= end <= text@.len(),
            text@.len() <= MAX_TEXT_LEN,
        ensures
            r == self.measure(text@.subrange(start as int, end as int)),
            0 <= r <= (end - start) * MAX_DIMENSION,
    {
        let mut acc: i64 = 0;
        let mut i: usize = start;
        proof {
            assert(text@.subrange(start as int, start as int) =~= Seq::<char>::empty());
        }
        while i < end
            invariant
                self.wf(),
                start <= i <= end <= text@.len(),
                text@.len() <= MAX_TEXT_LEN,
                acc == self.measure(text@.subrange(start as int, i as int)),
                0 <= acc <= (i - start) * MAX_DIMENSION,
            decreases end - i,
        {
            let a = self.advance_of(text[i]);
            proof {
                let pre = text@.subrange(start as int, i as int);
                assert(text@.subrange(start as int, i as int + 1) =~= pre.push(text@[i as int]));
                self.lemma_measure_snoc(pre, text@[i as int]);
                assert((i - start) * MAX_DIMENSION + MAX_DIMENSION == (i + 1 - start)
                    * MAX_DIMENSION) by (nonlinear_arith);
            }
            acc = acc + a;
            i += 1;
        }
        acc
    }
}

/// The first newline at or after `start`, or the length of `s`.
pub open spec fn spec_find_newline(s: Seq<char>, start: int) -> int
    decreases s.len() - start,
{
    if start < 0 || start >= s.len() {
        s.len() as int
    } else if s[start] == '\n' {
        start
    } else {
        spec_find_newline(s, start + 1)
    }
}

/// `spec_find_newline` stays within `[start, s.len()]` and really is the
/// first newline.
pub proof fn lemma_find_newline(s: Seq<char>, start: int)
    requires
        0 <= start <= s.len(),
    ensures
        start <= spec_find_newline(s, start) <= s.len(),
        spec_find_newline(s, start) < s.len() ==> s[spec_find_newline(s, start)] == '\n',
        forall|j: int|
            start <= j < spec_find_newline(s, start) ==> s[j] != '\n',
    decreases s.len() - start,
{
    if start >= s.len() {
    } else if s[start] == '\n' {
    } else {
        lemma_find_newline(s, start + 1);
    }
}

/// Exec search for the first newline at or after `start`.
pub fn find_newline(text: &Vec<char>, start: usize) -> (r: usize)
    requires
        start <= text@.len(),
    ensures
        r == spec_find_newline(text@, start as int),
        start <= r <= text@.len(),
{
    let n = text.len();
    let mut i: usize = start;
    while i < n
        invariant
            start <= i <= n,
            n == text@.len(),
            spec_find_newline(text@, start as int) == spec_find_newline(text@, i as int),
        decreases n - i,
    {
        if text[i] == '\n' {
            return i;
        }
        i += 1;
    }
    n
}

/// One step of the break search: scanning from `i` with accumulated width
/// `acc` and the last seen break opportunity `last_break`.  The result is
/// the break index: just after a newline; at the last break opportunity
/// when the next character would exceed `max_width`; or the end of the
/// text.  Spaces never trigger the width check (trailing spaces are
/// invisible), but open a break opportunity after themselves.
pub open spec fn break_scan(
    font: TextFont,
    s: Seq<char>,
    i: int,
    acc: int,
    last_break: int,
    max_width: int,
) -> int
    decreases s.len() - i,
{
    if i < 0 || i >= s.len() {
        s.len() as int
    } else if s[i] == '\n' {
        i + 1
    } else if s[i] == ' ' {
        break_scan(font, s, i + 1, acc + font.advance(' '), i + 1, max_width)
    } else if acc + font.advance(s[i]) > max_width {
        last_break
    } else {
        break_scan(font, s, i + 1, acc + font.advance(s[i]), last_break, max_width)
    }
}

/// The break index for a line starting at `start`: where the next line
/// begins.  Equal to `start` itself when not even the first word fits.
pub open spec fn spec_break_index(font: TextFont, s: Seq<char>, start: int, max_width: int) -> int {
    break_scan(font, s, start, 0, start, max_width)
}

/// Exec break search, equal to `spec_break_index`.
pub fn break_index(font: &TextFont, text: &Vec<char>, start: usize, max_width: i64) -> (r: usize)
    requires
        font.wf(),
        start <= text@.len(),
        text@.len() <= MAX_TEXT_LEN,
        0 <= max_width <= MAX_DIMENSION,
    ensures
        r == spec_break_index(*font, text@, start as int, max_width as int),
        start <= r <= text@.len(),
{
    let n = text.len();
    let mut i: usize = start;
    let mut acc: i64 = 0;
    let mut last_break: usize = start;
    while i < n
        invariant
            font.wf(),
            start <= last_break <= i <= n,
            n == text@.len(),
            n <= MAX_TEXT_LEN,
            0 <= max_width <= MAX_DIMENSION,
            0 <= acc <= (i - start) * MAX_DIMENSION,
            spec_break_index(*font, text@, start as int, max_width as int) == break_scan(
                *font,
                text@,
                i as int,
                acc as int,
                last_break as int,
                max_width as int,
            ),
        decreases n - i,
    {
        let c = text[i];
        proof {
            font.lemma_advance_bounds(c);
            assert((i - start) * MAX_DIMENSION + MAX_DIMENSION == (i + 1 - start) * MAX_DIMENSION)
                by (nonlinear_arith);
            assert((i - start) * MAX_DIMENSION <= MAX_TEXT_LEN * MAX_DIMENSION)
                by (nonlinear_arith)
                requires
                    0 <= i - start <= MAX_TEXT_LEN,
            ;
        }
        if c == '\n' {
            return i + 1;
        } else if c == ' ' {
            acc = acc + font.advance_of(' ');
            i += 1;
            last_break = i;
        } else {
            let a = font.advance_of(c);
            if acc + a > max_width {
                return last_break;
            }
            acc = acc + a;
            i += 1;
        }
    }
    n
}

/// The number of lines when breaking at word boundaries under `max_width`.
/// The count stops where not even a word boundary fits, as the layout loop
/// does.
pub open spec fn count_lines_wrap(font: TextFont, s: Seq<char>, start: int, max_width: int) -> int
    decreases s.len() - start,
{
    if start < 0 || start >= s.len() {
        0
    } else {
        let idx = spec_break_index(font, s, start, max_width);
        if start < idx <= s.len() {
            1 + count_lines_wrap(font, s, idx, max_width)
        } else {
            0
        }
    }
}

/// The number of lines when breaking only at newlines.
pub open spec fn count_lines_nowrap(s: Seq<char>, start: int) -> int
    decreases s.len() - start,
{
    if start < 0 || start >= s.len() {
        0
    } else {
        let nl = spec_find_newline(s, start);
        if nl >= s.len() {
            1
        } else if nl < start {
            1
        } else {
            1 + count_lines_nowrap(s, nl + 1)
        }
    }
}

/// Line counts never exceed the number of characters counted from `start`.
pub proof fn lemma_count_lines_wrap_bound(font: TextFont, s: Seq<char>, start: int, max_width: int)
    requires
        0 <= start,
    ensures
        0 <= count_lines_wrap(font, s, start, max_width) <= s.len() - start
            || count_lines_wrap(font, s, start, max_width) == 0,
    decreases s.len() - start,
{
    if start >= s.len() {
    } else {
        let idx = spec_break_index(font, s, start, max_width);
        if start < idx <= s.len() {
            lemma_count_lines_wrap_bound(font, s, idx, max_width);
        }
    }
}

/// Line counts never exceed the number of characters counted from `start`.
pub proof fn lemma_count_lines_nowrap_bound(s: Seq<char>, start: int)
    requires
        0 <= start,
    ensures
        0 <= count_lines_nowrap(s, start) <= s.len() - start || count_lines_nowrap(s, start) == 0,
    decreases s.len() - start,
{
    if start >= s.len() {
    } else {
        let nl = spec_find_newline(s, start);
        lemma_find_newline(s, start);
        if nl < s.len() && nl >= start {
            lemma_count_lines_nowrap_bound(s, nl + 1);
        }
    }
}

/// The larger of two integers.
pub open spec fn int_max(a: int, b: int) -> int {
    if a >= b {
        a
    } else {
        b
    }
}

/// The smaller of two integers.
pub open spec fn int_min(a: int, b: int) -> int {
    if a <= b {
        a
    } else {
        b
    }
}

/// Halving with truncation toward zero, as the layout arithmetic uses.
pub open spec fn div2(a: int) -> int {
    if a >= 0 {
        a / 2
    } else {
        -((-a) / 2)
    }
}

/// The source text of a line consumed from `start` to `end`: the consumed
/// range without a trailing newline.
pub open spec fn line_src(s: Seq<char>, start: int, end: int) -> Seq<char> {
    if start < end <= s.len() && s[end - 1] == '\n' {
        s.subrange(start, end - 1)
    } else {
        s.subrange(start, end)
    }
}

/// The widest line when breaking at word boundaries under `max_width`.
pub open spec fn max_line_width_wrap(font: TextFont, s: Seq<char>, start: int, max_width: int) -> int
    decreases s.len() - start,
{
    if start < 0 || start >= s.len() {
        0
    } else {
        let idx = spec_break_index(font, s, start, max_width);
        if start < idx <= s.len() {
            int_max(
                font.measure(line_src(s, start, idx)),
                max_line_width_wrap(font, s, idx, max_width),
            )
        } else {
            0
        }
    }
}

/// The widest line when breaking only at newlines.
pub open spec fn max_line_width_nowrap(font: TextFont, s: Seq<char>, start: int) -> int
    decreases s.len() - start,
{
    if start < 0 || start >= s.len() {
        0
    } else {
        let nl = spec_find_newline(s, start);
        if nl >= s.len() {
            font.measure(s.subrange(start, s.len() as int))
        } else if nl < start {
            0
        } else {
            int_max(
                font.measure(s.subrange(start, nl)),
                max_line_width_nowrap(font, s, nl + 1),
            )
        }
    }
}

/// Both width maxima are nonnegative.
pub proof fn lemma_max_line_width_wrap_nonneg(
    font: TextFont,
    s: Seq<char>,
    start: int,
    max_width: int,
)
    requires
        font.wf(),
        0 <= start,
    ensures
        max_line_width_wrap(font, s, start, max_width) >= 0,
    decreases s.len() - start,
{
    if start >= s.len() {
    } else {
        let idx = spec_break_index(font, s, start, max_width);
        if start < idx <= s.len() {
            font.lemma_measure_bounds(line_src(s, start, idx));
            lemma_max_line_width_wrap_nonneg(font, s, idx, max_width);
        }
    }
}

/// Both width maxima are nonnegative.
pub proof fn lemma_max_line_width_nowrap_nonneg(font: TextFont, s: Seq<char>, start: int)
    requires
        font.wf(),
        0 <= start,
    ensures
        max_line_width_nowrap(font, s, start) >= 0,
    decreases s.len() - start,
{
    if start >= s.len() {
    } else {
        let nl = spec_find_newline(s, start);
        lemma_find_newline(s, start);
        if nl >= s.len() {
            font.lemma_measure_bounds(s.subrange(start, s.len() as int));
        } else {
            font.lemma_measure_bounds(s.subrange(start, nl));
            lemma_max_line_width_nowrap_nonneg(font, s, nl + 1);
        }
    }
}

/// The size of a laid-out block of text: the width of its widest line and
/// the number of lines times the font height.  With a maximum width, lines
/// break at word boundaries as the layout does; without one, only at
/// newlines.
pub fn text_size(font: &TextFont, text: &Vec<char>, max_width: Option<i64>) -> (r: (i64, i64))
    requires
        font.wf(),
        text@.len() <= MAX_TEXT_LEN,
        match max_width {
            Some(w) => 0 <= w <= MAX_DIMENSION,
            None => true,
        },
    ensures
        match max_width {
            Some(w) => {
                &&& r.0 == max_line_width_wrap(*font, text@, 0, w as int)
                &&& r.1 == count_lines_wrap(*font, text@, 0, w as int) * font.height
            },
            None => {
                &&& r.0 == max_line_width_nowrap(*font, text@, 0)
                &&& r.1 == count_lines_nowrap(text@, 0) * font.height
            },
        },
        0 <= r.0 <= MAX_TEXT_LEN * MAX_DIMENSION,
        0 <= r.1 <= (MAX_TEXT_LEN + 1) * MAX_DIMENSION,
{
    let n = text.len();
    let mut width: i64 = 0;
    let mut count: i64 = 0;
    let mut start: usize = 0;
    match max_width {
        Some(w) => {
            proof {
                lemma_max_line_width_wrap_nonneg(*font, text@, 0, w as int);
            }
            loop
                invariant
                    font.wf(),
                    0 <= start <= n,
                    n == text@.len(),
                    n <= MAX_TEXT_LEN,
                    0 <= w <= MAX_DIMENSION,
                    0 <= count <= start,
                    0 <= width <= MAX_TEXT_LEN * MAX_DIMENSION,
                    count_lines_wrap(*font, text@, 0, w as int) == count + count_lines_wrap(
                        *font,
                        text@,
                        start as int,
                        w as int,
                    ),
                    max_line_width_wrap(*font, text@, 0, w as int) == int_max(
                        width as int,
                        max_line_width_wrap(*font, text@, start as int, w as int),
                    ),
                ensures
                    0 <= count <= n,
                    0 <= width <= MAX_TEXT_LEN * MAX_DIMENSION,
                    count_lines_wrap(*font, text@, 0, w as int) == count,
                    max_line_width_wrap(*font, text@, 0, w as int) == width,
                decreases n - start,
            {
                if start >= n {
                    break;
                }
                let idx = break_index(font, text, start, w);
                if idx == start {
                    // Not even one word fits: the remaining text adds no
                    // lines, matching the layout loop.
                    break;
                }
                let cend = if text[idx - 1] == '\n' {
                    idx - 1
                } else {
                    idx
                };
                let lw = font.measure_range(text, start, cend);
                proof {
                    assert(line_src(text@, start as int, idx as int) =~= text@.subrange(
                        start as int,
                        cend as int,
                    ));
                    lemma_max_line_width_wrap_nonneg(*font, text@, idx as int, w as int);
                    assert((cend - start) * MAX_DIMENSION <= MAX_TEXT_LEN * MAX_DIMENSION)
                        by (nonlinear_arith)
                        requires
                            0 <= cend - start <= MAX_TEXT_LEN,
                    ;
                }
                if lw > width {
                    width = lw;
                }
                count = count + 1;
                start = idx;
            }
            let h = count_times_height(count, font.height);
            (width, h)
        },
        None => {
            proof {
                lemma_max_line_width_nowrap_nonneg(*font, text@, 0);
            }
            loop
                invariant
                    font.wf(),
                    0 <= start <= n,
                    n == text@.len(),
                    n <= MAX_TEXT_LEN,
                    0 <= count <= start + 1,
                    0 <= width <= MAX_TEXT_LEN * MAX_DIMENSION,
                    count_lines_nowrap(text@, 0) == count + count_lines_nowrap(
                        text@,
                        start as int,
                    ),
                    max_line_width_nowrap(*font, text@, 0) == int_max(
                        width as int,
                        max_line_width_nowrap(*font, text@, start as int),
                    ),
                ensures
                    0 <= count <= n + 1,
                    0 <= width <= MAX_TEXT_LEN * MAX_DIMENSION,
                    count_lines_nowrap(text@, 0) == count,
                    max_line_width_nowrap(*font, text@, 0) == width,
                decreases n - start,
            {
                if start >= n {
                    break;
                }
                let nl = find_newline(text, start);
                proof {
                    lemma_find_newline(text@, start as int);
                }
                if nl >= n {
                    let lw = font.measure_range(text, start, n);
                    proof {
                        assert((n - start) * MAX_DIMENSION <= MAX_TEXT_LEN * MAX_DIMENSION)
                            by (nonlinear_arith)
                            requires
                                0 <= n - start <= MAX_TEXT_LEN,
                        ;
                    }
                    if lw > width {
                        width = lw;
                    }
                    count = count + 1;
                    start = n;
                    break;
                } else {
                    let lw = font.measure_range(text, start, nl);
                    proof {
                        lemma_max_line_width_nowrap_nonneg(*font, text@, nl as int + 1);
                        assert((nl - start) * MAX_DIMENSION <= MAX_TEXT_LEN * MAX_DIMENSION)
                            by (nonlinear_arith)
                            requires
                                0 <= nl - start <= MAX_TEXT_LEN,
                        ;
                    }
                    if lw > width {
                        width = lw;
                    }
                    count = count + 1;
                    start = nl + 1;
                }
            }
            let h = count_times_height(count, font.height);
            (width, h)
        },
    }
}

/// One laid-out line handed to the caller: its text (with the ellipsis
/// already appended when elided), its position, the consumed source range
/// and its measured width.
pub struct TextLine {
    /// The characters of the line as drawn.
    pub chars: Vec<char>,
    /// The x position given by the horizontal alignment.
    pub x: i64,
    /// The baseline y position.
    pub y: i64,
    /// Index of the first consumed source character.
    pub start: usize,
    /// Index one past the last consumed source character (a consumed
    /// trailing newline included).
    pub end: usize,
    /// The measured width of `chars`.
    pub width: i64,
    /// Whether the line was cut and given a trailing ellipsis.
    pub elided: bool,
}

/// The x position of a line of width `w` under `halign` in `max_width`.
pub open spec fn spec_align_x(halign: TextHorizontalAlignment, max_width: int, w: int) -> int {
    match halign {
        TextHorizontalAlignment::Left => 0,
        TextHorizontalAlignment::Center => div2(max_width - int_min(max_width, w)),
        TextHorizontalAlignment::Right => max_width - int_min(max_width, w),
    }
}

/// The height of the whole block of text, as the vertical alignment uses
/// it: one font height in single-line mode, otherwise the pre-measured
/// line count times the font height.
pub open spec fn spec_text_block_height(
    font: TextFont,
    s: Seq<char>,
    wrap: TextWrap,
    max_width: int,
    single_line: bool,
) -> int {
    if single_line {
        font.height as int
    } else if wrap == TextWrap::WordWrap {
        count_lines_wrap(font, s, 0, max_width) * font.height
    } else {
        count_lines_nowrap(s, 0) * font.height
    }
}

/// The y position of the first baseline under `valign`.
pub open spec fn spec_init_y(
    valign: TextVerticalAlignment,
    max_height: int,
    block_height: int,
) -> int {
    match valign {
        TextVerticalAlignment::Top => 0,
        TextVerticalAlignment::Center => div2(max_height - block_height),
        TextVerticalAlignment::Bottom => max_height - block_height,
    }
}

/// Everything the layout promises of one emitted line: `ln` is the line
/// emitted at position `i` of the output.
pub open spec fn line_ok(
    ln: TextLine,
    i: int,
    init_y: int,
    font: TextFont,
    text: Seq<char>,
    max_width: int,
    max_height: int,
    halign: TextHorizontalAlignment,
) -> bool {
    let src = line_src(text, ln.start as int, ln.end as int);
    &&& ln.y == init_y + i * font.height
    &&& ln.y + font.height <= max_height
    &&& ln.width == font.measure(ln.chars@)
    &&& ln.x == spec_align_x(halign, max_width, ln.width as int)
    &&& ln.start < ln.end <= text.len()
    &&& (ln.elided ==> {
        let cut = ln.chars@.len() - 1;
        &&& ln.chars@.len() > 0
        &&& ln.chars@.last() == ELLIPSIS
        &&& (font.advance(ELLIPSIS) <= max_width ==> ln.width <= max_width)
        &&& cut <= src.len()
        &&& ln.chars@ == src.take(cut).push(ELLIPSIS)
        &&& (cut < src.len() ==> font.measure(src.take(cut + 1)) >= max_width - font.advance(
            ELLIPSIS,
        ))
        &&& (cut > 0 ==> font.measure(src.take(cut)) < max_width - font.advance(ELLIPSIS))
    })
    &&& (!ln.elided ==> {
        let cut = ln.chars@.len() as int;
        &&& cut <= src.len()
        &&& ln.chars@ == src.take(cut)
        &&& (cut < src.len() ==> font.measure(src.take(cut + 1)) >= max_width && (cut > 0
            ==> font.measure(src.take(cut)) < max_width))
    })
    &&& (!ln.elided && font.measure(src) <= max_width ==> ln.chars@ == src)
}

/// Elision covers every overlong source line: the heart of the elision
/// guarantee under no-wrap.
pub open spec fn line_elision_ok(ln: TextLine, font: TextFont, text: Seq<char>, max_width: int) -> bool {
    font.measure(line_src(text, ln.start as int, ln.end as int)) > max_width ==> ln.elided
}

/// Where a line ends when lines are cut only at newlines: at the next
/// newline (consumed), or at the end of the text — the whole text in
/// single-line mode.
pub open spec fn spec_line_end_nowrap(text: Seq<char>, start: int, single_line: bool) -> int {
    if single_line {
        text.len() as int
    } else {
        let nl = spec_find_newline(text, start);
        if nl >= text.len() {
            text.len() as int
        } else {
            nl + 1
        }
    }
}

/// The consumed range of every emitted line is determined: under word
/// wrap — while, when eliding, two more baselines still fit — the break
/// search decides it; otherwise the next newline does.
pub open spec fn line_end_ok(
    ln: TextLine,
    font: TextFont,
    text: Seq<char>,
    max_width: int,
    max_height: int,
    wrap: TextWrap,
    overflow: TextOverflow,
    single_line: bool,
) -> bool {
    if wrap == TextWrap::WordWrap && (overflow != TextOverflow::Elide || ln.y + 2 * font.height
        <= max_height) {
        ln.end == spec_break_index(font, text, ln.start as int, max_width)
    } else {
        ln.end == spec_line_end_nowrap(text, ln.start as int, single_line)
    }
}

/// When a line carries the ellipsis: never when clipping (or on a
/// word-wrapped line), and under Elide exactly when the source line is
/// overlong or it is the forced last line — more text follows but no
/// further baseline fits.
pub open spec fn line_elide_mode_ok(
    ln: TextLine,
    font: TextFont,
    text: Seq<char>,
    max_width: int,
    max_height: int,
    wrap: TextWrap,
    overflow: TextOverflow,
) -> bool {
    if wrap == TextWrap::WordWrap && (overflow != TextOverflow::Elide || ln.y + 2 * font.height
        <= max_height) {
        !ln.elided
    } else {
        match overflow {
            TextOverflow::Clip => !ln.elided,
            TextOverflow::Elide => ln.elided == (font.measure(
                line_src(text, ln.start as int, ln.end as int),
            ) > max_width || (ln.end < text.len() && ln.y + 2 * font.height > max_height)),
        }
    }
}

/// Copy `text[start..end]` into a fresh vector.
fn copy_range(text: &Vec<char>, start: usize, end: usize) -> (r: Vec<char>)
    requires
        start <= end <= text@.len(),
    ensures
        r@ == text@.subrange(start as int, end as int),
{
    let mut out: Vec<char> = Vec::new();
    let mut i: usize = start;
    proof {
        assert(out@ =~= text@.subrange(start as int, start as int));
    }
    while i < end
        invariant
            start <= i <= end <= text@.len(),
            out@ == text@.subrange(start as int, i as int),
        decreases end - i,
    {
        out.push(text[i]);
        proof {
            assert(text@.subrange(start as int, i as int).push(text@[i as int]) =~= text@.subrange(
                start as int,
                i as int + 1,
            ));
        }
        i += 1;
    }
    out
}

/// Halving with truncation toward zero.
fn signed_half(v: i64) -> (r: i64)
    requires
        -0x4000_0000_0000_0000 < v < 0x4000_0000_0000_0000,
    ensures
        r == div2(v as int),
{
    if v >= 0 {
        ((v as u64) / 2) as i64
    } else {
        -((((-v) as u64) / 2) as i64)
    }
}

/// The x position of a line of width `w` under the given alignment.
fn align_x(halign: TextHorizontalAlignment, max_width: i64, w: i64) -> (r: i64)
    requires
        0 <= max_width <= MAX_DIMENSION,
        0 <= w,
    ensures
        r == spec_align_x(halign, max_width as int, w as int),
{
    match halign {
        TextHorizontalAlignment::Left => 0,
        TextHorizontalAlignment::Center => {
            let m = if w <= max_width {
                w
            } else {
                max_width
            };
            signed_half(max_width - m)
        },
        TextHorizontalAlignment::Right => {
            let m = if w <= max_width {
                w
            } else {
                max_width
            };
            max_width - m
        },
    }
}

/// The first index in `[start, cend)` at which the running width reaches
/// `limit`, if any: where clipping or elision cuts the line.
fn elision_cut(font: &TextFont, text: &Vec<char>, start: usize, cend: usize, limit: i64) -> (r:
    Option<usize>)
    requires
        font.wf(),
        start <= cend <= text@.len(),
        text@.len() <= MAX_TEXT_LEN,
        -0x2000_0000 <= limit <= 0x2000_0000,
    ensures
        match r {
            Some(j) => {
                &&& start <= j < cend
                &&& font.measure(text@.subrange(start as int, j as int + 1)) >= limit
                &&& (j > start ==> font.measure(text@.subrange(start as int, j as int)) < limit)
            },
            None => font.measure(text@.subrange(start as int, cend as int)) < limit || cend
                == start,
        },
{
    let mut acc: i64 = 0;
    let mut j: usize = start;
    proof {
        assert(text@.subrange(start as int, start as int) =~= Seq::<char>::empty());
    }
    while j < cend
        invariant
            font.wf(),
            start <= j <= cend <= text@.len(),
            text@.len() <= MAX_TEXT_LEN,
            -0x2000_0000 <= limit <= 0x2000_0000,
            acc == font.measure(text@.subrange(start as int, j as int)),
            0 <= acc <= (j - start) * MAX_DIMENSION,
            acc < limit || j == start,
        decreases cend - j,
    {
        let a = font.advance_of(text[j]);
        proof {
            let pre = text@.subrange(start as int, j as int);
            assert(text@.subrange(start as int, j as int + 1) =~= pre.push(text@[j as int]));
            font.lemma_measure_snoc(pre, text@[j as int]);
            assert((j - start) * MAX_DIMENSION + MAX_DIMENSION == (j + 1 - start) * MAX_DIMENSION)
                by (nonlinear_arith);
            assert((j - start) * MAX_DIMENSION <= MAX_TEXT_LEN * MAX_DIMENSION)
                by (nonlinear_arith)
                requires
                    0 <= j - start <= MAX_TEXT_LEN,
            ;
        }
        if acc + a >= limit {
            return Some(j);
        }
        acc = acc + a;
        j += 1;
    }
    None
}

/// Multiply a line count by the font height without overflow.
fn count_times_height(count: i64, height: i64) -> (r: i64)
    requires
        0 <= count <= MAX_TEXT_LEN + 1,
        0 < height <= MAX_DIMENSION,
    ensures
        r == count * height,
        0 <= r <= (MAX_TEXT_LEN + 1) * MAX_DIMENSION,
{
    proof {
        assert(0 <= count * height <= (MAX_TEXT_LEN + 1) * MAX_DIMENSION) by (nonlinear_arith)
            requires
                0 <= count <= MAX_TEXT_LEN + 1,
                0 < height <= MAX_DIMENSION,
        ;
    }
    count * height
}

/// Build a line emitted whole: its text is the full source slice.
fn make_full_line(
    font: &TextFont,
    text: &Vec<char>,
    start: usize,
    cend: usize,
    index: usize,
    y: i64,
    max_width: i64,
    halign: TextHorizontalAlignment,
    Ghost(gi): Ghost<int>,
    Ghost(giy): Ghost<int>,
    Ghost(gmh): Ghost<int>,
) -> (line: TextLine)
    requires
        font.wf(),
        text@.len() <= MAX_TEXT_LEN,
        start <= cend <= text@.len(),
        start < index <= text@.len(),
        line_src(text@, start as int, index as int) == text@.subrange(
            start as int,
            cend as int,
        ),
        0 <= max_width <= MAX_DIMENSION,
        y == giy + gi * font.height,
        y + font.height <= gmh,
    ensures
        line_ok(line, gi, giy, *font, text@, max_width as int, gmh, halign),
        line.start == start,
        line.end == index,
        !line.elided,
        line.y == y,
        line.chars@ == line_src(text@, start as int, index as int),
{
    let chars = copy_range(text, start, cend);
    let w = font.measure_range(text, start, cend);
    let x = align_x(halign, max_width, w);
    let line = TextLine { chars, x, y, start, end: index, width: w, elided: false };
    proof {
        let src = line_src(text@, start as int, index as int);
        assert(src.take(src.len() as int) =~= src);
    }
    line
}

/// Build a line cut at the width limit: with a trailing ellipsis when
/// eliding, plainly when clipping.  `j` is the cut the width scan found.
fn make_cut_line(
    font: &TextFont,
    text: &Vec<char>,
    start: usize,
    j: usize,
    cend: usize,
    index: usize,
    y: i64,
    max_width: i64,
    ell_adv: i64,
    elide: bool,
    halign: TextHorizontalAlignment,
    Ghost(gi): Ghost<int>,
    Ghost(giy): Ghost<int>,
    Ghost(gmh): Ghost<int>,
) -> (line: TextLine)
    requires
        font.wf(),
        text@.len() <= MAX_TEXT_LEN,
        start <= j < cend <= text@.len(),
        start < index <= text@.len(),
        line_src(text@, start as int, index as int) == text@.subrange(
            start as int,
            cend as int,
        ),
        0 <= max_width <= MAX_DIMENSION,
        ell_adv == font.advance(ELLIPSIS),
        0 <= ell_adv <= MAX_DIMENSION,
        font.measure(text@.subrange(start as int, j as int + 1)) >= (if elide {
            max_width - ell_adv
        } else {
            max_width as int
        }),
        j > start ==> font.measure(text@.subrange(start as int, j as int)) < (if elide {
            max_width - ell_adv
        } else {
            max_width as int
        }),
        !elide ==> font.measure(text@.subrange(start as int, cend as int)) > max_width,
        y == giy + gi * font.height,
        y + font.height <= gmh,
    ensures
        line_ok(line, gi, giy, *font, text@, max_width as int, gmh, halign),
        line.start == start,
        line.end == index,
        line.elided == elide,
        line.y == y,
{
    let mut chars = copy_range(text, start, j);
    let wp = font.measure_range(text, start, j);
    let w_line: i64;
    if elide {
        proof {
            font.lemma_measure_snoc(text@.subrange(start as int, j as int), ELLIPSIS);
            if j == start {
                assert(text@.subrange(start as int, start as int) =~= Seq::<char>::empty());
            }
        }
        chars.push(ELLIPSIS);
        w_line = wp + ell_adv;
    } else {
        w_line = wp;
    }
    let x = align_x(halign, max_width, w_line);
    let line = TextLine { chars, x, y, start, end: index, width: w_line, elided: elide };
    proof {
        let src = line_src(text@, start as int, index as int);
        assert(src.take(j - start) =~= text@.subrange(start as int, j as int));
        assert(src.take(j - start + 1) =~= text@.subrange(start as int, j as int + 1));
    }
    line
}

/// Build the trailing elided line: the whole remaining source line with
/// the ellipsis appended, used when more text follows below the last
/// baseline that fits.
fn make_trailing_elided_line(
    font: &TextFont,
    text: &Vec<char>,
    start: usize,
    cend: usize,
    index: usize,
    y: i64,
    max_width: i64,
    ell_adv: i64,
    halign: TextHorizontalAlignment,
    Ghost(gi): Ghost<int>,
    Ghost(giy): Ghost<int>,
    Ghost(gmh): Ghost<int>,
) -> (line: TextLine)
    requires
        font.wf(),
        text@.len() <= MAX_TEXT_LEN,
        start <= cend <= text@.len(),
        start < index <= text@.len(),
        line_src(text@, start as int, index as int) == text@.subrange(
            start as int,
            cend as int,
        ),
        0 <= max_width <= MAX_DIMENSION,
        ell_adv == font.advance(ELLIPSIS),
        0 <= ell_adv <= MAX_DIMENSION,
        font.measure(text@.subrange(start as int, cend as int)) < max_width - ell_adv || cend
            == start,
        y == giy + gi * font.height,
        y + font.height <= gmh,
    ensures
        line_ok(line, gi, giy, *font, text@, max_width as int, gmh, halign),
        line.start == start,
        line.end == index,
        line.elided,
        line.y == y,
{
    let mut chars = copy_range(text, start, cend);
    let w_src = font.measure_range(text, start, cend);
    proof {
        font.lemma_measure_snoc(text@.subrange(start as int, cend as int), ELLIPSIS);
        if cend == start {
            assert(text@.subrange(start as int, start as int) =~= Seq::<char>::empty());
        }
    }
    chars.push(ELLIPSIS);
    let w_line = w_src + ell_adv;
    let x = align_x(halign, max_width, w_line);
    let line = TextLine { chars, x, y, start, end: index, width: w_line, elided: true };
    proof {
        let src = line_src(text@, start as int, index as int);
        assert(src.take(cend - start) =~= text@.subrange(start as int, cend as int));
    }
    line
}

/// Lay the given text out in lines and return them together with the final
/// y cursor (where a caret at the end of the text would sit).
///
/// The first baseline is placed by the vertical alignment over the
/// pre-measured height of the whole block.  Lines are emitted only while
/// the next baseline still fits the maximum height.  Under word wrap,
/// lines break at the largest break index that fits the maximum width;
/// otherwise a line runs to the next newline (to the end of the text in
/// single-line mode), and an overlong line is cut at the width limit —
/// with an ellipsis appended when eliding, plainly when clipping.  When
/// eliding, a line that fits but is followed by more text than fits below
/// also receives an ellipsis.
#[verifier::loop_isolation(false)]
#[verifier::rlimit(100)]
#[verifier::spinoff_prover]
pub fn layout_text_lines(
    text: &Vec<char>,
    font: &TextFont,
    max_width: i64,
    max_height: i64,
    horizontal_alignment: TextHorizontalAlignment,
    vertical_alignment: TextVerticalAlignment,
    wrap: TextWrap,
    overflow: TextOverflow,
    single_line: bool,
) -> (r: (Vec<TextLine>, i64))
    requires
        font.wf(),
        text@.len() <= MAX_TEXT_LEN,
        0 <= max_width <= MAX_DIMENSION,
        0 <= max_height <= MAX_DIMENSION,
    ensures
        ({
            let lines = r.0@;
            let init_y = spec_init_y(
                vertical_alignment,
                max_height as int,
                spec_text_block_height(*font, text@, wrap, max_width as int, single_line),
            );
            &&& r.1 == init_y + lines.len() * font.height
            &&& forall|i: int|
                0 <= i < lines.len() ==> #[trigger] line_ok(
                    lines[i],
                    i,
                    init_y,
                    *font,
                    text@,
                    max_width as int,
                    max_height as int,
                    horizontal_alignment,
                )
            &&& (overflow == TextOverflow::Elide && wrap == TextWrap::NoWrap ==> forall|i: int|
                0 <= i < lines.len() ==> #[trigger] line_elision_ok(
                    lines[i],
                    *font,
                    text@,
                    max_width as int,
                ))
            &&& forall|i: int|
                0 <= i < lines.len() ==> #[trigger] line_end_ok(
                    lines[i],
                    *font,
                    text@,
                    max_width as int,
                    max_height as int,
                    wrap,
                    overflow,
                    single_line,
                )
            &&& forall|i: int|
                0 <= i < lines.len() ==> #[trigger] line_elide_mode_ok(
                    lines[i],
                    *font,
                    text@,
                    max_width as int,
                    max_height as int,
                    wrap,
                    overflow,
                )
            &&& (lines.len() > 0 ==> lines[0].start == 0)
            &&& (forall|i: int|
                0 <= i < lines.len() - 1 ==> #[trigger] lines[i + 1].start == lines[i].end)
            &&& (text@.len() == 0 ==> lines.len() == 0)
            &&& (single_line && wrap == TextWrap::NoWrap ==> lines.len() <= 1)
            &&& ({
                let consumed: int = if lines.len() == 0 {
                    0int
                } else {
                    lines[lines.len() - 1].end as int
                };
                ||| consumed == text@.len()
                ||| init_y + (lines.len() + 1) * font.height > max_height
                ||| (wrap == TextWrap::WordWrap && (overflow == TextOverflow::Clip || init_y + (
                lines.len() + 2) * font.height <= max_height) && spec_break_index(
                    *font,
                    text@,
                    consumed,
                    max_width as int,
                ) == consumed)
            })
            &&& (text@.len() > 0 && init_y + font.height <= max_height && wrap
                == TextWrap::NoWrap ==> lines.len() > 0)
        }),
{
    let n = text.len();
    let fh = font.height;
    let wrap_active = wrap == TextWrap::WordWrap;
    let elide = overflow == TextOverflow::Elide;
    let th: i64 = if single_line {
        fh
    } else if wrap_active {
        text_size(font, text, Some(max_width)).1
    } else {
        text_size(font, text, None).1
    };
    let ghost block_height = spec_text_block_height(
        *font,
        text@,
        wrap,
        max_width as int,
        single_line,
    );
    let init_y: i64 = match vertical_alignment {
        TextVerticalAlignment::Top => 0,
        TextVerticalAlignment::Center => signed_half(max_height - th),
        TextVerticalAlignment::Bottom => max_height - th,
    };
    let ghost giy = spec_init_y(vertical_alignment, max_height as int, block_height);
    proof {
        assert(th == block_height);
        assert(init_y == giy);
        assert(giy <= max_height);
        assert(-0x1000_0000_0000_0000 <= giy);
    }
    let ghost gfont = *font;
    let ghost gtext = text@;
    let ghost gmw = max_width as int;
    let ghost gmh = max_height as int;
    let ghost ghal = horizontal_alignment;
    let ghost gel = elide && wrap == TextWrap::NoWrap;
    let ghost gpend: spec_fn(TextLine) -> bool = |ln: TextLine|
        line_end_ok(ln, gfont, gtext, gmw, gmh, wrap, overflow, single_line)
            && line_elide_mode_ok(ln, gfont, gtext, gmw, gmh, wrap, overflow);
    let mut lines: Vec<TextLine> = Vec::new();
    let mut y: i64 = init_y;
    let mut start: usize = 0;
    // Set when word wrapping stalls: not even the first word of the rest
    // fits the maximum width.
    let mut word_stuck: bool = false;
    while start < n && y + fh <= max_height && !word_stuck
        invariant
            font.wf(),
            n == text@.len(),
            n <= MAX_TEXT_LEN,
            0 <= max_width <= MAX_DIMENSION,
            0 <= max_height <= MAX_DIMENSION,
            fh == font.height,
            0 < fh <= MAX_DIMENSION,
            wrap_active == (wrap == TextWrap::WordWrap),
            elide == (overflow == TextOverflow::Elide),
            init_y == giy,
            -0x1000_0000_0000_0000 <= init_y <= max_height,
            0 <= start <= n,
            lines@.len() <= start,
            y == init_y + lines@.len() * fh,
            0 <= lines@.len() * fh,
            lines@.len() == 0 ==> y == init_y,
            lines@.len() > 0 ==> y <= max_height,
            lines@.len() == 0 ==> start == 0,
            lines@.len() > 0 ==> lines@[0].start == 0 && lines@[lines@.len() - 1].end == start,
            forall|i: int|
                0 <= i < lines@.len() ==> #[trigger] line_ok(
                    lines@[i],
                    i,
                    giy,
                    *font,
                    text@,
                    max_width as int,
                    max_height as int,
                    horizontal_alignment,
                ),
            (elide && wrap == TextWrap::NoWrap ==> forall|i: int|
                0 <= i < lines@.len() ==> #[trigger] line_elision_ok(
                    lines@[i],
                    *font,
                    text@,
                    max_width as int,
                )),
            forall|i: int| 0 <= i < lines@.len() ==> #[trigger] gpend(lines@[i]),
            forall|i: int|
                0 <= i < lines@.len() - 1 ==> #[trigger] lines@[i + 1].start == lines@[i].end,
            single_line && wrap == TextWrap::NoWrap ==> (lines@.len() == 0 || (lines@.len() == 1
                && start >= n)),
            word_stuck ==> wrap == TextWrap::WordWrap && (!elide || y + 2 * fh <= max_height)
                && spec_break_index(*font, text@, start as int, max_width as int) == start,
        decreases n - start + (if word_stuck {
            0int
        } else {
            1int
        }),
    {
        let ghost old_lines = lines@;
        if wrap_active && (!elide || y + 2 * fh <= max_height) {
            let idx = break_index(font, text, start, max_width);
            if idx == start {
                // Not even the first word fits the maximum width: stop
                // wrapping.
                word_stuck = true;
                continue;
            }
            let cend = if text[idx - 1] == '\n' {
                idx - 1
            } else {
                idx
            };
            proof {
                assert(line_src(text@, start as int, idx as int) =~= text@.subrange(
                    start as int,
                    cend as int,
                ));
            }
            let line = make_full_line(
                font,
                text,
                start,
                cend,
                idx,
                y,
                max_width,
                horizontal_alignment,
                Ghost(old_lines.len() as int),
                Ghost(giy),
                Ghost(gmh),
            );
            proof {
                assert(gpend(line));
            }
            emit_line(
                &mut lines,
                line,
                Ghost(giy),
                Ghost(gfont),
                Ghost(gtext),
                Ghost(gmw),
                Ghost(gmh),
                Ghost(ghal),
                Ghost(gel),
                Ghost(gpend),
            );
            proof {
                lemma_mul_succ(old_lines.len() as int, fh as int);
            }
            y = y + fh;
            start = idx;
        } else {
            let index = if single_line {
                n
            } else {
                let nl = find_newline(text, start);
                if nl >= n {
                    n
                } else {
                    nl + 1
                }
            };
            proof {
                if !single_line {
                    lemma_find_newline(text@, start as int);
                }
            }
            let cend = if text[index - 1] == '\n' {
                index - 1
            } else {
                index
            };
            proof {
                assert(line_src(text@, start as int, index as int) =~= text@.subrange(
                    start as int,
                    cend as int,
                ));
            }
            let w_src = font.measure_range(text, start, cend);
            let elide_last = elide && index < n && y + 2 * fh > max_height;
            if w_src > max_width || elide_last {
                let ell_adv = font.advance_of(ELLIPSIS);
                let limit = if elide {
                    max_width - ell_adv
                } else {
                    max_width
                };
                match elision_cut(font, text, start, cend, limit) {
                    Some(j) => {
                        let line = make_cut_line(
                            font,
                            text,
                            start,
                            j,
                            cend,
                            index,
                            y,
                            max_width,
                            ell_adv,
                            elide,
                            horizontal_alignment,
                            Ghost(old_lines.len() as int),
                            Ghost(giy),
                            Ghost(gmh),
                        );
                        proof {
                            assert(gpend(line));
                        }
                        emit_line(
                            &mut lines,
                            line,
                            Ghost(giy),
                            Ghost(gfont),
                            Ghost(gtext),
                            Ghost(gmw),
                            Ghost(gmh),
                            Ghost(ghal),
                            Ghost(gel),
                            Ghost(gpend),
                        );
                        proof {
                            lemma_mul_succ(old_lines.len() as int, fh as int);
                        }
                        y = y + fh;
                        start = index;
                    },
                    None => {
                        if elide_last {
                            let line = make_trailing_elided_line(
                                font,
                                text,
                                start,
                                cend,
                                index,
                                y,
                                max_width,
                                ell_adv,
                                horizontal_alignment,
                                Ghost(old_lines.len() as int),
                                Ghost(giy),
                                Ghost(gmh),
                            );
                            proof {
                                assert(gpend(line));
                            }
                            emit_line(
                                &mut lines,
                                line,
                                Ghost(giy),
                                Ghost(gfont),
                                Ghost(gtext),
                                Ghost(gmw),
                                Ghost(gmh),
                                Ghost(ghal),
                                Ghost(gel),
                                Ghost(gpend),
                            );
                            proof {
                                lemma_mul_succ(old_lines.len() as int, fh as int);
                            }
                            y = y + fh;
                            start = index;
                        } else {
                            // The scan found no cut although the source
                            // line was overlong; with a nonnegative
                            // ellipsis advance this cannot happen, and the
                            // line is emitted whole.
                            let line = make_full_line(
                                font,
                                text,
                                start,
                                cend,
                                index,
                                y,
                                max_width,
                                horizontal_alignment,
                                Ghost(old_lines.len() as int),
                                Ghost(giy),
                                Ghost(gmh),
                            );
                            proof {
                                assert(gpend(line));
                            }
                            emit_line(
                                &mut lines,
                                line,
                                Ghost(giy),
                                Ghost(gfont),
                                Ghost(gtext),
                                Ghost(gmw),
                                Ghost(gmh),
                                Ghost(ghal),
                                Ghost(gel),
                                Ghost(gpend),
                            );
                            proof {
                                lemma_mul_succ(old_lines.len() as int, fh as int);
                            }
                            y = y + fh;
                            start = index;
                        }
                    },
                }
            } else {
                let line = make_full_line(
                    font,
                    text,
                    start,
                    cend,
                    index,
                    y,
                    max_width,
                    horizontal_alignment,
                    Ghost(old_lines.len() as int),
                    Ghost(giy),
                    Ghost(gmh),
                );
                proof {
                    assert(gpend(line));
                }
                emit_line(
                    &mut lines,
                    line,
                    Ghost(giy),
                    Ghost(gfont),
                    Ghost(gtext),
                    Ghost(gmw),
                    Ghost(gmh),
                    Ghost(ghal),
                    Ghost(gel),
                    Ghost(gpend),
                );
                proof {
                    lemma_mul_succ(old_lines.len() as int, fh as int);
                }
                y = y + fh;
                start = index;
            }
        }
    }
    proof {
        lemma_mul_succ(lines@.len() as int, fh as int);
        lemma_mul_succ(lines@.len() as int + 1, fh as int);
        assert forall|ix: int| 0 <= ix < lines@.len() implies #[trigger] line_end_ok(
            lines@[ix],
            *font,
            text@,
            max_width as int,
            max_height as int,
            wrap,
            overflow,
            single_line,
        ) by {
            assert(gpend(lines@[ix]));
        }
        assert forall|ix: int| 0 <= ix < lines@.len() implies #[trigger] line_elide_mode_ok(
            lines@[ix],
            *font,
            text@,
            max_width as int,
            max_height as int,
            wrap,
            overflow,
        ) by {
            assert(gpend(lines@[ix]));
        }
    }
    (lines, y)
}

/// Append one emitted line, carrying the layout's per-line guarantees and
/// the chaining of consumed ranges over to the grown list.
fn emit_line(
    lines: &mut Vec<TextLine>,
    line: TextLine,
    Ghost(giy): Ghost<int>,
    Ghost(gfont): Ghost<TextFont>,
    Ghost(gtext): Ghost<Seq<char>>,
    Ghost(gmw): Ghost<int>,
    Ghost(gmh): Ghost<int>,
    Ghost(ghalign): Ghost<TextHorizontalAlignment>,
    Ghost(gelide_nowrap): Ghost<bool>,
    Ghost(pend): Ghost<spec_fn(TextLine) -> bool>,
)
    requires
        line_ok(line, old(lines)@.len() as int, giy, gfont, gtext, gmw, gmh, ghalign),
        gelide_nowrap ==> line_elision_ok(line, gfont, gtext, gmw),
        pend(line),
        forall|i: int| 0 <= i < old(lines)@.len() ==> #[trigger] pend(old(lines)@[i]),
        old(lines)@.len() == 0 ==> line.start == 0,
        old(lines)@.len() > 0 ==> old(lines)@[old(lines)@.len() - 1].end == line.start,
        old(lines)@.len() > 0 ==> old(lines)@[0].start == 0,
        forall|i: int|
            0 <= i < old(lines)@.len() ==> #[trigger] line_ok(
                old(lines)@[i],
                i,
                giy,
                gfont,
                gtext,
                gmw,
                gmh,
                ghalign,
            ),
        gelide_nowrap ==> forall|i: int|
            0 <= i < old(lines)@.len() ==> #[trigger] line_elision_ok(
                old(lines)@[i],
                gfont,
                gtext,
                gmw,
            ),
        forall|i: int|
            0 <= i < old(lines)@.len() - 1 ==> #[trigger] old(lines)@[i + 1].start == old(lines)@[i].end,
    ensures
        final(lines)@ == old(lines)@.push(line),
        final(lines)@.len() == old(lines)@.len() + 1,
        forall|i: int| 0 <= i < final(lines)@.len() ==> #[trigger] pend(final(lines)@[i]),
        forall|i: int|
            0 <= i < final(lines)@.len() ==> #[trigger] line_ok(
                final(lines)@[i],
                i,
                giy,
                gfont,
                gtext,
                gmw,
                gmh,
                ghalign,
            ),
        gelide_nowrap ==> forall|i: int|
            0 <= i < final(lines)@.len() ==> #[trigger] line_elision_ok(
                final(lines)@[i],
                gfont,
                gtext,
                gmw,
            ),
        final(lines)@[0].start == 0,
        final(lines)@[final(lines)@.len() - 1].end == line.end,
        forall|i: int|
            0 <= i < final(lines)@.len() - 1 ==> #[trigger] final(lines)@[i + 1].start == final(lines)@[i].end,
{
    let ghost prev = lines@;
    lines.push(line);
    proof {
        assert(lines@ == prev.push(line));
        assert forall|i: int| 0 <= i < lines@.len() implies #[trigger] pend(lines@[i]) by {
            if i < prev.len() {
                assert(lines@[i] == prev[i]);
            } else {
                assert(lines@[i] == line);
            }
        }
        assert forall|i: int| 0 <= i < lines@.len() implies #[trigger] line_ok(
            lines@[i],
            i,
            giy,
            gfont,
            gtext,
            gmw,
            gmh,
            ghalign,
        ) by {
            if i < prev.len() {
                assert(lines@[i] == prev[i]);
                assert(line_ok(prev[i], i, giy, gfont, gtext, gmw, gmh, ghalign));
            } else {
                assert(lines@[i] == line);
            }
        }
        if gelide_nowrap {
            assert forall|i: int| 0 <= i < lines@.len() implies #[trigger] line_elision_ok(
                lines@[i],
                gfont,
                gtext,
                gmw,
            ) by {
                if i < prev.len() {
                    assert(lines@[i] == prev[i]);
                    assert(line_elision_ok(prev[i], gfont, gtext, gmw));
                } else {
                    assert(lines@[i] == line);
                }
            }
        }
        assert forall|i: int| 0 <= i < lines@.len() - 1 implies #[trigger] lines@[i + 1].start
            == lines@[i].end by {
            if i + 1 < prev.len() {
                assert(lines@[i] == prev[i]);
                assert(lines@[i + 1] == prev[i + 1]);
            } else {
                assert(lines@[i + 1] == line);
                if prev.len() > 0 {
                    assert(lines@[i] == prev[prev.len() - 1]);
                }
            }
        }
    }
}

/// One more line adds one more font height.
proof fn lemma_mul_succ(k: int, fh: int)
    ensures
        (k + 1) * fh == k * fh + fh,
{
    assert((k + 1) * fh == k * fh + fh) by (nonlinear_arith);
}

} // verus!
