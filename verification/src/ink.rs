//! Finding a printed rule in the pixels of a scanned page.
//!
//! OCR does not report a run of underscores reliably, so on a scan the blank
//! is found in the pixels: it is the longest horizontal run of dark pixels to
//! the right of its label, which is what a printed rule is.

use vstd::prelude::*;
use crate::label::reads_as;

verus! {

/// A pixel counts as ink below this luminance.
pub const INK: u8 = 160;

/// How far below a label's bottom edge the rule is looked for, in pixels.
pub const RULE_SEARCH: u32 = 12;

/// The shortest horizontal dark run that can be a rule rather than a glyph.
pub const MIN_RULE: u32 = 30;

/// A greyscale page: one luminance byte per pixel, row after row from the top.
pub struct InkImage {
    pub width: u32,
    pub height: u32,
    pub pixels: Vec<u8>,
}

impl InkImage {
    /// The pixels fill the rows exactly.
    pub open spec fn wf(&self) -> bool {
        self.pixels@.len() == self.width * self.height
    }

    pub open spec fn luma(&self, x: int, y: int) -> u8 {
        self.pixels@[y * self.width + x]
    }

    /// The pixel at column `x` of row `y` is ink.
    pub open spec fn is_ink(&self, x: int, y: int) -> bool {
        self.luma(x, y) < INK
    }

    /// A page of `width` by `height` pixels, or `None` when `pixels` does
    /// not hold exactly that many.
    pub fn new(width: u32, height: u32, pixels: Vec<u8>) -> (r: Option<InkImage>)
        ensures
            match r {
                Some(ink) => ink.wf() && ink.width == width && ink.height == height
                    && ink.pixels@ == pixels@,
                None => pixels@.len() != width * height,
            },
    {
        assert((width as int) * (height as int) <= 0xffff_ffff * 0xffff_ffff) by (nonlinear_arith)
            requires
                0 <= width <= 0xffff_ffff,
                0 <= height <= 0xffff_ffff,
        ;
        if (width as u64) * (height as u64) == pixels.len() as u64 {
            Some(InkImage { width, height, pixels })
        } else {
            None
        }
    }
}

/// Columns `x0..=x1` of row `y` are ink, and the run cannot be extended
/// without leaving `from..limit`.
pub open spec fn run_within(ink: &InkImage, y: int, from: int, limit: int, x0: int, x1: int) -> bool {
    &&& from <= x0 <= x1 < limit
    &&& forall|x: int| x0 <= x <= x1 ==> #[trigger] ink.is_ink(x, y)
    &&& (x0 == from || !ink.is_ink(x0 - 1, y))
    &&& (x1 + 1 == limit || !ink.is_ink(x1 + 1, y))
}

/// A maximal run of ink on row `y`, among the columns from `from` to the
/// right edge.
pub open spec fn is_run(ink: &InkImage, y: int, from: int, x0: int, x1: int) -> bool {
    run_within(ink, y, from, ink.width as int, x0, x1)
}

/// `x0..=x1` is a longest run of ink on row `y` right of `from`, and the
/// leftmost of those.
pub open spec fn is_longest_run(ink: &InkImage, y: int, from: int, x0: int, x1: int) -> bool {
    &&& is_run(ink, y, from, x0, x1)
    &&& forall|a: int, b: int| #[trigger] is_run(ink, y, from, a, b) ==> b - a <= x1 - x0
    &&& forall|a: int, b: int| #[trigger] is_run(ink, y, from, a, b) && a < x0 ==> b - a < x1 - x0
}

/// Row `y` has ink somewhere right of `from`.
pub open spec fn has_ink(ink: &InkImage, y: int, from: int) -> bool {
    exists|x: int| from <= x < ink.width && #[trigger] ink.is_ink(x, y)
}

/// Where pixel `(x, y)` sits in the buffer.
fn offset(ink: &InkImage, x: u32, y: u32) -> (r: usize)
    requires
        ink.wf(),
        x < ink.width,
        y < ink.height,
    ensures
        r == y * ink.width + x,
        r < ink.pixels@.len(),
{
    let len = ink.pixels.len();
    proof {
        let (w, h) = (ink.width as int, ink.height as int);
        assert((y as int) * w + (x as int) < h * w) by (nonlinear_arith)
            requires
                0 <= x < w,
                0 <= y < h,
        ;
        assert(0 <= (y as int) * w) by (nonlinear_arith)
            requires
                0 <= y,
                0 <= w,
        ;
    }
    y as usize * ink.width as usize + x as usize
}

/// The longest unbroken run of ink on row `y`, starting at `from`, as the
/// first and last column of the run; the leftmost, if several are longest.
pub fn longest_run(ink: &InkImage, y: u32, from: u32) -> (r: Option<(u32, u32)>)
    requires
        ink.wf(),
        y < ink.height,
    ensures
        match r {
            Some((x0, x1)) => is_longest_run(ink, y as int, from as int, x0 as int, x1 as int),
            None => !has_ink(ink, y as int, from as int),
        },
{
    let width = ink.width;
    if from >= width {
        return None;
    }
    let ghost yi = y as int;
    let ghost fi = from as int;
    let mut best: Option<(u32, u32)> = None;
    let mut start: Option<u32> = None;
    let mut x = from;
    while x < width
        invariant
            ink.wf(),
            y < ink.height,
            width == ink.width,
            yi == y,
            fi == from,
            from <= x <= width,
            match start {
                Some(s) => {
                    &&& from <= s < x
                    &&& forall|k: int| s <= k < x ==> #[trigger] ink.is_ink(k, yi)
                    &&& (s == from || !ink.is_ink(s - 1, yi))
                },
                None => x == from || !ink.is_ink(x - 1, yi),
            },
            match best {
                Some((b0, b1)) => {
                    &&& run_within(ink, yi, fi, x as int, b0 as int, b1 as int)
                    &&& forall|a: int, b: int| #[trigger] run_within(ink, yi, fi, x as int, a, b)
                        ==> b - a <= b1 - b0
                    &&& forall|a: int, b: int| #[trigger] run_within(ink, yi, fi, x as int, a, b)
                        && a < b0 ==> b - a < b1 - b0
                },
                None => forall|k: int| from <= k < x ==> !#[trigger] ink.is_ink(k, yi),
            },
        decreases width - x,
    {
        let dark = ink.pixels[offset(ink, x, y)] < INK;
        let ghost old_best = best;
        let ghost old_start = start;
        let ghost xi = x as int;
        if dark {
            let begin = match start {
                Some(s) => s,
                None => {
                    start = Some(x);
                    x
                },
            };
            assert(run_within(ink, yi, fi, xi + 1, begin as int, xi));
            match best {
                None => {
                    best = Some((begin, x));
                    assert forall|a: int, b: int| #[trigger] run_within(ink, yi, fi, xi + 1, a, b)
                        implies b - a <= xi - begin && (a < begin ==> b - a < xi - begin) by {
                        assert(ink.is_ink(a, yi));
                    }
                },
                Some((b0, b1)) => {
                    if x - begin > b1 - b0 {
                        best = Some((begin, x));
                        assert forall|a: int, b: int| #[trigger] run_within(ink, yi, fi, xi + 1, a, b)
                            implies b - a <= xi - begin && (a < begin ==> b - a < xi - begin) by {
                            if b < xi {
                                assert(run_within(ink, yi, fi, xi, a, b));
                            } else {
                                assert(a == begin) by {
                                    if a < begin {
                                        assert(ink.is_ink(begin - 1, yi));
                                    }
                                    if a > begin {
                                        assert(ink.is_ink(a - 1, yi));
                                    }
                                }
                            }
                        }
                    } else {
                        assert(b1 < xi - 1 || !ink.is_ink(b1 + 1, yi)) by {
                            if b1 == xi - 1 {
                                assert(b0 == begin) by {
                                    if b0 < begin {
                                        assert(ink.is_ink(begin - 1, yi));
                                    }
                                    if b0 > begin {
                                        assert(ink.is_ink(b0 - 1, yi));
                                    }
                                }
                            }
                        }
                        assert(run_within(ink, yi, fi, xi + 1, b0 as int, b1 as int));
                        assert forall|a: int, b: int| #[trigger] run_within(ink, yi, fi, xi + 1, a, b)
                            implies b - a <= b1 - b0 && (a < b0 ==> b - a < b1 - b0) by {
                            if b < xi {
                                assert(run_within(ink, yi, fi, xi, a, b));
                            } else {
                                assert(a == begin) by {
                                    if a < begin {
                                        assert(ink.is_ink(begin - 1, yi));
                                    }
                                    if a > begin {
                                        assert(ink.is_ink(a - 1, yi));
                                    }
                                }
                                assert(b0 <= b1);
                                if b1 >= begin - 1 && b0 <= xi {
                                    assert(b0 < begin);
                                }
                            }
                        }
                    }
                },
            }
        } else {
            start = None;
            match best {
                Some((b0, b1)) => {
                    assert(run_within(ink, yi, fi, xi + 1, b0 as int, b1 as int));
                    assert forall|a: int, b: int| #[trigger] run_within(ink, yi, fi, xi + 1, a, b)
                        implies b - a <= b1 - b0 && (a < b0 ==> b - a < b1 - b0) by {
                        assert(b != xi) by {
                            if b == xi {
                                assert(ink.is_ink(b, yi));
                            }
                        }
                        assert(run_within(ink, yi, fi, xi, a, b));
                    }
                },
                None => {},
            }
        }
        x += 1;
    }
    match best {
        Some((b0, b1)) => {
            assert forall|a: int, b: int| #[trigger] is_run(ink, yi, fi, a, b)
                implies b - a <= b1 - b0 && (a < b0 ==> b - a < b1 - b0) by {
                assert(run_within(ink, yi, fi, width as int, a, b));
            }
        },
        None => {},
    }
    best
}

/// Where a line of text sits on the page, in pixels.
pub struct LineBounds {
    pub top: i32,
    pub right: i32,
    pub bottom: i32,
}

/// A line of text as OCR read it, and where it sits.
pub struct OcrLine {
    pub text: String,
    pub bounds: LineBounds,
}

/// A rule found in the pixels: its row, and its first and last column.
pub type Rule = (u32, u32, u32);

/// The rows searched for the rule after `line`, and the column the search
/// starts at: from the top of the line to `RULE_SEARCH` rows below its
/// bottom (but not past the page), two columns right of its right edge.
pub open spec fn search_area(line: LineBounds, page_height: u32) -> (int, int, int) {
    let right = if line.right < 0 { 0int } else { line.right as int };
    let top = if line.top < 0 { 0int } else { line.top as int };
    let bottom = if line.bottom < 0 { 0int } else { line.bottom as int };
    let below = bottom + RULE_SEARCH;
    (right + 2, top, if below < page_height { below } else { page_height as int })
}

/// `rule` is what [`rule_after`] finds after `line`: of the longest runs of
/// ink the searched rows hold, the one on the lowest row that has one of the
/// greatest length, provided that length reaches `MIN_RULE`.
pub open spec fn is_rule_after(ink: &InkImage, line: LineBounds, page_height: u32, rule: Option<Rule>) -> bool {
    let (from, top, bottom) = search_area(line, page_height);
    match rule {
        Some((y, x0, x1)) => {
            &&& top <= y < bottom
            &&& is_longest_run(ink, y as int, from, x0 as int, x1 as int)
            &&& x1 - x0 >= MIN_RULE
            &&& forall|y2: int, a: int, b: int|
                top <= y2 < bottom && #[trigger] is_longest_run(ink, y2, from, a, b)
                ==> b - a <= x1 - x0 && (y2 > y ==> b - a < x1 - x0)
        },
        None => forall|y2: int, a: int, b: int|
            top <= y2 < bottom && #[trigger] is_longest_run(ink, y2, from, a, b)
            ==> b - a < MIN_RULE,
    }
}

/// A row has one leftmost longest run at most.
pub proof fn lemma_longest_run_unique(ink: &InkImage, y: int, from: int, x0: int, x1: int, a: int, b: int)
    requires
        is_longest_run(ink, y, from, x0, x1),
        is_longest_run(ink, y, from, a, b),
    ensures
        x0 == a,
        x1 == b,
{
    assert(is_run(ink, y, from, a, b));
    assert(is_run(ink, y, from, x0, x1));
}

/// There is one rule after a line at most.
pub proof fn lemma_rule_unique(ink: &InkImage, line: LineBounds, page_height: u32, r1: Option<Rule>, r2: Option<Rule>)
    requires
        is_rule_after(ink, line, page_height, r1),
        is_rule_after(ink, line, page_height, r2),
    ensures
        r1 == r2,
{
    let (from, top, bottom) = search_area(line, page_height);
    match (r1, r2) {
        (Some((y1, a1, b1)), Some((y2, a2, b2))) => {
            assert(is_longest_run(ink, y1 as int, from, a1 as int, b1 as int));
            assert(is_longest_run(ink, y2 as int, from, a2 as int, b2 as int));
            if y1 == y2 {
                lemma_longest_run_unique(ink, y1 as int, from, a1 as int, b1 as int, a2 as int, b2 as int);
            }
        },
        (Some((y1, a1, b1)), None) => {
            assert(is_longest_run(ink, y1 as int, from, a1 as int, b1 as int));
        },
        (None, Some((y2, a2, b2))) => {
            assert(is_longest_run(ink, y2 as int, from, a2 as int, b2 as int));
        },
        (None, None) => {},
    }
}

/// Every row from the line's top down to `RULE_SEARCH` rows below its
/// bottom (but not past `page_height`) is searched, from two columns right
/// of the line's right edge: a longest run of at least `MIN_RULE` on any such
/// row makes the result a rule at least that long.
pub proof fn lemma_rule_after_searches_every_row(
    ink: &InkImage,
    line: LineBounds,
    page_height: u32,
    r: Option<Rule>,
    y: int,
    a: int,
    b: int,
)
    requires
        is_rule_after(ink, line, page_height, r),
        (if line.top < 0 { 0 } else { line.top as int }) <= y,
        y < (if line.bottom < 0 { 0 } else { line.bottom as int }) + RULE_SEARCH,
        y < page_height,
        is_longest_run(ink, y, (if line.right < 0 { 0 } else { line.right as int }) + 2, a, b),
        b - a >= MIN_RULE,
    ensures
        r matches Some((ry, x0, x1)) && x1 - x0 >= b - a,
{
    let (from, top, bottom) = search_area(line, page_height);
    assert(is_longest_run(ink, y, from, a, b));
}

/// A rule found after a line lies in the searched rows, starts at least two
/// columns right of the line's right edge, and is at least `MIN_RULE` long.
pub proof fn lemma_rule_after_stays_in_the_search(ink: &InkImage, line: LineBounds, page_height: u32, r: Option<Rule>)
    requires
        is_rule_after(ink, line, page_height, r),
    ensures
        r matches Some((y, x0, x1)) ==> {
            &&& (if line.top < 0 { 0 } else { line.top as int }) <= y
            &&& y < (if line.bottom < 0 { 0 } else { line.bottom as int }) + RULE_SEARCH
            &&& y < page_height
            &&& (if line.right < 0 { 0 } else { line.right as int }) + 2 <= x0 <= x1
            &&& x1 - x0 >= MIN_RULE
        },
{
}

/// The longest horizontal run of ink to the right of `line`, as
/// `(row, first column, last column)`: searched from the top of the line to
/// `RULE_SEARCH` rows below it, the lowest of equally long runs winning, and
/// `None` when even that is shorter than `MIN_RULE`.
pub fn rule_after(ink: &InkImage, line: &LineBounds, page_height: u32) -> (r: Option<Rule>)
    requires
        ink.wf(),
        page_height <= ink.height,
    ensures
        is_rule_after(ink, *line, page_height, r),
{
    let right: u32 = if line.right < 0 { 0 } else { line.right as u32 } + 2;
    let top: u32 = if line.top < 0 { 0 } else { line.top as u32 };
    let lowest: u32 = if line.bottom < 0 { 0 } else { line.bottom as u32 };
    let below: u64 = lowest as u64 + RULE_SEARCH as u64;
    let bottom: u32 = if below < page_height as u64 { below as u32 } else { page_height };
    let ghost area = search_area(*line, page_height);
    assert(area == (right as int, top as int, bottom as int));
    let mut best: Option<Rule> = None;
    let mut y = top;
    while y < bottom
        invariant
            ink.wf(),
            bottom <= page_height <= ink.height,
            top <= bottom ==> top <= y <= bottom,
            top > bottom ==> y == top,
            match best {
                Some((by, x0, x1)) => {
                    &&& top <= by < y
                    &&& is_longest_run(ink, by as int, right as int, x0 as int, x1 as int)
                    &&& forall|y2: int, a: int, b: int|
                        top <= y2 < y && #[trigger] is_longest_run(ink, y2, right as int, a, b)
                        ==> b - a <= x1 - x0 && (y2 > by ==> b - a < x1 - x0)
                },
                None => forall|y2: int, a: int, b: int|
                    top <= y2 < y ==> !#[trigger] is_longest_run(ink, y2, right as int, a, b),
            },
        decreases bottom - y,
    {
        let ghost old_best = best;
        match longest_run(ink, y, right) {
            Some((x0, x1)) => {
                match best {
                    None => {
                        best = Some((y, x0, x1));
                    },
                    Some((_, b0, b1)) => {
                        if x1 - x0 >= b1 - b0 {
                            best = Some((y, x0, x1));
                        }
                    },
                }
                assert forall|y2: int, a: int, b: int|
                    y2 == y && #[trigger] is_longest_run(ink, y2, right as int, a, b)
                    implies a == x0 && b == x1 by {
                    lemma_longest_run_unique(ink, y2, right as int, x0 as int, x1 as int, a, b);
                }
            },
            None => {
                assert forall|y2: int, a: int, b: int|
                    y2 == y implies !#[trigger] is_longest_run(ink, y2, right as int, a, b) by {
                    if is_longest_run(ink, y2, right as int, a, b) {
                        assert(ink.is_ink(a, y2));
                    }
                }
            },
        }
        y += 1;
    }
    match best {
        Some((by, x0, x1)) => {
            if x1 - x0 >= MIN_RULE {
                Some((by, x0, x1))
            } else {
                None
            }
        },
        None => None,
    }
}

/// Line `j` reads as `label` but has no rule after it.
pub open spec fn reading_without_rule(lines: Seq<OcrLine>, ink: &InkImage, label: Seq<char>, j: int) -> bool {
    reads_as(lines[j].text@, label) && is_rule_after(ink, lines[j].bounds, ink.height, None)
}

/// Line `i` is the first of `lines` that reads as `label` and has a rule
/// after it, and `rule` is that rule.
pub open spec fn first_ruled_reading(lines: Seq<OcrLine>, ink: &InkImage, label: Seq<char>, i: int, rule: Rule) -> bool {
    &&& 0 <= i < lines.len()
    &&& reads_as(lines[i].text@, label)
    &&& is_rule_after(ink, lines[i].bounds, ink.height, Some(rule))
    &&& forall|j: int| 0 <= j < i && #[trigger] reads_as(lines[j].text@, label)
        ==> is_rule_after(ink, lines[j].bounds, ink.height, None)
}

/// `rule` is the rule after the first line that reads as `label` and has
/// one; `None` when no line that reads as the label has a rule after it.
pub open spec fn is_label_rule(lines: Seq<OcrLine>, ink: &InkImage, label: Seq<char>, rule: Option<Rule>) -> bool {
    match rule {
        Some(found) => exists|i: int| #[trigger] first_ruled_reading(lines, ink, label, i, found),
        None => forall|j: int| 0 <= j < lines.len() && #[trigger] reads_as(lines[j].text@, label)
            ==> is_rule_after(ink, lines[j].bounds, ink.height, None),
    }
}

/// The rule after the first line of `lines` that reads as `label` and has
/// a rule after it: a reading of the label with no rule beside it is passed
/// over for the next one.
pub fn locate_label(lines: &Vec<OcrLine>, ink: &InkImage, label: &str) -> (r: Option<Rule>)
    requires
        ink.wf(),
    ensures
        is_label_rule(lines@, ink, label@, r),
{
    let mut i: usize = 0;
    while i < lines.len()
        invariant
            ink.wf(),
            i <= lines@.len(),
            forall|j: int| 0 <= j < i && #[trigger] reads_as(lines@[j].text@, label@)
                ==> is_rule_after(ink, lines@[j].bounds, ink.height, None),
        decreases lines@.len() - i,
    {
        if crate::label::matches(lines[i].text.as_str(), label) {
            let r = rule_after(ink, &lines[i].bounds, ink.height);
            match r {
                Some(rule) => {
                    assert(first_ruled_reading(lines@, ink, label@, i as int, rule));
                    return r;
                },
                None => {},
            }
        }
        i += 1;
    }
    None
}

/// What a label's rule is, whatever else is true.
pub proof fn lemma_label_rule_unique(lines: Seq<OcrLine>, ink: &InkImage, label: Seq<char>, r1: Option<Rule>, r2: Option<Rule>)
    requires
        is_label_rule(lines, ink, label, r1),
        is_label_rule(lines, ink, label, r2),
    ensures
        r1 == r2,
{
    match (r1, r2) {
        (Some(a), Some(b)) => {
            let i = choose|i: int| #[trigger] first_ruled_reading(lines, ink, label, i, a);
            let k = choose|k: int| #[trigger] first_ruled_reading(lines, ink, label, k, b);
            if k < i {
                assert(reads_as(lines[k].text@, label));
                lemma_rule_unique(ink, lines[k].bounds, ink.height, None, Some(b));
            }
            if i < k {
                assert(reads_as(lines[i].text@, label));
                lemma_rule_unique(ink, lines[i].bounds, ink.height, None, Some(a));
            }
            lemma_rule_unique(ink, lines[i].bounds, ink.height, Some(a), Some(b));
        },
        (Some(a), None) => {
            let i = choose|i: int| #[trigger] first_ruled_reading(lines, ink, label, i, a);
            assert(reads_as(lines[i].text@, label));
            lemma_rule_unique(ink, lines[i].bounds, ink.height, None, Some(a));
        },
        (None, Some(b)) => {
            let k = choose|k: int| #[trigger] first_ruled_reading(lines, ink, label, k, b);
            assert(reads_as(lines[k].text@, label));
            lemma_rule_unique(ink, lines[k].bounds, ink.height, None, Some(b));
        },
        (None, None) => {},
    }
}

/// A line that reads as the label and has a rule after it is never missed:
/// the label then has a rule.
pub proof fn lemma_ruled_reading_is_kept(lines: Seq<OcrLine>, ink: &InkImage, label: Seq<char>, j: int, rule: Rule, r: Option<Rule>)
    requires
        0 <= j < lines.len(),
        reads_as(lines[j].text@, label),
        is_rule_after(ink, lines[j].bounds, ink.height, Some(rule)),
        is_label_rule(lines, ink, label, r),
    ensures
        r is Some,
{
    if r is None {
        assert(is_rule_after(ink, lines[j].bounds, ink.height, None));
        lemma_rule_unique(ink, lines[j].bounds, ink.height, None, Some(rule));
    }
}

/// The rules after the date label and after the signature label on an
/// upright page, or `None` if neither label was read with a rule beside it,
/// which is how a wrong rotation shows itself.
pub fn blanks(lines: &Vec<OcrLine>, ink: &InkImage, date_label: &str, signature_label: &str) -> (r: Option<(Option<Rule>, Option<Rule>)>)
    requires
        ink.wf(),
    ensures
        match r {
            Some((date, signature)) => {
                &&& date is Some || signature is Some
                &&& is_label_rule(lines@, ink, date_label@, date)
                &&& is_label_rule(lines@, ink, signature_label@, signature)
            },
            None => {
                &&& is_label_rule(lines@, ink, date_label@, None)
                &&& is_label_rule(lines@, ink, signature_label@, None)
            },
        },
{
    let date = locate_label(lines, ink, date_label);
    let signature = locate_label(lines, ink, signature_label);
    if date.is_none() && signature.is_none() {
        None
    } else {
        Some((date, signature))
    }
}

} // verus!
