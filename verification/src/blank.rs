//! Finding the blank after a label in a page's text layer.
//!
//! A blank is the run of underscores that follows its label, with only
//! whitespace in between. Where the label occurs several times, the first
//! occurrence that is followed by such a run gives the blank. The page's
//! characters come in reading order, one element per character, so the
//! blank is reported as a range of positions into them; where those
//! characters sit on the page is the caller's business.

use vstd::prelude::*;
use crate::text::{is_white_space, is_whitespace, chars_of};

verus! {

/// `label` occurs in `text` starting at position `i`.
pub open spec fn label_at(text: Seq<char>, label: Seq<char>, i: int) -> bool {
    &&& 0 <= i
    &&& i + label.len() <= text.len()
    &&& text.subrange(i, i + label.len()) == label
}

/// `start..end` is a run of underscores that, coming from position `from`, is
/// reached over whitespace alone and cannot be extended to the right.
pub open spec fn blank_after(text: Seq<char>, from: int, start: int, end: int) -> bool {
    &&& from <= start < end <= text.len()
    &&& forall|k: int| from <= k < start ==> is_white_space(#[trigger] text[k])
    &&& forall|k: int| start <= k < end ==> #[trigger] text[k] == '_'
    &&& (end == text.len() || text[end] != '_')
}

/// Some run of underscores is reached from `from` over whitespace alone.
pub open spec fn has_blank_after(text: Seq<char>, from: int) -> bool {
    exists|start: int, end: int| #[trigger] blank_after(text, from, start, end)
}

/// `i` is the first occurrence of `label` in `text` that a blank follows.
pub open spec fn blank_label_at(text: Seq<char>, label: Seq<char>, i: int) -> bool {
    &&& label_at(text, label, i)
    &&& has_blank_after(text, i + label.len())
    &&& forall|j: int| 0 <= j < i && #[trigger] label_at(text, label, j)
        ==> !has_blank_after(text, j + label.len())
}

/// `start..end` is the blank of `label` in `text`: the run of underscores
/// after the first occurrence of the label that has one.
pub open spec fn is_blank(text: Seq<char>, label: Seq<char>, start: int, end: int) -> bool {
    exists|i: int| #[trigger] blank_label_at(text, label, i)
        && blank_after(text, i + label.len(), start, end)
}

/// Where a blank is: the range of character positions its underscores
/// cover.
pub type Span = (usize, usize);

/// `span` is the blank of `label` in `text`, or `None` when there is none.
pub open spec fn is_blank_of(text: Seq<char>, label: Seq<char>, span: Option<Span>) -> bool {
    match span {
        Some((start, end)) => is_blank(text, label, start as int, end as int),
        None => forall|start: int, end: int| !is_blank(text, label, start, end),
    }
}

/// The label occurs in the text at all.
pub open spec fn has_label(text: Seq<char>, label: Seq<char>) -> bool {
    exists|i: int| #[trigger] label_at(text, label, i)
}

/// Whether `label` occurs in `text` at position `i`.
fn occurs_at(text: &[char], label: &Vec<char>, i: usize) -> (r: bool)
    requires
        i + label@.len() <= text@.len(),
    ensures
        r == label_at(text@, label@, i as int),
{
    let n = label.len();
    let text_len = text.len();
    let mut k: usize = 0;
    while k < n
        invariant
            n == label@.len(),
            text_len == text@.len(),
            i + n <= text@.len(),
            k <= n,
            forall|j: int| 0 <= j < k ==> text@[i + j] == label@[j],
        decreases n - k,
    {
        if text[i + k] != label[k] {
            assert(text@.subrange(i as int, i + n)[k as int] != label@[k as int]);
            return false;
        }
        k += 1;
    }
    assert(text@.subrange(i as int, i + n) =~= label@);
    true
}

/// Coming from `from`, there is at most one blank.
pub proof fn lemma_blank_after_unique(text: Seq<char>, from: int, s1: int, t1: int, s2: int, t2: int)
    requires
        blank_after(text, from, s1, t1),
        blank_after(text, from, s2, t2),
    ensures
        s1 == s2,
        t1 == t2,
{
    if s1 < s2 {
        assert(text[s1] == '_');
        assert(is_white_space(text[s1]));
    }
    if s2 < s1 {
        assert(text[s2] == '_');
        assert(is_white_space(text[s2]));
    }
    if t1 < t2 {
        assert(text[t1] == '_');
    }
    if t2 < t1 {
        assert(text[t2] == '_');
    }
}

/// The run of underscores reached from `from` over whitespace alone, if any.
fn blank_from(text: &[char], from: usize) -> (r: Option<Span>)
    requires
        from <= text@.len(),
    ensures
        match r {
            Some((start, end)) => blank_after(text@, from as int, start as int, end as int),
            None => !has_blank_after(text@, from as int),
        },
{
    let n = text.len();
    let mut start = from;
    while start < n && is_whitespace(text[start])
        invariant
            n == text@.len(),
            from <= start <= n,
            forall|k: int| from <= k < start ==> is_white_space(#[trigger] text@[k]),
        decreases n - start,
    {
        start += 1;
    }
    let mut end = start;
    while end < n && text[end] == '_'
        invariant
            n == text@.len(),
            start <= end <= n,
            forall|k: int| start <= k < end ==> #[trigger] text@[k] == '_',
        decreases n - end,
    {
        end += 1;
    }
    if end == start {
        proof {
            if has_blank_after(text@, from as int) {
                let (s, t) = choose|s: int, t: int| #[trigger] blank_after(text@, from as int, s, t);
                if s < start {
                    assert(text@[s] == '_');
                } else if s > start {
                    assert(is_white_space(text@[start as int]));
                } else {
                    assert(text@[s] == '_');
                }
            }
        }
        return None;
    }
    Some((start, end))
}

/// Two blanks of one label in one text are the same blank.
pub proof fn lemma_blank_unique(text: Seq<char>, label: Seq<char>, s1: int, t1: int, s2: int, t2: int)
    requires
        is_blank(text, label, s1, t1),
        is_blank(text, label, s2, t2),
    ensures
        s1 == s2,
        t1 == t2,
{
    let i1 = choose|i: int| #[trigger] blank_label_at(text, label, i)
        && blank_after(text, i + label.len(), s1, t1);
    let i2 = choose|i: int| #[trigger] blank_label_at(text, label, i)
        && blank_after(text, i + label.len(), s2, t2);
    if i1 < i2 {
        assert(label_at(text, label, i1));
        assert(!has_blank_after(text, i1 + label.len()));
    }
    if i2 < i1 {
        assert(label_at(text, label, i2));
        assert(!has_blank_after(text, i2 + label.len()));
    }
    lemma_blank_after_unique(text, i1 + label.len(), s1, t1, s2, t2);
}

/// A text in which the label does not occur has no blank for it.
pub proof fn lemma_missing_label_has_no_blank(text: Seq<char>, label: Seq<char>, start: int, end: int)
    requires
        !has_label(text, label),
    ensures
        !is_blank(text, label, start, end),
{
    if is_blank(text, label, start, end) {
        let i = choose|i: int| #[trigger] blank_label_at(text, label, i)
            && blank_after(text, i + label.len(), start, end);
        assert(label_at(text, label, i));
    }
}

/// An occurrence of the label that a blank follows has the blank, or an
/// earlier occurrence does: a blank after a label is never missed.
pub proof fn lemma_labelled_blank_is_found(text: Seq<char>, label: Seq<char>, i: int, start: int, end: int)
    requires
        label_at(text, label, i),
        blank_after(text, i + label.len(), start, end),
    ensures
        exists|s: int, t: int| #[trigger] is_blank(text, label, s, t),
    decreases i,
{
    if blank_label_at(text, label, i) {
        assert(is_blank(text, label, start, end));
    } else {
        assert(has_blank_after(text, i + label.len()));
        let j = choose|j: int| 0 <= j < i && #[trigger] label_at(text, label, j)
            && has_blank_after(text, j + label.len());
        let (s, t) = choose|s: int, t: int| #[trigger] blank_after(text, j + label.len(), s, t);
        lemma_labelled_blank_is_found(text, label, j, s, t);
    }
}

/// Every text in which some occurrence of the label is followed by a run of
/// underscores has a blank for the label: a page carrying a labelled blank
/// is never passed over.
pub proof fn lemma_labelled_blank_is_kept(text: Seq<char>, label: Seq<char>, i: int, start: int, end: int, span: Option<Span>)
    requires
        label_at(text, label, i),
        blank_after(text, i + label.len(), start, end),
        is_blank_of(text, label, span),
    ensures
        span is Some,
{
    lemma_labelled_blank_is_found(text, label, i, start, end);
}

/// The run of underscores following `label` in `text`, as the range of
/// positions it covers.
///
/// The label is matched character by character, so a character that takes
/// several bytes counts once. Between the label and the run there may be
/// whitespace but nothing else. An occurrence of the label followed by
/// anything else is passed over for the next one. `None` when no occurrence
/// of the label is followed by a run of underscores.
pub fn find_blank(text: &[char], label: &str) -> (r: Option<Span>)
    ensures
        is_blank_of(text@, label@, r),
{
    let label_chars = chars_of(label);
    let n = text.len();
    let m = label_chars.len();
    if m > n {
        proof {
            assert forall|start: int, end: int| !is_blank(text@, label@, start, end) by {
                if is_blank(text@, label@, start, end) {
                    let i = choose|i: int| #[trigger] blank_label_at(text@, label@, i)
                        && blank_after(text@, i + label@.len(), start, end);
                    assert(label_at(text@, label@, i));
                }
            }
        }
        return None;
    }
    let last = n - m;
    let mut i: usize = 0;
    loop
        invariant
            n == text@.len(),
            m == label@.len(),
            label_chars@ == label@,
            m <= n,
            last == n - m,
            i <= last,
            forall|j: int| 0 <= j < i && #[trigger] label_at(text@, label@, j)
                ==> !has_blank_after(text@, j + label@.len()),
        decreases last - i,
    {
        if occurs_at(text, &label_chars, i) {
            match blank_from(text, i + m) {
                Some((start, end)) => {
                    assert(blank_label_at(text@, label@, i as int));
                    return Some((start, end));
                },
                None => {},
            }
        }
        if i == last {
            proof {
                assert forall|start: int, end: int| !is_blank(text@, label@, start, end) by {
                    if is_blank(text@, label@, start, end) {
                        let j = choose|j: int| #[trigger] blank_label_at(text@, label@, j)
                            && blank_after(text@, j + label@.len(), start, end);
                        assert(label_at(text@, label@, j));
                        assert(j <= last);
                        assert(has_blank_after(text@, j + label@.len()));
                    }
                }
            }
            return None;
        }
        i += 1;
    }
}

} // verus!
