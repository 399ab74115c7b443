//! Recognising a label in what OCR read.
//!
//! The engine transcribes `ä` as `?` and drops the trailing colon of longer
//! labels, so a reading is compared with the label loosely: both are cut down
//! to their ASCII letters and digits, in lower case, and one has to begin the
//! other.

use vstd::prelude::*;

verus! {

pub open spec fn is_ascii_alphanumeric(c: char) -> bool {
    ('a' <= c && c <= 'z') || ('A' <= c && c <= 'Z') || ('0' <= c && c <= '9')
}

pub open spec fn ascii_lowercase(c: char) -> char {
    if 'A' <= c && c <= 'Z' {
        ((c as u32) + 32) as char
    } else {
        c
    }
}

/// `value` with everything but its ASCII letters and digits dropped, and
/// those letters in lower case.
pub open spec fn simplified(value: Seq<char>) -> Seq<char>
    decreases value.len(),
{
    if value.len() == 0 {
        seq![]
    } else {
        let c = value.last();
        simplified(value.drop_last()) + if is_ascii_alphanumeric(c) {
            seq![ascii_lowercase(c)]
        } else {
            seq![]
        }
    }
}

/// An OCR reading `text` is the label `label`: the simplified label is not
/// empty, and either it begins the simplified reading, or the simplified
/// reading begins it and is longer than six characters.
pub open spec fn reads_as(text: Seq<char>, label: Seq<char>) -> bool {
    let t = simplified(text);
    let l = simplified(label);
    &&& l.len() > 0
    &&& (l.is_prefix_of(t) || (t.is_prefix_of(l) && t.len() > 6))
}

/// Simplifying works piece by piece: a text made of two parts simplifies to
/// the two parts simplified, one after the other.
pub proof fn lemma_simplified_concat(a: Seq<char>, b: Seq<char>)
    ensures
        simplified(a + b) == simplified(a) + simplified(b),
    decreases b.len(),
{
    if b.len() == 0 {
        assert(a + b =~= a);
        assert(simplified(a) + simplified(b) =~= simplified(a));
    } else {
        lemma_simplified_concat(a, b.drop_last());
        assert((a + b).drop_last() =~= a + b.drop_last());
        assert((a + b).last() == b.last());
        assert(simplified(a + b) =~= simplified(a) + simplified(b));
    }
}

/// A reading is the label exactly when, with both simplified, the label is
/// not empty and either every character of the label begins the reading in
/// order, or the reading is longer than six characters and every character
/// of it begins the label in order.
pub proof fn lemma_reads_as_is_a_prefix_match(text: Seq<char>, label: Seq<char>)
    ensures
        reads_as(text, label) <==> {
            let t = simplified(text);
            let l = simplified(label);
            &&& l.len() > 0
            &&& {
                ||| l.len() <= t.len() && forall|k: int| 0 <= k < l.len() ==> t[k] == l[k]
                ||| 6 < t.len() <= l.len() && forall|k: int| 0 <= k < t.len() ==> t[k] == l[k]
            }
        },
{
    let t = simplified(text);
    let l = simplified(label);
    if l.len() <= t.len() && forall|k: int| 0 <= k < l.len() ==> t[k] == l[k] {
        assert(l =~= t.subrange(0, l.len() as int));
    }
    if t.len() <= l.len() && forall|k: int| 0 <= k < t.len() ==> t[k] == l[k] {
        assert(t =~= l.subrange(0, t.len() as int));
    }
    if l.is_prefix_of(t) {
        assert forall|k: int| 0 <= k < l.len() implies t[k] == l[k] by {
            assert(l[k] == t.subrange(0, l.len() as int)[k]);
        }
    }
    if t.is_prefix_of(l) {
        assert forall|k: int| 0 <= k < t.len() implies t[k] == l[k] by {
            assert(t[k] == l.subrange(0, t.len() as int)[k]);
        }
    }
}

/// A reading that is the label begins with the same letter or digit as the
/// label: a label that only turns up inside a reading, after other letters,
/// is not recognised in it.
pub proof fn lemma_reading_begins_like_label(text: Seq<char>, label: Seq<char>)
    requires
        reads_as(text, label),
    ensures
        simplified(text).len() > 0,
        simplified(text)[0] == simplified(label)[0],
{
    lemma_reads_as_is_a_prefix_match(text, label);
}

/// The label followed by anything at all is read as the label, as long as
/// the label has a letter or digit in it.
pub proof fn lemma_label_then_anything_reads_as_label(label: Seq<char>, rest: Seq<char>)
    requires
        simplified(label).len() > 0,
    ensures
        reads_as(label + rest, label),
{
    lemma_simplified_concat(label, rest);
    lemma_reads_as_is_a_prefix_match(label + rest, label);
}

/// `value`, simplified: ASCII letters and digits only, in lower case.
pub fn simplify(value: &str) -> (r: Vec<char>)
    ensures
        r@ == simplified(value@),
{
    let mut r: Vec<char> = Vec::new();
    for c in it: value.chars()
        invariant
            it.seq() == value@,
            r@ == simplified(value@.take(it.index() as int)),
    {
        proof {
            assert(value@.take(it.index() + 1).drop_last() =~= value@.take(it.index() as int));
        }
        if 'A' <= c && c <= 'Z' {
            let lower = ((c as u8) + 32) as char;
            assert(lower == ascii_lowercase(c));
            r.push(lower);
        } else if ('a' <= c && c <= 'z') || ('0' <= c && c <= '9') {
            r.push(c);
        }
        proof {
            let next = value@.take(it.index() + 1);
            assert(next.last() == c);
            assert(r@ =~= simplified(next));
        }
    }
    proof {
        assert(value@.take(value@.len() as int) =~= value@);
    }
    r
}

/// Whether `prefix` begins `whole`.
fn begins(prefix: &Vec<char>, whole: &Vec<char>) -> (r: bool)
    ensures
        r == prefix@.is_prefix_of(whole@),
{
    if prefix.len() > whole.len() {
        return false;
    }
    let mut i: usize = 0;
    while i < prefix.len()
        invariant
            prefix@.len() <= whole@.len(),
            i <= prefix@.len(),
            forall|k: int| 0 <= k < i ==> prefix@[k] == whole@[k],
        decreases prefix@.len() - i,
    {
        if prefix[i] != whole[i] {
            assert(whole@.subrange(0, prefix@.len() as int)[i as int] == whole@[i as int]);
            return false;
        }
        i += 1;
    }
    assert(prefix@ =~= whole@.subrange(0, prefix@.len() as int));
    true
}

/// Whether the OCR reading `text` is the label `label`, compared loosely.
pub fn matches(text: &str, label: &str) -> (r: bool)
    ensures
        r == reads_as(text@, label@),
{
    let text = simplify(text);
    let label = simplify(label);
    !label.is_empty() && (begins(&label, &text) || begins(&text, &label) && text.len() > 6)
}

} // verus!
