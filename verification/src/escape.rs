//! Escaping text for a PDF literal string.

use vstd::prelude::*;
use crate::text::push_char;

verus! {

/// The characters that delimit a literal string, or escape inside one.
pub open spec fn is_delimiter(c: char) -> bool {
    c == '\\' || c == '(' || c == ')'
}

/// How one character is written inside a literal string.
pub open spec fn escaped_char(c: char) -> Seq<char> {
    if is_delimiter(c) {
        seq!['\\', c]
    } else {
        seq![c]
    }
}

/// `text` written inside a literal string: each delimiter behind a
/// backslash, every other character as it is.
pub open spec fn escaped(text: Seq<char>) -> Seq<char>
    decreases text.len(),
{
    if text.len() == 0 {
        seq![]
    } else {
        escaped(text.drop_last()) + escaped_char(text.last())
    }
}

/// What a reader takes a literal string's body to say, reading up to the
/// parenthesis that closes it: a backslash before a delimiter stands for the
/// delimiter, and a `)` that no backslash protects ends the string. (These
/// are the only escapes that [`escape`] writes; a reader's other escapes and
/// its counting of balanced parentheses never come into play.)
pub open spec fn read_literal(body: Seq<char>) -> Seq<char>
    decreases body.len(),
{
    if body.len() == 0 {
        seq![]
    } else if body[0] == '\\' && body.len() >= 2 && is_delimiter(body[1]) {
        seq![body[1]] + read_literal(body.skip(2))
    } else if body[0] == ')' {
        seq![]
    } else {
        seq![body[0]] + read_literal(body.skip(1))
    }
}

/// Escaping works character by character from the front as well.
pub proof fn lemma_escaped_prepend(c: char, text: Seq<char>)
    ensures
        escaped(seq![c] + text) == escaped_char(c) + escaped(text),
    decreases text.len(),
{
    if text.len() == 0 {
        assert((seq![c] + text).drop_last() =~= Seq::<char>::empty());
        assert(escaped(Seq::<char>::empty()) =~= Seq::<char>::empty());
        assert(escaped(seq![c] + text) =~= escaped_char(c) + escaped(text));
    } else {
        lemma_escaped_prepend(c, text.drop_last());
        assert((seq![c] + text).drop_last() =~= seq![c] + text.drop_last());
        assert((seq![c] + text).last() == text.last());
        assert(escaped(seq![c] + text) =~= escaped_char(c) + escaped(text));
    }
}

/// Whatever follows the closing parenthesis, a reader gets back exactly the
/// text that was escaped: no delimiter in it ends the string early, and
/// every backslash it added is taken away again.
pub proof fn lemma_escape_reads_back(text: Seq<char>, after: Seq<char>)
    ensures
        read_literal(escaped(text) + seq![')'] + after) == text,
    decreases text.len(),
{
    if text.len() == 0 {
        assert(escaped(text) =~= Seq::<char>::empty());
        let body = escaped(text) + seq![')'] + after;
        assert(body[0] == ')');
        assert(read_literal(body) =~= text);
    } else {
        let c = text[0];
        let rest = text.skip(1);
        assert(text =~= seq![c] + rest);
        lemma_escaped_prepend(c, rest);
        lemma_escape_reads_back(rest, after);
        let body = escaped(text) + seq![')'] + after;
        let tail = escaped(rest) + seq![')'] + after;
        if is_delimiter(c) {
            assert(body =~= seq!['\\', c] + tail);
            assert(body.skip(2) =~= tail);
        } else {
            assert(body =~= seq![c] + tail);
            assert(body.skip(1) =~= tail);
        }
        assert(read_literal(body) =~= text);
    }
}

/// `text` escaped for a PDF literal string: `\`, `(` and `)` each get a
/// backslash in front, and nothing else changes.
pub fn escape(text: &str) -> (r: String)
    ensures
        r@ == escaped(text@),
{
    let mut r = String::new();
    for c in it: text.chars()
        invariant
            it.seq() == text@,
            r@ == escaped(text@.take(it.index() as int)),
    {
        proof {
            let done = text@.take(it.index() as int);
            assert(text@.take(it.index() + 1).drop_last() =~= done);
        }
        if c == '\\' || c == '(' || c == ')' {
            push_char(&mut r, '\\');
        }
        push_char(&mut r, c);
        proof {
            let next = text@.take(it.index() + 1);
            assert(next.last() == c);
            assert(r@ =~= escaped(next));
        }
    }
    proof {
        assert(text@.take(text@.len() as int) =~= text@);
    }
    r
}

} // verus!
