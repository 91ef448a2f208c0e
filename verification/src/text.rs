//! Literal substring replacement on text, modelled as sequences of characters.

use vstd::prelude::*;

verus! {

/// `String::push` appends one character to the end of the string.
pub assume_specification[ String::push ](s: &mut String, ch: char)
    ensures
        final(s)@ == old(s)@.push(ch),
;

/// Whether `pattern` stands at the very start of `text`.
pub open spec fn starts_with(text: Seq<char>, pattern: Seq<char>) -> bool {
    pattern.len() <= text.len() && text.take(pattern.len() as int) == pattern
}

/// `text` with every occurrence of `from` replaced by `to`.
///
/// Occurrences are found scanning from the left and never overlap: after a
/// match the scan goes on behind it. An empty `from` matches at every
/// character boundary, so `to` is put before each character and once more at
/// the end.
pub open spec fn replaced(text: Seq<char>, from: Seq<char>, to: Seq<char>) -> Seq<char>
    decreases text.len(),
{
    if text.len() == 0 {
        if from.len() == 0 {
            to
        } else {
            text
        }
    } else if from.len() == 0 {
        to + seq![text[0]] + replaced(text.skip(1), from, to)
    } else if starts_with(text, from) {
        to + replaced(text.skip(from.len() as int), from, to)
    } else {
        seq![text[0]] + replaced(text.skip(1), from, to)
    }
}

/// Whether `pattern` occurs in `text` at index `at`.
pub open spec fn occurs_at(text: Seq<char>, pattern: Seq<char>, at: int) -> bool {
    0 <= at <= text.len() && starts_with(text.skip(at), pattern)
}

/// A text in which `from` occurs nowhere is left as it is.
pub proof fn lemma_replaced_without_occurrence(text: Seq<char>, from: Seq<char>, to: Seq<char>)
    requires
        from.len() > 0,
        forall|at: int| !occurs_at(text, from, at),
    ensures
        replaced(text, from, to) == text,
    decreases text.len(),
{
    if text.len() > 0 {
        let rest = text.skip(1);
        assert(!starts_with(text, from)) by {
            assert(text.skip(0) =~= text);
            assert(!occurs_at(text, from, 0));
        }
        assert forall|at: int| !occurs_at(rest, from, at) by {
            if 0 <= at <= rest.len() {
                assert(rest.skip(at) =~= text.skip(at + 1));
                assert(!occurs_at(text, from, at + 1));
            }
        }
        lemma_replaced_without_occurrence(rest, from, to);
        assert(seq![text[0]] + rest =~= text);
    }
}

/// Replacement goes by the leftmost occurrence: the text before it is kept,
/// the occurrence itself becomes `to`, and what stands behind the occurrence
/// is replaced in the same way, so that occurrences never overlap.
pub proof fn lemma_replaced_at_first_occurrence(
    text: Seq<char>,
    from: Seq<char>,
    to: Seq<char>,
    first: int,
)
    requires
        from.len() > 0,
        occurs_at(text, from, first),
        forall|at: int| 0 <= at < first ==> !occurs_at(text, from, at),
    ensures
        replaced(text, from, to) == text.take(first) + to + replaced(
            text.skip(first + from.len()),
            from,
            to,
        ),
    decreases first,
{
    assert(text.skip(0) =~= text);
    if first == 0 {
        assert(text.take(0) + to =~= to);
    } else {
        let rest = text.skip(1);
        assert(!occurs_at(text, from, 0));
        assert(rest.skip(first - 1) =~= text.skip(first));
        assert forall|at: int| 0 <= at < first - 1 implies !occurs_at(rest, from, at) by {
            assert(rest.skip(at) =~= text.skip(at + 1));
            assert(!occurs_at(text, from, at + 1));
        }
        lemma_replaced_at_first_occurrence(rest, from, to, first - 1);
        assert(rest.skip(first - 1 + from.len()) =~= text.skip(first + from.len()));
        assert(seq![text[0]] + rest.take(first - 1) =~= text.take(first));
        assert(seq![text[0]] + (rest.take(first - 1) + to + replaced(
            text.skip(first + from.len()),
            from,
            to,
        )) =~= text.take(first) + to + replaced(text.skip(first + from.len()), from, to));
    }
}

/// The characters of a string, in order.
fn chars_of(s: &str) -> (v: Vec<char>)
    ensures
        v@ == s@,
{
    let mut v: Vec<char> = Vec::new();
    for c in it: s.chars()
        invariant
            it.seq() == s@,
            v@ == it.seq().take(it.index() as int),
    {
        v.push(c);
    }
    v
}

/// Whether `pattern` occurs in `text` at index `at`.
fn matches_at(text: &Vec<char>, pattern: &Vec<char>, at: usize) -> (b: bool)
    requires
        at + pattern.len() <= text.len(),
    ensures
        b == occurs_at(text@, pattern@, at as int),
{
    let m = pattern.len();
    let mut j: usize = 0;
    while j < m
        invariant
            j <= m,
            m == pattern.len(),
            at + m <= text.len(),
            forall|k: int| 0 <= k < j ==> text@[at + k] == pattern@[k],
        decreases m - j,
    {
        if text[at + j] != pattern[j] {
            assert(text@.skip(at as int).take(m as int)[j as int] != pattern@[j as int]);
            return false;
        }
        j += 1;
    }
    assert(text@.skip(at as int).take(m as int) =~= pattern@);
    true
}

/// Replaces every occurrence of `from` in `text` by `to`: the leftmost
/// first, then the leftmost behind it, and so on to the end of the text. An
/// empty `from` occurs before every character and at the end.
pub fn replace(text: &str, from: &str, to: &str) -> (out: String)
    ensures
        out@ == replaced(text@, from@, to@),
{
    let text_chars = chars_of(text);
    let from_chars = chars_of(from);
    let n = text_chars.len();
    let m = from_chars.len();
    let mut out = String::new();
    let mut i: usize = 0;
    assert(text@.skip(0) =~= text@);
    assert(out@ + replaced(text@, from@, to@) =~= replaced(text@, from@, to@));
    while i < n
        invariant
            i <= n,
            n == text@.len(),
            m == from@.len(),
            text_chars@ == text@,
            from_chars@ == from@,
            out@ + replaced(text@.skip(i as int), from@, to@) == replaced(text@, from@, to@),
        decreases n - i,
    {
        let ghost rest = text@.skip(i as int);
        let ghost done = out@;
        if m == 0 {
            out.append(to);
            out.push(text_chars[i]);
            assert(rest.skip(1) =~= text@.skip(i + 1));
            assert(out@ + replaced(rest.skip(1), from@, to@) =~= done + replaced(rest, from@, to@));
            i += 1;
        } else if m <= n - i && matches_at(&text_chars, &from_chars, i) {
            out.append(to);
            assert(rest.skip(m as int) =~= text@.skip(i + m));
            assert(out@ + replaced(rest.skip(m as int), from@, to@) =~= done + replaced(rest, from@, to@));
            i += m;
        } else {
            out.push(text_chars[i]);
            assert(rest.skip(1) =~= text@.skip(i + 1));
            assert(out@ + replaced(rest.skip(1), from@, to@) =~= done + replaced(rest, from@, to@));
            i += 1;
        }
    }
    assert(text@.skip(n as int).len() == 0);
    if m == 0 {
        out.append(to);
    } else {
        assert(out@ + Seq::<char>::empty() =~= out@);
    }
    out
}

} // verus!
