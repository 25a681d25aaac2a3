//! Text as sequences of characters: comparison and literal substitution.
use vstd::prelude::*;
use vstd::std_specs::iter::IteratorSpec;
use vstd::string::StringExecFns;

verus! {

/// `String::push` of the standard library: the character is appended to
/// the end of the string, and nothing else changes.
pub assume_specification[ String::push ](s: &mut String, c: char)
    ensures
        final(s)@ == old(s)@.push(c),
;

/// The text of each string of a sequence.
pub open spec fn texts(strings: Seq<String>) -> Seq<Seq<char>> {
    strings.map_values(|s: String| s@)
}

/// Whether `pattern` stands in `text` at position `at`.
pub open spec fn occurs_at(text: Seq<char>, pattern: Seq<char>, at: int) -> bool {
    &&& 0 <= at
    &&& at + pattern.len() <= text.len()
    &&& text.subrange(at, at + pattern.len()) == pattern
}

/// `text` with every occurrence of `from` replaced by `to`. Occurrences are
/// found from the left and do not overlap; what was put in is not searched
/// again. An empty `from` occurs nowhere.
pub open spec fn replaced(text: Seq<char>, from: Seq<char>, to: Seq<char>) -> Seq<char>
    decreases text.len(),
{
    if from.len() == 0 || text.len() == 0 {
        text
    } else if occurs_at(text, from, 0) {
        to + replaced(text.skip(from.len() as int), from, to)
    } else {
        text.take(1) + replaced(text.skip(1), from, to)
    }
}

/// A text in which `from` occurs nowhere is left as it is.
pub proof fn lemma_replaced_without_occurrence(text: Seq<char>, from: Seq<char>, to: Seq<char>)
    requires
        forall|at: int| !occurs_at(text, from, at),
    ensures
        replaced(text, from, to) == text,
    decreases text.len(),
{
    if from.len() > 0 && text.len() > 0 {
        let rest = text.skip(1);
        assert(!occurs_at(text, from, 0));
        assert forall|at: int| !occurs_at(rest, from, at) by {
            if occurs_at(rest, from, at) {
                assert(text.subrange(at + 1, at + 1 + from.len()) =~= rest.subrange(
                    at,
                    at + from.len(),
                ));
                assert(occurs_at(text, from, at + 1));
            }
        }
        lemma_replaced_without_occurrence(rest, from, to);
        assert(text.take(1) + rest =~= text);
    }
}

/// What stands before the first occurrence of `from` is kept, the
/// occurrence itself becomes `to`, and what follows it is treated in the
/// same way.
pub proof fn lemma_replaced_first_occurrence(
    text: Seq<char>,
    from: Seq<char>,
    to: Seq<char>,
    at: int,
)
    requires
        from.len() > 0,
        occurs_at(text, from, at),
        forall|earlier: int| 0 <= earlier < at ==> !occurs_at(text, from, earlier),
    ensures
        replaced(text, from, to) == text.take(at) + to + replaced(
            text.skip(at + from.len()),
            from,
            to,
        ),
    decreases at,
{
    if at == 0 {
        assert(text.take(0) + to =~= to);
    } else {
        let rest = text.skip(1);
        assert(!occurs_at(text, from, 0));
        assert(rest.subrange(at - 1, at - 1 + from.len()) =~= text.subrange(at, at + from.len()));
        assert forall|earlier: int| 0 <= earlier < at - 1 implies !occurs_at(
            rest,
            from,
            earlier,
        ) by {
            if occurs_at(rest, from, earlier) {
                assert(text.subrange(earlier + 1, earlier + 1 + from.len()) =~= rest.subrange(
                    earlier,
                    earlier + from.len(),
                ));
                assert(occurs_at(text, from, earlier + 1));
            }
        }
        lemma_replaced_first_occurrence(rest, from, to, at - 1);
        assert(rest.skip(at - 1 + from.len()) =~= text.skip(at + from.len()));
        assert(text.take(1) + (rest.take(at - 1) + to + replaced(
            text.skip(at + from.len()),
            from,
            to,
        )) =~= text.take(at) + to + replaced(text.skip(at + from.len()), from, to));
    }
}

/// Two texts put together are replaced piece by piece, as long as no
/// occurrence of `from` lies across the place where they meet.
pub proof fn lemma_replaced_piecewise(
    left: Seq<char>,
    right: Seq<char>,
    from: Seq<char>,
    to: Seq<char>,
)
    requires
        forall|at: int|
            0 <= at < left.len() && left.len() < at + from.len() ==> !occurs_at(
                left + right,
                from,
                at,
            ),
    ensures
        replaced(left + right, from, to) == replaced(left, from, to) + replaced(right, from, to),
    decreases left.len(),
{
    let whole = left + right;
    if from.len() == 0 {
    } else if left.len() == 0 {
        assert(whole =~= right);
        assert(left + replaced(right, from, to) =~= replaced(right, from, to));
    } else {
        let step: int = if occurs_at(whole, from, 0) { from.len() as int } else { 1 };
        assert(step <= left.len());
        let shorter = left.skip(step);
        assert(whole.skip(step) =~= shorter + right);
        assert forall|at: int|
            0 <= at < shorter.len() && shorter.len() < at + from.len() implies !occurs_at(
            shorter + right,
            from,
            at,
        ) by {
            if occurs_at(shorter + right, from, at) {
                assert(whole.subrange(at + step, at + step + from.len()) =~= (shorter
                    + right).subrange(at, at + from.len()));
                assert(occurs_at(whole, from, at + step));
            }
        }
        lemma_replaced_piecewise(shorter, right, from, to);
        if from.len() <= left.len() {
            assert(left.subrange(0, from.len() as int) =~= whole.subrange(0, from.len() as int));
        }
        assert(occurs_at(left, from, 0) == occurs_at(whole, from, 0));
        if occurs_at(whole, from, 0) {
            assert(to + (replaced(shorter, from, to) + replaced(right, from, to)) =~= (to
                + replaced(shorter, from, to)) + replaced(right, from, to));
        } else {
            assert(whole.take(1) =~= left.take(1));
            assert(left.take(1) + (replaced(shorter, from, to) + replaced(right, from, to)) =~= (
            left.take(1) + replaced(shorter, from, to)) + replaced(right, from, to));
        }
    }
}

/// Whether two strings hold the same characters.
pub fn text_eq(a: &str, b: &str) -> (same: bool)
    ensures
        same == (a@ == b@),
{
    broadcast use vstd::string::group_string_axioms;

    let mut left = a.chars();
    let mut right = b.chars();
    let ghost mut n: int = 0;
    loop
        invariant
            0 <= n <= a@.len(),
            n <= b@.len(),
            left.remaining() == a@.skip(n),
            right.remaining() == b@.skip(n),
            a@.take(n) == b@.take(n),
        decreases a@.len() - n,
    {
        let x = left.next();
        let y = right.next();
        match (x, y) {
            (None, None) => {
                assert(a@ =~= a@.take(n));
                assert(b@ =~= b@.take(n));
                return true;
            },
            (Some(c), Some(d)) => {
                if c != d {
                    assert(a@[n] != b@[n]);
                    return false;
                }
                proof {
                    assert(a@.take(n + 1) =~= a@.take(n).push(a@[n]));
                    assert(b@.take(n + 1) =~= b@.take(n).push(b@[n]));
                    assert(a@.skip(n).drop_first() =~= a@.skip(n + 1));
                    assert(b@.skip(n).drop_first() =~= b@.skip(n + 1));
                    n = n + 1;
                }
            },
            _ => {
                assert(a@.len() != b@.len());
                return false;
            },
        }
    }
}

/// The characters of a string, in order.
pub fn chars_of(text: &str) -> (chars: Vec<char>)
    ensures
        chars@ == text@,
{
    let mut chars: Vec<char> = Vec::new();
    for c in it: text.chars()
        invariant
            it.seq() == text@,
            chars@ == it.seq().take(it.index()),
    {
        chars.push(c);
    }
    chars
}

/// Whether `pattern` stands in `text` at position `at`.
fn matches_at(text: &Vec<char>, pattern: &Vec<char>, at: usize) -> (found: bool)
    requires
        at <= text.len(),
    ensures
        found == occurs_at(text@, pattern@, at as int),
{
    if pattern.len() > text.len() - at {
        return false;
    }
    let mut k: usize = 0;
    while k < pattern.len()
        invariant
            at + pattern.len() <= text.len(),
            k <= pattern.len(),
            forall|j: int| 0 <= j < k ==> text@[at + j] == pattern@[j],
        decreases pattern.len() - k,
    {
        if text[at + k] != pattern[k] {
            assert(text@.subrange(at as int, at + pattern.len())[k as int] != pattern@[k as int]);
            return false;
        }
        k += 1;
    }
    assert(text@.subrange(at as int, at + pattern.len()) =~= pattern@);
    true
}

/// Replaces every occurrence of `from` in `text` by `to`, going from left
/// to right. With an empty `from` the text comes back unchanged.
pub fn replace(text: &str, from: &str, to: &str) -> (out: String)
    ensures
        out@ == replaced(text@, from@, to@),
{
    let source = chars_of(text);
    let pattern = chars_of(from);
    if pattern.len() == 0 {
        return text.to_owned();
    }
    let mut out = String::new();
    let mut i: usize = 0;
    assert(text@.skip(0) =~= text@);
    assert(out@ + replaced(text@, from@, to@) =~= replaced(text@, from@, to@));
    while i < source.len()
        invariant
            i <= source.len(),
            source@ == text@,
            pattern@ == from@,
            pattern.len() > 0,
            replaced(text@, from@, to@) == out@ + replaced(text@.skip(i as int), from@, to@),
        decreases source.len() - i,
    {
        let ghost rest = text@.skip(i as int);
        let ghost before = out@;
        assert(occurs_at(rest, from@, 0) == occurs_at(text@, from@, i as int)) by {
            if i + from@.len() <= text@.len() {
                assert(rest.subrange(0, from@.len() as int) =~= text@.subrange(
                    i as int,
                    i + from@.len(),
                ));
            }
        }
        if matches_at(&source, &pattern, i) {
            out.append(to);
            i += pattern.len();
            assert(rest.skip(from@.len() as int) =~= text@.skip(i as int));
            assert(before + (to@ + replaced(text@.skip(i as int), from@, to@)) =~= out@ + replaced(
                text@.skip(i as int),
                from@,
                to@,
            ));
        } else {
            out.push(source[i]);
            i += 1;
            assert(rest.skip(1) =~= text@.skip(i as int));
            assert(rest.take(1) =~= seq![text@[i - 1]]);
            assert(before + (rest.take(1) + replaced(text@.skip(i as int), from@, to@)) =~= out@
                + replaced(text@.skip(i as int), from@, to@));
        }
    }
    assert(text@.skip(i as int).len() == 0);
    assert(out@ + text@.skip(i as int) =~= out@);
    out
}

} // verus!
