//! What the text model means: each function by how it answers texts that are put
//! together in a known way. Every text can be put together so.

use crate::text::{
    first_occurrence, has_prefix, has_suffix, index_of, index_of_either, is_white_space, lines_len,
    pieces, replaced, slice_views, string_views, text_lines, trimmed, trimmed_end, trimmed_start,
    undoubled, unquoted,
};
use crate::text_lemmas::{
    is_blank, is_trimmed, lemma_cut_lines, lemma_index, lemma_lines_append, lemma_one_line,
    lemma_trimmed_start_skips,
};
use vstd::prelude::*;

verus! {

/// Whether `s` holds nothing but quotation marks.
pub open spec fn all_quotes(s: Seq<char>) -> bool {
    forall|i: int| 0 <= i < s.len() ==> (#[trigger] s[i] == '\'' || s[i] == '"')
}

/// Whether `s` has no quotation mark on either side.
pub open spec fn is_bare(s: Seq<char>) -> bool {
    s.len() > 0 ==> s[0] != '\'' && s[0] != '"' && s.last() != '\'' && s.last() != '"'
}

/// Whether `pattern` stands in `s` at place `i`.
pub open spec fn stands_at(s: Seq<char>, pattern: Seq<char>, i: int) -> bool {
    0 <= i && i + pattern.len() <= s.len() && s.subrange(i, i + pattern.len()) == pattern
}

/// A text begins with another exactly where it is that text and something more.
pub proof fn law_prefix_is_what_comes_first(s: Seq<char>, prefix: Seq<char>, rest: Seq<char>)
    ensures
        has_prefix(prefix + rest, prefix),
        has_prefix(s, prefix) ==> s == prefix + s.skip(prefix.len() as int),
{
    assert((prefix + rest).take(prefix.len() as int) == prefix);
    if has_prefix(s, prefix) {
        assert(s == s.take(prefix.len() as int) + s.skip(prefix.len() as int));
    }
}

/// A text ends with another exactly where it is something and that text.
pub proof fn law_suffix_is_what_comes_last(s: Seq<char>, suffix: Seq<char>, rest: Seq<char>)
    ensures
        has_suffix(rest + suffix, suffix),
        has_suffix(s, suffix) ==> s == s.take(s.len() - suffix.len()) + suffix,
{
    let whole = rest + suffix;
    assert(whole.skip(whole.len() - suffix.len()) == suffix);
    if has_suffix(s, suffix) {
        let n = s.len() - suffix.len();
        assert(s == s.take(n) + s.skip(n));
    }
}

/// Trailing white space does not matter to what `trimmed_end` leaves.
pub proof fn lemma_trimmed_end_skips(s: Seq<char>, blank: Seq<char>)
    requires
        is_blank(blank),
    ensures
        trimmed_end(s + blank) == trimmed_end(s),
    decreases blank.len(),
{
    if blank.len() == 0 {
        assert(s + blank == s);
    } else {
        let whole = s + blank;
        let shorter = blank.drop_last();
        assert(whole.last() == blank[blank.len() - 1]);
        assert(whole.drop_last() == s + shorter);
        assert forall|i: int| 0 <= i < shorter.len() implies is_white_space(
            #[trigger] shorter[i],
        ) by {
            assert(shorter[i] == blank[i]);
        }
        lemma_trimmed_end_skips(s, shorter);
    }
}

/// Trimming takes off the white space around a text, all of it and nothing else.
pub proof fn law_trimming_takes_white_space_off(
    before: Seq<char>,
    s: Seq<char>,
    after: Seq<char>,
)
    requires
        is_blank(before),
        is_blank(after),
        is_trimmed(s),
    ensures
        trimmed_start(before + s) == s,
        trimmed_end(s + after) == s,
        trimmed(before + s + after) == s,
        trimmed_start(before + s + after) == if s.len() > 0 {
            s + after
        } else {
            s
        },
{
    lemma_trimmed_start_skips(before, s);
    lemma_trimmed_end_skips(s, after);
    assert(before + s + after == before + (s + after));
    lemma_trimmed_start_skips(before, s + after);
    if s.len() > 0 {
        assert((s + after)[0] == s[0]);
        assert(trimmed_start(s + after) == s + after);
    } else {
        let empty = Seq::<char>::empty();
        assert(s == empty);
        assert(s + after == after + empty);
        lemma_trimmed_start_skips(after, empty);
        assert(trimmed_start(empty) == empty);
    }
}

/// Taking quotation marks off takes all of those around a text and nothing else.
pub proof fn law_quotation_marks_are_taken_off(before: Seq<char>, s: Seq<char>, after: Seq<char>)
    requires
        all_quotes(before),
        all_quotes(after),
        is_bare(s),
    ensures
        unquoted(before + s + after) == s,
    decreases before.len() + after.len(),
{
    let whole = before + s + after;
    if before.len() > 0 {
        assert(whole[0] == before[0]);
        let less = before.drop_first();
        assert forall|i: int| 0 <= i < less.len() implies (#[trigger] less[i] == '\'' || less[i]
            == '"') by {
            assert(less[i] == before[i + 1]);
        }
        assert(whole.drop_first() == less + s + after);
        law_quotation_marks_are_taken_off(less, s, after);
    } else if after.len() > 0 {
        if s.len() == 0 {
            let less = after.drop_first();
            assert(whole[0] == after[0]);
            assert forall|i: int| 0 <= i < less.len() implies (#[trigger] less[i] == '\'' || less[i]
                == '"') by {
                assert(less[i] == after[i + 1]);
            }
            assert(whole.drop_first() == before + s + less);
            law_quotation_marks_are_taken_off(before, s, less);
        } else {
            let less = after.drop_last();
            assert(whole[0] == s[0]);
            assert(whole.last() == after[after.len() - 1]);
            assert forall|i: int| 0 <= i < less.len() implies (#[trigger] less[i] == '\'' || less[i]
                == '"') by {
                assert(less[i] == after[i]);
            }
            assert(whole.drop_last() == before + s + less);
            law_quotation_marks_are_taken_off(before, s, less);
        }
    } else {
        assert(whole == s);
    }
}

/// The place of a character is how much stands before its first occurrence.
pub proof fn law_index_counts_what_stands_before(
    before: Seq<char>,
    a: char,
    b: char,
    c: char,
    after: Seq<char>,
)
    requires
        !before.contains(a),
        !before.contains(b),
        c == a || c == b,
    ensures
        index_of_either(before + seq![c] + after, a, b) == before.len(),
        index_of_either(before, a, b) == before.len(),
        index_of(before + seq![a] + after, a) == before.len(),
        index_of(before, a) == before.len(),
{
    lemma_index_either_is(before + seq![c] + after, a, b, before.len() as int);
    lemma_index_either_is(before, a, b, before.len() as int);
    lemma_index_either_is(before + seq![a] + after, a, a, before.len() as int);
    lemma_index_either_is(before, a, a, before.len() as int);
}

proof fn lemma_index_either_is(s: Seq<char>, a: char, b: char, i: int)
    requires
        0 <= i <= s.len(),
        !s.take(i).contains(a),
        !s.take(i).contains(b),
        i < s.len() ==> s[i] == a || s[i] == b,
    ensures
        index_of_either(s, a, b) == i,
{
    lemma_index(s, a, b);
    let k = index_of_either(s, a, b) as int;
    if k < i {
        assert(s.take(i)[k] == s[k]);
        assert(s.take(i).contains(s[k]));
    }
}

/// Splitting parts a text at its separators, and at every one of them.
pub proof fn law_splitting_parts_at_separators(
    before: Seq<char>,
    a: char,
    b: char,
    c: char,
    after: Seq<char>,
)
    requires
        !before.contains(a),
        !before.contains(b),
        c == a || c == b,
    ensures
        pieces(before, a, b) == seq![before],
        pieces(before + seq![c] + after, a, b) == seq![before] + pieces(after, a, b),
{
    law_index_counts_what_stands_before(before, a, b, c, after);
    let whole = before + seq![c] + after;
    assert(whole.take(before.len() as int) == before);
    assert(whole.skip(before.len() as int + 1) == after);
}

/// Splitting at a separator anywhere parts the pieces.
pub proof fn lemma_pieces_concat(s: Seq<char>, a: char, b: char, c: char, t: Seq<char>)
    requires
        c == a || c == b,
    ensures
        pieces(s + seq![c] + t, a, b) == pieces(s, a, b) + pieces(t, a, b),
    decreases s.len(),
{
    let i = index_of_either(s, a, b) as int;
    lemma_index(s, a, b);
    if i < s.len() {
        let first = s.take(i);
        let rest = s.skip(i + 1);
        assert(!first.contains(a) && !first.contains(b));
        assert(s == first + seq![s[i]] + rest);
        lemma_pieces_concat(rest, a, b, c, t);
        law_splitting_parts_at_separators(first, a, b, s[i], rest);
        law_splitting_parts_at_separators(first, a, b, s[i], rest + seq![c] + t);
        assert(s + seq![c] + t == first + seq![s[i]] + (rest + seq![c] + t));
        assert(seq![first] + (pieces(rest, a, b) + pieces(t, a, b)) == (seq![first] + pieces(
            rest,
            a,
            b,
        )) + pieces(t, a, b));
    } else {
        assert(!s.contains(a) && !s.contains(b));
        law_splitting_parts_at_separators(s, a, b, c, t);
    }
}

/// The lines of a text are what stands between its line endings: a line feed, or a
/// carriage return and a line feed. What follows the last ending is a line too,
/// unless it is empty.
pub proof fn law_lines_stand_between_endings(line: Seq<char>, rest: Seq<char>)
    requires
        !line.contains('\n'),
    ensures
        line.len() > 0 ==> text_lines(line) == seq![line],
        text_lines(Seq::<char>::empty()) == Seq::<Seq<char>>::empty(),
        line.len() == 0 || line.last() != '\r' ==> text_lines(line + seq!['\n'] + rest)
            == seq![line] + text_lines(rest),
        text_lines(line + seq!['\r', '\n'] + rest) == seq![line] + text_lines(rest),
{
    law_index_counts_what_stands_before(line, '\n', '\n', '\n', rest);
    let plain = line.push('\n');
    lemma_one_line(line);
    lemma_lines_append(plain, rest);
    assert(plain + rest == line + seq!['\n'] + rest);
    let longer = line.push('\r');
    assert forall|j: int| 0 <= j < longer.len() implies longer[j] != '\n' by {
        if j < line.len() {
            assert(line.contains(line[j]));
        }
    }
    lemma_one_line(longer);
    lemma_lines_append(longer.push('\n'), rest);
    assert(longer.push('\n') + rest == line + seq!['\r', '\n'] + rest);
    assert(longer.drop_last() == line);
}

/// Cutting a text after some lines leaves the text as it is, and each line on its
/// side of the cut.
pub proof fn law_cut_parts_the_lines(s: Seq<char>, n: int)
    requires
        s.len() == 0 || s.last() == '\n',
        0 <= n <= text_lines(s).len(),
    ensures
        ({
            let at = lines_len(s, n) as int;
            &&& 0 <= at <= s.len()
            &&& s == s.take(at) + s.skip(at)
            &&& text_lines(s.take(at)) == text_lines(s).take(n)
            &&& text_lines(s.skip(at)) == text_lines(s).skip(n)
            &&& at == 0 || s[at - 1] == '\n'
        }),
{
    lemma_cut_lines(s, n);
    let at = lines_len(s, n) as int;
    assert(s == s.take(at) + s.skip(at));
}

/// The first occurrence is an occurrence, there is none before it, and where none
/// is found there is none.
pub proof fn law_first_occurrence_is_first(s: Seq<char>, pattern: Seq<char>, i: int)
    ensures
        first_occurrence(s, pattern) matches Some(n) ==> stands_at(s, pattern, n as int),
        stands_at(s, pattern, i) ==> (first_occurrence(s, pattern) matches Some(n) && n <= i),
    decreases s.len(),
{
    if has_prefix(s, pattern) {
        assert(s.subrange(0, pattern.len() as int) == s.take(pattern.len() as int));
    } else if s.len() > 0 {
        let rest = s.drop_first();
        law_first_occurrence_is_first(rest, pattern, i - 1);
        if let Some(n) = first_occurrence(rest, pattern) {
            let k = n as int;
            assert(rest.subrange(k, k + pattern.len()) == s.subrange(
                k + 1,
                k + 1 + pattern.len(),
            ));
        }
        if stands_at(s, pattern, i) {
            if i == 0 {
                assert(s.take(pattern.len() as int) == s.subrange(0, pattern.len() as int));
            } else {
                assert(rest.subrange(i - 1, i - 1 + pattern.len()) == s.subrange(
                    i,
                    i + pattern.len(),
                ));
            }
        }
    } else if stands_at(s, pattern, i) {
        assert(s.take(pattern.len() as int) == s.subrange(0, pattern.len() as int));
    }
}

/// Replacing works on each character by itself.
pub proof fn law_each_character_is_replaced(
    a: Seq<char>,
    b: Seq<char>,
    c: char,
    from: char,
    to: Seq<char>,
)
    ensures
        replaced(a + b, from, to) == replaced(a, from, to) + replaced(b, from, to),
        replaced(seq![c], from, to) == if c == from {
            to
        } else {
            seq![c]
        },
        replaced(Seq::<char>::empty(), from, to) == Seq::<char>::empty(),
    decreases b.len(),
{
    let empty = Seq::<char>::empty();
    assert(seq![c].drop_last() == empty);
    assert(replaced(empty, from, to) == empty);
    assert(empty + to == to);
    if b.len() == 0 {
        assert(a + b == a);
        assert(replaced(a, from, to) + empty == replaced(a, from, to));
    } else {
        let front = b.drop_last();
        law_each_character_is_replaced(a, front, c, from, to);
        assert((a + b).drop_last() == a + front);
        assert((a + b).last() == b.last());
        let x = replaced(a, from, to);
        let y = replaced(front, from, to);
        assert(x + y + to == x + (y + to));
        assert((x + y).push(b.last()) == x + y.push(b.last()));
    }
}

/// A text without the character is not changed by replacing it.
pub proof fn law_nothing_else_is_replaced(s: Seq<char>, from: char, to: Seq<char>)
    requires
        !s.contains(from),
    ensures
        replaced(s, from, to) == s,
    decreases s.len(),
{
    if s.len() > 0 {
        let front = s.drop_last();
        assert forall|i: int| 0 <= i < front.len() implies front[i] != from by {
            assert(s.contains(s[i]));
        }
        assert(s.contains(s[s.len() - 1]));
        law_nothing_else_is_replaced(front, from, to);
        assert(s == front.push(s.last()));
    }
}

/// Two single quotation marks in a row count as one, and everything else as it is.
pub proof fn law_doubled_marks_count_once(c: char, rest: Seq<char>)
    ensures
        undoubled(seq!['\'', '\''] + rest) == seq!['\''] + undoubled(rest),
        c != '\'' || rest.len() == 0 || rest[0] != '\'' ==> undoubled(seq![c] + rest) == seq![c]
            + undoubled(rest),
        undoubled(Seq::<char>::empty()) == Seq::<char>::empty(),
{
    assert((seq!['\'', '\''] + rest).skip(2) == rest);
    assert((seq![c] + rest).drop_first() == rest);
}

/// The views of strings and slices are what they hold, one by one.
pub proof fn law_views_hold_every_text(strings: Seq<String>, slices: Seq<&[char]>)
    ensures
        string_views(strings).len() == strings.len(),
        forall|i: int|
            0 <= i < strings.len() ==> #[trigger] string_views(strings)[i] == strings[i]@,
        slice_views(slices).len() == slices.len(),
        forall|i: int| 0 <= i < slices.len() ==> #[trigger] slice_views(slices)[i] == slices[i]@,
{
}

} // verus!
