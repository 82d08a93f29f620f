//! Facts about the text model.

use crate::text::{
    first_occurrence, has_prefix, index_of, index_of_either, is_white_space, lines_len,
    pieces, text_lines, trimmed, trimmed_end, trimmed_start, without_carriage_return,
};
use vstd::prelude::*;

verus! {

/// Whether `s` has no white space on either side.
pub open spec fn is_trimmed(s: Seq<char>) -> bool {
    s.len() > 0 ==> !is_white_space(s[0]) && !is_white_space(s.last())
}

/// Whether `s` is white space throughout.
pub open spec fn is_blank(s: Seq<char>) -> bool {
    forall|i: int| 0 <= i < s.len() ==> is_white_space(#[trigger] s[i])
}

/// Whether every character of `part` occurs in `whole`.
pub open spec fn chars_within(part: Seq<char>, whole: Seq<char>) -> bool {
    forall|i: int| 0 <= i < part.len() ==> whole.contains(#[trigger] part[i])
}

pub proof fn lemma_within_trans(a: Seq<char>, b: Seq<char>, c: Seq<char>)
    requires
        chars_within(a, b),
        chars_within(b, c),
    ensures
        chars_within(a, c),
{
    assert forall|i: int| 0 <= i < a.len() implies c.contains(#[trigger] a[i]) by {
        let j = choose|j: int| 0 <= j < b.len() && b[j] == a[i];
        assert(c.contains(b[j]));
    }
}

pub proof fn lemma_within_subrange(s: Seq<char>, i: int, j: int)
    requires
        0 <= i <= j <= s.len(),
    ensures
        chars_within(s.subrange(i, j), s),
{
    let part = s.subrange(i, j);
    assert forall|k: int| 0 <= k < part.len() implies s.contains(#[trigger] part[k]) by {
        assert(part[k] == s[i + k]);
    }
}

pub proof fn lemma_within_keeps_out(part: Seq<char>, whole: Seq<char>, c: char)
    requires
        chars_within(part, whole),
        !whole.contains(c),
    ensures
        !part.contains(c),
{
    if part.contains(c) {
        let i = choose|i: int| 0 <= i < part.len() && part[i] == c;
        assert(whole.contains(part[i]));
    }
}

pub proof fn lemma_trimmed_start(s: Seq<char>)
    ensures
        trimmed_start(s).len() <= s.len(),
        trimmed_start(s) == s.skip(s.len() - trimmed_start(s).len()),
        trimmed_start(s).len() > 0 ==> !is_white_space(trimmed_start(s)[0]),
        chars_within(trimmed_start(s), s),
    decreases s.len(),
{
    if s.len() > 0 && is_white_space(s[0]) {
        lemma_trimmed_start(s.drop_first());
        let rest = s.drop_first();
        let t = trimmed_start(rest);
        assert(rest.skip(rest.len() - t.len()) == s.skip(s.len() - t.len()));
        assert(s.skip(s.len() - t.len()) == s.subrange(s.len() - t.len(), s.len() as int));
        lemma_within_subrange(s, s.len() - t.len(), s.len() as int);
    } else {
        assert(s.skip(0) == s);
        assert(s.subrange(0, s.len() as int) == s);
        lemma_within_subrange(s, 0, s.len() as int);
    }
}

pub proof fn lemma_trimmed_end(s: Seq<char>)
    ensures
        trimmed_end(s).len() <= s.len(),
        trimmed_end(s) == s.take(trimmed_end(s).len() as int),
        trimmed_end(s).len() > 0 ==> !is_white_space(trimmed_end(s).last()),
        s.len() > 0 && !is_white_space(s[0]) ==> trimmed_end(s).len() > 0,
        chars_within(trimmed_end(s), s),
    decreases s.len(),
{
    if s.len() > 0 && is_white_space(s.last()) {
        lemma_trimmed_end(s.drop_last());
        let t = trimmed_end(s.drop_last());
        assert(s.drop_last().take(t.len() as int) == s.take(t.len() as int));
        assert(s.take(t.len() as int) == s.subrange(0, t.len() as int));
        lemma_within_subrange(s, 0, t.len() as int);
    } else {
        assert(s.take(s.len() as int) == s);
        assert(s.subrange(0, s.len() as int) == s);
        lemma_within_subrange(s, 0, s.len() as int);
    }
}

pub proof fn lemma_trimmed(s: Seq<char>)
    ensures
        is_trimmed(trimmed(s)),
        chars_within(trimmed(s), s),
{
    let t = trimmed_start(s);
    lemma_trimmed_start(s);
    lemma_trimmed_end(t);
    lemma_within_trans(trimmed_end(t), t, s);
}

/// Leading white space does not matter to what `trimmed_start` leaves.
pub proof fn lemma_trimmed_start_skips(blank: Seq<char>, s: Seq<char>)
    requires
        is_blank(blank),
    ensures
        trimmed_start(blank + s) == trimmed_start(s),
    decreases blank.len(),
{
    if blank.len() == 0 {
        assert(blank + s == s);
    } else {
        let whole = blank + s;
        assert(is_white_space(blank[0]));
        assert(whole[0] == blank[0]);
        assert(whole.drop_first() == blank.drop_first() + s);
        assert(is_blank(blank.drop_first())) by {
            assert forall|i: int| 0 <= i < blank.drop_first().len() implies is_white_space(
                #[trigger] blank.drop_first()[i],
            ) by {
                assert(blank.drop_first()[i] == blank[i + 1]);
            }
        }
        lemma_trimmed_start_skips(blank.drop_first(), s);
    }
}

pub proof fn lemma_index(s: Seq<char>, a: char, b: char)
    ensures
        index_of_either(s, a, b) <= s.len(),
        index_of_either(s, a, b) < s.len() ==> s[index_of_either(s, a, b) as int] == a || s[
            index_of_either(s, a, b) as int] == b,
        forall|j: int| 0 <= j < index_of_either(s, a, b) ==> s[j] != a && s[j] != b,
    decreases s.len(),
{
    if s.len() == 0 || s[0] == a || s[0] == b {
    } else {
        lemma_index(s.drop_first(), a, b);
        let i = index_of_either(s.drop_first(), a, b);
        assert forall|j: int| 0 <= j < i + 1 implies s[j] != a && s[j] != b by {
            if j > 0 {
                assert(s[j] == s.drop_first()[j - 1]);
            }
        }
    }
}

pub proof fn lemma_index_is(s: Seq<char>, c: char, i: int)
    requires
        0 <= i <= s.len(),
        forall|j: int| 0 <= j < i ==> s[j] != c,
        i < s.len() ==> s[i] == c,
    ensures
        index_of(s, c) == i,
{
    lemma_index(s, c, c);
    let k = index_of(s, c) as int;
    if k < i {
        assert(s[k] == c);
    } else if i < k {
        assert(s[i] == c);
    }
}

/// Text after a complete line does not change the lines before it.
pub proof fn lemma_lines_append(p: Seq<char>, q: Seq<char>)
    requires
        p.len() == 0 || p.last() == '\n',
    ensures
        text_lines(p + q) == text_lines(p) + text_lines(q),
    decreases p.len(),
{
    if p.len() == 0 {
        assert(p + q == q);
        assert(text_lines(p) + text_lines(q) == text_lines(q));
    } else {
        let i = index_of(p, '\n') as int;
        lemma_index(p, '\n', '\n');
        assert(i < p.len()) by {
            if i == p.len() {
                assert(p[p.len() - 1] == '\n');
            }
        }
        assert forall|j: int| 0 <= j < i implies (p + q)[j] != '\n' by {
            assert((p + q)[j] == p[j]);
        }
        lemma_index_is(p + q, '\n', i);
        let rest = p.skip(i + 1);
        assert((p + q).take(i) == p.take(i));
        assert((p + q).skip(i + 1) == rest + q);
        assert(rest.len() > 0 ==> rest.last() == p.last());
        lemma_lines_append(rest, q);
        let line = seq![without_carriage_return(p.take(i))];
        assert(line + (text_lines(rest) + text_lines(q)) == (line + text_lines(rest)) + text_lines(
            q,
        ));
    }
}

/// A text without line feed, followed by one, is one line.
pub proof fn lemma_one_line(s: Seq<char>)
    requires
        !s.contains('\n'),
    ensures
        text_lines(s.push('\n')) == seq![without_carriage_return(s)],
{
    let t = s.push('\n');
    assert forall|j: int| 0 <= j < s.len() implies t[j] != '\n' by {
        assert(s.contains(s[j]));
    }
    lemma_index_is(t, '\n', s.len() as int);
    assert(t.take(s.len() as int) == s);
    assert(t.skip(s.len() as int + 1) == Seq::<char>::empty());
    assert(text_lines(Seq::<char>::empty()) == Seq::<Seq<char>>::empty());
    assert(seq![without_carriage_return(s)] + Seq::<Seq<char>>::empty()
        == seq![without_carriage_return(s)]);
}

/// Cutting a text after some of its lines parts its lines.
pub proof fn lemma_cut_lines(s: Seq<char>, n: int)
    requires
        s.len() == 0 || s.last() == '\n',
        0 <= n <= text_lines(s).len(),
    ensures
        lines_len(s, n) <= s.len(),
        text_lines(s.take(lines_len(s, n) as int)) == text_lines(s).take(n),
        text_lines(s.skip(lines_len(s, n) as int)) == text_lines(s).skip(n),
        lines_len(s, n) == 0 || s[lines_len(s, n) - 1] == '\n',
    decreases s.len(),
{
    if n == 0 || s.len() == 0 {
        assert(s.take(0) == Seq::<char>::empty());
        assert(s.skip(0) == s);
        assert(text_lines(s).take(0) == Seq::<Seq<char>>::empty());
        assert(text_lines(s).skip(0) == text_lines(s));
    } else {
        let i = index_of(s, '\n') as int;
        lemma_index(s, '\n', '\n');
        assert(i < s.len()) by {
            if i == s.len() {
                assert(s[s.len() - 1] == '\n');
            }
        }
        let rest = s.skip(i + 1);
        let first = s.take(i);
        let line = seq![without_carriage_return(first)];
        assert(text_lines(s) == line + text_lines(rest));
        assert(rest.len() > 0 ==> rest.last() == s.last());
        lemma_cut_lines(rest, n - 1);
        let k = lines_len(rest, n - 1) as int;
        assert forall|j: int| 0 <= j < first.len() implies first[j] != '\n' by {
            assert(first[j] == s[j]);
        }
        lemma_one_line(first);
        assert(s.take(i + 1 + k) == first.push('\n') + rest.take(k));
        lemma_lines_append(first.push('\n'), rest.take(k));
        assert(s.skip(i + 1 + k) == rest.skip(k));
        assert(text_lines(s).take(n) == line + text_lines(rest).take(n - 1));
        assert(text_lines(s).skip(n) == text_lines(rest).skip(n - 1));
        if k > 0 {
            assert(rest[k - 1] == s[i + k]);
        }
    }
}

/// No line holds a line feed.
pub proof fn lemma_lines_hold_no_line_feed(s: Seq<char>)
    ensures
        forall|i: int| 0 <= i < text_lines(s).len() ==> !(#[trigger] text_lines(s)[i]).contains(
            '\n',
        ),
    decreases s.len(),
{
    if s.len() > 0 {
        let i = index_of(s, '\n') as int;
        lemma_index(s, '\n', '\n');
        if i < s.len() {
            lemma_lines_hold_no_line_feed(s.skip(i + 1));
            let line = without_carriage_return(s.take(i));
            assert forall|j: int| 0 <= j < text_lines(s).len() implies !(
            #[trigger] text_lines(s)[j]).contains('\n') by {
                if j > 0 {
                    assert(text_lines(s)[j] == text_lines(s.skip(i + 1))[j - 1]);
                } else {
                    assert(text_lines(s)[0] == line);
                    assert forall|k: int| 0 <= k < line.len() implies line[k] != '\n' by {
                        assert(line[k] == s[k]);
                    }
                }
            }
        } else {
            assert(text_lines(s) == seq![s]);
            assert(!s.contains('\n'));
        }
    }
}

/// The characters of a piece are characters of the whole.
pub proof fn lemma_pieces_within(s: Seq<char>, a: char, b: char)
    ensures
        forall|i: int| 0 <= i < pieces(s, a, b).len() ==> chars_within(
            #[trigger] pieces(s, a, b)[i],
            s,
        ),
    decreases s.len(),
{
    let i = index_of_either(s, a, b) as int;
    lemma_index(s, a, b);
    assert(s.subrange(0, s.len() as int) == s);
    lemma_within_subrange(s, 0, s.len() as int);
    if i < s.len() {
        let rest = s.skip(i + 1);
        lemma_pieces_within(rest, a, b);
        assert(rest == s.subrange(i + 1, s.len() as int));
        lemma_within_subrange(s, i + 1, s.len() as int);
        assert(s.take(i) == s.subrange(0, i));
        lemma_within_subrange(s, 0, i);
        assert forall|j: int| 0 <= j < pieces(s, a, b).len() implies chars_within(
            #[trigger] pieces(s, a, b)[j],
            s,
        ) by {
            if j > 0 {
                assert(pieces(s, a, b)[j] == pieces(rest, a, b)[j - 1]);
                lemma_within_trans(pieces(rest, a, b)[j - 1], rest, s);
            }
        }
    }
}

pub proof fn lemma_first_occurrence_fits(s: Seq<char>, pattern: Seq<char>)
    ensures
        first_occurrence(s, pattern) matches Some(i) ==> i + pattern.len() <= s.len(),
    decreases s.len(),
{
    if !has_prefix(s, pattern) && s.len() > 0 {
        lemma_first_occurrence_fits(s.drop_first(), pattern);
    }
}

} // verus!
