//! How the workspace file is read and written, by how it is put together.

use crate::allow_builds::is_indented;
use crate::allow_builds_laws::lemma_start_is_blank;
use crate::text::{
    has_prefix, has_suffix, is_white_space, lines_len, replaced, text_lines, trimmed,
    trimmed_start, undoubled,
};
use crate::text_laws::{
    all_quotes, is_bare, law_doubled_marks_count_once, law_nothing_else_is_replaced,
    law_quotation_marks_are_taken_off, law_suffix_is_what_comes_last,
    law_trimming_takes_white_space_off,
};
use crate::text_lemmas::{
    is_blank, is_trimmed, lemma_cut_lines, lemma_trimmed_start, lemma_trimmed_start_skips,
};
use crate::workspace::{
    block_end, block_size, block_start, completed, current_text, ends_block, entries_text, entry_key, entry_keys,
    entry_line, file_lines, first_opening, is_nested, listed_keys, merged, missing_keys, nested_size, new_keys, nothing_to_add, opens_block, scalar_key,
    workspace_failure_text, WorkspaceFailure,
};
use crate::workspace_laws::{
    entry_lines, lemma_block_start_fits, lemma_entries_lines, lemma_first_opening,
    lemma_merged_lines, lines_before, on_one_line,
};
use vstd::prelude::*;

verus! {

// ---------------------------------------------------------------------------
// Entries
// ---------------------------------------------------------------------------

/// A text without single quotation marks is not changed by undoubling.
proof fn lemma_nothing_is_doubled(s: Seq<char>)
    requires
        !s.contains('\''),
    ensures
        undoubled(s) == s,
    decreases s.len(),
{
    if s.len() > 0 {
        let rest = s.drop_first();
        assert(s.contains(s[0]));
        assert forall|i: int| 0 <= i < rest.len() implies rest[i] != '\'' by {
            assert(s.contains(s[i + 1]));
        }
        lemma_nothing_is_doubled(rest);
        law_doubled_marks_count_once(s[0], rest);
        assert(seq![s[0]] + rest == s);
    } else {
        law_doubled_marks_count_once('a', s);
        assert(s == Seq::<char>::empty());
    }
}

/// An entry is an indented scalar and `: true`, white space aside, and its key is
/// what the scalar spells.
pub proof fn law_entry_is_a_scalar_and_true(
    indent: Seq<char>,
    scalar: Seq<char>,
    gap: Seq<char>,
    trail: Seq<char>,
)
    requires
        indent.len() > 0,
        is_blank(indent),
        scalar.len() > 0,
        is_trimmed(scalar),
        is_blank(gap),
        is_blank(trail),
    ensures
        entry_key(indent + scalar + gap + ": true"@ + trail) == scalar_key(scalar),
{
    reveal_strlit(": true");
    let suffix = ": true"@;
    let body = scalar + gap + suffix;
    let line = indent + scalar + gap + suffix + trail;
    let empty = Seq::<char>::empty();
    assert(line == indent + body + trail);
    assert(body[0] == scalar[0]);
    assert(body.last() == 'e');
    law_trimming_takes_white_space_off(indent, body, trail);
    law_suffix_is_what_comes_last(body, suffix, scalar + gap);
    assert(body.take(body.len() - suffix.len()) == scalar + gap);
    law_trimming_takes_white_space_off(empty, scalar, gap);
    assert(empty + scalar + gap == scalar + gap);
}

/// A scalar spells what stands between its quotation marks: as it is between double
/// ones, and with doubled marks taken as one between single ones. Without marks it
/// spells itself; marks that are not in pairs are dropped, and nothing but such
/// marks spells nothing.
pub proof fn law_scalar_spells_its_key(key: Seq<char>, before: Seq<char>, after: Seq<char>)
    ensures
        scalar_key(seq!['"'] + key + seq!['"']) == Some(key),
        scalar_key(seq!['\''] + key + seq!['\'']) == Some(undoubled(key)),
        !key.contains('\'') ==> scalar_key(seq!['\''] + key + seq!['\'']) == Some(key),
        key.len() > 0 && is_bare(key) ==> scalar_key(key) == Some(key),
        key.len() > 0 && is_bare(key) && all_quotes(before) && all_quotes(after) && (before.len()
            == 0 || after.len() == 0 || before[0] != after.last()) ==> scalar_key(
            before + key + after,
        ) == Some(key),
        all_quotes(before) && (before.len() < 2 || before[0] != before.last()) ==> scalar_key(
            before,
        ) is None,
{
    let empty = Seq::<char>::empty();
    let double = seq!['"'] + key + seq!['"'];
    let single = seq!['\''] + key + seq!['\''];
    assert(double.subrange(1, double.len() - 1) == key);
    assert(single.subrange(1, single.len() - 1) == key);
    if !key.contains('\'') {
        lemma_nothing_is_doubled(key);
    }
    if key.len() > 0 && is_bare(key) {
        law_quotation_marks_are_taken_off(empty, key, empty);
        assert(empty + key + empty == key);
        if all_quotes(before) && all_quotes(after) && (before.len() == 0 || after.len() == 0
            || before[0] != after.last()) {
            let s = before + key + after;
            law_quotation_marks_are_taken_off(before, key, after);
            if before.len() > 0 {
                assert(s[0] == before[0]);
            } else {
                assert(s[0] == key[0]);
            }
            if after.len() > 0 {
                assert(s.last() == after.last());
            } else {
                assert(s.last() == key.last());
            }
        }
    }
    if all_quotes(before) {
        law_quotation_marks_are_taken_off(before, empty, empty);
        assert(before + empty + empty == before);
    }
}

/// A key is recognised in each spelling: between double quotation marks, between
/// single ones, and without any, behind any indentation.
pub proof fn law_entry_is_recognised_in_each_spelling(
    indent: Seq<char>,
    key: Seq<char>,
    gap: Seq<char>,
    trail: Seq<char>,
)
    requires
        indent.len() > 0,
        is_blank(indent),
        is_blank(gap),
        is_blank(trail),
    ensures
        entry_key(indent + (seq!['"'] + key + seq!['"']) + gap + ": true"@ + trail) == Some(key),
        !key.contains('\'') ==> entry_key(
            indent + (seq!['\''] + key + seq!['\'']) + gap + ": true"@ + trail,
        ) == Some(key),
        key.len() > 0 && is_trimmed(key) && is_bare(key) ==> entry_key(
            indent + key + gap + ": true"@ + trail,
        ) == Some(key),
{
    law_scalar_spells_its_key(key, key, key);
    law_entry_is_a_scalar_and_true(indent, seq!['"'] + key + seq!['"'], gap, trail);
    law_entry_is_a_scalar_and_true(indent, seq!['\''] + key + seq!['\''], gap, trail);
    if key.len() > 0 && is_trimmed(key) {
        law_entry_is_a_scalar_and_true(indent, key, gap, trail);
    }
}

/// A line is indented exactly where it begins with white space.
pub proof fn law_indented_lines_begin_with_white_space(line: Seq<char>)
    ensures
        is_indented(line) <==> line.len() > 0 && is_white_space(line[0]),
{
    if line.len() > 0 && is_white_space(line[0]) {
        lemma_trimmed_start(line.drop_first());
    }
}

/// Nothing else is an entry: it begins with white space, ends, white space aside,
/// with `: true`, and has something before that.
pub proof fn law_other_lines_are_no_entries(line: Seq<char>)
    requires
        line.len() == 0 || !is_white_space(line[0]) || !has_suffix(trimmed(line), ": true"@)
            || trimmed(line) == ": true"@,
    ensures
        entry_key(line) is None,
{
    law_indented_lines_begin_with_white_space(line);
    if trimmed(line) == ": true"@ {
        let empty = Seq::<char>::empty();
        assert(trimmed(line).take(0) == empty);
        law_trimming_takes_white_space_off(empty, empty, empty);
        assert(empty + empty + empty == empty);
        law_scalar_spells_its_key(empty, empty, empty);
    }
}

proof fn lemma_keys_agree(a: Seq<Seq<char>>, b: Seq<Seq<char>>, n: int)
    requires
        0 <= n <= a.len(),
        n <= b.len(),
        forall|i: int| 0 <= i < n ==> a[i] == b[i],
    ensures
        entry_keys(a, n) == entry_keys(b, n),
    decreases n,
{
    if n > 0 {
        lemma_keys_agree(a, b, n - 1);
    }
}

/// The keys of lines come line by line, in order.
pub proof fn law_keys_come_line_by_line(lines: Seq<Seq<char>>, line: Seq<char>)
    ensures
        entry_keys(Seq::<Seq<char>>::empty(), 0) == Seq::<Seq<char>>::empty(),
        entry_keys(lines.push(line), lines.len() as int + 1) == match entry_key(line) {
            Some(key) => entry_keys(lines, lines.len() as int).push(key),
            None => entry_keys(lines, lines.len() as int),
        },
{
    lemma_keys_agree(lines.push(line), lines, lines.len() as int);
    assert(lines.push(line)[lines.len() as int] == line);
}

// ---------------------------------------------------------------------------
// The block
// ---------------------------------------------------------------------------

/// Whether `line` can stand inside a block: it is empty, begins with white space,
/// or is a comment.
pub open spec fn is_inside(line: Seq<char>) -> bool {
    line.len() == 0 || is_white_space(line[0]) || line[0] == '#'
}

/// Whether `line` has indented text: it begins with white space and has something
/// else too.
pub open spec fn has_indented_text(line: Seq<char>) -> bool {
    line.len() > 0 && is_white_space(line[0]) && !is_blank(line)
}

/// A block ends at a line that cannot stand inside one, and its last line is one
/// with indented text.
pub proof fn law_lines_of_a_block(line: Seq<char>)
    ensures
        ends_block(line) <==> !is_inside(line),
        is_nested(line) <==> has_indented_text(line),
{
    law_indented_lines_begin_with_white_space(line);
    lemma_start_is_blank(line);
    lemma_trimmed_start(line);
    let n = line.len() - trimmed_start(line).len();
    if is_blank(line) {
        let empty = Seq::<char>::empty();
        lemma_trimmed_start_skips(line, empty);
        assert(line + empty == line);
        assert(trimmed_start(empty) == empty);
    } else if trimmed_start(line).len() == 0 {
        assert(line.take(n) == line);
    }
}

/// Whether `lines` are a file with a block: `before` the line that opens it, the
/// lines inside it, and `after` it.
pub open spec fn is_file_with_block(
    lines: Seq<Seq<char>>,
    before: Seq<Seq<char>>,
    indent: Seq<char>,
    rest: Seq<char>,
    inside: Seq<Seq<char>>,
    after: Seq<Seq<char>>,
) -> bool {
    &&& lines == before + seq![indent + "allowBuilds:"@ + rest] + inside + after
    &&& is_blank(indent)
    &&& indent.len() == 0 ==> forall|i: int|
        0 <= i < before.len() ==> !has_prefix(#[trigger] before[i], "allowBuilds:"@)
    &&& indent.len() > 0 ==> forall|i: int|
        0 <= i < lines.len() ==> !has_prefix(#[trigger] lines[i], "allowBuilds:"@)
    &&& indent.len() > 0 ==> forall|i: int|
        0 <= i < before.len() ==> !has_prefix(trimmed_start(#[trigger] before[i]), "allowBuilds:"@)
    &&& forall|i: int| 0 <= i < inside.len() ==> is_inside(#[trigger] inside[i])
    &&& after.len() > 0 ==> !is_inside(after[0])
}

proof fn lemma_block_start_is(
    lines: Seq<Seq<char>>,
    before: Seq<Seq<char>>,
    indent: Seq<char>,
    rest: Seq<char>,
    inside: Seq<Seq<char>>,
    after: Seq<Seq<char>>,
)
    requires
        is_file_with_block(lines, before, indent, rest, inside, after),
    ensures
        block_start(lines) == Some(before.len()),
        lines.skip(before.len() as int + 1) == inside + after,
{
    reveal_strlit("allowBuilds:");
    let mark = "allowBuilds:"@;
    let n = before.len() as int;
    let opening = indent + mark + rest;
    assert(lines[n] == opening);
    assert(lines.skip(n + 1) == inside + after);
    lemma_first_opening(lines, false);
    lemma_first_opening(lines, true);
    assert forall|i: int| 0 <= i < n implies lines[i] == before[i] by {}
    lemma_trimmed_start_skips(indent, mark + rest);
    assert(opening == indent + (mark + rest));
    assert((mark + rest)[0] == 'a');
    assert(trimmed_start(opening) == mark + rest);
    assert((mark + rest).take(mark.len() as int) == mark);
    if indent.len() == 0 {
        assert(opening == mark + rest);
        assert(opens_block(lines[n], false));
        if let Some(k) = first_opening(lines, false) {
            if k < n {
                assert(lines[k as int] == before[k as int]);
            }
        }
    } else {
        assert(opens_block(lines[n], true));
        if let Some(k) = first_opening(lines, false) {
            assert(has_prefix(lines[k as int], mark));
        }
        if let Some(k) = first_opening(lines, true) {
            if k < n {
                assert(lines[k as int] == before[k as int]);
            }
        }
    }
}

/// Lines without indented text and the end of the block do not count.
proof fn lemma_nested_none(gap: Seq<Seq<char>>, after: Seq<Seq<char>>)
    requires
        forall|i: int| 0 <= i < gap.len() ==> !has_indented_text(#[trigger] gap[i]),
        after.len() > 0,
        !is_inside(after[0]),
    ensures
        nested_size(gap + after) == 0,
    decreases gap.len(),
{
    let whole = gap + after;
    if gap.len() == 0 {
        assert(whole == after);
        law_lines_of_a_block(after[0]);
    } else {
        let less = gap.drop_first();
        assert(whole[0] == gap[0]);
        assert(whole.drop_first() == less + after);
        assert forall|i: int| 0 <= i < less.len() implies !has_indented_text(#[trigger] less[i]) by {
            assert(less[i] == gap[i + 1]);
        }
        law_lines_of_a_block(gap[0]);
        lemma_nested_none(less, after);
    }
}

proof fn lemma_nested_all(core: Seq<Seq<char>>, others: Seq<Seq<char>>)
    requires
        forall|i: int| 0 <= i < core.len() ==> is_inside(#[trigger] core[i]),
        core.len() > 0 ==> has_indented_text(core.last()),
        nested_size(others) == 0,
    ensures
        nested_size(core + others) == core.len(),
    decreases core.len(),
{
    let whole = core + others;
    if core.len() == 0 {
        assert(whole == others);
    } else {
        let less = core.drop_first();
        assert(whole[0] == core[0]);
        assert(whole.drop_first() == less + others);
        assert forall|i: int| 0 <= i < less.len() implies is_inside(#[trigger] less[i]) by {
            assert(less[i] == core[i + 1]);
        }
        law_lines_of_a_block(core[0]);
        if less.len() > 0 {
            assert(less.last() == core.last());
        } else {
            assert(core.last() == core[0]);
        }
        lemma_nested_all(less, others);
    }
}

/// How far the block goes: to the end of the file, or to its last line with
/// indented text before the next setting.
proof fn lemma_block_size_is(
    core: Seq<Seq<char>>,
    gap: Seq<Seq<char>>,
    after: Seq<Seq<char>>,
)
    requires
        forall|i: int| 0 <= i < core.len() ==> is_inside(#[trigger] core[i]),
        forall|i: int|
            0 <= i < gap.len() ==> is_inside(#[trigger] gap[i]) && !has_indented_text(gap[i]),
        after.len() == 0 ==> gap.len() == 0,
        after.len() > 0 ==> !is_inside(after[0]) && (core.len() > 0 ==> has_indented_text(
            core.last(),
        )),
    ensures
        block_size(core + gap + after) == core.len(),
{
    let below = core + gap + after;
    if after.len() == 0 {
        assert(below == core);
        assert forall|i: int| 0 <= i < below.len() implies !ends_block(#[trigger] below[i]) by {
            law_lines_of_a_block(core[i]);
        }
    } else {
        let k = core.len() + gap.len();
        assert(below[k as int] == after[0]);
        law_lines_of_a_block(after[0]);
        assert(ends_block(below[k as int]));
        lemma_nested_none(gap, after);
        lemma_nested_all(core, gap + after);
        assert(below == core + (gap + after));
    }
}

/// Lines without indented text hold no entry.
proof fn lemma_no_more_keys(lines: Seq<Seq<char>>, n: int, m: int)
    requires
        0 <= n <= m <= lines.len(),
        forall|i: int| n <= i < m ==> !has_indented_text(#[trigger] lines[i]),
    ensures
        entry_keys(lines, m) == entry_keys(lines, n),
    decreases m,
{
    if n < m {
        lemma_no_more_keys(lines, n, m - 1);
        let line = lines[m - 1];
        law_indented_lines_begin_with_white_space(line);
        if is_indented(line) {
            assert(is_blank(line));
            let empty = Seq::<char>::empty();
            law_trimming_takes_white_space_off(line, empty, empty);
            assert(line + empty + empty == line);
            reveal_strlit(": true");
        }
    }
}

/// The part of a block that ends with indented text.
proof fn lemma_split_block(inside: Seq<Seq<char>>) -> (n: int)
    ensures
        0 <= n <= inside.len(),
        n > 0 ==> has_indented_text(inside[n - 1]),
        forall|i: int| n <= i < inside.len() ==> !has_indented_text(#[trigger] inside[i]),
    decreases inside.len(),
{
    if inside.len() == 0 {
        0
    } else if has_indented_text(inside.last()) {
        inside.len() as int
    } else {
        let front = inside.drop_last();
        let n = lemma_split_block(front);
        assert forall|i: int| n <= i < inside.len() implies !has_indented_text(
            #[trigger] inside[i],
        ) by {
            if i < front.len() {
                assert(front[i] == inside[i]);
            }
        }
        n
    }
}

/// The file lists the entries inside its block, and only these: not those above the
/// line that opens it, nor those below the next setting.
pub proof fn law_entries_of_the_block_are_listed(
    content: Seq<char>,
    before: Seq<Seq<char>>,
    indent: Seq<char>,
    rest: Seq<char>,
    inside: Seq<Seq<char>>,
    after: Seq<Seq<char>>,
)
    requires
        is_file_with_block(file_lines(content), before, indent, rest, inside, after),
    ensures
        listed_keys(content) == entry_keys(inside, inside.len() as int),
{
    let lines = file_lines(content);
    lemma_block_start_is(lines, before, indent, rest, inside, after);
    let below = inside + after;
    let n = lemma_split_block(inside);
    if after.len() == 0 {
        assert(inside + Seq::empty() + after == below);
        lemma_block_size_is(inside, Seq::empty(), after);
        lemma_keys_agree(below, inside, inside.len() as int);
    } else {
        let core = inside.take(n);
        let gap = inside.skip(n);
        assert(core + gap + after == below);
        assert forall|i: int| 0 <= i < gap.len() implies is_inside(#[trigger] gap[i])
            && !has_indented_text(gap[i]) by {
            assert(gap[i] == inside[n + i]);
        }
        assert forall|i: int| 0 <= i < core.len() implies is_inside(#[trigger] core[i]) by {
            assert(core[i] == inside[i]);
        }
        lemma_block_size_is(core, gap, after);
        lemma_keys_agree(below, inside, n);
        lemma_no_more_keys(inside, n, inside.len() as int);
    }
}

/// New entries go to the end of the block: to the end of the file where nothing
/// follows, and otherwise below the last line with indented text. Every other line
/// stays where it is.
pub proof fn law_entries_go_to_the_end_of_the_block(
    content: Seq<char>,
    keys: Seq<Seq<char>>,
    before: Seq<Seq<char>>,
    indent: Seq<char>,
    rest: Seq<char>,
    core: Seq<Seq<char>>,
    gap: Seq<Seq<char>>,
    after: Seq<Seq<char>>,
)
    requires
        is_file_with_block(file_lines(content), before, indent, rest, core + gap, after),
        forall|i: int| 0 <= i < gap.len() ==> !has_indented_text(#[trigger] gap[i]),
        after.len() == 0 ==> gap.len() == 0,
        after.len() > 0 && core.len() > 0 ==> has_indented_text(core.last()),
        on_one_line(new_keys(content, keys)),
        new_keys(content, keys).len() > 0,
    ensures
        file_lines(merged(content, keys)) == before + seq![indent + "allowBuilds:"@ + rest] + core
            + entry_lines(new_keys(content, keys)) + gap + after,
{
    let lines = file_lines(content);
    let inside = core + gap;
    let opening = indent + "allowBuilds:"@ + rest;
    lemma_block_start_is(lines, before, indent, rest, inside, after);
    assert forall|i: int| 0 <= i < core.len() implies is_inside(#[trigger] core[i]) by {
        assert(core[i] == inside[i]);
    }
    assert forall|i: int| 0 <= i < gap.len() implies is_inside(#[trigger] gap[i])
        && !has_indented_text(gap[i]) by {
        assert(gap[i] == inside[core.len() + i]);
    }
    assert(core + gap + after == inside + after);
    lemma_block_size_is(core, gap, after);
    let at = lines_before(content);
    assert(at == before.len() + 1 + core.len());
    lemma_merged_lines(content, keys);
    lemma_entries_lines(new_keys(content, keys));
    assert(lines.take(at) == before + seq![opening] + core);
    assert(lines.skip(at) == gap + after);
}

/// A file without a block lists nothing, and gets a block at its end.
pub proof fn law_missing_block_is_opened_at_the_end(content: Seq<char>, keys: Seq<Seq<char>>)
    requires
        forall|i: int|
            0 <= i < file_lines(content).len() ==> !has_prefix(
                trimmed_start(#[trigger] file_lines(content)[i]),
                "allowBuilds:"@,
            ),
    ensures
        listed_keys(content) == Seq::<Seq<char>>::empty(),
        on_one_line(new_keys(content, keys)) && new_keys(content, keys).len() > 0 ==> file_lines(
            merged(content, keys),
        ) == file_lines(content) + seq!["allowBuilds:"@] + entry_lines(new_keys(content, keys)),
{
    reveal_strlit("allowBuilds:");
    let mark = "allowBuilds:"@;
    let lines = file_lines(content);
    lemma_first_opening(lines, false);
    lemma_first_opening(lines, true);
    if let Some(k) = first_opening(lines, true) {
        assert(has_prefix(trimmed_start(lines[k as int]), mark));
    }
    if let Some(k) = first_opening(lines, false) {
        let line = lines[k as int];
        assert(line.take(mark.len() as int)[0] == line[0]);
        assert(line[0] == 'a');
        assert(trimmed_start(line) == line);
    }
    if on_one_line(new_keys(content, keys)) && new_keys(content, keys).len() > 0 {
        lemma_merged_lines(content, keys);
        lemma_entries_lines(new_keys(content, keys));
        let n = lines.len() as int;
        assert(lines.take(n) == lines);
        assert(lines.skip(n) == Seq::<Seq<char>>::empty());
    }
}

// ---------------------------------------------------------------------------
// What is written
// ---------------------------------------------------------------------------

/// A line that breaks off is completed, and nothing else is changed by that.
pub proof fn law_only_a_missing_line_feed_is_added(content: Seq<char>)
    ensures
        file_lines(content) == text_lines(completed(content)),
        completed(content).last() == '\n',
        content.len() > 0 && content.last() == '\n' ==> completed(content) == content,
        content.len() == 0 || content.last() != '\n' ==> completed(content) == content + seq!['\n'],
{
    assert(content.push('\n') == content + seq!['\n']);
}

/// The text of the file stays as it is, but for a last line that is completed: what
/// is new is put in at one place, at the beginning of a line.
pub proof fn law_text_around_the_entries_is_kept(content: Seq<char>, keys: Seq<Seq<char>>)
    requires
        new_keys(content, keys).len() > 0,
    ensures
        exists|at: int|
            #![trigger completed(content).take(at)]
            {
                &&& 0 <= at <= completed(content).len()
                &&& at == 0 || completed(content)[at - 1] == '\n'
                &&& merged(content, keys) == completed(content).take(at) + (if block_start(
                    file_lines(content),
                ) is Some {
                    entries_text(new_keys(content, keys))
                } else {
                    "allowBuilds:\n"@ + entries_text(new_keys(content, keys))
                }) + completed(content).skip(at)
            },
{
    let text = completed(content);
    let lines = text_lines(text);
    let entries = entries_text(new_keys(content, keys));
    match block_start(lines) {
        Some(start) => {
            let n = block_end(lines, start) as int;
            lemma_block_start_fits(lines);
            lemma_cut_lines(text, n);
            let at = lines_len(text, n) as int;
            assert(merged(content, keys) == text.take(at) + entries + text.skip(at));
        },
        None => {
            let at = text.len() as int;
            assert(text.take(at) == text);
            assert(text.skip(at) == Seq::<char>::empty());
            assert(text + "allowBuilds:\n"@ + entries == text.take(at) + ("allowBuilds:\n"@
                + entries) + text.skip(at));
        },
    }
}

/// Every new entry is a line of its own: two spaces, the key between single
/// quotation marks, and `true`. A quotation mark inside the key is doubled.
pub proof fn law_entry_allows_its_key(keys: Seq<Seq<char>>, key: Seq<char>)
    ensures
        entry_line(key) == "  '"@ + replaced(key, '\'', "''"@) + "': true"@,
        !key.contains('\'') ==> entry_line(key) == "  '"@ + key + "': true"@,
        entries_text(Seq::<Seq<char>>::empty()) == Seq::<char>::empty(),
        entries_text(keys.push(key)) == entries_text(keys) + ("  '"@ + replaced(
            key,
            '\'',
            "''"@,
        ) + "': true\n"@),
{
    if !key.contains('\'') {
        law_nothing_else_is_replaced(key, '\'', "''"@);
    }
    reveal_strlit("': true");
    reveal_strlit("': true\n");
    assert(keys.push(key).drop_last() == keys);
    assert(entry_line(key).push('\n') == "  '"@ + replaced(key, '\'', "''"@) + "': true\n"@);
}

proof fn lemma_missing_agree(
    listed: Seq<Seq<char>>,
    a: Seq<Seq<char>>,
    b: Seq<Seq<char>>,
    n: int,
)
    requires
        0 <= n <= a.len(),
        n <= b.len(),
        forall|i: int| 0 <= i < n ==> a[i] == b[i],
    ensures
        missing_keys(listed, a, n) == missing_keys(listed, b, n),
    decreases n,
{
    if n > 0 {
        lemma_missing_agree(listed, a, b, n - 1);
    }
}

proof fn lemma_missing_contains(listed: Seq<Seq<char>>, keys: Seq<Seq<char>>, n: int, key: Seq<char>)
    requires
        0 <= n <= keys.len(),
    ensures
        missing_keys(listed, keys, n).contains(key) <==> !listed.contains(key) && keys.take(
            n,
        ).contains(key),
    decreases n,
{
    if n > 0 {
        lemma_missing_contains(listed, keys, n - 1, key);
        let before = missing_keys(listed, keys, n - 1);
        let after = missing_keys(listed, keys, n);
        let last = keys[n - 1];
        assert(keys.take(n) == keys.take(n - 1).push(last));
        if keys.take(n).contains(key) && !listed.contains(key) {
            let i = choose|i: int| 0 <= i < n && keys.take(n)[i] == key;
            if i < n - 1 {
                assert(keys.take(n - 1)[i] == key);
                let j = choose|j: int| 0 <= j < before.len() && before[j] == key;
                assert(after[j] == key);
            } else if !before.contains(key) {
                assert(after[before.len() as int] == key);
            }
        }
        if after.contains(key) {
            let j = choose|j: int| 0 <= j < after.len() && after[j] == key;
            if j < before.len() {
                assert(before[j] == key);
                let earlier = keys.take(n - 1);
                let i = choose|i: int| 0 <= i < earlier.len() && earlier[i] == key;
                assert(keys.take(n)[i] == key);
            } else {
                assert(keys.take(n)[n - 1] == key);
            }
        }
    } else {
        assert(keys.take(0) == Seq::<Seq<char>>::empty());
    }
}

/// A key is new exactly where the file does not list it and it has not come before;
/// new keys keep their order.
pub proof fn law_new_keys_are_those_not_listed(
    content: Seq<char>,
    keys: Seq<Seq<char>>,
    key: Seq<char>,
)
    ensures
        new_keys(content, Seq::<Seq<char>>::empty()) == Seq::<Seq<char>>::empty(),
        new_keys(content, keys.push(key)) == if listed_keys(content).contains(key) || keys.contains(
            key,
        ) {
            new_keys(content, keys)
        } else {
            new_keys(content, keys).push(key)
        },
        new_keys(content, keys).contains(key) <==> keys.contains(key) && !listed_keys(
            content,
        ).contains(key),
{
    let listed = listed_keys(content);
    let n = keys.len() as int;
    let longer = keys.push(key);
    lemma_missing_agree(listed, longer, keys, n);
    lemma_missing_contains(listed, keys, n, key);
    assert(keys.take(n) == keys);
    assert(longer[n] == key);
}

/// Nothing is written exactly where every key is listed; then the file stays as it
/// is, and otherwise it grows.
pub proof fn law_nothing_is_written_only_where_all_is_listed(
    content: Seq<char>,
    keys: Seq<Seq<char>>,
)
    ensures
        nothing_to_add(content, keys) <==> forall|key: Seq<char>| #[trigger]
            keys.contains(key) ==> listed_keys(content).contains(key),
        nothing_to_add(content, keys) ==> merged(content, keys) == content,
        !nothing_to_add(content, keys) ==> merged(content, keys).len() > content.len(),
{
    let listed = listed_keys(content);
    let new = new_keys(content, keys);
    if nothing_to_add(content, keys) {
        assert forall|key: Seq<char>| #[trigger] keys.contains(key) implies listed.contains(key) by {
            let i = choose|i: int| 0 <= i < keys.len() && keys[i] == key;
            assert(listed.contains(keys[i]));
        }
        if new.len() > 0 {
            law_new_keys_are_those_not_listed(content, keys, new[0]);
            assert(new.contains(new[0]));
        }
    } else {
        let i = choose|i: int| 0 <= i < keys.len() && !listed.contains(#[trigger] keys[i]);
        assert(keys.contains(keys[i]));
        law_new_keys_are_those_not_listed(content, keys, keys[i]);
        let front = new.drop_last();
        law_entry_allows_its_key(front, new.last());
        reveal_strlit("  '");
        assert(front.push(new.last()) == new);
        assert(entries_text(new).len() > 0);
        law_text_around_the_entries_is_kept(content, keys);
        law_only_a_missing_line_feed_is_added(content);
    }
}

/// What went wrong is named, and what was said of it is passed on as it is.
pub proof fn law_workspace_failures_are_named(e: String)
    ensures
        workspace_failure_text(WorkspaceFailure::NoProfileDir)
            == "PREINSTALL_BAD_PROFILE_DIR: no profile dir"@,
        workspace_failure_text(WorkspaceFailure::CreateDir(e)) == "PREINSTALL_MKDIR: "@ + e@,
        workspace_failure_text(WorkspaceFailure::Read(e)) == "PREINSTALL_READ_WORKSPACE: "@ + e@,
        workspace_failure_text(WorkspaceFailure::Write(e)) == "PREINSTALL_WRITE_WORKSPACE: "@ + e@,
{
}

/// A file that does not exist counts as one with the settings that every profile
/// starts with, and any other as what it holds.
pub proof fn law_missing_file_starts_from_the_template(text: &str)
    ensures
        current_text(Some(text)) == text@,
        current_text(None)
            == "packages:\n  - .\n\nnodeLinker: hoisted\nautoInstallPeers: false\n"@,
{
}

} // verus!
