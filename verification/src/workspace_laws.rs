//! What holds of the `allowBuilds` block, whatever is merged into it.

use crate::allow_builds::{distinct, is_clean, law_keys_are_clean, requested_keys};
use crate::text::{
    has_prefix, index_of, lines_len, replaced, text_lines, trimmed, trimmed_end, trimmed_start,
    undoubled,
};
use crate::text_lemmas::{
    is_blank, lemma_cut_lines, lemma_index, lemma_lines_append, lemma_one_line,
    lemma_trimmed_start_skips,
};
use crate::workspace::{
    block_end, block_size, block_start, completed, ends_block, entries_text, entry_key, entry_keys,
    entry_line, file_lines, first_opening, is_last_block, is_nested, listed_keys, merged,
    missing_keys, nested_size, new_keys, nothing_to_add, opens_block,
};
use vstd::prelude::*;

verus! {

// ---------------------------------------------------------------------------
// Entries
// ---------------------------------------------------------------------------

/// The lines that are written for `keys`.
pub open spec fn entry_lines(keys: Seq<Seq<char>>) -> Seq<Seq<char>> {
    keys.map_values(|key: Seq<char>| entry_line(key))
}

/// Whether none of `keys` holds a line feed.
pub open spec fn on_one_line(keys: Seq<Seq<char>>) -> bool {
    forall|i: int| 0 <= i < keys.len() ==> !(#[trigger] keys[i]).contains('\n')
}

proof fn lemma_replaced_first(c: char, rest: Seq<char>)
    ensures
        replaced(seq![c] + rest, '\'', "''"@) == (if c == '\'' {
            "''"@
        } else {
            seq![c]
        }) + replaced(rest, '\'', "''"@),
    decreases rest.len(),
{
    let head = if c == '\'' {
        "''"@
    } else {
        seq![c]
    };
    let whole = seq![c] + rest;
    if rest.len() == 0 {
        assert(whole == seq![c]);
        assert(whole.drop_last() == Seq::<char>::empty());
        assert(replaced(whole.drop_last(), '\'', "''"@) == Seq::<char>::empty());
        assert(replaced(whole, '\'', "''"@) == head);
        assert(head + replaced(rest, '\'', "''"@) == head);
    } else {
        let front = rest.drop_last();
        lemma_replaced_first(c, front);
        assert(whole.drop_last() == seq![c] + front);
        assert(whole.last() == rest.last());
        let before = replaced(front, '\'', "''"@);
        if rest.last() == '\'' {
            assert((head + before) + "''"@ == head + (before + "''"@));
        } else {
            assert((head + before).push(rest.last()) == head + before.push(rest.last()));
        }
    }
}

proof fn lemma_undoubled(key: Seq<char>)
    ensures
        undoubled(replaced(key, '\'', "''"@)) == key,
    decreases key.len(),
{
    if key.len() == 0 {
        assert(key == Seq::<char>::empty());
    } else {
        reveal_strlit("''");
        let c = key[0];
        let rest = key.drop_first();
        lemma_undoubled(rest);
        lemma_replaced_first(c, rest);
        assert(seq![c] + rest == key);
        let inner = replaced(rest, '\'', "''"@);
        let whole = replaced(key, '\'', "''"@);
        if c == '\'' {
            assert(whole.skip(2) == inner);
        } else {
            assert(whole.drop_first() == inner);
        }
    }
}

/// An entry without its indentation.
spec fn entry_body(key: Seq<char>) -> Seq<char> {
    seq!['\''] + replaced(key, '\'', "''"@) + seq!['\''] + ": true"@
}

proof fn lemma_entry_body(key: Seq<char>)
    ensures
        entry_line(key) == seq![' ', ' '] + entry_body(key),
        trimmed_start(entry_line(key)) == entry_body(key),
        trimmed(entry_line(key)) == entry_body(key),
        entry_line(key).last() == 'e',
{
    reveal_strlit("  '");
    reveal_strlit("': true");
    reveal_strlit(": true");
    let line = entry_line(key);
    let body = entry_body(key);
    let spaces = seq![' ', ' '];
    assert(line == spaces + body);
    assert(is_blank(spaces));
    assert(body[0] == '\'');
    assert(body.last() == 'e');
    lemma_trimmed_start_skips(spaces, body);
    assert(trimmed_end(body) == body);
}

/// The entry that is written for a key is recognised as one for that key,
/// whatever the key holds: quotation marks, colons and number signs too.
pub proof fn law_entry_is_recognised(key: Seq<char>)
    ensures
        entry_key(entry_line(key)) == Some(key),
{
    reveal_strlit(": true");
    let suffix = ": true"@;
    let inner = replaced(key, '\'', "''"@);
    let body = entry_body(key);
    let scalar = seq!['\''] + inner + seq!['\''];
    lemma_entry_body(key);
    assert(body.skip(body.len() - suffix.len()) == suffix);
    assert(body.take(body.len() - suffix.len()) == scalar);
    assert(scalar[0] == '\'' && scalar.last() == '\'');
    assert(trimmed(scalar) == scalar);
    assert(scalar.subrange(1, scalar.len() - 1) == inner);
    lemma_undoubled(key);
}

/// An entry belongs to the block that it stands in, and opens none.
proof fn lemma_entry_is_inside(key: Seq<char>)
    ensures
        is_nested(entry_line(key)),
        !ends_block(entry_line(key)),
        !opens_block(entry_line(key), true),
        !opens_block(entry_line(key), false),
{
    reveal_strlit("allowBuilds:");
    let mark = "allowBuilds:"@;
    let line = entry_line(key);
    let body = entry_body(key);
    lemma_entry_body(key);
    assert(mark[0] == 'a');
    if has_prefix(body, mark) {
        assert(body.take(mark.len() as int)[0] == body[0]);
    }
    if has_prefix(line, mark) {
        assert(line.take(mark.len() as int)[0] == line[0]);
    }
}

proof fn lemma_replaced_no_line_feed(key: Seq<char>)
    requires
        !key.contains('\n'),
    ensures
        !replaced(key, '\'', "''"@).contains('\n'),
    decreases key.len(),
{
    reveal_strlit("''");
    if key.len() > 0 {
        let front = key.drop_last();
        assert forall|i: int| 0 <= i < front.len() implies front[i] != '\n' by {
            assert(key.contains(key[i]));
        }
        assert(key.contains(key[key.len() - 1]));
        lemma_replaced_no_line_feed(front);
        let before = replaced(front, '\'', "''"@);
        let after = replaced(key, '\'', "''"@);
        assert forall|i: int| 0 <= i < after.len() implies after[i] != '\n' by {
            if i < before.len() {
                assert(before.contains(before[i]));
                assert(after[i] == before[i]);
            }
        }
    }
}

proof fn lemma_entry_has_no_line_feed(key: Seq<char>)
    requires
        !key.contains('\n'),
    ensures
        !entry_line(key).contains('\n'),
{
    reveal_strlit("  '");
    reveal_strlit("': true");
    let inner = replaced(key, '\'', "''"@);
    let line = entry_line(key);
    lemma_replaced_no_line_feed(key);
    assert forall|i: int| 0 <= i < line.len() implies line[i] != '\n' by {
        if 3 <= i < 3 + inner.len() {
            assert(inner.contains(inner[i - 3]));
            assert(line[i] == inner[i - 3]);
        } else if i < 3 {
            assert(line[i] == "  '"@[i]);
        } else {
            assert(line[i] == "': true"@[i - 3 - inner.len()]);
        }
    }
}

proof fn lemma_entries_end(keys: Seq<Seq<char>>)
    ensures
        entries_text(keys).len() == 0 <==> keys.len() == 0,
        keys.len() > 0 ==> entries_text(keys).last() == '\n',
{
}

pub proof fn lemma_entries_lines(keys: Seq<Seq<char>>)
    requires
        on_one_line(keys),
    ensures
        text_lines(entries_text(keys)) == entry_lines(keys),
    decreases keys.len(),
{
    if keys.len() == 0 {
        assert(entry_lines(keys) == Seq::<Seq<char>>::empty());
    } else {
        let front = keys.drop_last();
        let key = keys[keys.len() - 1];
        let line = entry_line(key);
        assert forall|i: int| 0 <= i < front.len() implies !(#[trigger] front[i]).contains(
            '\n',
        ) by {
            assert(front[i] == keys[i]);
        }
        lemma_entries_lines(front);
        lemma_entries_end(front);
        lemma_entry_has_no_line_feed(key);
        lemma_entry_body(key);
        lemma_one_line(line);
        lemma_lines_append(entries_text(front), line.push('\n'));
        assert(entry_lines(keys) == entry_lines(front) + seq![line]);
    }
}

// ---------------------------------------------------------------------------
// Blocks
// ---------------------------------------------------------------------------

pub proof fn lemma_first_opening(lines: Seq<Seq<char>>, nested: bool)
    ensures
        match first_opening(lines, nested) {
            Some(n) => {
                &&& n < lines.len()
                &&& opens_block(lines[n as int], nested)
                &&& forall|j: int| 0 <= j < n ==> !opens_block(#[trigger] lines[j], nested)
            },
            None => forall|j: int|
                0 <= j < lines.len() ==> !opens_block(#[trigger] lines[j], nested),
        },
    decreases lines.len(),
{
    if lines.len() > 0 && !opens_block(lines[0], nested) {
        let rest = lines.drop_first();
        lemma_first_opening(rest, nested);
        let bound = match first_opening(rest, nested) {
            Some(n) => n + 1,
            None => lines.len(),
        };
        assert forall|j: int| 0 <= j < bound implies !opens_block(#[trigger] lines[j], nested) by {
            if j > 0 {
                assert(lines[j] == rest[j - 1]);
            }
        }
    }
}

/// Lines put in after the opening one do not move it, unless they open a block.
proof fn lemma_opening_stays(
    lines: Seq<Seq<char>>,
    at: int,
    added: Seq<Seq<char>>,
    nested: bool,
)
    requires
        0 <= at <= lines.len(),
        first_opening(lines, nested) matches Some(n) ==> n < at,
        forall|i: int| 0 <= i < added.len() ==> !opens_block(#[trigger] added[i], nested),
    ensures
        first_opening(lines.take(at) + added + lines.skip(at), nested) == first_opening(
            lines,
            nested,
        ),
{
    let new = lines.take(at) + added + lines.skip(at);
    lemma_first_opening(lines, nested);
    lemma_first_opening(new, nested);
    match first_opening(lines, nested) {
        Some(n) => {
            assert(new[n as int] == lines[n as int]);
            if let Some(k) = first_opening(new, nested) {
                if k < n {
                    assert(new[k as int] == lines[k as int]);
                }
            }
        },
        None => {
            if let Some(k) = first_opening(new, nested) {
                let i = k as int;
                if i < at {
                    assert(new[i] == lines[i]);
                } else if i < at + added.len() {
                    assert(new[i] == added[i - at]);
                } else {
                    assert(new[i] == lines[i - added.len()]);
                }
            }
        },
    }
}

/// Nested lines put in at the end of a block belong to it.
proof fn lemma_block_grows(a: Seq<Seq<char>>, added: Seq<Seq<char>>, b: Seq<Seq<char>>)
    requires
        block_size(a + b) == a.len(),
        forall|i: int|
            0 <= i < added.len() ==> is_nested(#[trigger] added[i]) && !ends_block(added[i]),
    ensures
        block_size(a + added + b) == a.len() + added.len(),
{
    let old_lines = a + b;
    let new_lines = a + added + b;
    if is_last_block(old_lines) {
        assert forall|i: int| 0 <= i < new_lines.len() implies !ends_block(
            #[trigger] new_lines[i],
        ) by {
            if i < a.len() {
                assert(new_lines[i] == old_lines[i]);
            } else {
                assert(new_lines[i] == added[i - a.len()]);
            }
        }
    } else {
        let i = choose|i: int| 0 <= i < old_lines.len() && ends_block(#[trigger] old_lines[i]);
        if i < a.len() {
            assert(new_lines[i] == old_lines[i]);
        } else {
            assert(new_lines[i + added.len()] == old_lines[i]);
        }
        lemma_nested_grows(a, added, b);
    }
}

proof fn lemma_nested_grows(a: Seq<Seq<char>>, added: Seq<Seq<char>>, b: Seq<Seq<char>>)
    requires
        nested_size(a + b) == a.len(),
        forall|i: int|
            0 <= i < added.len() ==> is_nested(#[trigger] added[i]) && !ends_block(added[i]),
    ensures
        nested_size(a + added + b) == a.len() + added.len(),
    decreases a.len() + added.len(),
{
    let whole = a + added + b;
    if a.len() > 0 {
        let rest = a.drop_first();
        assert((a + b).drop_first() == rest + b);
        assert(whole.drop_first() == rest + added + b);
        assert((a + b)[0] == a[0] && whole[0] == a[0]);
        lemma_nested_grows(rest, added, b);
    } else if added.len() > 0 {
        let rest = added.drop_first();
        assert(whole.drop_first() == a + rest + b);
        assert(whole[0] == added[0]);
        assert forall|i: int| 0 <= i < rest.len() implies is_nested(#[trigger] rest[i])
            && !ends_block(rest[i]) by {
            assert(rest[i] == added[i + 1]);
        }
        lemma_nested_grows(a, rest, b);
    } else {
        assert(whole == a + b);
    }
}

proof fn lemma_block_fits(below: Seq<Seq<char>>)
    ensures
        nested_size(below) <= below.len(),
    decreases below.len(),
{
    if below.len() > 0 {
        lemma_block_fits(below.drop_first());
    }
}

proof fn lemma_entry_keys_agree(a: Seq<Seq<char>>, b: Seq<Seq<char>>, n: int)
    requires
        0 <= n <= a.len(),
        n <= b.len(),
        forall|i: int| 0 <= i < n ==> a[i] == b[i],
    ensures
        entry_keys(a, n) == entry_keys(b, n),
    decreases n,
{
    if n > 0 {
        lemma_entry_keys_agree(a, b, n - 1);
    }
}

/// The entries that are put in are the last ones.
proof fn lemma_entry_keys_grow(lines: Seq<Seq<char>>, n: int, keys: Seq<Seq<char>>, m: int)
    requires
        0 <= n,
        0 <= m <= keys.len(),
        n + m <= lines.len(),
        forall|i: int| 0 <= i < m ==> lines[n + i] == entry_line(#[trigger] keys[i]),
    ensures
        entry_keys(lines, n + m) == entry_keys(lines, n) + keys.take(m),
    decreases m,
{
    if m > 0 {
        lemma_entry_keys_grow(lines, n, keys, m - 1);
        law_entry_is_recognised(keys[m - 1]);
        assert(lines[n + (m - 1)] == entry_line(keys[m - 1]));
        assert(keys.take(m) == keys.take(m - 1).push(keys[m - 1]));
    } else {
        assert(keys.take(0) == Seq::<Seq<char>>::empty());
    }
}

// ---------------------------------------------------------------------------
// Merging
// ---------------------------------------------------------------------------

proof fn lemma_missing_keys(listed: Seq<Seq<char>>, keys: Seq<Seq<char>>, n: int)
    requires
        0 <= n <= keys.len(),
    ensures
        ({
            let missing = missing_keys(listed, keys, n);
            &&& missing.no_duplicates()
            &&& forall|i: int|
                0 <= i < missing.len() ==> keys.contains(#[trigger] missing[i]) && !listed.contains(
                    missing[i],
                )
            &&& forall|i: int|
                0 <= i < n ==> listed.contains(#[trigger] keys[i]) || missing.contains(keys[i])
        }),
    decreases n,
{
    if n > 0 {
        lemma_missing_keys(listed, keys, n - 1);
        let before = missing_keys(listed, keys, n - 1);
        let missing = missing_keys(listed, keys, n);
        assert(keys.contains(keys[n - 1]));
        assert forall|i: int| 0 <= i < n implies listed.contains(#[trigger] keys[i])
            || missing.contains(keys[i]) by {
            if i < n - 1 {
                if before.contains(keys[i]) {
                    let j = choose|j: int| 0 <= j < before.len() && before[j] == keys[i];
                    assert(missing[j] == keys[i]);
                }
            } else if !listed.contains(keys[i]) && !before.contains(keys[i]) {
                assert(missing[before.len() as int] == keys[i]);
            }
        }
    }
}

/// How many lines of the old file, with the opening line of a new block, come
/// before the new entries.
pub open spec fn lines_before(content: Seq<char>) -> int {
    let lines = file_lines(content);
    match block_start(lines) {
        Some(start) => block_end(lines, start) as int,
        None => lines.len() as int,
    }
}

/// The lines that are put in, by the text that is put in.
pub open spec fn added_lines(content: Seq<char>, keys: Seq<Seq<char>>) -> Seq<Seq<char>> {
    let own = text_lines(entries_text(new_keys(content, keys)));
    if block_start(file_lines(content)) is Some {
        own
    } else {
        seq!["allowBuilds:"@] + own
    }
}

pub proof fn lemma_block_start_fits(lines: Seq<Seq<char>>)
    ensures
        block_start(lines) matches Some(start) ==> start < lines.len() && start < block_end(
            lines,
            start,
        ) <= lines.len(),
{
    lemma_first_opening(lines, false);
    lemma_first_opening(lines, true);
    if let Some(start) = block_start(lines) {
        lemma_block_fits(lines.skip(start as int + 1));
    }
}

/// What a merge that adds something does to the lines.
pub proof fn lemma_merged_lines(content: Seq<char>, keys: Seq<Seq<char>>)
    requires
        new_keys(content, keys).len() > 0,
    ensures
        ({
            let m = merged(content, keys);
            let lines = file_lines(content);
            let at = lines_before(content);
            &&& completed(m) == m
            &&& 0 <= at <= lines.len()
            &&& text_lines(m) == lines.take(at) + added_lines(content, keys) + lines.skip(at)
        }),
{
    let new = new_keys(content, keys);
    let text = completed(content);
    let lines = text_lines(text);
    let m = merged(content, keys);
    let entries = entries_text(new);
    let at = lines_before(content);
    lemma_entries_end(new);
    match block_start(lines) {
        Some(start) => {
            lemma_block_start_fits(lines);
            lemma_cut_lines(text, at);
            let cut = lines_len(text, at) as int;
            let head = text.take(cut);
            let tail = text.skip(cut);
            assert(m == head + entries + tail);
            lemma_lines_append(head, entries);
            lemma_lines_append(head + entries, tail);
            assert((head + entries).last() == '\n');
            assert(tail.len() > 0 ==> m.last() == tail.last());
            assert(m.last() == '\n');
        },
        None => {
            reveal_strlit("allowBuilds:\n");
            reveal_strlit("allowBuilds:");
            let mark = "allowBuilds:"@;
            let opening = "allowBuilds:\n"@;
            assert(opening == mark.push('\n'));
            assert(!mark.contains('\n'));
            lemma_one_line(mark);
            assert(mark.last() == ':');
            assert(m == text + opening + entries);
            lemma_lines_append(text, opening);
            lemma_lines_append(text + opening, entries);
            assert((text + opening).last() == '\n');
            assert(m.last() == '\n');
            assert(lines.take(at) == lines);
            assert(lines.skip(at) == Seq::<Seq<char>>::empty());
            assert(text_lines(m) == lines.take(at) + added_lines(content, keys) + lines.skip(at));
        },
    }
}

/// What a merge that adds something does to the keys in the block.
proof fn lemma_merged_keys(content: Seq<char>, keys: Seq<Seq<char>>)
    requires
        new_keys(content, keys).len() > 0,
        on_one_line(keys),
    ensures
        listed_keys(merged(content, keys)) == listed_keys(content) + new_keys(content, keys),
        forall|i: int|
            0 <= i < new_keys(content, keys).len() ==> file_lines(merged(content, keys)).contains(
                entry_line(#[trigger] new_keys(content, keys)[i]),
            ),
{
    let listed = listed_keys(content);
    let new = new_keys(content, keys);
    let lines = file_lines(content);
    let after = text_lines(merged(content, keys));
    let at = lines_before(content);
    let entries = entry_lines(new);
    lemma_missing_keys(listed, keys, keys.len() as int);
    assert forall|i: int| 0 <= i < new.len() implies !(#[trigger] new[i]).contains('\n') by {
        let j = choose|j: int| 0 <= j < keys.len() && keys[j] == new[i];
        assert(!keys[j].contains('\n'));
    }
    lemma_entries_lines(new);
    lemma_merged_lines(content, keys);
    assert forall|i: int| 0 <= i < entries.len() implies is_nested(#[trigger] entries[i])
        && !ends_block(entries[i]) && !opens_block(entries[i], true) && !opens_block(
        entries[i],
        false,
    ) by {
        lemma_entry_is_inside(new[i]);
    }
    let empty = Seq::<Seq<char>>::empty();
    match block_start(lines) {
        Some(start) => {
            lemma_block_start_fits(lines);
            lemma_opening_stays(lines, at, entries, false);
            if first_opening(lines, false) is None {
                lemma_opening_stays(lines, at, entries, true);
            }
            assert(block_start(after) == Some(start));
            let s = start as int + 1;
            let below = lines.skip(s);
            let size = block_size(below) as int;
            let a = below.take(size);
            let b = below.skip(size);
            assert(below == a + b);
            lemma_block_grows(a, entries, b);
            assert(after.skip(s) == a + entries + b);
            lemma_new_entries(after.skip(s), below, size, new);
            assert forall|i: int| 0 <= i < new.len() implies after.contains(
                entry_line(#[trigger] new[i]),
            ) by {
                assert(after[at + i] == entries[i]);
            }
        },
        None => {
            reveal_strlit("allowBuilds:");
            let mark = "allowBuilds:"@;
            assert(after == lines + seq![mark] + entries);
            assert(mark.take(mark.len() as int) == mark);
            assert(opens_block(mark, false));
            lemma_first_opening(lines, false);
            lemma_first_opening(after, false);
            let n = lines.len() as int;
            assert(after[n] == mark);
            assert(first_opening(after, false) == Some(lines.len())) by {
                if let Some(k) = first_opening(after, false) {
                    if k < n {
                        assert(after[k as int] == lines[k as int]);
                    }
                }
            }
            let below = after.skip(n + 1);
            assert(below == empty + entries + empty);
            assert(empty + empty == empty);
            lemma_block_grows(empty, entries, empty);
            lemma_new_entries(below, empty, 0, new);
            assert forall|i: int| 0 <= i < new.len() implies after.contains(
                entry_line(#[trigger] new[i]),
            ) by {
                assert(after[n + 1 + i] == entries[i]);
            }
        },
    }
}

proof fn lemma_new_entries(
    after: Seq<Seq<char>>,
    before: Seq<Seq<char>>,
    n: int,
    keys: Seq<Seq<char>>,
)
    requires
        0 <= n <= before.len(),
        n + keys.len() <= after.len(),
        forall|i: int| 0 <= i < n ==> after[i] == before[i],
        forall|i: int| 0 <= i < keys.len() ==> after[n + i] == entry_line(#[trigger] keys[i]),
    ensures
        entry_keys(after, n + keys.len()) == entry_keys(before, n) + keys,
{
    lemma_entry_keys_agree(after, before, n);
    lemma_entry_keys_grow(after, n, keys, keys.len() as int);
    assert(keys.take(keys.len() as int) == keys);
}

// ---------------------------------------------------------------------------
// Laws
// ---------------------------------------------------------------------------

/// Every line of the file stays, in order: a merge only puts lines in, all at one
/// place.
pub proof fn law_lines_are_kept(content: Seq<char>, keys: Seq<Seq<char>>)
    ensures
        exists|from: int, to: int|
            0 <= from <= to <= file_lines(merged(content, keys)).len() && file_lines(content)
                == #[trigger] file_lines(merged(content, keys)).take(from)
                + #[trigger] file_lines(merged(content, keys)).skip(to),
{
    let old_lines = file_lines(content);
    let new_lines = file_lines(merged(content, keys));
    if new_keys(content, keys).len() == 0 {
        assert(old_lines == new_lines.take(0) + new_lines.skip(0));
    } else {
        lemma_merged_lines(content, keys);
        let at = lines_before(content);
        let to = at + added_lines(content, keys).len();
        assert(new_lines.take(at) == old_lines.take(at));
        assert(new_lines.skip(to) == old_lines.skip(at));
        assert(old_lines == new_lines.take(at) + new_lines.skip(to));
    }
}

/// Where nothing follows the block in a file that ends with a line feed, or the
/// file has no block, the whole text stays in front: what is new is appended to
/// it, the line that opens the block first where there was none.
pub proof fn law_last_block_is_appended_to(content: Seq<char>, keys: Seq<Seq<char>>)
    requires
        content.len() > 0,
        content.last() == '\n',
        block_start(file_lines(content)) matches Some(start) ==> is_last_block(
            file_lines(content).skip(start as int + 1),
        ),
    ensures
        ({
            let new = new_keys(content, keys);
            let opening = if block_start(file_lines(content)) is Some {
                Seq::empty()
            } else {
                "allowBuilds:\n"@
            };
            merged(content, keys) == if new.len() == 0 {
                content
            } else {
                content + opening + entries_text(new)
            }
        }),
{
    let lines = file_lines(content);
    if let Some(start) = block_start(lines) {
        let n = lines.len() as int;
        lemma_block_start_fits(lines);
        assert(block_end(lines, start) == n);
        lemma_all_lines_len(content, n);
        assert(content.take(content.len() as int) == content);
        assert(content.skip(content.len() as int) == Seq::<char>::empty());
    }
}

/// All lines of a text are the whole text.
proof fn lemma_all_lines_len(s: Seq<char>, n: int)
    requires
        n >= text_lines(s).len(),
    ensures
        lines_len(s, n) == s.len(),
    decreases s.len(),
{
    if s.len() > 0 {
        let i = index_of(s, '\n') as int;
        lemma_index(s, '\n', '\n');
        if i < s.len() {
            lemma_all_lines_len(s.skip(i + 1), n - 1);
        }
    }
}

/// A merge adds to the block exactly the keys that it misses, below those that it
/// has. It holds of keys on one line.
pub proof fn law_missing_keys_are_added(content: Seq<char>, keys: Seq<Seq<char>>)
    requires
        on_one_line(keys),
    ensures
        listed_keys(merged(content, keys)) == listed_keys(content) + new_keys(content, keys),
{
    if new_keys(content, keys).len() == 0 {
        assert(listed_keys(content) + new_keys(content, keys) == listed_keys(content));
    } else {
        lemma_merged_keys(content, keys);
    }
}

/// After a merge the block lists every key, and a key that was not there before
/// has a line of its own. It holds of keys on one line.
pub proof fn law_keys_are_entered(content: Seq<char>, keys: Seq<Seq<char>>, i: int)
    requires
        0 <= i < keys.len(),
        on_one_line(keys),
    ensures
        listed_keys(merged(content, keys)).contains(keys[i]),
        !listed_keys(content).contains(keys[i]) ==> file_lines(merged(content, keys)).contains(
            entry_line(keys[i]),
        ),
{
    let listed = listed_keys(content);
    let new = new_keys(content, keys);
    let all = listed + new;
    lemma_missing_keys(listed, keys, keys.len() as int);
    law_missing_keys_are_added(content, keys);
    if listed.contains(keys[i]) {
        let j = choose|j: int| 0 <= j < listed.len() && listed[j] == keys[i];
        assert(all[j] == keys[i]);
    } else {
        assert(new.contains(keys[i]));
        let j = choose|j: int| 0 <= j < new.len() && new[j] == keys[i];
        assert(all[listed.len() + j] == keys[i]);
        lemma_merged_keys(content, keys);
        assert(file_lines(merged(content, keys)).contains(entry_line(new[j])));
    }
}

/// What pnpm asks for is what the file then allows: every key that an output
/// asks for is in the block after the merge.
pub proof fn law_requested_keys_are_entered(content: Seq<char>, output: Seq<char>, i: int)
    requires
        0 <= i < distinct(requested_keys(output)).len(),
    ensures
        ({
            let keys = distinct(requested_keys(output));
            listed_keys(merged(content, keys)).contains(keys[i])
        }),
{
    let keys = distinct(requested_keys(output));
    law_keys_are_clean(output);
    assert forall|j: int| 0 <= j < keys.len() implies !(#[trigger] keys[j]).contains('\n') by {
        assert(is_clean(keys[j]));
    }
    law_keys_are_entered(content, keys, i);
}

/// No key gets a second entry: where the block lists each key once, it does so
/// after the merge. It holds of keys on one line.
pub proof fn law_no_key_is_entered_twice(content: Seq<char>, keys: Seq<Seq<char>>)
    requires
        on_one_line(keys),
        listed_keys(content).no_duplicates(),
    ensures
        listed_keys(merged(content, keys)).no_duplicates(),
{
    let listed = listed_keys(content);
    let new = new_keys(content, keys);
    let all = listed + new;
    law_missing_keys_are_added(content, keys);
    lemma_missing_keys(listed, keys, keys.len() as int);
    assert forall|i: int, j: int| 0 <= i < all.len() && 0 <= j < all.len() && i != j implies all[i]
        != all[j] by {
        if i < listed.len() && j >= listed.len() {
            assert(!listed.contains(new[j - listed.len()]));
            assert(listed.contains(listed[i]));
        } else if j < listed.len() && i >= listed.len() {
            assert(!listed.contains(new[i - listed.len()]));
            assert(listed.contains(listed[j]));
        } else if i >= listed.len() && j >= listed.len() {
            assert(new[i - listed.len()] != new[j - listed.len()]);
        }
    }
}

/// Merging the same keys again changes nothing. It holds of keys on one line.
pub proof fn law_merge_is_idempotent(content: Seq<char>, keys: Seq<Seq<char>>)
    requires
        on_one_line(keys),
    ensures
        nothing_to_add(merged(content, keys), keys),
        merged(merged(content, keys), keys) == merged(content, keys),
{
    let new = merged(content, keys);
    assert forall|i: int| 0 <= i < keys.len() implies listed_keys(new).contains(
        #[trigger] keys[i],
    ) by {
        law_keys_are_entered(content, keys, i);
    }
    lemma_missing_keys(listed_keys(new), keys, keys.len() as int);
    let again = new_keys(new, keys);
    if again.len() > 0 {
        let j = choose|j: int| 0 <= j < keys.len() && keys[j] == again[0];
        assert(listed_keys(new).contains(keys[j]));
    }
}

} // verus!
