//! The build scripts that pnpm asks for.
//!
//! pnpm refuses to run the build scripts of a package that is not listed under
//! `allowBuilds` in `pnpm-workspace.yaml`, and says in its output which key it
//! misses. This module reads those keys out of the output.

use crate::text::{
    chars_of, find, first_occurrence, has_suffix, holds, index_of, is_white_space, lines, pieces,
    position_of_either, same_chars, slice_views, split_at_either, string_of, string_views, strip_suffix,
    text_lines, trim, trim_end, trim_start, trimmed, trimmed_end, trimmed_start,
};
use crate::text_lemmas::{
    chars_within, is_blank, is_trimmed, lemma_first_occurrence_fits, lemma_index,
    lemma_index_is, lemma_lines_hold_no_line_feed, lemma_pieces_within, lemma_trimmed, lemma_trimmed_end,
    lemma_trimmed_start, lemma_trimmed_start_skips, lemma_within_keeps_out, lemma_within_subrange,
    lemma_within_trans,
};
use vstd::prelude::*;
use vstd::slice::slice_subrange;

verus! {

// ---------------------------------------------------------------------------
// Keys in the output of pnpm
// ---------------------------------------------------------------------------

/// Whether `line` begins with white space.
pub open spec fn is_indented(line: Seq<char>) -> bool {
    trimmed_start(line).len() != line.len()
}

/// The key of the line `  <key>: true`, which must be indented.
pub open spec fn allow_line_key(line: Seq<char>) -> Option<Seq<char>> {
    let entry = trimmed_start(line);
    let key = trimmed_end(entry.take(entry.len() - ": true"@.len()));
    if is_indented(line) && has_suffix(entry, ": true"@) && key.len() > 0 {
        Some(key)
    } else {
        None
    }
}

/// The key, if any, that pnpm suggests at line `i`: a line `allowBuilds:` is
/// followed by the entry to be added.
pub open spec fn suggested_key(lines: Seq<Seq<char>>, i: int) -> Option<Seq<char>> {
    if trimmed(lines[i]) == "allowBuilds:"@ && i + 1 < lines.len() {
        allow_line_key(lines[i + 1])
    } else {
        None
    }
}

/// The keys suggested at the first `n` lines.
pub open spec fn suggested_keys(lines: Seq<Seq<char>>, n: int) -> Seq<Seq<char>>
    decreases n,
{
    if n <= 0 {
        Seq::empty()
    } else {
        match suggested_key(lines, n - 1) {
            Some(key) => suggested_keys(lines, n - 1).push(key),
            None => suggested_keys(lines, n - 1),
        }
    }
}

/// What follows `Ignored build scripts:` in `line`, up to the next such mark.
pub open spec fn ignored_list(line: Seq<char>) -> Option<Seq<char>> {
    let mark = "Ignored build scripts:"@;
    match first_occurrence(line, mark) {
        Some(i) => {
            let rest = line.skip((i + mark.len()) as int);
            match first_occurrence(rest, mark) {
                Some(j) => Some(rest.take(j as int)),
                None => Some(rest),
            }
        },
        None => None,
    }
}

/// Whether `item` begins with `@<scope>/` and at least one more character before
/// the next `@`.
pub open spec fn is_scoped(item: Seq<char>) -> bool {
    let rest = item.skip(1);
    &&& item.len() > 0
    &&& item[0] == '@'
    &&& 0 < index_of(rest, '/')
    &&& index_of(rest, '/') + 1 < index_of(rest, '@')
}

/// The package name in the item `<name>@<version>`: what stands before the `@`
/// of the version. The `@` of a scope belongs to the name; an item that begins
/// with any other `@` has no name.
pub open spec fn package_name(item: Seq<char>) -> Seq<char> {
    let item = trimmed(item);
    let start: int = if is_scoped(item) {
        1
    } else {
        0
    };
    trimmed(item.take(start + index_of(item.skip(start), '@')))
}

/// The package names, empty ones left out, of the first `n` items.
pub open spec fn package_names(items: Seq<Seq<char>>, n: int) -> Seq<Seq<char>>
    decreases n,
{
    if n <= 0 {
        Seq::empty()
    } else if package_name(items[n - 1]).len() > 0 {
        package_names(items, n - 1).push(package_name(items[n - 1]))
    } else {
        package_names(items, n - 1)
    }
}

/// The packages that `line` lists as ignored.
pub open spec fn ignored_names(line: Seq<char>) -> Seq<Seq<char>> {
    match ignored_list(line) {
        Some(list) => {
            let items = pieces(list, ',', ' ');
            package_names(items, items.len() as int)
        },
        None => Seq::empty(),
    }
}

/// The packages that the first `n` lines list as ignored.
pub open spec fn all_ignored_names(lines: Seq<Seq<char>>, n: int) -> Seq<Seq<char>>
    decreases n,
{
    if n <= 0 {
        Seq::empty()
    } else {
        all_ignored_names(lines, n - 1) + ignored_names(lines[n - 1])
    }
}

/// `keys` without repetitions: of equal keys the first one stays.
pub open spec fn distinct(keys: Seq<Seq<char>>) -> Seq<Seq<char>>
    decreases keys.len(),
{
    if keys.len() == 0 {
        Seq::empty()
    } else {
        let kept = distinct(keys.drop_last());
        if kept.contains(keys.last()) {
            kept
        } else {
            kept.push(keys.last())
        }
    }
}

/// All keys that an output of pnpm asks for: the suggested ones, then the names
/// of the ignored packages.
pub open spec fn requested_keys(output: Seq<char>) -> Seq<Seq<char>> {
    let lines = text_lines(output);
    suggested_keys(lines, lines.len() as int) + all_ignored_names(lines, lines.len() as int)
}

/// The key of an indented line `<key>: true`.
pub fn extract_allow_line_key(line: &str) -> (key: Option<String>)
    ensures
        match allow_line_key(line@) {
            Some(k) => key matches Some(s) && s@ == k,
            None => key is None,
        },
{
    let chars = chars_of(line);
    match allow_line_key_of(&chars) {
        Some(key) => Some(string_of(key)),
        None => None,
    }
}

/// The same on a slice of characters.
fn allow_line_key_of(line: &[char]) -> (key: Option<&[char]>)
    ensures
        match allow_line_key(line@) {
            Some(k) => key matches Some(s) && s@ == k,
            None => key is None,
        },
{
    let entry = trim_start(line);
    if entry.len() == line.len() {
        return None;
    }
    let suffix = chars_of(": true");
    match strip_suffix(entry, &suffix) {
        Some(rest) => {
            let key = trim_end(rest);
            if key.len() == 0 {
                None
            } else {
                Some(key)
            }
        },
        None => None,
    }
}

/// Adds `key` unless `keys` holds it.
fn add_key<'a>(keys: &mut Vec<&'a [char]>, key: &'a [char], Ghost(seen): Ghost<Seq<Seq<char>>>)
    requires
        slice_views(old(keys)@) == distinct(seen),
    ensures
        slice_views(final(keys)@) == distinct(seen.push(key@)),
{
    assert(seen.push(key@).drop_last() == seen);
    if !holds(keys, key) {
        keys.push(key);
        assert(slice_views(keys@) == distinct(seen).push(key@));
    }
}

/// The part of `line` that lists ignored packages.
fn ignored_list_of(line: &[char]) -> (list: Option<&[char]>)
    ensures
        match ignored_list(line@) {
            Some(l) => list matches Some(s) && s@ == l,
            None => list is None,
        },
{
    let mark = chars_of("Ignored build scripts:");
    match find(line, &mark) {
        Some(i) => {
            let end: usize = line.len();
            let rest = slice_subrange(line, i + mark.len(), end);
            assert(rest@ == line@.skip(i + mark@.len()));
            match find(rest, &mark) {
                Some(j) => {
                    let list = slice_subrange(rest, 0, j);
                    assert(list@ == rest@.take(j as int));
                    Some(list)
                },
                None => Some(rest),
            }
        },
        None => None,
    }
}

/// Whether `item` begins with a scope.
fn has_scope(item: &[char]) -> (yes: bool)
    ensures
        yes == is_scoped(item@),
{
    if item.len() == 0 || item[0] != '@' {
        return false;
    }
    let end: usize = item.len();
    let rest = slice_subrange(item, 1, end);
    assert(rest@ == item@.skip(1));
    let slash: usize = position_of_either(rest, '/', '/');
    let at: usize = position_of_either(rest, '@', '@');
    0 < slash && slash < at && at - slash > 1
}

/// The package name in the item `<name>@<version>`.
fn package_name_of(item: &[char]) -> (name: &[char])
    ensures
        name@ == package_name(item@),
{
    let item = trim(item);
    let end: usize = item.len();
    let start: usize = if has_scope(item) {
        1
    } else {
        0
    };
    let rest = slice_subrange(item, start, end);
    assert(rest@ == item@.skip(start as int));
    let i: usize = position_of_either(rest, '@', '@');
    let name = slice_subrange(item, 0, start + i);
    assert(name@ == item@.take(start + i));
    trim(name)
}

/// The keys that pnpm asks for in `output`, each once.
pub fn parse_allowlist_keys(output: &str) -> (keys: Vec<String>)
    ensures
        string_views(keys@) == distinct(requested_keys(output@)),
{
    let text = chars_of(output);
    let all = lines(&text);
    let ghost views = slice_views(all@);
    let mut keys: Vec<&[char]> = Vec::new();
    let ghost mut seen: Seq<Seq<char>> = Seq::empty();
    assert(slice_views(keys@) == distinct(seen));
    let wanted = chars_of("allowBuilds:");
    for i in 0..all.len()
        invariant
            views == slice_views(all@),
            wanted@ == "allowBuilds:"@,
            seen == suggested_keys(views, i as int),
            slice_views(keys@) == distinct(seen),
    {
        assert(views[i as int] == all@[i as int]@);
        if same_chars(trim(all[i]), &wanted) && i + 1 < all.len() {
            assert(views[i + 1] == all@[i + 1]@);
            if let Some(key) = allow_line_key_of(all[i + 1]) {
                add_key(&mut keys, key, Ghost(seen));
                proof {
                    seen = seen.push(key@);
                }
            }
        }
    }
    let ghost suggested = seen;
    assert(suggested + all_ignored_names(views, 0) == seen);
    for i in 0..all.len()
        invariant
            views == slice_views(all@),
            seen == suggested + all_ignored_names(views, i as int),
            slice_views(keys@) == distinct(seen),
    {
        assert(views[i as int] == all@[i as int]@);
        let ghost earlier = seen;
        if let Some(list) = ignored_list_of(all[i]) {
            let items = split_at_either(list, ',', ' ');
            let ghost parts = slice_views(items@);
            assert(earlier + package_names(parts, 0) == seen);
            for j in 0..items.len()
                invariant
                    parts == slice_views(items@),
                    seen == earlier + package_names(parts, j as int),
                    slice_views(keys@) == distinct(seen),
            {
                assert(parts[j as int] == items@[j as int]@);
                let name = package_name_of(items[j]);
                if name.len() > 0 {
                    add_key(&mut keys, name, Ghost(seen));
                    proof {
                        seen = seen.push(name@);
                        assert(seen == earlier + package_names(parts, j + 1));
                    }
                }
            }
        }
        assert(seen == earlier + ignored_names(views[i as int]));
        assert(seen == suggested + all_ignored_names(views, i + 1));
    }
    let mut owned: Vec<String> = Vec::new();
    for i in 0..keys.len()
        invariant
            string_views(owned@) == slice_views(keys@).take(i as int),
    {
        let key = string_of(keys[i]);
        let ghost done = string_views(owned@);
        owned.push(key);
        assert(string_views(owned@) == done.push(keys@[i as int]@));
    }
    owned
}

// ---------------------------------------------------------------------------
// Laws
// ---------------------------------------------------------------------------

/// A key that can stand in the file as it is: not empty, on one line, and
/// without white space on either side.
pub open spec fn is_clean(key: Seq<char>) -> bool {
    key.len() > 0 && is_trimmed(key) && !key.contains('\n')
}

/// Whether all of `keys` are clean.
pub open spec fn all_clean(keys: Seq<Seq<char>>) -> bool {
    forall|i: int| 0 <= i < keys.len() ==> is_clean(#[trigger] keys[i])
}

/// The key of an entry is read back from the line that states it: with any
/// indentation, `<key>: true` yields `<key>`.
pub proof fn law_entry_is_read_back(indent: Seq<char>, key: Seq<char>)
    requires
        indent.len() > 0,
        is_blank(indent),
        key.len() > 0,
        is_trimmed(key),
    ensures
        allow_line_key(indent + key + ": true"@) == Some(key),
{
    let suffix = ": true"@;
    let entry = key + suffix;
    let line = indent + key + suffix;
    assert(line == indent + entry);
    assert(entry[0] == key[0]);
    lemma_trimmed_start_skips(indent, entry);
    assert(trimmed_start(line) == entry);
    assert(entry.skip(entry.len() - suffix.len()) == suffix);
    assert(entry.take(entry.len() - suffix.len()) == key);
}

/// A line without indentation is no entry.
pub proof fn law_entry_needs_indentation(line: Seq<char>)
    requires
        line.len() == 0 || !is_white_space(line[0]),
    ensures
        allow_line_key(line) is None,
{
}

proof fn lemma_distinct(keys: Seq<Seq<char>>)
    ensures
        distinct(keys).no_duplicates(),
        forall|key: Seq<char>|
            #![trigger distinct(keys).contains(key)]
            #![trigger keys.contains(key)]
            distinct(keys).contains(key) <==> keys.contains(key),
    decreases keys.len(),
{
    if keys.len() > 0 {
        let front = keys.drop_last();
        lemma_distinct(front);
        assert(keys == front.push(keys.last()));
        let kept = distinct(front);
        assert forall|key: Seq<char>|
            #![trigger distinct(keys).contains(key)]
            #![trigger keys.contains(key)]
            distinct(keys).contains(key) <==> keys.contains(key) by {
            if keys.contains(key) {
                let i = choose|i: int| 0 <= i < keys.len() && keys[i] == key;
                if i < front.len() {
                    assert(front[i] == key);
                    assert(front.contains(key));
                    let j = choose|j: int| 0 <= j < kept.len() && kept[j] == key;
                    assert(distinct(keys)[j] == key);
                } else if !kept.contains(key) {
                    assert(distinct(keys)[kept.len() as int] == key);
                }
            }
            if distinct(keys).contains(key) {
                let j = choose|j: int| 0 <= j < distinct(keys).len() && distinct(keys)[j] == key;
                if j < kept.len() {
                    assert(kept[j] == key);
                    assert(kept.contains(key));
                    let i = choose|i: int| 0 <= i < front.len() && front[i] == key;
                    assert(keys[i] == key);
                } else {
                    assert(keys[keys.len() - 1] == key);
                }
            }
        }
    }
}

/// No key is asked for twice, and dropping repetitions loses no key.
pub proof fn law_keys_are_distinct(output: Seq<char>)
    ensures
        distinct(requested_keys(output)).no_duplicates(),
        forall|key: Seq<char>|
            #![trigger distinct(requested_keys(output)).contains(key)]
            #![trigger requested_keys(output).contains(key)]
            distinct(requested_keys(output)).contains(key) <==> requested_keys(output).contains(
                key,
            ),
{
    lemma_distinct(requested_keys(output));
}

proof fn lemma_suggested_keys(lines: Seq<Seq<char>>, n: int)
    requires
        0 <= n <= lines.len(),
        forall|i: int| 0 <= i < lines.len() ==> !(#[trigger] lines[i]).contains('\n'),
    ensures
        all_clean(suggested_keys(lines, n)),
        forall|i: int|
            0 <= i < n && #[trigger] suggested_key(lines, i) is Some ==> suggested_keys(
                lines,
                n,
            ).contains(suggested_key(lines, i)->0),
        (forall|i: int| 0 <= i < n ==> #[trigger] suggested_key(lines, i) is None)
            ==> suggested_keys(lines, n).len() == 0,
    decreases n,
{
    if n > 0 {
        lemma_suggested_keys(lines, n - 1);
        let before = suggested_keys(lines, n - 1);
        let after = suggested_keys(lines, n);
        if let Some(key) = suggested_key(lines, n - 1) {
            lemma_allow_line_key_is_clean(lines[n]);
            assert(after[before.len() as int] == key);
        }
        assert forall|i: int| 0 <= i < n && #[trigger] suggested_key(lines, i) is Some implies after
            .contains(suggested_key(lines, i)->0) by {
            let key = suggested_key(lines, i)->0;
            if i < n - 1 {
                assert(before.contains(key));
                let j = choose|j: int| 0 <= j < before.len() && before[j] == key;
                assert(after[j] == key);
            }
        }
    }
}

proof fn lemma_allow_line_key_is_clean(line: Seq<char>)
    requires
        !line.contains('\n'),
    ensures
        allow_line_key(line) matches Some(key) ==> is_clean(key),
{
    let entry = trimmed_start(line);
    if is_indented(line) && has_suffix(entry, ": true"@) {
        let n = entry.len() - ": true"@.len();
        let rest = entry.take(n);
        let key = trimmed_end(rest);
        lemma_trimmed_start(line);
        lemma_trimmed_end(rest);
        assert(rest == entry.subrange(0, n));
        lemma_within_subrange(entry, 0, n);
        lemma_within_trans(key, rest, entry);
        lemma_within_trans(key, entry, line);
        lemma_within_keeps_out(key, line, '\n');
    }
}

proof fn lemma_package_name_is_clean(item: Seq<char>)
    requires
        !item.contains('\n'),
    ensures
        package_name(item).len() > 0 ==> is_clean(package_name(item)),
{
    let t = trimmed(item);
    let start: int = if is_scoped(t) {
        1
    } else {
        0
    };
    let i = start + index_of(t.skip(start), '@');
    let head = t.take(i);
    lemma_trimmed(item);
    lemma_index(t.skip(start), '@', '@');
    assert(head == t.subrange(0, i));
    lemma_within_subrange(t, 0, i);
    lemma_trimmed(head);
    lemma_within_trans(trimmed(head), head, t);
    lemma_within_trans(trimmed(head), t, item);
    lemma_within_keeps_out(trimmed(head), item, '\n');
}

proof fn lemma_package_names(items: Seq<Seq<char>>, n: int)
    requires
        0 <= n <= items.len(),
        forall|i: int| 0 <= i < items.len() ==> !(#[trigger] items[i]).contains('\n'),
    ensures
        all_clean(package_names(items, n)),
        forall|i: int|
            0 <= i < n && package_name(#[trigger] items[i]).len() > 0 ==> package_names(
                items,
                n,
            ).contains(package_name(items[i])),
    decreases n,
{
    if n > 0 {
        lemma_package_names(items, n - 1);
        lemma_package_name_is_clean(items[n - 1]);
        let before = package_names(items, n - 1);
        let after = package_names(items, n);
        assert forall|i: int| 0 <= i < n && package_name(#[trigger] items[i]).len()
            > 0 implies after.contains(package_name(items[i])) by {
            let name = package_name(items[i]);
            if i < n - 1 {
                let j = choose|j: int| 0 <= j < before.len() && before[j] == name;
                assert(after[j] == name);
            } else {
                assert(after[before.len() as int] == name);
            }
        }
    }
}

proof fn lemma_ignored_names(line: Seq<char>)
    requires
        !line.contains('\n'),
    ensures
        all_clean(ignored_names(line)),
        ignored_list(line) matches Some(list) ==> forall|i: int|
            0 <= i < pieces(list, ',', ' ').len() && package_name(
                #[trigger] pieces(list, ',', ' ')[i],
            ).len() > 0 ==> ignored_names(line).contains(package_name(pieces(list, ',', ' ')[i])),
{
    if let Some(list) = ignored_list(line) {
        let mark = "Ignored build scripts:"@;
        lemma_first_occurrence_fits(line, mark);
        let start = (first_occurrence(line, mark)->0 + mark.len()) as int;
        let rest = line.skip(start);
        assert(rest == line.subrange(start, line.len() as int));
        lemma_within_subrange(line, start, line.len() as int);
        lemma_first_occurrence_fits(rest, mark);
        assert(chars_within(list, rest)) by {
            assert(rest == rest.subrange(0, rest.len() as int));
            lemma_within_subrange(rest, 0, rest.len() as int);
            if let Some(j) = first_occurrence(rest, mark) {
                assert(list == rest.subrange(0, j as int));
                lemma_within_subrange(rest, 0, j as int);
            }
        }
        lemma_within_trans(list, rest, line);
        let items = pieces(list, ',', ' ');
        lemma_pieces_within(list, ',', ' ');
        assert forall|i: int| 0 <= i < items.len() implies !(#[trigger] items[i]).contains(
            '\n',
        ) by {
            lemma_within_trans(items[i], list, line);
            lemma_within_keeps_out(items[i], line, '\n');
        }
        lemma_package_names(items, items.len() as int);
    }
}

proof fn lemma_all_ignored_names(lines: Seq<Seq<char>>, n: int)
    requires
        0 <= n <= lines.len(),
        forall|i: int| 0 <= i < lines.len() ==> !(#[trigger] lines[i]).contains('\n'),
    ensures
        all_clean(all_ignored_names(lines, n)),
        forall|i: int, name: Seq<char>|
            0 <= i < n && ignored_names(#[trigger] lines[i]).contains(name)
                ==> #[trigger] all_ignored_names(lines, n).contains(name),
        (forall|i: int| 0 <= i < n ==> ignored_list(#[trigger] lines[i]) is None)
            ==> all_ignored_names(lines, n).len() == 0,
    decreases n,
{
    if n > 0 {
        lemma_all_ignored_names(lines, n - 1);
        lemma_ignored_names(lines[n - 1]);
        let before = all_ignored_names(lines, n - 1);
        let own = ignored_names(lines[n - 1]);
        let after = all_ignored_names(lines, n);
        assert(after == before + own);
        assert forall|i: int, name: Seq<char>|
            0 <= i < n && ignored_names(#[trigger] lines[i]).contains(
                name,
            ) implies #[trigger] after.contains(name) by {
            if i < n - 1 {
                assert(before.contains(name));
                let j = choose|j: int| 0 <= j < before.len() && before[j] == name;
                assert(after[j] == name);
            } else {
                let j = choose|j: int| 0 <= j < own.len() && own[j] == name;
                assert(after[before.len() + j] == name);
            }
        }
    }
}

/// Every key that is asked for can stand in the file: it is not empty, on one
/// line, and without white space on either side.
pub proof fn law_keys_are_clean(output: Seq<char>)
    ensures
        all_clean(distinct(requested_keys(output))),
{
    let lines = text_lines(output);
    let n = lines.len() as int;
    lemma_lines_hold_no_line_feed(output);
    lemma_suggested_keys(lines, n);
    lemma_all_ignored_names(lines, n);
    let keys = requested_keys(output);
    lemma_distinct(keys);
    let kept = distinct(keys);
    assert forall|i: int| 0 <= i < kept.len() implies is_clean(#[trigger] kept[i]) by {
        assert(kept.contains(kept[i]));
        let j = choose|j: int| 0 <= j < keys.len() && keys[j] == kept[i];
        let suggested = suggested_keys(lines, n);
        if j < suggested.len() {
            assert(suggested[j] == kept[i]);
        } else {
            assert(all_ignored_names(lines, n)[j - suggested.len()] == kept[i]);
        }
    }
}

/// Every suggestion is taken up as it stands: the entry on the line below
/// `allowBuilds:` yields its key.
pub proof fn law_suggestions_are_taken(output: Seq<char>, i: int)
    requires
        0 <= i,
        i + 1 < text_lines(output).len(),
        trimmed(text_lines(output)[i]) == "allowBuilds:"@,
        allow_line_key(text_lines(output)[i + 1]) is Some,
    ensures
        distinct(requested_keys(output)).contains(allow_line_key(text_lines(output)[i + 1])->0),
{
    let lines = text_lines(output);
    let n = lines.len() as int;
    lemma_lines_hold_no_line_feed(output);
    lemma_suggested_keys(lines, n);
    let keys = requested_keys(output);
    lemma_distinct(keys);
    let key = suggested_key(lines, i)->0;
    let suggested = suggested_keys(lines, n);
    assert(suggested.contains(key));
    let j = choose|j: int| 0 <= j < suggested.len() && suggested[j] == key;
    assert(keys[j] == key);
    assert(keys.contains(key));
}

/// Every package that pnpm lists as ignored is asked for by its name.
pub proof fn law_ignored_packages_are_taken(output: Seq<char>, i: int, j: int)
    requires
        0 <= i < text_lines(output).len(),
        ignored_list(text_lines(output)[i]) is Some,
        0 <= j < pieces(ignored_list(text_lines(output)[i])->0, ',', ' ').len(),
        package_name(pieces(ignored_list(text_lines(output)[i])->0, ',', ' ')[j]).len() > 0,
    ensures
        distinct(requested_keys(output)).contains(
            package_name(pieces(ignored_list(text_lines(output)[i])->0, ',', ' ')[j]),
        ),
{
    let lines = text_lines(output);
    let n = lines.len() as int;
    lemma_lines_hold_no_line_feed(output);
    lemma_all_ignored_names(lines, n);
    lemma_ignored_names(lines[i]);
    let keys = requested_keys(output);
    lemma_distinct(keys);
    let name = package_name(pieces(ignored_list(lines[i])->0, ',', ' ')[j]);
    let names = all_ignored_names(lines, n);
    assert(ignored_names(lines[i]).contains(name));
    assert(names.contains(name));
    let k = choose|k: int| 0 <= k < names.len() && names[k] == name;
    assert(keys[suggested_keys(lines, n).len() + k] == name);
    assert(keys.contains(name));
}

/// Whether `name` can be the name of a package: it has no `@` but that of a scope,
/// and no white space on either side.
pub open spec fn is_package_name(name: Seq<char>) -> bool {
    &&& name.len() > 0
    &&& is_trimmed(name)
    &&& name[0] == '@' ==> is_scoped(name)
    &&& forall|i: int| 1 <= i < name.len() ==> name[i] != '@'
}

/// The name of a package, scoped or not, is read off its item: `<name>@<version>`
/// yields `<name>`.
pub proof fn law_package_name_is_read_back(name: Seq<char>, version: Seq<char>)
    requires
        is_package_name(name),
        is_trimmed(version),
    ensures
        package_name(name.push('@') + version) == name,
{
    let item = name.push('@') + version;
    let n = name.len() as int;
    assert(item[0] == name[0]);
    assert(item.last() == '@' || item.last() == version.last());
    assert(trimmed(item) == item);
    let start: int = if name[0] == '@' {
        1
    } else {
        0
    };
    let rest = item.skip(start);
    assert forall|j: int| 0 <= j < n - start implies rest[j] != '@' by {
        assert(rest[j] == name[start + j]);
    }
    assert(rest[n - start] == '@');
    lemma_index_is(rest, '@', n - start);
    if start == 1 {
        let own = name.skip(1);
        let slash = index_of(own, '/') as int;
        lemma_index(own, '/', '/');
        lemma_index(own, '@', '@');
        assert forall|j: int| 0 <= j < slash implies rest[j] != '/' by {
            assert(rest[j] == own[j]);
        }
        assert(rest[slash] == own[slash]);
        lemma_index_is(rest, '/', slash);
    }
    assert(is_scoped(item) == (start == 1));
    assert(item.take(n) == name);
    assert(trimmed(name) == name);
}

/// An item that begins with an `@` that marks no scope names no package, and is
/// left out.
pub proof fn law_nameless_items_are_left_out(item: Seq<char>)
    requires
        item.len() > 0,
        is_trimmed(item),
        item[0] == '@',
        !is_scoped(item),
    ensures
        package_name(item).len() == 0,
{
    assert(trimmed(item) == item);
    assert(item.skip(0) == item);
    lemma_index_is(item, '@', 0);
}

/// An output that neither suggests an entry nor lists ignored packages asks for
/// nothing.
pub proof fn law_other_output_asks_for_nothing(output: Seq<char>)
    requires
        forall|i: int|
            0 <= i < text_lines(output).len() ==> trimmed(#[trigger] text_lines(output)[i])
                != "allowBuilds:"@ && ignored_list(text_lines(output)[i]) is None,
    ensures
        distinct(requested_keys(output)).len() == 0,
{
    let lines = text_lines(output);
    let n = lines.len() as int;
    lemma_lines_hold_no_line_feed(output);
    lemma_suggested_keys(lines, n);
    lemma_all_ignored_names(lines, n);
    assert forall|i: int| 0 <= i < n implies #[trigger] suggested_key(lines, i) is None by {
        assert(trimmed(lines[i]) != "allowBuilds:"@);
    }
    assert(requested_keys(output) == Seq::<Seq<char>>::empty());
}

} // verus!
