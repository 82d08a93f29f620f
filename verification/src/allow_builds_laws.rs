//! What an output of pnpm asks for, by how the output is put together.

use crate::allow_builds::{
    all_ignored_names, allow_line_key, distinct, ignored_list, ignored_names,
    is_package_name, is_scoped, package_name, package_names, requested_keys, suggested_key,
    suggested_keys,
};
use crate::text::{
    first_occurrence, index_of, is_white_space, pieces, text_lines, trimmed,
    trimmed_end, trimmed_start,
};
use crate::text_laws::{
    law_first_occurrence_is_first, law_index_counts_what_stands_before,
    law_lines_stand_between_endings, law_splitting_parts_at_separators,
    law_suffix_is_what_comes_last, law_trimming_takes_white_space_off, lemma_pieces_concat,
    stands_at,
};
use crate::text_lemmas::{
    is_blank, is_trimmed, lemma_index, lemma_lines_append, lemma_one_line, lemma_trimmed_end,
    lemma_trimmed_start,
};
use vstd::prelude::*;

verus! {

// ---------------------------------------------------------------------------
// Entries
// ---------------------------------------------------------------------------

/// What `trimmed_start` takes off is white space.
pub proof fn lemma_start_is_blank(s: Seq<char>)
    ensures
        trimmed_start(s).len() <= s.len(),
        is_blank(s.take(s.len() - trimmed_start(s).len())),
        s == s.take(s.len() - trimmed_start(s).len()) + trimmed_start(s),
    decreases s.len(),
{
    lemma_trimmed_start(s);
    let n = s.len() - trimmed_start(s).len();
    assert(s == s.take(n) + s.skip(n));
    if s.len() > 0 && is_white_space(s[0]) {
        let rest = s.drop_first();
        lemma_start_is_blank(rest);
        assert forall|i: int| 0 <= i < n implies is_white_space(#[trigger] s.take(n)[i]) by {
            if i > 0 {
                assert(s.take(n)[i] == rest.take(n - 1)[i - 1]);
            }
        }
    }
}

/// What `trimmed_end` takes off is white space.
pub proof fn lemma_end_is_blank(s: Seq<char>)
    ensures
        trimmed_end(s).len() <= s.len(),
        is_blank(s.skip(trimmed_end(s).len() as int)),
        s == trimmed_end(s) + s.skip(trimmed_end(s).len() as int),
    decreases s.len(),
{
    lemma_trimmed_end(s);
    let n = trimmed_end(s).len() as int;
    assert(s == s.take(n) + s.skip(n));
    if s.len() > 0 && is_white_space(s.last()) {
        let front = s.drop_last();
        lemma_end_is_blank(front);
        let tail = s.skip(n);
        assert forall|i: int| 0 <= i < tail.len() implies is_white_space(#[trigger] tail[i]) by {
            if i < tail.len() - 1 {
                assert(tail[i] == front.skip(n)[i]);
            }
        }
    }
}

/// An entry is an indented key, then `: true`, with white space between them at
/// most: such a line yields the key, whatever the key holds.
pub proof fn law_entry_yields_its_key(indent: Seq<char>, key: Seq<char>, gap: Seq<char>)
    requires
        indent.len() > 0,
        is_blank(indent),
        is_blank(gap),
        key.len() > 0,
        is_trimmed(key),
    ensures
        allow_line_key(indent + key + gap + ": true"@) == Some(key),
{
    reveal_strlit(": true");
    let suffix = ": true"@;
    let entry = key + gap + suffix;
    let line = indent + key + gap + suffix;
    let empty = Seq::<char>::empty();
    assert(line == indent + entry);
    assert(entry[0] == key[0]);
    assert(entry.last() == 'e');
    law_trimming_takes_white_space_off(indent, entry, empty);
    law_suffix_is_what_comes_last(entry, suffix, key + gap);
    assert(entry.take(entry.len() - suffix.len()) == key + gap);
    law_trimming_takes_white_space_off(empty, key, gap);
}

/// Whether `line` is an entry for `key`, put together so.
pub open spec fn is_entry_for(
    line: Seq<char>,
    indent: Seq<char>,
    key: Seq<char>,
    gap: Seq<char>,
) -> bool {
    &&& indent.len() > 0
    &&& is_blank(indent)
    &&& is_blank(gap)
    &&& line == indent + key + gap + ": true"@
}

/// Nothing but such a line yields a key.
pub proof fn law_only_an_entry_yields_a_key(line: Seq<char>)
    ensures
        allow_line_key(line) matches Some(key) ==> {
            &&& key.len() > 0
            &&& is_trimmed(key)
            &&& exists|indent: Seq<char>, gap: Seq<char>| is_entry_for(line, indent, key, gap)
        },
{
    if let Some(key) = allow_line_key(line) {
        let (indent, gap) = lemma_entry_parts(line, key);
        assert(is_entry_for(line, indent, key, gap));
    }
}

proof fn lemma_entry_parts(line: Seq<char>, key: Seq<char>) -> (parts: (Seq<char>, Seq<char>))
    requires
        allow_line_key(line) == Some(key),
    ensures
        key.len() > 0,
        is_trimmed(key),
        is_entry_for(line, parts.0, key, parts.1),
{
    let suffix = ": true"@;
    let entry = trimmed_start(line);
    let indent = line.take(line.len() - entry.len());
    let rest = entry.take(entry.len() - suffix.len());
    let gap = rest.skip(key.len() as int);
    assert(is_blank(indent) && line == indent + entry) by {
        lemma_start_is_blank(line);
    }
    assert(entry.len() > 0 && !is_white_space(entry[0])) by {
        lemma_trimmed_start(line);
        reveal_strlit(": true");
    }
    assert(entry == rest + suffix) by {
        law_suffix_is_what_comes_last(entry, suffix, entry);
    }
    assert(is_blank(gap) && rest == key + gap) by {
        lemma_end_is_blank(rest);
    }
    assert(!is_white_space(key.last())) by {
        lemma_trimmed_end(rest);
    }
    assert(key[0] == entry[0]);
    lemma_concat(indent, key, gap, suffix);
    (indent, gap)
}

proof fn lemma_concat(a: Seq<char>, b: Seq<char>, c: Seq<char>, d: Seq<char>)
    ensures
        a + ((b + c) + d) == a + b + c + d,
{
}

// ---------------------------------------------------------------------------
// Hints
// ---------------------------------------------------------------------------

/// The keys that `lines` suggest.
pub open spec fn hints(lines: Seq<Seq<char>>) -> Seq<Seq<char>> {
    suggested_keys(lines, lines.len() as int)
}

proof fn lemma_suggested_agree(a: Seq<Seq<char>>, b: Seq<Seq<char>>, n: int)
    requires
        0 <= n < a.len(),
        n < b.len(),
        forall|i: int| 0 <= i <= n ==> a[i] == b[i],
    ensures
        suggested_keys(a, n) == suggested_keys(b, n),
    decreases n,
{
    if n > 0 {
        lemma_suggested_agree(a, b, n - 1);
    }
}

proof fn lemma_hints_step(lines: Seq<Seq<char>>, x: Seq<char>, y: Seq<char>)
    ensures
        hints(lines.push(x).push(y)) == (match allow_line_key(y) {
            Some(key) => if trimmed(x) == "allowBuilds:"@ {
                hints(lines.push(x)).push(key)
            } else {
                hints(lines.push(x))
            },
            None => hints(lines.push(x)),
        }),
{
    let shorter = lines.push(x);
    let whole = shorter.push(y);
    let n = lines.len() as int;
    assert(whole[n] == x && whole[n + 1] == y);
    assert(suggested_key(whole, n + 1) is None);
    assert(suggested_key(shorter, n) is None);
    lemma_suggested_agree(whole, shorter, n);
    assert(hints(whole) == suggested_keys(whole, n + 1));
    assert(hints(shorter) == suggested_keys(shorter, n));
}

/// A hint is taken, and comes after those above it: a line `allowBuilds:`, and on
/// the next line an entry.
pub proof fn law_hint_is_taken(
    lines: Seq<Seq<char>>,
    lead: Seq<char>,
    trail: Seq<char>,
    indent: Seq<char>,
    key: Seq<char>,
    gap: Seq<char>,
)
    requires
        is_blank(lead),
        is_blank(trail),
        indent.len() > 0,
        is_blank(indent),
        is_blank(gap),
        key.len() > 0,
        is_trimmed(key),
    ensures
        ({
            let above = lines.push(lead + "allowBuilds:"@ + trail);
            hints(above.push(indent + key + gap + ": true"@)) == hints(above).push(key)
        }),
{
    reveal_strlit("allowBuilds:");
    let x = lead + "allowBuilds:"@ + trail;
    law_trimming_takes_white_space_off(lead, "allowBuilds:"@, trail);
    law_entry_yields_its_key(indent, key, gap);
    lemma_hints_step(lines, x, indent + key + gap + ": true"@);
}

/// Nothing else is taken for a hint: a line adds one only where it yields a key and
/// the line above it says `allowBuilds:`.
pub proof fn law_nothing_else_is_a_hint(lines: Seq<Seq<char>>, x: Seq<char>, y: Seq<char>)
    ensures
        hints(Seq::<Seq<char>>::empty()) == Seq::<Seq<char>>::empty(),
        hints(seq![x]) == Seq::<Seq<char>>::empty(),
        allow_line_key(y) is None || trimmed(x) != "allowBuilds:"@ ==> hints(lines.push(x).push(y))
            == hints(lines.push(x)),
{
    lemma_hints_step(lines, x, y);
    let one = seq![x];
    assert(suggested_key(one, 0) is None);
    assert(suggested_keys(one, 0) == Seq::<Seq<char>>::empty());
    assert(hints(one) == suggested_keys(one, 0));
}

// ---------------------------------------------------------------------------
// Ignored packages
// ---------------------------------------------------------------------------

/// The packages that `lines` list as ignored.
pub open spec fn ignored(lines: Seq<Seq<char>>) -> Seq<Seq<char>> {
    all_ignored_names(lines, lines.len() as int)
}

proof fn lemma_ignored_agree(a: Seq<Seq<char>>, b: Seq<Seq<char>>, n: int)
    requires
        0 <= n <= a.len(),
        n <= b.len(),
        forall|i: int| 0 <= i < n ==> a[i] == b[i],
    ensures
        all_ignored_names(a, n) == all_ignored_names(b, n),
    decreases n,
{
    if n > 0 {
        lemma_ignored_agree(a, b, n - 1);
    }
}

/// The packages of a line come after those of the lines above it.
pub proof fn law_ignored_packages_come_line_by_line(lines: Seq<Seq<char>>, line: Seq<char>)
    ensures
        ignored(Seq::<Seq<char>>::empty()) == Seq::<Seq<char>>::empty(),
        ignored(lines.push(line)) == ignored(lines) + ignored_names(line),
{
    let whole = lines.push(line);
    lemma_ignored_agree(whole, lines, lines.len() as int);
    assert(whole[lines.len() as int] == line);
}

/// The list of ignored packages is all that follows the mark, up to the end of the
/// line.
pub proof fn law_ignored_list_is_the_rest_of_the_line(before: Seq<char>, list: Seq<char>)
    requires
        forall|i: int| #[trigger]
            stands_at(
                before + "Ignored build scripts:"@ + list,
                "Ignored build scripts:"@,
                i,
            ) ==> i == before.len(),
    ensures
        ignored_list(before + "Ignored build scripts:"@ + list) == Some(list),
{
    let mark = "Ignored build scripts:"@;
    let line = before + mark + list;
    let at = before.len() as int;
    assert(line.subrange(at, at + mark.len()) == mark);
    law_first_occurrence_is_first(line, mark, at);
    assert(first_occurrence(line, mark) == Some(before.len()));
    let rest = line.skip(at + mark.len());
    assert(rest == list);
    if let Some(j) = first_occurrence(rest, mark) {
        law_first_occurrence_is_first(rest, mark, j as int);
        let k = at + mark.len() + j;
        assert(line.subrange(k, k + mark.len()) == rest.subrange(j as int, j as int + mark.len()));
        assert(stands_at(line, mark, k));
        reveal_strlit("Ignored build scripts:");
    }
}

/// A second mark on the line ends the list.
pub proof fn law_second_mark_ends_the_list(before: Seq<char>, list: Seq<char>, more: Seq<char>)
    requires
        forall|i: int| #[trigger]
            stands_at(
                before + "Ignored build scripts:"@ + list + "Ignored build scripts:"@ + more,
                "Ignored build scripts:"@,
                i,
            ) ==> i == before.len() || i >= before.len() + "Ignored build scripts:"@.len()
                + list.len(),
    ensures
        ignored_list(
            before + "Ignored build scripts:"@ + list + "Ignored build scripts:"@ + more,
        ) == Some(list),
{
    reveal_strlit("Ignored build scripts:");
    let mark = "Ignored build scripts:"@;
    let line = before + mark + list + mark + more;
    let at = before.len() as int;
    assert(line.subrange(at, at + mark.len()) == mark);
    law_first_occurrence_is_first(line, mark, at);
    assert(first_occurrence(line, mark) == Some(before.len()));
    let rest = line.skip(at + mark.len());
    let end = list.len() as int;
    assert(rest == list + mark + more);
    assert(rest.subrange(end, end + mark.len()) == mark);
    law_first_occurrence_is_first(rest, mark, end);
    if let Some(j) = first_occurrence(rest, mark) {
        let k = at + mark.len() + j;
        assert(line.subrange(k, k + mark.len()) == rest.subrange(j as int, j as int + mark.len()));
        assert(stands_at(line, mark, k));
        assert(j == end);
        assert(rest.take(end) == list);
    }
}

/// A line without the mark lists nothing.
pub proof fn law_no_mark_no_list(line: Seq<char>)
    requires
        forall|i: int| !#[trigger] stands_at(line, "Ignored build scripts:"@, i),
    ensures
        ignored_list(line) is None,
        ignored_names(line) == Seq::<Seq<char>>::empty(),
{
    let mark = "Ignored build scripts:"@;
    law_first_occurrence_is_first(line, mark, 0);
    if let Some(i) = first_occurrence(line, mark) {
        assert(stands_at(line, mark, i as int));
    }
}

/// The packages in a list.
pub open spec fn listed_names(list: Seq<char>) -> Seq<Seq<char>> {
    package_names(pieces(list, ',', ' '), pieces(list, ',', ' ').len() as int)
}

/// The packages of a line are those of its list.
pub proof fn law_packages_of_a_line_are_those_of_its_list(line: Seq<char>)
    ensures
        ignored_list(line) matches Some(list) ==> ignored_names(line) == listed_names(list),
        ignored_list(line) is None ==> ignored_names(line) == Seq::<Seq<char>>::empty(),
{
}

proof fn lemma_package_names_concat(a: Seq<Seq<char>>, b: Seq<Seq<char>>, n: int)
    requires
        0 <= n <= b.len(),
    ensures
        package_names(a + b, a.len() + n) == package_names(a, a.len() as int) + package_names(b, n),
    decreases n,
{
    if n > 0 {
        lemma_package_names_concat(a, b, n - 1);
        assert((a + b)[a.len() + n - 1] == b[n - 1]);
        let x = package_names(a, a.len() as int);
        let y = package_names(b, n - 1);
        let name = package_name(b[n - 1]);
        assert((x + y).push(name) == x + y.push(name));
    } else {
        assert(package_names(b, 0) == Seq::<Seq<char>>::empty());
        lemma_package_names_agree(a + b, a, a.len() as int);
        assert(package_names(a, a.len() as int) + Seq::<Seq<char>>::empty() == package_names(
            a,
            a.len() as int,
        ));
    }
}

proof fn lemma_package_names_agree(a: Seq<Seq<char>>, b: Seq<Seq<char>>, n: int)
    requires
        0 <= n <= a.len(),
        n <= b.len(),
        forall|i: int| 0 <= i < n ==> a[i] == b[i],
    ensures
        package_names(a, n) == package_names(b, n),
    decreases n,
{
    if n > 0 {
        lemma_package_names_agree(a, b, n - 1);
    }
}

/// Commas and spaces part a list, and what is on either side is read by itself, in
/// order. An item without them is one package, or none where it has no name.
pub proof fn law_list_is_read_item_by_item(a: Seq<char>, sep: char, b: Seq<char>, item: Seq<char>)
    requires
        sep == ',' || sep == ' ',
        !item.contains(','),
        !item.contains(' '),
    ensures
        listed_names(a + seq![sep] + b) == listed_names(a) + listed_names(b),
        listed_names(item) == if package_name(item).len() > 0 {
            seq![package_name(item)]
        } else {
            Seq::empty()
        },
{
    let x = pieces(a, ',', ' ');
    let y = pieces(b, ',', ' ');
    lemma_pieces_concat(a, ',', ' ', sep, b);
    lemma_package_names_concat(x, y, y.len() as int);
    law_splitting_parts_at_separators(item, ',', ' ', ',', b);
    let one = seq![item];
    assert(pieces(item, ',', ' ') == one);
    assert(package_names(one, 0) == Seq::<Seq<char>>::empty());
    assert(one[0] == item);
}

/// An item begins with a scope exactly where it is an `@`, a scope, a `/` and
/// something more than an `@`.
pub proof fn law_scope_has_a_name_and_a_slash(scope: Seq<char>, rest: Seq<char>, item: Seq<char>)
    ensures
        scope.len() > 0 && !scope.contains('/') && !scope.contains('@') && rest.len() > 0 && rest[0]
            != '@' ==> is_scoped(seq!['@'] + scope + seq!['/'] + rest),
        is_scoped(item) ==> ({
            let n = index_of(item.skip(1), '/') as int;
            &&& n > 0
            &&& n + 2 < item.len()
            &&& item[0] == '@'
            &&& item[n + 1] == '/'
            &&& item[n + 2] != '@'
            &&& forall|i: int| 1 <= i <= n ==> item[i] != '/' && item[i] != '@'
        }),
{
    if scope.len() > 0 && !scope.contains('/') && !scope.contains('@') && rest.len() > 0 && rest[0]
        != '@' {
        let whole = seq!['@'] + scope + seq!['/'] + rest;
        let own = whole.skip(1);
        let n = scope.len() as int;
        assert(own == scope + seq!['/'] + rest);
        law_index_counts_what_stands_before(scope, '/', '/', '/', rest);
        lemma_index(own, '@', '@');
        let at = index_of(own, '@') as int;
        assert(at > n + 1) by {
            if at < n {
                assert(own[at] == scope[at]);
                assert(scope.contains(scope[at]));
            } else if at == n {
                assert(own[n] == '/');
            } else if at == n + 1 {
                assert(own[n + 1] == rest[0]);
            }
        }
    }
    if is_scoped(item) {
        let own = item.skip(1);
        lemma_index(own, '/', '/');
        lemma_index(own, '@', '@');
        let n = index_of(own, '/') as int;
        assert(own[n] == item[n + 1]);
        assert(own[n + 1] == item[n + 2]);
        assert forall|i: int| 1 <= i <= n implies item[i] != '/' && item[i] != '@' by {
            assert(own[i - 1] == item[i]);
        }
    }
}

/// The package is what stands before the `@` of its version, white space aside;
/// without a version it is the whole item.
pub proof fn law_package_stands_before_its_version(
    lead: Seq<char>,
    name: Seq<char>,
    gap: Seq<char>,
    version: Seq<char>,
    trail: Seq<char>,
)
    requires
        is_blank(lead),
        is_blank(gap),
        is_blank(trail),
        is_package_name(name),
        version.len() > 0 ==> !is_white_space(version.last()),
    ensures
        package_name(lead + name + gap + seq!['@'] + version + trail) == name,
        package_name(lead + name + trail) == name,
{
    let full = name + gap + seq!['@'] + version;
    let empty = Seq::<char>::empty();
    assert(full[0] == name[0]);
    assert(full.last() == '@' || full.last() == version.last());
    law_trimming_takes_white_space_off(lead, full, trail);
    assert(lead + name + gap + seq!['@'] + version + trail == lead + full + trail);
    lemma_name_ends(name, gap, seq!['@'] + version);
    assert(full == name + gap + (seq!['@'] + version));
    law_trimming_takes_white_space_off(empty, name, gap);
    assert(empty + name + gap == name + gap);
    law_trimming_takes_white_space_off(lead, name, trail);
    lemma_name_ends(name, empty, empty);
    assert(name + empty + empty == name);
    assert(name + empty == name);
    law_trimming_takes_white_space_off(empty, name, empty);
    assert(empty + name + empty == name);
}

/// What package names are cut out of: the name and the white space behind it.
proof fn lemma_name_ends(name: Seq<char>, gap: Seq<char>, rest: Seq<char>)
    requires
        is_package_name(name),
        is_blank(gap),
        rest.len() == 0 || rest[0] == '@',
    ensures
        ({
            let item = name + gap + rest;
            let start: int = if is_scoped(item) {
                1
            } else {
                0
            };
            item.take(start + index_of(item.skip(start), '@')) == name + gap
        }),
{
    let item = name + gap + rest;
    let head = name + gap;
    let start: int = if name[0] == '@' {
        1
    } else {
        0
    };
    let own = item.skip(start);
    let cut = head.skip(start);
    assert(item[0] == name[0]);
    assert forall|i: int| 0 <= i < cut.len() implies cut[i] != '@' by {
        let k = i + start;
        if k < name.len() {
            assert(cut[i] == name[k]);
        } else {
            assert(cut[i] == gap[k - name.len()]);
            assert(is_white_space(gap[k - name.len()]));
        }
    }
    if rest.len() > 0 {
        assert(own == cut + seq!['@'] + rest.skip(1));
    } else {
        assert(own == cut);
    }
    law_index_counts_what_stands_before(cut, '@', '@', '@', rest.skip(1));
    assert(index_of(own, '@') == cut.len());
    assert(item.take(head.len() as int) == head);
    if start == 1 {
        let bare = name.skip(1);
        let slash = index_of(bare, '/') as int;
        lemma_index(bare, '/', '/');
        lemma_index(bare, '@', '@');
        let scope = bare.take(slash);
        assert(own == scope + seq!['/'] + own.skip(slash + 1));
        assert(!scope.contains('/'));
        law_index_counts_what_stands_before(scope, '/', '/', '/', own.skip(slash + 1));
        assert(is_scoped(item));
    }
}

/// An item that begins with an `@` but with no scope names nothing.
pub proof fn law_item_without_name_is_left_out(
    lead: Seq<char>,
    item: Seq<char>,
    trail: Seq<char>,
)
    requires
        is_blank(lead),
        is_blank(trail),
        is_trimmed(item),
        item.len() == 0 || (item[0] == '@' && !is_scoped(item)),
    ensures
        package_name(lead + item + trail).len() == 0,
{
    law_trimming_takes_white_space_off(lead, item, trail);
    assert(item.skip(0) == item);
    let empty = Seq::<char>::empty();
    if item.len() > 0 {
        assert(item == empty + seq!['@'] + item.skip(1));
        law_index_counts_what_stands_before(empty, '@', '@', '@', item.skip(1));
    } else {
        law_index_counts_what_stands_before(item, '@', '@', '@', empty);
    }
    assert(item.take(0) == empty);
    law_trimming_takes_white_space_off(empty, empty, empty);
    assert(empty + empty + empty == empty);
}

/// A list of packages and versions, as pnpm writes it.
pub open spec fn list_text(packages: Seq<(Seq<char>, Seq<char>)>) -> Seq<char>
    decreases packages.len(),
{
    if packages.len() == 0 {
        Seq::empty()
    } else {
        let (name, version) = packages.last();
        let front = list_text(packages.drop_last());
        let comma = if packages.len() > 1 {
            seq![',']
        } else {
            Seq::empty()
        };
        front + comma + seq![' '] + name + seq!['@'] + version
    }
}

/// The names of packages.
pub open spec fn names_of(packages: Seq<(Seq<char>, Seq<char>)>) -> Seq<Seq<char>> {
    packages.map_values(|p: (Seq<char>, Seq<char>)| p.0)
}

/// Whether packages and versions can stand in a list.
pub open spec fn can_be_listed(packages: Seq<(Seq<char>, Seq<char>)>) -> bool {
    forall|i: int|
        #![trigger packages[i]]
        0 <= i < packages.len() ==> {
            let (name, version) = packages[i];
            &&& is_package_name(name)
            &&& is_trimmed(version)
            &&& !name.contains(',') && !name.contains(' ')
            &&& !version.contains(',') && !version.contains(' ')
        }
}

/// A list of packages is read whole, however long it is: each name once for each
/// time that it is listed, and in order.
pub proof fn law_list_is_read_back(packages: Seq<(Seq<char>, Seq<char>)>)
    requires
        can_be_listed(packages),
    ensures
        listed_names(list_text(packages)) == names_of(packages),
    decreases packages.len(),
{
    let empty = Seq::<char>::empty();
    law_item_without_name_is_left_out(empty, empty, empty);
    assert(empty + empty + empty == empty);
    law_list_is_read_item_by_item(empty, ',', empty, empty);
    assert(listed_names(empty) == Seq::<Seq<char>>::empty());
    if packages.len() == 0 {
        assert(names_of(packages) == Seq::<Seq<char>>::empty());
    } else {
        let front = packages.drop_last();
        let (name, version) = packages[packages.len() - 1];
        assert forall|i: int| #![trigger front[i]] 0 <= i < front.len() implies {
            let (n, v) = front[i];
            &&& is_package_name(n)
            &&& is_trimmed(v)
            &&& !n.contains(',') && !n.contains(' ')
            &&& !v.contains(',') && !v.contains(' ')
        } by {
            assert(front[i] == packages[i]);
        }
        law_list_is_read_back(front);
        let item = name + seq!['@'] + version;
        assert forall|i: int| 0 <= i < item.len() implies item[i] != ',' && item[i] != ' ' by {
            if i < name.len() {
                assert(name.contains(name[i]));
            } else if i > name.len() {
                assert(version.contains(version[i - name.len() - 1]));
                assert(item[i] == version[i - name.len() - 1]);
            }
        }
        law_package_stands_before_its_version(empty, name, empty, version, empty);
        assert(empty + name + empty + seq!['@'] + version + empty == item);
        let text = list_text(front);
        law_list_is_read_item_by_item(text, ',', empty, item);
        if packages.len() > 1 {
            law_list_is_read_item_by_item(text + seq![','] + empty, ' ', item, item);
            assert(list_text(packages) == text + seq![','] + empty + seq![' '] + item);
            assert(listed_names(text) + Seq::<Seq<char>>::empty() == listed_names(text));
        } else {
            law_list_is_read_item_by_item(text, ' ', item, item);
            assert(list_text(packages) == text + seq![' '] + item);
        }
        assert(names_of(packages) == names_of(front) + seq![name]);
    }
}

// ---------------------------------------------------------------------------
// Whole outputs
// ---------------------------------------------------------------------------

/// An output asks for what its lines suggest, and after that for the packages that
/// they list as ignored, wherever either stands.
pub proof fn law_hints_come_before_ignored_packages(output: Seq<char>)
    ensures
        requested_keys(output) == hints(text_lines(output)) + ignored(text_lines(output)),
{
}

/// An output that lists ignored packages asks for exactly these, however many.
pub proof fn law_ignored_packages_are_asked_for(
    before: Seq<char>,
    packages: Seq<(Seq<char>, Seq<char>)>,
)
    requires
        can_be_listed(packages),
        ({
            let line = before + "Ignored build scripts:"@ + list_text(packages);
            &&& !line.contains('\n')
            &&& line.last() != '\r'
            &&& forall|i: int| #[trigger]
                stands_at(line, "Ignored build scripts:"@, i) ==> i == before.len()
        }),
    ensures
        ({
            let line = before + "Ignored build scripts:"@ + list_text(packages);
            &&& requested_keys(line) == names_of(packages)
            &&& requested_keys(line.push('\n')) == names_of(packages)
        }),
{
    reveal_strlit("Ignored build scripts:");
    let line = before + "Ignored build scripts:"@ + list_text(packages);
    let none = Seq::<Seq<char>>::empty();
    let empty = Seq::<char>::empty();
    law_ignored_list_is_the_rest_of_the_line(before, list_text(packages));
    law_list_is_read_back(packages);
    law_packages_of_a_line_are_those_of_its_list(line);
    law_ignored_packages_come_line_by_line(none, line);
    assert(none.push(line) == seq![line]);
    law_nothing_else_is_a_hint(none, line, line);
    law_lines_stand_between_endings(line, empty);
    assert(line + seq!['\n'] + empty == line.push('\n'));
    assert(text_lines(line) == seq![line]);
    assert(text_lines(line.push('\n')) == seq![line]);
    assert(none + names_of(packages) == names_of(packages));
}

/// An output that ends with a hint asks for its key, after the hints above it.
pub proof fn law_hint_at_the_end_is_asked_for(earlier: Seq<char>, key: Seq<char>)
    requires
        earlier.len() == 0 || earlier.last() == '\n',
        key.len() > 0,
        is_trimmed(key),
        !key.contains('\n'),
        forall|i: int| !#[trigger]
            stands_at("  "@ + key + ": true"@, "Ignored build scripts:"@, i),
    ensures
        requested_keys(earlier + "allowBuilds:\n  "@ + key + ": true\n"@) == hints(
            text_lines(earlier),
        ).push(key) + ignored(text_lines(earlier)),
{
    reveal_strlit("allowBuilds:\n  ");
    reveal_strlit("allowBuilds:");
    reveal_strlit("  ");
    reveal_strlit(": true");
    reveal_strlit(": true\n");
    reveal_strlit("Ignored build scripts:");
    let mark = "Ignored build scripts:"@;
    let x = "allowBuilds:"@;
    let y = "  "@ + key + ": true"@;
    let output = earlier + "allowBuilds:\n  "@ + key + ": true\n"@;
    let lines = text_lines(earlier);
    let empty = Seq::<char>::empty();
    let hint = x.push('\n') + y.push('\n');
    assert(output == earlier + hint);
    assert(!x.contains('\n'));
    assert forall|i: int| 0 <= i < y.len() implies y[i] != '\n' by {
        if 2 <= i < 2 + key.len() {
            assert(key.contains(key[i - 2]));
            assert(y[i] == key[i - 2]);
        } else if i >= 2 + key.len() {
            assert(y[i] == ": true"@[i - 2 - key.len()]);
        }
    }
    assert(y.last() == 'e');
    lemma_one_line(x);
    lemma_one_line(y);
    lemma_lines_append(x.push('\n'), y.push('\n'));
    lemma_lines_append(earlier, hint);
    let above = lines.push(x);
    let all = above.push(y);
    assert(text_lines(output) == all);
    let indent = "  "@;
    assert(is_blank(indent));
    law_hint_is_taken(lines, empty, empty, indent, key, empty);
    assert(empty + x + empty == x);
    assert(indent + key + empty + ": true"@ == y);
    assert(allow_line_key(x) is None);
    if lines.len() > 0 {
        law_nothing_else_is_a_hint(lines.drop_last(), lines.last(), x);
        assert(lines.drop_last().push(lines.last()) == lines);
    } else {
        law_nothing_else_is_a_hint(lines, x, x);
        assert(lines == Seq::<Seq<char>>::empty());
        assert(above == seq![x]);
    }
    assert(hints(above) == hints(lines));
    assert forall|i: int| !#[trigger] stands_at(x, mark, i) by {}
    law_no_mark_no_list(x);
    law_no_mark_no_list(y);
    law_ignored_packages_come_line_by_line(lines, x);
    law_ignored_packages_come_line_by_line(above, y);
    let none = Seq::<Seq<char>>::empty();
    assert(ignored(lines) + none + none == ignored(lines));
}

/// Of equal keys the first one stays, and no key is lost.
pub proof fn law_first_of_equal_keys_stays(keys: Seq<Seq<char>>, key: Seq<char>)
    ensures
        distinct(Seq::<Seq<char>>::empty()) == Seq::<Seq<char>>::empty(),
        distinct(keys.push(key)) == if keys.contains(key) {
            distinct(keys)
        } else {
            distinct(keys).push(key)
        },
{
    assert(keys.push(key).drop_last() == keys);
    lemma_distinct_contains(keys, key);
}

proof fn lemma_distinct_contains(keys: Seq<Seq<char>>, key: Seq<char>)
    ensures
        distinct(keys).contains(key) <==> keys.contains(key),
    decreases keys.len(),
{
    if keys.len() > 0 {
        let front = keys.drop_last();
        let kept = distinct(front);
        lemma_distinct_contains(front, key);
        assert(keys == front.push(keys.last()));
        if keys.contains(key) {
            let i = choose|i: int| 0 <= i < keys.len() && keys[i] == key;
            if i < front.len() {
                assert(front[i] == key);
                let j = choose|j: int| 0 <= j < kept.len() && kept[j] == key;
                assert(distinct(keys)[j] == key);
            } else if !kept.contains(key) {
                assert(distinct(keys)[kept.len() as int] == key);
            }
        }
        if distinct(keys).contains(key) {
            let j = choose|j: int| 0 <= j < distinct(keys).len() && distinct(keys)[j] == key;
            if j < kept.len() {
                assert(kept[j] == key);
                let i = choose|i: int| 0 <= i < front.len() && front[i] == key;
                assert(keys[i] == key);
            } else {
                assert(keys[keys.len() - 1] == key);
            }
        }
    }
}

/// Keys that are all different stay as they are.
pub proof fn law_different_keys_all_stay(keys: Seq<Seq<char>>)
    requires
        keys.no_duplicates(),
    ensures
        distinct(keys) == keys,
    decreases keys.len(),
{
    if keys.len() > 0 {
        let front = keys.drop_last();
        law_different_keys_all_stay(front);
        assert(keys == front.push(keys.last()));
        if front.contains(keys.last()) {
            let i = choose|i: int| 0 <= i < front.len() && front[i] == keys.last();
            assert(keys[i] == keys[keys.len() - 1]);
        }
    } else {
        assert(keys == Seq::<Seq<char>>::empty());
    }
}

} // verus!
