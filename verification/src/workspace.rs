//! The `allowBuilds` block of `pnpm-workspace.yaml`.
//!
//! The block is a line `allowBuilds:` and the indented lines below it, one entry
//! `<key>: true` to a line. New entries go to the end of the block: to the end of
//! the file where nothing else follows, and otherwise below the last indented
//! line before what follows.

use crate::allow_builds::is_indented;
use crate::text::{
    chars_of, cut_after_lines, has_prefix, has_suffix, holds_string, lines, lines_len, push_chars,
    push_replaced, push_undoubled, replaced, slice_views, starts_with, string_of, string_views,
    strip_suffix, text_lines, trim, trim_quotes, trim_start, trimmed, trimmed_start, undoubled,
    unquoted,
};
use vstd::prelude::*;
use vstd::slice::slice_subrange;

verus! {

/// The name of the file in the profile directory.
pub const WORKSPACE_FILE: &'static str = "pnpm-workspace.yaml";

/// What a new file holds: the settings that every profile starts with.
pub const WORKSPACE_TEMPLATE: &'static str =
    "packages:\n  - .\n\nnodeLinker: hoisted\nautoInstallPeers: false\n";

/// What the file holds now: a missing file counts as one with the template.
pub open spec fn current_text(file: Option<&str>) -> Seq<char> {
    match file {
        Some(text) => text@,
        None => WORKSPACE_TEMPLATE@,
    }
}

/// `content` with a line feed at its end, added where it breaks off without one.
pub open spec fn completed(content: Seq<char>) -> Seq<char> {
    if content.len() > 0 && content.last() == '\n' {
        content
    } else {
        content.push('\n')
    }
}

/// The lines of the file, the last one taken as complete.
pub open spec fn file_lines(content: Seq<char>) -> Seq<Seq<char>> {
    text_lines(completed(content))
}

// ---------------------------------------------------------------------------
// The block
// ---------------------------------------------------------------------------

/// Whether `line` opens an `allowBuilds` block: at the top level, or with
/// `nested` behind any indentation.
pub open spec fn opens_block(line: Seq<char>, nested: bool) -> bool {
    has_prefix(
        if nested {
            trimmed_start(line)
        } else {
            line
        },
        "allowBuilds:"@,
    )
}

/// The first line that opens a block.
pub open spec fn first_opening(lines: Seq<Seq<char>>, nested: bool) -> Option<nat>
    decreases lines.len(),
{
    if lines.len() == 0 {
        None
    } else if opens_block(lines[0], nested) {
        Some(0)
    } else {
        match first_opening(lines.drop_first(), nested) {
            Some(i) => Some(i + 1),
            None => None,
        }
    }
}

/// The line that opens the block: the first one at the top level, or where there
/// is none there, the first one behind indentation.
pub open spec fn block_start(lines: Seq<Seq<char>>) -> Option<nat> {
    match first_opening(lines, false) {
        Some(i) => Some(i),
        None => first_opening(lines, true),
    }
}

/// Whether `line` has indented text.
pub open spec fn is_nested(line: Seq<char>) -> bool {
    is_indented(line) && trimmed_start(line).len() > 0
}

/// Whether `line` ends the block above it: text that is not indented does, unless
/// it is a comment.
pub open spec fn ends_block(line: Seq<char>) -> bool {
    !is_indented(line) && line.len() > 0 && line[0] != '#'
}

/// Whether the block goes on to the end of the file.
pub open spec fn is_last_block(below: Seq<Seq<char>>) -> bool {
    forall|i: int| 0 <= i < below.len() ==> !ends_block(#[trigger] below[i])
}

/// How many of the lines below the opening one there are up to the last one with
/// indented text before the block ends.
pub open spec fn nested_size(below: Seq<Seq<char>>) -> nat
    decreases below.len(),
{
    if below.len() == 0 || ends_block(below[0]) {
        0
    } else {
        let rest = nested_size(below.drop_first());
        if rest > 0 || is_nested(below[0]) {
            rest + 1
        } else {
            0
        }
    }
}

/// How many of the lines below the opening one belong to the block: all of them
/// where nothing ends it, and otherwise those up to the last one with indented
/// text. Blank lines and comments behind that belong to what follows the block.
pub open spec fn block_size(below: Seq<Seq<char>>) -> nat {
    if is_last_block(below) {
        below.len()
    } else {
        nested_size(below)
    }
}

/// How many lines there are up to the end of the block whose opening line has
/// number `start`.
pub open spec fn block_end(lines: Seq<Seq<char>>, start: nat) -> nat {
    start + 1 + block_size(lines.skip(start as int + 1))
}

// ---------------------------------------------------------------------------
// Entries
// ---------------------------------------------------------------------------

/// The key that a YAML scalar spells: between single quotation marks a doubled
/// one stands for one; between double ones, and without any, the key stands as
/// it is. Quotation marks that are not in pairs are no part of the key.
pub open spec fn scalar_key(scalar: Seq<char>) -> Option<Seq<char>> {
    let n = scalar.len() as int;
    if n >= 2 && scalar[0] == '\'' && scalar[n - 1] == '\'' {
        Some(undoubled(scalar.subrange(1, n - 1)))
    } else if n >= 2 && scalar[0] == '"' && scalar[n - 1] == '"' {
        Some(scalar.subrange(1, n - 1))
    } else if unquoted(scalar).len() > 0 {
        Some(unquoted(scalar))
    } else {
        None
    }
}

/// The key of an entry: an indented line `<key>: true`, with or without
/// quotation marks around the key.
pub open spec fn entry_key(line: Seq<char>) -> Option<Seq<char>> {
    let entry = trimmed(line);
    if is_indented(line) && has_suffix(entry, ": true"@) {
        scalar_key(trimmed(entry.take(entry.len() - ": true"@.len())))
    } else {
        None
    }
}

/// The keys of the entries among the first `n` lines.
pub open spec fn entry_keys(lines: Seq<Seq<char>>, n: int) -> Seq<Seq<char>>
    decreases n,
{
    if n <= 0 {
        Seq::empty()
    } else {
        match entry_key(lines[n - 1]) {
            Some(key) => entry_keys(lines, n - 1).push(key),
            None => entry_keys(lines, n - 1),
        }
    }
}

/// The keys of the entries in the block whose opening line has number `start`.
pub open spec fn block_keys(lines: Seq<Seq<char>>, start: nat) -> Seq<Seq<char>> {
    let below = lines.skip(start as int + 1);
    entry_keys(below, block_size(below) as int)
}

/// The keys that the file lists in its block.
pub open spec fn listed_keys(content: Seq<char>) -> Seq<Seq<char>> {
    match block_start(file_lines(content)) {
        Some(start) => block_keys(file_lines(content), start),
        None => Seq::empty(),
    }
}

/// The line that is written for `key`: the key is a single-quoted YAML scalar,
/// in which a quotation mark is doubled.
pub open spec fn entry_line(key: Seq<char>) -> Seq<char> {
    "  '"@ + replaced(key, '\'', "''"@) + "': true"@
}

/// The lines that are written for `keys`, with their line feeds.
pub open spec fn entries_text(keys: Seq<Seq<char>>) -> Seq<char>
    decreases keys.len(),
{
    if keys.len() == 0 {
        Seq::empty()
    } else {
        entries_text(keys.drop_last()) + entry_line(keys.last()).push('\n')
    }
}

// ---------------------------------------------------------------------------
// Merging
// ---------------------------------------------------------------------------

/// Those of the first `n` keys that are not in `listed`, each once.
pub open spec fn missing_keys(
    listed: Seq<Seq<char>>,
    keys: Seq<Seq<char>>,
    n: int,
) -> Seq<Seq<char>>
    decreases n,
{
    if n <= 0 {
        Seq::empty()
    } else {
        let missing = missing_keys(listed, keys, n - 1);
        if listed.contains(keys[n - 1]) || missing.contains(keys[n - 1]) {
            missing
        } else {
            missing.push(keys[n - 1])
        }
    }
}

/// Those of `keys` that the file does not list, each once.
pub open spec fn new_keys(content: Seq<char>, keys: Seq<Seq<char>>) -> Seq<Seq<char>> {
    missing_keys(listed_keys(content), keys, keys.len() as int)
}

/// The file after `keys` have been merged in: new entries follow the last line of
/// the block, and where there is no block, one is opened at the end. A file to
/// which nothing is added stays as it is.
pub open spec fn merged(content: Seq<char>, keys: Seq<Seq<char>>) -> Seq<char> {
    let new = new_keys(content, keys);
    let text = completed(content);
    if new.len() == 0 {
        content
    } else {
        match block_start(text_lines(text)) {
            Some(start) => {
                let at = lines_len(text, block_end(text_lines(text), start) as int) as int;
                text.take(at) + entries_text(new) + text.skip(at)
            },
            None => text + "allowBuilds:\n"@ + entries_text(new),
        }
    }
}

/// Whether all of `keys` are in the file already, so that nothing is written.
pub open spec fn nothing_to_add(content: Seq<char>, keys: Seq<Seq<char>>) -> bool {
    forall|i: int| 0 <= i < keys.len() ==> listed_keys(content).contains(#[trigger] keys[i])
}

/// The first line that opens a block.
fn first_opening_of(lines: &Vec<&[char]>, nested: bool) -> (start: Option<usize>)
    ensures
        match first_opening(slice_views(lines@), nested) {
            Some(n) => start matches Some(i) && i == n && i < lines@.len(),
            None => start is None,
        },
{
    let mark = chars_of("allowBuilds:");
    let ghost views = slice_views(lines@);
    assert(views.skip(0) == views);
    for i in 0..lines.len()
        invariant
            views == slice_views(lines@),
            mark@ == "allowBuilds:"@,
            first_opening(views, nested) == match first_opening(views.skip(i as int), nested) {
                Some(n) => Some(n + i as nat),
                None => None,
            },
    {
        assert(views[i as int] == lines@[i as int]@);
        let line = if nested {
            trim_start(lines[i])
        } else {
            lines[i]
        };
        if starts_with(line, &mark) {
            return Some(i);
        }
        assert(views.skip(i as int).drop_first() == views.skip(i + 1));
    }
    None
}

/// The line that opens the block.
fn block_start_of(lines: &Vec<&[char]>) -> (start: Option<usize>)
    ensures
        match block_start(slice_views(lines@)) {
            Some(n) => start matches Some(i) && i == n && i < lines@.len(),
            None => start is None,
        },
{
    match first_opening_of(lines, false) {
        Some(i) => Some(i),
        None => first_opening_of(lines, true),
    }
}

/// How many lines there are up to the end of the block.
fn block_end_of(lines: &Vec<&[char]>, start: usize) -> (end: usize)
    requires
        start < lines@.len(),
    ensures
        end == block_end(slice_views(lines@), start as nat),
        start < end <= lines@.len(),
{
    let ghost views = slice_views(lines@);
    let ghost below = views.skip(start + 1);
    let total: usize = lines.len();
    let mut end: usize = start + 1;
    let mut i: usize = start + 1;
    while i < total
        invariant
            views == slice_views(lines@),
            below == views.skip(start + 1),
            forall|j: int| 0 <= j < i - start - 1 ==> !ends_block(#[trigger] below[j]),
            total == lines@.len(),
            start < end <= i <= lines@.len(),
            ({
                let rest = nested_size(views.skip(i as int));
                start + 1 + nested_size(below) == if rest > 0 {
                    i + rest
                } else {
                    end as int
                }
            }),
        decreases lines@.len() - i,
    {
        let line = lines[i];
        assert(views.skip(i as int)[0] == line@);
        assert(below[i - start - 1] == line@);
        assert(views.skip(i as int).drop_first() == views.skip(i + 1));
        let text = trim_start(line);
        let indented: bool = text.len() != line.len();
        if !indented && line.len() > 0 && line[0] != '#' {
            return end;
        }
        i += 1;
        if indented && text.len() > 0 {
            end = i;
        }
    }
    total
}

/// The key that a YAML scalar spells.
fn scalar_key_of(scalar: &[char]) -> (key: Option<String>)
    ensures
        match scalar_key(scalar@) {
            Some(k) => key matches Some(s) && s@ == k,
            None => key is None,
        },
{
    let n: usize = scalar.len();
    if n >= 2 && scalar[0] == '\'' && scalar[n - 1] == '\'' {
        let mut key = String::new();
        push_undoubled(&mut key, slice_subrange(scalar, 1, n - 1));
        Some(key)
    } else if n >= 2 && scalar[0] == '"' && scalar[n - 1] == '"' {
        Some(string_of(slice_subrange(scalar, 1, n - 1)))
    } else {
        let key = trim_quotes(scalar);
        if key.len() > 0 {
            Some(string_of(key))
        } else {
            None
        }
    }
}

/// The key of an entry.
fn entry_key_of(line: &[char]) -> (key: Option<String>)
    ensures
        match entry_key(line@) {
            Some(k) => key matches Some(s) && s@ == k,
            None => key is None,
        },
{
    if trim_start(line).len() == line.len() {
        return None;
    }
    let suffix = chars_of(": true");
    match strip_suffix(trim(line), &suffix) {
        Some(rest) => scalar_key_of(trim(rest)),
        None => None,
    }
}

/// The keys of the entries in the block.
fn block_keys_of(lines: &Vec<&[char]>, start: usize, end: usize) -> (keys: Vec<String>)
    requires
        start < end <= lines@.len(),
        end == block_end(slice_views(lines@), start as nat),
    ensures
        string_views(keys@) == block_keys(slice_views(lines@), start as nat),
{
    let ghost below = slice_views(lines@).skip(start + 1);
    let mut keys: Vec<String> = Vec::new();
    let first: usize = start + 1;
    assert(string_views(keys@) == entry_keys(below, 0));
    for i in first..end
        invariant
            first == start + 1,
            end <= lines@.len(),
            below == slice_views(lines@).skip(start + 1),
            string_views(keys@) == entry_keys(below, i - first),
    {
        assert(below[i - first] == lines@[i as int]@);
        let ghost done = string_views(keys@);
        if let Some(key) = entry_key_of(lines[i]) {
            keys.push(key);
            assert(string_views(keys@) == done.push(key@));
        }
    }
    keys
}

/// Those of `keys` that are not in `listed`, each once.
fn missing_keys_of(listed: &Vec<String>, keys: &[String]) -> (missing: Vec<String>)
    ensures
        string_views(missing@) == missing_keys(
            string_views(listed@),
            string_views(keys@),
            keys@.len() as int,
        ),
{
    let ghost known = string_views(listed@);
    let ghost wanted = string_views(keys@);
    let mut missing: Vec<String> = Vec::new();
    assert(string_views(missing@) == missing_keys(known, wanted, 0));
    for i in 0..keys.len()
        invariant
            known == string_views(listed@),
            wanted == string_views(keys@),
            string_views(missing@) == missing_keys(known, wanted, i as int),
    {
        assert(wanted[i as int] == keys@[i as int]@);
        if !holds_string(listed, &keys[i]) && !holds_string(&missing, &keys[i]) {
            let ghost done = string_views(missing@);
            missing.push(keys[i].as_str().to_string());
            assert(string_views(missing@) == done.push(wanted[i as int]));
        }
    }
    missing
}

/// Writes the entries for `keys` at the end of `out`.
fn push_entries(out: &mut String, keys: &Vec<String>)
    ensures
        final(out)@ == old(out)@ + entries_text(string_views(keys@)),
{
    let ghost start = out@;
    let ghost views = string_views(keys@);
    assert(entries_text(views.take(0)) == Seq::<char>::empty());
    for i in 0..keys.len()
        invariant
            views == string_views(keys@),
            out@ == start + entries_text(views.take(i as int)),
    {
        let ghost done = out@;
        let key = chars_of(keys[i].as_str());
        assert(views.take(i + 1).drop_last() == views.take(i as int));
        assert(views.take(i + 1).last() == key@);
        out.append("  '");
        push_replaced(out, &key, '\'', "''");
        out.append("': true");
        out.push('\n');
        assert(out@ == done + entry_line(key@).push('\n'));
        assert(out@ == start + entries_text(views.take(i + 1)));
    }
    assert(views.take(views.len() as int) == views);
}

/// Nothing is missing exactly where everything is listed.
proof fn lemma_missing_none(listed: Seq<Seq<char>>, keys: Seq<Seq<char>>, n: int)
    requires
        0 <= n <= keys.len(),
    ensures
        missing_keys(listed, keys, n).len() == 0 <==> (forall|i: int|
            0 <= i < n ==> listed.contains(#[trigger] keys[i])),
    decreases n,
{
    if n > 0 {
        lemma_missing_none(listed, keys, n - 1);
        if missing_keys(listed, keys, n).len() == 0 {
            assert(listed.contains(keys[n - 1]));
        }
    }
}

/// Merges `keys` into the `allowBuilds` block of `file`, the text of the file or
/// nothing where it does not exist. Returns the text to be written, or nothing
/// where all keys are listed already and the file stays as it is.
pub fn add_allow_build_keys(file: Option<&str>, keys: &[String]) -> (text: Option<String>)
    ensures
        text is None <==> nothing_to_add(current_text(file), string_views(keys@)),
        text matches Some(t) ==> t@ == merged(current_text(file), string_views(keys@)),
{
    let mut content: String = match file {
        Some(text) => text.to_string(),
        None => WORKSPACE_TEMPLATE.to_string(),
    };
    let ghost before = content@;
    let ghost wanted = string_views(keys@);
    let given = chars_of(content.as_str());
    if given.len() == 0 || given[given.len() - 1] != '\n' {
        content.push('\n');
    }
    assert(content@ == completed(before));
    let chars = chars_of(content.as_str());
    let all = lines(&chars);
    proof {
        lemma_missing_none(listed_keys(before), wanted, wanted.len() as int);
    }
    match block_start_of(&all) {
        Some(start) => {
            let end: usize = block_end_of(&all, start);
            let listed = block_keys_of(&all, start, end);
            let new = missing_keys_of(&listed, keys);
            if new.len() == 0 {
                return None;
            }
            let parts = cut_after_lines(&chars, end);
            let mut text = string_of(parts.0);
            push_entries(&mut text, &new);
            push_chars(&mut text, parts.1);
            Some(text)
        },
        None => {
            let listed: Vec<String> = Vec::new();
            assert(string_views(listed@) == Seq::<Seq<char>>::empty());
            let new = missing_keys_of(&listed, keys);
            if new.len() == 0 {
                return None;
            }
            content.append("allowBuilds:\n");
            push_entries(&mut content, &new);
            Some(content)
        },
    }
}

/// What went wrong on the way to the file.
pub enum WorkspaceFailure {
    /// The file has no directory.
    NoProfileDir,
    /// The directory could not be made.
    CreateDir(String),
    /// The file could not be read.
    Read(String),
    /// The file could not be written.
    Write(String),
}

/// What is said of a failure.
pub open spec fn workspace_failure_text(failure: WorkspaceFailure) -> Seq<char> {
    match failure {
        WorkspaceFailure::NoProfileDir => "PREINSTALL_BAD_PROFILE_DIR: no profile dir"@,
        WorkspaceFailure::CreateDir(e) => "PREINSTALL_MKDIR: "@ + e@,
        WorkspaceFailure::Read(e) => "PREINSTALL_READ_WORKSPACE: "@ + e@,
        WorkspaceFailure::Write(e) => "PREINSTALL_WRITE_WORKSPACE: "@ + e@,
    }
}

/// What is said of a failure.
pub fn describe_workspace_failure(failure: WorkspaceFailure) -> (text: String)
    ensures
        text@ == workspace_failure_text(failure),
{
    match failure {
        WorkspaceFailure::NoProfileDir => "PREINSTALL_BAD_PROFILE_DIR: no profile dir".to_string(),
        WorkspaceFailure::CreateDir(e) => "PREINSTALL_MKDIR: ".to_string().concat(e.as_str()),
        WorkspaceFailure::Read(e) => "PREINSTALL_READ_WORKSPACE: ".to_string().concat(e.as_str()),
        WorkspaceFailure::Write(e) => "PREINSTALL_WRITE_WORKSPACE: ".to_string().concat(e.as_str()),
    }
}

} // verus!
