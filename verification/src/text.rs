//! Text primitives. A string is modelled by the sequence of its characters;
//! parts of a string are slices of characters, so that cutting copies nothing.

use vstd::prelude::*;
use vstd::slice::slice_subrange;

verus! {

/// `String::push` appends one character at the end of the string.
pub assume_specification[ String::push ](s: &mut String, c: char)
    ensures
        final(s)@ == old(s)@.push(c),
;

// ---------------------------------------------------------------------------
// Model
// ---------------------------------------------------------------------------

/// The characters with the Unicode property `White_Space`.
pub open spec fn is_white_space(c: char) -> bool {
    let n = c as int;
    ||| 0x09 <= n <= 0x0d
    ||| n == 0x20
    ||| n == 0x85
    ||| n == 0xa0
    ||| n == 0x1680
    ||| 0x2000 <= n <= 0x200a
    ||| n == 0x2028
    ||| n == 0x2029
    ||| n == 0x202f
    ||| n == 0x205f
    ||| n == 0x3000
}

/// `s` without its leading white space.
pub open spec fn trimmed_start(s: Seq<char>) -> Seq<char>
    decreases s.len(),
{
    if s.len() > 0 && is_white_space(s[0]) {
        trimmed_start(s.drop_first())
    } else {
        s
    }
}

/// `s` without its trailing white space.
pub open spec fn trimmed_end(s: Seq<char>) -> Seq<char>
    decreases s.len(),
{
    if s.len() > 0 && is_white_space(s.last()) {
        trimmed_end(s.drop_last())
    } else {
        s
    }
}

/// `s` without the white space on either side.
pub open spec fn trimmed(s: Seq<char>) -> Seq<char> {
    trimmed_end(trimmed_start(s))
}

/// Whether `c` is a quotation mark, single or double.
pub open spec fn is_quote(c: char) -> bool {
    c == '\'' || c == '"'
}

/// `s` without the quotation marks on either side, however many there are.
pub open spec fn unquoted(s: Seq<char>) -> Seq<char>
    decreases s.len(),
{
    if s.len() > 0 && is_quote(s[0]) {
        unquoted(s.drop_first())
    } else if s.len() > 0 && is_quote(s.last()) {
        unquoted(s.drop_last())
    } else {
        s
    }
}

/// Whether `s` ends with `suffix`.
pub open spec fn has_suffix(s: Seq<char>, suffix: Seq<char>) -> bool {
    suffix.len() <= s.len() && s.skip(s.len() - suffix.len()) == suffix
}

/// Whether `s` begins with `prefix`.
pub open spec fn has_prefix(s: Seq<char>, prefix: Seq<char>) -> bool {
    prefix.len() <= s.len() && s.take(prefix.len() as int) == prefix
}

/// How many characters of `s` stand before its first `a` or `b`: all of them
/// where it has neither.
pub open spec fn index_of_either(s: Seq<char>, a: char, b: char) -> nat
    decreases s.len(),
{
    if s.len() == 0 || s[0] == a || s[0] == b {
        0
    } else {
        1 + index_of_either(s.drop_first(), a, b)
    }
}

/// How many characters of `s` stand before its first `c`: all of them where it
/// has none.
pub open spec fn index_of(s: Seq<char>, c: char) -> nat {
    index_of_either(s, c, c)
}

/// The parts between the separators `a` and `b` of `s`, empty ones included:
/// one part more than there are separators.
pub open spec fn pieces(s: Seq<char>, a: char, b: char) -> Seq<Seq<char>>
    decreases s.len(),
{
    let i = index_of_either(s, a, b) as int;
    if i < s.len() {
        seq![s.take(i)] + pieces(s.skip(i + 1), a, b)
    } else {
        seq![s]
    }
}

/// The text of a line that stood before a line feed: a carriage return before
/// the line feed belongs to the line ending.
pub open spec fn without_carriage_return(line: Seq<char>) -> Seq<char> {
    if line.len() > 0 && line.last() == '\r' {
        line.drop_last()
    } else {
        line
    }
}

/// The lines of `s`. A line ends with a line feed or with a carriage return and
/// a line feed, which do not belong to it; the last line may go without.
pub open spec fn text_lines(s: Seq<char>) -> Seq<Seq<char>>
    decreases s.len(),
{
    let i = index_of(s, '\n') as int;
    if s.len() == 0 {
        Seq::empty()
    } else if i < s.len() {
        seq![without_carriage_return(s.take(i))] + text_lines(s.skip(i + 1))
    } else {
        seq![s]
    }
}

/// The place where `pattern` first occurs in `s`.
pub open spec fn first_occurrence(s: Seq<char>, pattern: Seq<char>) -> Option<nat>
    decreases s.len(),
{
    if has_prefix(s, pattern) {
        Some(0)
    } else if s.len() == 0 {
        None
    } else {
        match first_occurrence(s.drop_first(), pattern) {
            Some(i) => Some(i + 1),
            None => None,
        }
    }
}

/// `s` with every `from` replaced by `to`.
pub open spec fn replaced(s: Seq<char>, from: char, to: Seq<char>) -> Seq<char>
    decreases s.len(),
{
    if s.len() == 0 {
        Seq::empty()
    } else if s.last() == from {
        replaced(s.drop_last(), from, to) + to
    } else {
        replaced(s.drop_last(), from, to).push(s.last())
    }
}

/// `s` with every two single quotation marks in a row taken as one.
pub open spec fn undoubled(s: Seq<char>) -> Seq<char>
    decreases s.len(),
{
    if s.len() == 0 {
        Seq::empty()
    } else if s.len() >= 2 && s[0] == '\'' && s[1] == '\'' {
        seq!['\''] + undoubled(s.skip(2))
    } else {
        seq![s[0]] + undoubled(s.drop_first())
    }
}

/// How many characters the first `n` lines of `s` take, line endings included:
/// all of them where there are fewer lines.
pub open spec fn lines_len(s: Seq<char>, n: int) -> nat
    decreases s.len(),
{
    let i = index_of(s, '\n') as int;
    if n <= 0 || s.len() == 0 {
        0
    } else if i < s.len() {
        (i + 1 + lines_len(s.skip(i + 1), n - 1)) as nat
    } else {
        s.len()
    }
}

/// What a sequence of slices holds.
pub open spec fn slice_views(v: Seq<&[char]>) -> Seq<Seq<char>> {
    v.map_values(|s: &[char]| s@)
}

/// What a sequence of strings holds.
pub open spec fn string_views(v: Seq<String>) -> Seq<Seq<char>> {
    v.map_values(|s: String| s@)
}

// ---------------------------------------------------------------------------
// Strings and characters
// ---------------------------------------------------------------------------

/// The characters of `s`, in order.
pub fn chars_of(s: &str) -> (chars: Vec<char>)
    ensures
        chars@ == s@,
{
    let mut chars: Vec<char> = Vec::new();
    for c in it: s.chars()
        invariant
            it.seq() == s@,
            chars@ == s@.take(it.index()),
    {
        chars.push(c);
    }
    chars
}

/// Writes `chars` at the end of `out`.
pub fn push_chars(out: &mut String, chars: &[char])
    ensures
        final(out)@ == old(out)@ + chars@,
{
    let ghost start = out@;
    for i in 0..chars.len()
        invariant
            out@ == start + chars@.take(i as int),
    {
        out.push(chars[i]);
    }
    assert(chars@.take(chars@.len() as int) == chars@);
}

/// The string that holds exactly `chars`.
pub fn string_of(chars: &[char]) -> (s: String)
    ensures
        s@ == chars@,
{
    let mut s = String::new();
    push_chars(&mut s, chars);
    s
}

/// Whether `c` is white space.
pub fn is_whitespace(c: char) -> (yes: bool)
    ensures
        yes == is_white_space(c),
{
    let n: u32 = c as u32;
    (0x09 <= n && n <= 0x0d) || n == 0x20 || n == 0x85 || n == 0xa0 || n == 0x1680 || (0x2000 <= n
        && n <= 0x200a) || n == 0x2028 || n == 0x2029 || n == 0x202f || n == 0x205f || n == 0x3000
}

/// Whether two slices hold the same characters.
pub fn same_chars(a: &[char], b: &[char]) -> (same: bool)
    ensures
        same == (a@ == b@),
{
    if a.len() != b.len() {
        return false;
    }
    for i in 0..a.len()
        invariant
            a@.len() == b@.len(),
            a@.take(i as int) == b@.take(i as int),
    {
        if a[i] != b[i] {
            assert(a@[i as int] != b@[i as int]);
            return false;
        }
        assert(a@.take(i + 1) == a@.take(i as int).push(a@[i as int]));
        assert(b@.take(i + 1) == b@.take(i as int).push(b@[i as int]));
    }
    assert(a@.take(a@.len() as int) == a@);
    assert(b@.take(b@.len() as int) == b@);
    true
}

/// Whether `list` holds `s`.
pub fn holds(list: &Vec<&[char]>, s: &[char]) -> (yes: bool)
    ensures
        yes == slice_views(list@).contains(s@),
{
    let ghost views = slice_views(list@);
    for i in 0..list.len()
        invariant
            views == slice_views(list@),
            forall|j: int| 0 <= j < i ==> views[j] != s@,
    {
        assert(views[i as int] == list@[i as int]@);
        if same_chars(list[i], s) {
            return true;
        }
    }
    false
}

/// Whether `list` holds `s`.
pub fn holds_string(list: &Vec<String>, s: &String) -> (yes: bool)
    ensures
        yes == string_views(list@).contains(s@),
{
    let ghost views = string_views(list@);
    for i in 0..list.len()
        invariant
            views == string_views(list@),
            forall|j: int| 0 <= j < i ==> views[j] != s@,
    {
        assert(views[i as int] == list@[i as int]@);
        if list[i] == *s {
            return true;
        }
    }
    false
}

/// Cuts `s` at `at`: the first `at` characters and the rest.
fn cut(s: &[char], at: usize) -> (parts: (&[char], &[char]))
    requires
        at <= s@.len(),
    ensures
        parts.0@ == s@.take(at as int),
        parts.1@ == s@.skip(at as int),
{
    (slice_subrange(s, 0, at), slice_subrange(s, at, s.len()))
}

// ---------------------------------------------------------------------------
// Trimming
// ---------------------------------------------------------------------------

/// Cuts off leading white space.
pub fn trim_start(s: &[char]) -> (t: &[char])
    ensures
        t@ == trimmed_start(s@),
{
    let mut i: usize = 0;
    assert(s@.skip(0) == s@);
    while i < s.len() && is_whitespace(s[i])
        invariant
            i <= s@.len(),
            trimmed_start(s@.skip(i as int)) == trimmed_start(s@),
        decreases s@.len() - i,
    {
        assert(s@.skip(i as int).drop_first() == s@.skip(i + 1));
        i += 1;
    }
    cut(s, i).1
}

/// Cuts off trailing white space.
pub fn trim_end(s: &[char]) -> (t: &[char])
    ensures
        t@ == trimmed_end(s@),
{
    let mut n: usize = s.len();
    assert(s@.take(n as int) == s@);
    while n > 0 && is_whitespace(s[n - 1])
        invariant
            n <= s@.len(),
            trimmed_end(s@.take(n as int)) == trimmed_end(s@),
        decreases n,
    {
        assert(s@.take(n as int).drop_last() == s@.take(n - 1));
        n -= 1;
    }
    cut(s, n).0
}

/// Cuts off the white space on either side.
pub fn trim(s: &[char]) -> (t: &[char])
    ensures
        t@ == trimmed(s@),
{
    trim_end(trim_start(s))
}

/// Cuts off the quotation marks on either side.
pub fn trim_quotes(s: &[char]) -> (t: &[char])
    ensures
        t@ == unquoted(s@),
{
    let mut i: usize = 0;
    let mut n: usize = s.len();
    assert(s@.subrange(0, n as int) == s@);
    loop
        invariant_except_break
            i <= n <= s@.len(),
            unquoted(s@.subrange(i as int, n as int)) == unquoted(s@),
        ensures
            i <= n <= s@.len(),
            s@.subrange(i as int, n as int) == unquoted(s@),
        decreases n - i,
    {
        let ghost rest = s@.subrange(i as int, n as int);
        if i < n && (s[i] == '\'' || s[i] == '"') {
            assert(rest.drop_first() == s@.subrange(i + 1, n as int));
            i += 1;
        } else if i < n && (s[n - 1] == '\'' || s[n - 1] == '"') {
            assert(rest.drop_last() == s@.subrange(i as int, n - 1));
            n -= 1;
        } else {
            break;
        }
    }
    slice_subrange(s, i, n)
}

// ---------------------------------------------------------------------------
// Searching and splitting
// ---------------------------------------------------------------------------

/// Whether `s` begins with `prefix`.
pub fn starts_with(s: &[char], prefix: &[char]) -> (yes: bool)
    ensures
        yes == has_prefix(s@, prefix@),
{
    if prefix.len() > s.len() {
        return false;
    }
    same_chars(cut(s, prefix.len()).0, prefix)
}

/// What stands before `suffix`, where `s` ends with it.
pub fn strip_suffix<'a>(s: &'a [char], suffix: &[char]) -> (rest: Option<&'a [char]>)
    ensures
        rest is Some <==> has_suffix(s@, suffix@),
        rest matches Some(r) ==> r@ == s@.take(s@.len() - suffix@.len()),
{
    if suffix.len() > s.len() {
        return None;
    }
    let parts = cut(s, s.len() - suffix.len());
    if same_chars(parts.1, suffix) {
        Some(parts.0)
    } else {
        None
    }
}

/// How many characters stand before the first `a` or `b`.
pub fn position_of_either(s: &[char], a: char, b: char) -> (i: usize)
    ensures
        i == index_of_either(s@, a, b),
        i <= s@.len(),
{
    let mut i: usize = 0;
    assert(s@.skip(0) == s@);
    while i < s.len() && s[i] != a && s[i] != b
        invariant
            i <= s@.len(),
            i + index_of_either(s@.skip(i as int), a, b) == index_of_either(s@, a, b),
        decreases s@.len() - i,
    {
        assert(s@.skip(i as int).drop_first() == s@.skip(i + 1));
        i += 1;
    }
    i
}

/// The part of `s` before its first `c`: all of `s` where it has none.
pub fn before(s: &[char], c: char) -> (part: &[char])
    ensures
        part@ == s@.take(index_of(s@, c) as int),
{
    let i: usize = position_of_either(s, c, c);
    cut(s, i).0
}

/// Splits `s` at every `a` and every `b`.
pub fn split_at_either(s: &[char], a: char, b: char) -> (parts: Vec<&[char]>)
    ensures
        slice_views(parts@) == pieces(s@, a, b),
{
    let mut parts: Vec<&[char]> = Vec::new();
    let mut rest: &[char] = s;
    assert(slice_views(parts@) + pieces(rest@, a, b) == pieces(s@, a, b));
    loop
        invariant
            slice_views(parts@) + pieces(rest@, a, b) == pieces(s@, a, b),
        decreases rest@.len(),
    {
        let ghost done = slice_views(parts@);
        let i: usize = position_of_either(rest, a, b);
        if i == rest.len() {
            parts.push(rest);
            assert(slice_views(parts@) == done + seq![rest@]);
            return parts;
        }
        let part = cut(rest, i).0;
        let tail = cut(rest, i + 1).1;
        parts.push(part);
        assert(slice_views(parts@) == done + seq![part@]);
        assert(slice_views(parts@) + pieces(tail@, a, b) == done + (seq![part@] + pieces(
            tail@,
            a,
            b,
        )));
        rest = tail;
    }
}

/// Splits `s` into its lines.
pub fn lines(s: &[char]) -> (found: Vec<&[char]>)
    ensures
        slice_views(found@) == text_lines(s@),
{
    let mut found: Vec<&[char]> = Vec::new();
    let mut rest: &[char] = s;
    assert(slice_views(found@) + text_lines(rest@) == text_lines(s@));
    while rest.len() > 0
        invariant
            slice_views(found@) + text_lines(rest@) == text_lines(s@),
        decreases rest@.len(),
    {
        let ghost done = slice_views(found@);
        let ghost whole = rest@;
        let i: usize = position_of_either(rest, '\n', '\n');
        if i == rest.len() {
            found.push(rest);
            assert(slice_views(found@) == done + seq![rest@]);
            return found;
        }
        let mut line = cut(rest, i).0;
        let tail = cut(rest, i + 1).1;
        if i > 0 && line[i - 1] == '\r' {
            line = cut(line, i - 1).0;
            assert(line@ == whole.take(i as int).drop_last());
        }
        assert(line@ == without_carriage_return(whole.take(i as int)));
        found.push(line);
        assert(slice_views(found@) == done + seq![line@]);
        assert(slice_views(found@) + text_lines(tail@) == done + (seq![line@] + text_lines(tail@)));
        rest = tail;
    }
    found
}

/// Cuts `s` after its first `n` lines.
pub fn cut_after_lines(s: &[char], n: usize) -> (parts: (&[char], &[char]))
    ensures
        lines_len(s@, n as int) <= s@.len(),
        parts.0@ == s@.take(lines_len(s@, n as int) as int),
        parts.1@ == s@.skip(lines_len(s@, n as int) as int),
{
    let mut at: usize = 0;
    let mut left: usize = n;
    assert(s@.skip(0) == s@);
    while left > 0 && at < s.len()
        invariant
            at <= s@.len(),
            left <= n,
            at + lines_len(s@.skip(at as int), left as int) == lines_len(s@, n as int),
        decreases left,
    {
        let rest = cut(s, at).1;
        let i: usize = position_of_either(rest, '\n', '\n');
        if i < rest.len() {
            assert(rest@.skip(i + 1) == s@.skip(at + i + 1));
            at = at + i + 1;
        } else {
            at = s.len();
            assert(s@.skip(at as int).len() == 0);
        }
        left -= 1;
    }
    cut(s, at)
}

/// Writes `s` at the end of `out`, with every two single quotation marks in a
/// row taken as one.
pub fn push_undoubled(out: &mut String, s: &[char])
    ensures
        final(out)@ == old(out)@ + undoubled(s@),
{
    let ghost start = out@;
    let mut i: usize = 0;
    assert(s@.skip(0) == s@);
    while i < s.len()
        invariant
            i <= s@.len(),
            out@ + undoubled(s@.skip(i as int)) == start + undoubled(s@),
        decreases s@.len() - i,
    {
        let ghost done = out@;
        let ghost rest = s@.skip(i as int);
        if s.len() - i >= 2 && s[i] == '\'' && s[i + 1] == '\'' {
            out.push('\'');
            assert(rest.skip(2) == s@.skip(i + 2));
            assert(out@ + undoubled(rest.skip(2)) == done + undoubled(rest));
            i += 2;
        } else {
            out.push(s[i]);
            assert(rest.drop_first() == s@.skip(i + 1));
            assert(out@ + undoubled(rest.drop_first()) == done + undoubled(rest));
            i += 1;
        }
    }
    assert(undoubled(s@.skip(i as int)) == Seq::<char>::empty());
}

/// Finds the first occurrence of `pattern`.
pub fn find(s: &[char], pattern: &[char]) -> (at: Option<usize>)
    ensures
        match first_occurrence(s@, pattern@) {
            Some(n) => at matches Some(i) && i == n && i + pattern@.len() <= s@.len(),
            None => at is None,
        },
{
    let mut i: usize = 0;
    assert(s@.skip(0) == s@);
    loop
        invariant
            i <= s@.len(),
            first_occurrence(s@, pattern@) == match first_occurrence(s@.skip(i as int), pattern@) {
                Some(n) => Some(n + i as nat),
                None => None,
            },
        decreases s@.len() - i,
    {
        if starts_with(cut(s, i).1, pattern) {
            return Some(i);
        }
        if i == s.len() {
            return None;
        }
        assert(s@.skip(i as int).drop_first() == s@.skip(i + 1));
        i += 1;
    }
}

/// Writes `s` at the end of `out`, with `to` in place of every `from`.
pub fn push_replaced(out: &mut String, s: &[char], from: char, to: &str)
    ensures
        final(out)@ == old(out)@ + replaced(s@, from, to@),
{
    let ghost start = out@;
    for i in 0..s.len()
        invariant
            out@ == start + replaced(s@.take(i as int), from, to@),
    {
        assert(s@.take(i + 1).drop_last() == s@.take(i as int));
        if s[i] == from {
            out.append(to);
        } else {
            out.push(s[i]);
        }
    }
    assert(s@.take(s@.len() as int) == s@);
}

} // verus!
