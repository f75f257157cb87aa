//! Character-level helpers shared by the codec: whitespace, scanning for
//! separators, and moving between `&str` and indexable characters.

use vstd::prelude::*;
use vstd::std_specs::iter::IteratorSpec;
use vstd::string::*;

verus! {

/// The characters Unicode marks as `White_Space`, which is what splitting a
/// string on whitespace goes by.
pub open spec fn is_whitespace(c: char) -> bool {
    let u = c as u32;
    ||| 0x09 <= u <= 0x0D
    ||| u == 0x20
    ||| u == 0x85
    ||| u == 0xA0
    ||| u == 0x1680
    ||| 0x2000 <= u <= 0x200A
    ||| u == 0x2028
    ||| u == 0x2029
    ||| u == 0x202F
    ||| u == 0x205F
    ||| u == 0x3000
}

/// Executable test for [`is_whitespace`].
pub fn is_space(c: char) -> (b: bool)
    ensures
        b == is_whitespace(c),
{
    let u: u32 = c as u32;
    (0x09 <= u && u <= 0x0D) || u == 0x20 || u == 0x85 || u == 0xA0 || u == 0x1680 || (0x2000 <= u
        && u <= 0x200A) || u == 0x2028 || u == 0x2029 || u == 0x202F || u == 0x205F || u == 0x3000
}

/// The characters of `s`, in order, as an indexable vector.
pub fn chars_of(s: &str) -> (v: Vec<char>)
    ensures
        v@ == s@,
{
    broadcast use group_string_axioms;

    let mut it = s.chars();
    let mut v: Vec<char> = Vec::new();
    loop
        invariant
            v@ + it.remaining() == s@,
            it.obeys_prophetic_iter_laws(),
            it.decrease() is Some,
        decreases it.decrease()->0,
    {
        let ghost before = it;
        match it.next() {
            Some(c) => {
                assert(v@.push(c) + it.remaining() =~= v@ + before.remaining());
                v.push(c);
            },
            None => {
                assert(it.remaining().len() == 0);
                assert(v@ + it.remaining() =~= v@);
                return v;
            },
        }
    }
}

/// The views of a sequence of string slices.
pub open spec fn views(pieces: Seq<&str>) -> Seq<Seq<char>> {
    Seq::new(pieces.len(), |i: int| pieces[i]@)
}

/// Whether two string slices hold the same characters.
pub fn same_text(a: &str, b: &str) -> (same: bool)
    ensures
        same == (a@ == b@),
{
    let left = a.to_owned();
    let right = b.to_owned();
    left.eq(&right)
}

/// The first index at or after `from` that holds `c`; `s.len()` where there
/// is none.
pub open spec fn find_char(s: Seq<char>, c: char, from: int) -> int
    decreases s.len() - from,
{
    if from < 0 || from >= s.len() {
        s.len() as int
    } else if s[from] == c {
        from
    } else {
        find_char(s, c, from + 1)
    }
}

/// The first index at or after `from` that holds `a` directly followed by
/// `b`; `s.len()` where there is none.
pub open spec fn find_pair(s: Seq<char>, a: char, b: char, from: int) -> int
    decreases s.len() - from,
{
    if from < 0 || from + 1 >= s.len() {
        s.len() as int
    } else if s[from] == a && s[from + 1] == b {
        from
    } else {
        find_pair(s, a, b, from + 1)
    }
}

/// The last index that holds `c`, or -1 where there is none.
pub open spec fn rfind_char(s: Seq<char>, c: char) -> int
    decreases s.len(),
{
    if s.len() == 0 {
        -1
    } else if s.last() == c {
        s.len() - 1
    } else {
        rfind_char(s.drop_last(), c)
    }
}

/// Scans `v` for `c`, starting at `from`.
pub(crate) fn scan_char(v: &Vec<char>, c: char, from: usize) -> (i: usize)
    requires
        from <= v.len(),
    ensures
        i == find_char(v@, c, from as int),
        from <= i <= v.len(),
{
    let mut i: usize = from;
    while i < v.len() && v[i] != c
        invariant
            from <= i <= v.len(),
            find_char(v@, c, from as int) == find_char(v@, c, i as int),
        decreases v.len() - i,
    {
        i = i + 1;
    }
    i
}

/// Scans `v` for `a` directly followed by `b`, starting at `from`.
pub(crate) fn scan_pair(v: &Vec<char>, a: char, b: char, from: usize) -> (i: usize)
    requires
        from <= v.len(),
    ensures
        i == find_pair(v@, a, b, from as int),
        from <= i <= v.len(),
        i < v.len() ==> i + 1 < v.len() && v[i as int] == a && v[i + 1] == b,
{
    let n: usize = v.len();
    let mut i: usize = from;
    while i < n && i + 1 < n && !(v[i] == a && v[i + 1] == b)
        invariant
            n == v.len(),
            from <= i <= n,
            find_pair(v@, a, b, from as int) == find_pair(v@, a, b, i as int),
        decreases n - i,
    {
        i = i + 1;
    }
    if i < n && i + 1 < n {
        i
    } else {
        n
    }
}

/// Scans `v` backwards for `c` within the first `end` characters and returns
/// the index, or `None` where there is none.
pub(crate) fn rscan_char(v: &Vec<char>, c: char, end: usize) -> (found: Option<usize>)
    requires
        end <= v.len(),
    ensures
        match found {
            Some(i) => i < end && i == rfind_char(v@.take(end as int), c),
            None => rfind_char(v@.take(end as int), c) == -1,
        },
{
    let mut i: usize = end;
    while i > 0 && v[i - 1] != c
        invariant
            i <= end <= v.len(),
            rfind_char(v@.take(end as int), c) == rfind_char(v@.take(i as int), c),
        decreases i,
    {
        assert(v@.take(i as int).drop_last() =~= v@.take(i - 1));
        i = i - 1;
    }
    if i > 0 {
        Some(i - 1)
    } else {
        None
    }
}

/// The first index at or after `from` that holds no whitespace; `s.len()`
/// where all the rest is whitespace.
pub open spec fn skip_spaces(s: Seq<char>, from: int) -> int
    decreases s.len() - from,
{
    if from < 0 || from >= s.len() {
        s.len() as int
    } else if !is_whitespace(s[from]) {
        from
    } else {
        skip_spaces(s, from + 1)
    }
}

/// The first index at or after `from` that holds whitespace; `s.len()` where
/// there is none.
pub open spec fn skip_word(s: Seq<char>, from: int) -> int
    decreases s.len() - from,
{
    if from < 0 || from >= s.len() {
        s.len() as int
    } else if is_whitespace(s[from]) {
        from
    } else {
        skip_word(s, from + 1)
    }
}

/// The maximal runs of non-whitespace characters of `s` from `from` on, in
/// order.
pub open spec fn tokens_from(s: Seq<char>, from: int) -> Seq<Seq<char>>
    decreases s.len() - from,
{
    let a = skip_spaces(s, from);
    let b = skip_word(s, a);
    if 0 <= from <= a && a < b <= s.len() {
        seq![s.subrange(a, b)] + tokens_from(s, b)
    } else {
        Seq::empty()
    }
}

/// The whitespace-separated words of `s`: its maximal runs of
/// non-whitespace characters, in order. None of them is empty.
pub open spec fn tokens(s: Seq<char>) -> Seq<Seq<char>> {
    tokens_from(s, 0)
}

/// The pieces of `s` from `from` on that lie between occurrences of a
/// carriage return directly followed by a line feed, scanning left to right.
pub open spec fn lines_from(s: Seq<char>, from: int) -> Seq<Seq<char>>
    decreases s.len() - from,
{
    let i = find_pair(s, '\r', '\n', from);
    if 0 <= from <= i && i + 2 <= s.len() {
        seq![s.subrange(from, i)] + lines_from(s, i + 2)
    } else {
        seq![s.subrange(from, s.len() as int)]
    }
}

/// `s` split at every line terminator. A text without a terminator is one
/// line; a terminator at the very end leaves an empty last line.
pub open spec fn lines_of(s: Seq<char>) -> Seq<Seq<char>> {
    lines_from(s, 0)
}

/// Splits `text` at every carriage return directly followed by a line feed.
pub fn split_lines<'a>(text: &'a str) -> (lines: Vec<&'a str>)
    ensures
        views(lines@) == lines_of(text@),
        lines.len() >= 1,
{
    let chars = chars_of(text);
    let n: usize = chars.len();
    let mut lines: Vec<&'a str> = Vec::new();
    let mut start: usize = 0;
    loop
        invariant
            chars@ == text@,
            n == chars.len(),
            start <= n,
            views(lines@) + lines_from(text@, start as int) == lines_of(text@),
        decreases n - start,
    {
        let i: usize = scan_pair(&chars, '\r', '\n', start);
        let ghost before = lines@;
        if i < n {
            let piece = text.substring_char(start, i);
            lines.push(piece);
            assert(views(lines@) =~= views(before) + seq![text@.subrange(start as int, i as int)]);
            assert(views(lines@) + lines_from(text@, i + 2) =~= views(before) + lines_from(
                text@,
                start as int,
            ));
            start = i + 2;
        } else {
            let piece = text.substring_char(start, n);
            lines.push(piece);
            assert(views(lines@) =~= views(before) + seq![text@.subrange(start as int, n as int)]);
            return lines;
        }
    }
}

/// Splits `text` into its whitespace-separated words.
pub fn split_whitespace<'a>(text: &'a str) -> (words: Vec<&'a str>)
    ensures
        views(words@) == tokens(text@),
{
    let chars = chars_of(text);
    let n: usize = chars.len();
    let mut words: Vec<&'a str> = Vec::new();
    let mut at: usize = 0;
    loop
        invariant
            chars@ == text@,
            n == chars.len(),
            at <= n,
            views(words@) + tokens_from(text@, at as int) == tokens(text@),
        decreases n - at,
    {
        let mut a: usize = at;
        while a < n && is_space(chars[a])
            invariant
                chars@ == text@,
                n == chars.len(),
                at <= a <= n,
                skip_spaces(text@, at as int) == skip_spaces(text@, a as int),
            decreases n - a,
        {
            a = a + 1;
        }
        if a >= n {
            assert(views(words@) + tokens_from(text@, at as int) =~= views(words@));
            return words;
        }
        let mut b: usize = a + 1;
        while b < n && !is_space(chars[b])
            invariant
                chars@ == text@,
                n == chars.len(),
                a < b <= n,
                !is_whitespace(text@[a as int]),
                skip_word(text@, a as int) == skip_word(text@, b as int),
            decreases n - b,
        {
            b = b + 1;
        }
        let ghost before = words@;
        let word = text.substring_char(a, b);
        words.push(word);
        assert(views(words@) =~= views(before) + seq![text@.subrange(a as int, b as int)]);
        assert(views(words@) + tokens_from(text@, b as int) =~= views(before) + tokens_from(
            text@,
            at as int,
        ));
        at = b;
    }
}


/// `s` from `from` on, with every occurrence of `pattern` replaced by
/// `with`. Occurrences are found from left to right and do not overlap. An
/// empty pattern occurs before every character and at the end.
pub open spec fn replaced_from(s: Seq<char>, pattern: Seq<char>, with: Seq<char>, from: int) -> Seq<
    char,
>
    decreases s.len() - from,
{
    if from < 0 || from > s.len() {
        Seq::empty()
    } else if pattern.len() == 0 {
        if from == s.len() {
            with
        } else {
            with + seq![s[from]] + replaced_from(s, pattern, with, from + 1)
        }
    } else if from + pattern.len() > s.len() {
        s.subrange(from, s.len() as int)
    } else if s.subrange(from, from + pattern.len()) == pattern {
        with + replaced_from(s, pattern, with, from + pattern.len())
    } else {
        seq![s[from]] + replaced_from(s, pattern, with, from + 1)
    }
}

/// `s` with every occurrence of `pattern` replaced by `with`.
pub open spec fn replaced(s: Seq<char>, pattern: Seq<char>, with: Seq<char>) -> Seq<char> {
    replaced_from(s, pattern, with, 0)
}

/// Whether `pattern` stands in `v` at index `at`.
fn occurs_at(v: &Vec<char>, pattern: &Vec<char>, at: usize) -> (found: bool)
    requires
        at + pattern.len() <= v.len(),
    ensures
        found == (v@.subrange(at as int, at + pattern.len()) == pattern@),
{
    let m: usize = pattern.len();
    let mut k: usize = 0;
    while k < m
        invariant
            m == pattern.len(),
            at + m <= v.len(),
            k <= m,
            forall|j: int| 0 <= j < k ==> v@[at + j] == pattern@[j],
        decreases m - k,
    {
        if v[at + k] != pattern[k] {
            assert(v@.subrange(at as int, at + m)[k as int] != pattern@[k as int]);
            return false;
        }
        k = k + 1;
    }
    assert(v@.subrange(at as int, at + m) =~= pattern@);
    true
}

/// A copy of `text` in which every occurrence of `pattern` is replaced by
/// `with`.
pub fn replace(text: &str, pattern: &str, with: &str) -> (result: String)
    ensures
        result@ == replaced(text@, pattern@, with@),
{
    let chars = chars_of(text);
    let wanted = chars_of(pattern);
    let n: usize = chars.len();
    let m: usize = wanted.len();
    let mut result = String::new();
    let mut copied: usize = 0;
    let mut at: usize = 0;
    assert(text@.subrange(0, 0) =~= Seq::<char>::empty());
    loop
        invariant
            chars@ == text@,
            wanted@ == pattern@,
            n == chars.len(),
            m == wanted.len(),
            copied <= at <= n,
            result@ + text@.subrange(copied as int, at as int) + replaced_from(
                text@,
                pattern@,
                with@,
                at as int,
            ) == replaced(text@, pattern@, with@),
        decreases n - at,
    {
        let ghost done = result@;
        let ghost run = text@.subrange(copied as int, at as int);
        if m == 0 {
            result.append(text.substring_char(copied, at));
            result.append(with);
            if at == n {
                assert(result@ =~= done + run + with@);
                return result;
            }
            assert(result@ + text@.subrange(at as int, at + 1) + replaced_from(
                text@,
                pattern@,
                with@,
                at + 1,
            ) =~= done + run + (with@ + seq![text@[at as int]] + replaced_from(
                text@,
                pattern@,
                with@,
                at + 1,
            )));
            copied = at;
            at = at + 1;
        } else if n - at < m {
            result.append(text.substring_char(copied, n));
            assert(result@ =~= done + run + text@.subrange(at as int, n as int));
            return result;
        } else if occurs_at(&chars, &wanted, at) {
            result.append(text.substring_char(copied, at));
            result.append(with);
            assert(text@.subrange(at + m, at + m) =~= Seq::<char>::empty());
            assert(result@ + text@.subrange(at + m, at + m) + replaced_from(
                text@,
                pattern@,
                with@,
                at + m,
            ) =~= done + run + (with@ + replaced_from(text@, pattern@, with@, at + m)));
            at = at + m;
            copied = at;
        } else {
            assert(done + text@.subrange(copied as int, at + 1) + replaced_from(
                text@,
                pattern@,
                with@,
                at + 1,
            ) =~= done + run + (seq![text@[at as int]] + replaced_from(
                text@,
                pattern@,
                with@,
                at + 1,
            )));
            at = at + 1;
        }
    }
}


/// The pieces of `s` from `from` on that lie between occurrences of
/// `separator`.
pub open spec fn pieces_from(s: Seq<char>, separator: char, from: int) -> Seq<Seq<char>>
    decreases s.len() - from,
{
    let i = find_char(s, separator, from);
    if 0 <= from <= i && i < s.len() {
        seq![s.subrange(from, i)] + pieces_from(s, separator, i + 1)
    } else {
        seq![s.subrange(from, s.len() as int)]
    }
}

/// `s` split at every `separator`: one piece more than there are
/// separators, empty pieces among them.
pub open spec fn pieces_of(s: Seq<char>, separator: char) -> Seq<Seq<char>> {
    pieces_from(s, separator, 0)
}

/// Splits `text` at every `separator`.
pub fn split_char<'a>(text: &'a str, separator: char) -> (pieces: Vec<&'a str>)
    ensures
        views(pieces@) == pieces_of(text@, separator),
{
    let chars = chars_of(text);
    let n: usize = chars.len();
    let mut pieces: Vec<&'a str> = Vec::new();
    let mut start: usize = 0;
    loop
        invariant
            chars@ == text@,
            n == chars.len(),
            start <= n,
            views(pieces@) + pieces_from(text@, separator, start as int) == pieces_of(
                text@,
                separator,
            ),
        decreases n - start,
    {
        let i: usize = scan_char(&chars, separator, start);
        let ghost before = pieces@;
        if i < n {
            let piece = text.substring_char(start, i);
            pieces.push(piece);
            assert(views(pieces@) =~= views(before) + seq![text@.subrange(start as int, i as int)]);
            assert(views(pieces@) + pieces_from(text@, separator, i + 1) =~= views(before)
                + pieces_from(text@, separator, start as int));
            start = i + 1;
        } else {
            let piece = text.substring_char(start, n);
            pieces.push(piece);
            assert(views(pieces@) =~= views(before) + seq![text@.subrange(start as int, n as int)]);
            return pieces;
        }
    }
}

} // verus!
