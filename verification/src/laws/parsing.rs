//! What holds of every request that is parsed.

use crate::headers::{distinct_keys, entries_map, lemma_put};
use crate::request::{
    after_first, before_query, collect_headers, header_map, header_of, method_of, parse_text,
    request_line, RequestLine,
};
use crate::text::{
    find_char, find_pair, is_whitespace, lines_of, skip_spaces, skip_word, tokens, tokens_from,
};
use vstd::prelude::*;

verus! {

/// A word: at least one character, and no whitespace among them.
pub open spec fn is_word(word: Seq<char>) -> bool {
    word.len() > 0 && forall|i: int| 0 <= i < word.len() ==> !is_whitespace(#[trigger] word[i])
}

/// Method, path and version on one line, a single space between them.
pub open spec fn start_line(method: Seq<char>, path: Seq<char>, version: Seq<char>) -> Seq<char> {
    method + seq![' '] + path + seq![' '] + version
}

/// Over a run without whitespace, the end of the word is the end of the run.
pub proof fn lemma_skip_word_run(s: Seq<char>, from: int, to: int)
    requires
        0 <= from <= to <= s.len(),
        forall|j: int| from <= j < to ==> !is_whitespace(#[trigger] s[j]),
        to == s.len() || is_whitespace(s[to]),
    ensures
        skip_word(s, from) == to,
    decreases to - from,
{
    if from < to {
        lemma_skip_word_run(s, from + 1, to);
    }
}

/// Where a word stands at `from` and ends at `to`, it is the next token.
pub proof fn lemma_next_token(s: Seq<char>, from: int, to: int)
    requires
        0 <= from < to <= s.len(),
        forall|j: int| from <= j < to ==> !is_whitespace(#[trigger] s[j]),
        to == s.len() || is_whitespace(s[to]),
    ensures
        tokens_from(s, from) == seq![s.subrange(from, to)] + tokens_from(s, to),
{
    assert(!is_whitespace(s[from]));
    assert(skip_spaces(s, from) == from);
    lemma_skip_word_run(s, from, to);
}

/// One whitespace character before a token does not change the tokens.
pub proof fn lemma_skip_one_space(s: Seq<char>, from: int)
    requires
        0 <= from < s.len(),
        is_whitespace(s[from]),
    ensures
        tokens_from(s, from) == tokens_from(s, from + 1),
{
    assert(skip_spaces(s, from) == skip_spaces(s, from + 1));
    if from + 1 >= s.len() {
        assert(skip_spaces(s, from + 1) == s.len());
        assert(skip_word(s, s.len() as int) == s.len());
    }
}

/// The words of a start line are method, path and version.
pub proof fn lemma_start_line_tokens(method: Seq<char>, path: Seq<char>, version: Seq<char>)
    requires
        is_word(method),
        is_word(path),
        is_word(version),
    ensures
        tokens(start_line(method, path, version)) == seq![method, path, version],
{
    let s = start_line(method, path, version);
    let a = method.len() as int;
    let b = a + 1 + path.len();
    let n = s.len() as int;
    assert(n == b + 1 + version.len());
    assert forall|j: int| 0 <= j < a implies !is_whitespace(#[trigger] s[j]) by {
        assert(s[j] == method[j]);
    }
    assert(s[a] == ' ');
    assert forall|j: int| a + 1 <= j < b implies !is_whitespace(#[trigger] s[j]) by {
        assert(s[j] == path[j - a - 1]);
    }
    assert(s[b] == ' ');
    assert forall|j: int| b + 1 <= j < n implies !is_whitespace(#[trigger] s[j]) by {
        assert(s[j] == version[j - b - 1]);
    }
    lemma_next_token(s, 0, a);
    lemma_skip_one_space(s, a);
    lemma_next_token(s, a + 1, b);
    lemma_skip_one_space(s, b);
    lemma_next_token(s, b + 1, n);
    assert(skip_spaces(s, n) == n);
    assert(skip_word(s, n) == n);
    assert(tokens_from(s, n) =~= Seq::<Seq<char>>::empty());
    assert(s.subrange(0, a) =~= method);
    assert(s.subrange(a + 1, b) =~= path);
    assert(s.subrange(b + 1, n) =~= version);
    assert(tokens(s) =~= seq![method, path, version]);
}

/// Where no character before `at` is `a`, and `a` and `b` stand at `at`,
/// the first such pair is found at `at`.
pub proof fn lemma_first_pair(s: Seq<char>, a: char, b: char, from: int, at: int)
    requires
        0 <= from <= at,
        at + 1 < s.len(),
        s[at] == a,
        s[at + 1] == b,
        forall|j: int| from <= j < at ==> #[trigger] s[j] != a,
    ensures
        find_pair(s, a, b, from) == at,
    decreases at - from,
{
    if from < at {
        assert(s[from] != a);
        lemma_first_pair(s, a, b, from + 1, at);
    }
}

/// Where no character from `from` on is `a`, no pair is found.
pub proof fn lemma_no_pair(s: Seq<char>, a: char, b: char, from: int)
    requires
        0 <= from,
        forall|j: int| from <= j < s.len() ==> #[trigger] s[j] != a,
    ensures
        find_pair(s, a, b, from) == s.len(),
    decreases s.len() - from,
{
    if from + 1 < s.len() {
        assert(s[from] != a);
        lemma_no_pair(s, a, b, from + 1);
    }
}

/// A request whose first line is made of a method, a path and a version,
/// each a word, with one space between them, is parsed to exactly these
/// three: the method that the first word names, the path up to its first
/// question mark, and the version as it stands. This holds whether the line
/// is all of the text or is followed by a line terminator and any `rest`.
pub proof fn law_start_line_is_recovered(
    method: Seq<char>,
    path: Seq<char>,
    version: Seq<char>,
    rest: Seq<char>,
)
    requires
        is_word(method),
        is_word(path),
        is_word(version),
    ensures
        parse_text(start_line(method, path, version)) matches Ok(request)
            && request.request_identifiers == (RequestLine {
            method: method_of(method),
            path: before_query(path),
            version,
        }),
        parse_text(start_line(method, path, version) + seq!['\r', '\n'] + rest) matches Ok(
            request,
        ) && request.request_identifiers == (RequestLine {
            method: method_of(method),
            path: before_query(path),
            version,
        }),
{
    let line = start_line(method, path, version);
    let a = method.len() as int;
    let b = a + 1 + path.len();
    let n = line.len() as int;
    lemma_start_line_tokens(method, path, version);
    assert(is_whitespace('\r'));
    assert forall|j: int| 0 <= j < n implies #[trigger] line[j] != '\r' by {
        if j < a {
            assert(line[j] == method[j]);
        } else if j == a {
        } else if j < b {
            assert(line[j] == path[j - a - 1]);
        } else if j == b {
        } else {
            assert(line[j] == version[j - b - 1]);
        }
    }
    // The line alone.
    lemma_no_pair(line, '\r', '\n', 0);
    assert(line.subrange(0, n) =~= line);
    assert(lines_of(line) =~= seq![line]);
    // The line, its terminator, and the rest.
    let text = line + seq!['\r', '\n'] + rest;
    assert forall|j: int| 0 <= j < n implies #[trigger] text[j] != '\r' by {
        assert(text[j] == line[j]);
    }
    assert(text[n] == '\r');
    assert(text[n + 1] == '\n');
    lemma_first_pair(text, '\r', '\n', 0, n);
    assert(text.subrange(0, n) =~= line);
    assert(lines_of(text)[0] == line);
}

/// A path followed by a question mark and anything else is cut back to the
/// path, as long as the path itself holds no question mark.
pub proof fn law_query_is_cut(path: Seq<char>, suffix: Seq<char>)
    requires
        forall|i: int| 0 <= i < path.len() ==> #[trigger] path[i] != '?',
    ensures
        before_query(path + seq!['?'] + suffix) == path,
        before_query(path) == path,
{
    let full = path + seq!['?'] + suffix;
    lemma_find_char_at(full, '?', 0, path.len() as int);
    assert(full.subrange(0, path.len() as int) =~= path);
    lemma_find_char_none(path, '?', 0);
    assert(path.subrange(0, path.len() as int) =~= path);
}

/// Where no character before `at` is `c`, and `c` stands at `at`, it is
/// found at `at`.
pub proof fn lemma_find_char_at(s: Seq<char>, c: char, from: int, at: int)
    requires
        0 <= from <= at < s.len(),
        s[at] == c,
        forall|j: int| from <= j < at ==> #[trigger] s[j] != c,
    ensures
        find_char(s, c, from) == at,
    decreases at - from,
{
    if from < at {
        assert(s[from] != c);
        lemma_find_char_at(s, c, from + 1, at);
    }
}

/// Where no character from `from` on is `c`, it is not found.
pub proof fn lemma_find_char_none(s: Seq<char>, c: char, from: int)
    requires
        0 <= from,
        forall|j: int| from <= j < s.len() ==> #[trigger] s[j] != c,
    ensures
        find_char(s, c, from) == s.len(),
    decreases s.len() - from,
{
    if from < s.len() {
        assert(s[from] != c);
        lemma_find_char_none(s, c, from + 1);
    }
}

/// A line made of a key, a colon, a space and a value holds exactly that
/// header, as long as no colon in the key is directly followed by a space.
pub proof fn law_header_line_is_a_pair(key: Seq<char>, value: Seq<char>)
    requires
        forall|j: int|
            0 <= j && j + 1 < key.len() ==> !(#[trigger] key[j] == ':' && key[j + 1] == ' '),
    ensures
        header_of(key + seq![':', ' '] + value) == Some((key, value)),
{
    let line = key + seq![':', ' '] + value;
    let k = key.len() as int;
    lemma_pair_at(line, ':', ' ', 0, k);
    assert(line.subrange(0, k) =~= key);
    assert(line.subrange(k + 2, line.len() as int) =~= value);
}

/// Where the pair stands at `at` and nowhere before, it is found at `at`.
pub proof fn lemma_pair_at(s: Seq<char>, a: char, b: char, from: int, at: int)
    requires
        0 <= from <= at,
        at + 1 < s.len(),
        s[at] == a,
        s[at + 1] == b,
        forall|j: int| from <= j < at ==> !(#[trigger] s[j] == a && s[j + 1] == b),
    ensures
        find_pair(s, a, b, from) == at,
    decreases at - from,
{
    if from < at {
        assert(!(s[from] == a && s[from + 1] == b));
        lemma_pair_at(s, a, b, from + 1, at);
    }
}

/// The headers collected from any lines have no key twice.
pub proof fn lemma_collected_keys_distinct(lines: Seq<Seq<char>>)
    ensures
        distinct_keys(collect_headers(lines)),
    decreases lines.len(),
{
    if lines.len() > 0 {
        lemma_collected_keys_distinct(lines.drop_last());
        match header_of(lines.last()) {
            Some((key, value)) => {
                lemma_put(collect_headers(lines.drop_last()), key, value);
            },
            None => {},
        }
    }
}

/// The header of a line is in the mapping, unless a later line gives the
/// same key another value.
pub proof fn lemma_header_is_kept(lines: Seq<Seq<char>>, i: int, key: Seq<char>, value: Seq<char>)
    requires
        0 <= i < lines.len(),
        header_of(lines[i]) == Some((key, value)),
        forall|j: int|
            i < j < lines.len() ==> !(header_of(#[trigger] lines[j]) matches Some(later)
                && later.0 == key),
    ensures
        entries_map(collect_headers(lines)).contains_key(key),
        entries_map(collect_headers(lines))[key] == value,
    decreases lines.len(),
{
    let front = lines.drop_last();
    lemma_collected_keys_distinct(front);
    if i == lines.len() - 1 {
        lemma_put(collect_headers(front), key, value);
    } else {
        assert(front[i] == lines[i]);
        assert forall|j: int| i < j < front.len() implies !(header_of(
            #[trigger] front[j],
        ) matches Some(later) && later.0 == key) by {
            assert(front[j] == lines[j]);
        }
        lemma_header_is_kept(front, i, key, value);
        match header_of(lines.last()) {
            Some((other, other_value)) => {
                assert(lines[lines.len() - 1] == lines.last());
                assert(other != key);
                lemma_put(collect_headers(front), other, other_value);
            },
            None => {},
        }
    }
}

/// Every key of the mapping is the key of the header of some line.
pub proof fn lemma_header_has_a_line(lines: Seq<Seq<char>>, key: Seq<char>) -> (i: int)
    requires
        entries_map(collect_headers(lines)).contains_key(key),
    ensures
        0 <= i < lines.len(),
        header_of(lines[i]) matches Some(found) && found.0 == key,
    decreases lines.len(),
{
    if lines.len() == 0 {
        0
    } else {
        let front = lines.drop_last();
        lemma_collected_keys_distinct(front);
        match header_of(lines.last()) {
            Some((other, other_value)) => {
                lemma_put(collect_headers(front), other, other_value);
                if other == key {
                    lines.len() - 1
                } else {
                    let i = lemma_header_has_a_line(front, key);
                    assert(front[i] == lines[i]);
                    i
                }
            },
            None => {
                let i = lemma_header_has_a_line(front, key);
                assert(front[i] == lines[i]);
                i
            },
        }
    }
}

/// Of the lines after the first, each that holds a header gives that header
/// to the mapping, unless a later line gives the same key another value.
pub proof fn law_header_is_recovered(
    lines: Seq<Seq<char>>,
    i: int,
    key: Seq<char>,
    value: Seq<char>,
)
    requires
        1 <= i < lines.len(),
        header_of(lines[i]) == Some((key, value)),
        forall|j: int|
            i < j < lines.len() ==> !(header_of(#[trigger] lines[j]) matches Some(later)
                && later.0 == key),
    ensures
        header_map(lines).contains_key(key),
        header_map(lines)[key] == value,
{
    let rest = after_first(lines);
    assert(rest[i - 1] == lines[i]);
    assert forall|j: int| i - 1 < j < rest.len() implies !(header_of(
        #[trigger] rest[j],
    ) matches Some(later) && later.0 == key) by {
        assert(rest[j] == lines[j + 1]);
    }
    lemma_header_is_kept(rest, i - 1, key, value);
}

/// The mapping holds nothing but the headers of the lines after the first:
/// a line without a colon and a space adds nothing to it, and neither does
/// the first line. Whether the text is a request does not depend on any
/// line after the first.
pub proof fn law_other_lines_are_left_out(text: Seq<char>, key: Seq<char>)
    ensures
        parse_text(text) is Ok <==> request_line(lines_of(text)) is Ok,
        header_map(lines_of(text)).contains_key(key) ==> exists|i: int|
            1 <= i < lines_of(text).len() && (header_of(
                #[trigger] lines_of(text)[i],
            ) matches Some(found) && found.0 == key),
{
    let lines = lines_of(text);
    if header_map(lines).contains_key(key) {
        let rest = after_first(lines);
        let at = lemma_header_has_a_line(rest, key);
        assert(rest[at] == lines[at + 1]);
        assert(1 <= at + 1 < lines.len() && (header_of(lines_of(text)[at + 1]) matches Some(found)
            && found.0 == key));
    }
}

} // verus!
