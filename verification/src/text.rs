//! Shared text scanning for the small wire formats of the fabric:
//! whitespace runs and plain quoted strings. Quoted strings carry device
//! identities and version strings, which never need escape sequences, so a
//! body holding a quote or backslash is rejected rather than unescaped.

use vstd::prelude::*;

verus! {

/// Whitespace accepted between tokens.
pub open spec fn is_ws(c: char) -> bool {
    c == ' ' || c == '\t' || c == '\n' || c == '\r'
}

/// Text safe to embed between quotes: neither quote nor backslash.
pub open spec fn plain_text(s: Seq<char>) -> bool {
    forall|k: int| 0 <= k < s.len() ==> (s[k] != '"' && s[k] != '\\')
}

/// Checks that text can stand between quotes unchanged, so that what is
/// persisted or sent is read back as it was written.
pub fn is_plain(s: &str) -> (r: bool)
    ensures
        r == plain_text(s@),
{
    let n = s.unicode_len();
    let mut i: usize = 0;
    while i < n
        invariant
            n == s@.len(),
            0 <= i <= n,
            forall|k: int| 0 <= k < i ==> (s@[k] != '"' && s@[k] != '\\'),
        decreases n - i,
    {
        let c = s.get_char(i);
        if c == '"' || c == '\\' {
            return false;
        }
        i += 1;
    }
    true
}

/// The number of whitespace characters running from position `i`.
pub open spec fn ws_run(s: Seq<char>, i: int) -> nat
    decreases s.len() - i,
{
    if i < 0 || i >= s.len() {
        0
    } else if is_ws(s[i]) {
        1 + ws_run(s, i + 1)
    } else {
        0
    }
}

/// A whitespace run reaches exactly the first non-whitespace position.
pub proof fn lemma_ws_run_shift(s: Seq<char>, i: int, j: int)
    requires
        0 <= i <= j <= s.len(),
        forall|k: int| i <= k < j ==> is_ws(s[k]),
    ensures
        ws_run(s, i) == ws_run(s, j) + (j - i),
    decreases j - i,
{
    if i < j {
        lemma_ws_run_shift(s, i + 1, j);
    }
}

/// The length of a plain string body starting at `i`: the number of
/// characters before the closing quote; nothing when the body is
/// unterminated or holds a backslash.
pub open spec fn string_body_run(s: Seq<char>, i: int) -> Option<nat>
    decreases s.len() - i,
{
    if i < 0 || i >= s.len() {
        None
    } else if s[i] == '"' {
        Some(0)
    } else if s[i] == '\\' {
        None
    } else {
        match string_body_run(s, i + 1) {
            Some(n) => Some((n + 1) as nat),
            None => None,
        }
    }
}

/// Scanning a plain region shifts the body run by its length.
pub proof fn lemma_string_body_run_shift(s: Seq<char>, i: int, j: int)
    requires
        0 <= i <= j <= s.len(),
        forall|k: int| i <= k < j ==> (s[k] != '"' && s[k] != '\\'),
    ensures
        match string_body_run(s, j) {
            Some(n) => string_body_run(s, i) == Some((n + (j - i)) as nat),
            None => string_body_run(s, i) is None,
        },
    decreases j - i,
{
    if i < j {
        lemma_string_body_run_shift(s, i + 1, j);
    }
}

/// What a body run says of the text: the closing quote stands right after
/// `n` plain characters.
pub proof fn lemma_string_body_run_facts(s: Seq<char>, i: int)
    requires
        0 <= i,
        string_body_run(s, i) is Some,
    ensures
        i + string_body_run(s, i)->Some_0 < s.len(),
        s[i + string_body_run(s, i)->Some_0] == '"',
        forall|k: int| i <= k < i + string_body_run(s, i)->Some_0 ==> (s[k] != '"' && s[k]
            != '\\'),
    decreases s.len() - i,
{
    if i < s.len() && s[i] != '"' && s[i] != '\\' {
        lemma_string_body_run_facts(s, i + 1);
    }
}

/// Parses a quoted plain string at `i`: the body and the position after the
/// closing quote.
pub open spec fn spec_parse_quoted(s: Seq<char>, i: int) -> Option<(Seq<char>, int)> {
    if 0 <= i < s.len() && s[i] == '"' {
        match string_body_run(s, i + 1) {
            Some(n) => Some((s.subrange(i + 1, i + 1 + n), i + 2 + n)),
            None => None,
        }
    } else {
        None
    }
}

/// A parsed quote ends within the text.
pub proof fn lemma_parse_quoted_bounds(s: Seq<char>, i: int)
    requires
        spec_parse_quoted(s, i) is Some,
    ensures
        i + 2 <= spec_parse_quoted(s, i)->Some_0.1 <= s.len(),
{
    lemma_string_body_run_facts(s, i + 1);
}

/// Whitespace check on one character.
fn is_ws_char(c: char) -> (r: bool)
    ensures
        r == is_ws(c),
{
    c == ' ' || c == '\t' || c == '\n' || c == '\r'
}

/// May the character stand inside a quoted body?
fn is_body_char(c: char) -> (r: bool)
    ensures
        r == (c != '"' && c != '\\'),
{
    c != '"' && c != '\\'
}

/// Skips whitespace: the first position at or after `i` holding none.
pub fn skip_ws_at(s: &str, i: usize, n: usize) -> (j: usize)
    requires
        n == s@.len(),
        i <= n,
    ensures
        j == i + ws_run(s@, i as int),
        i <= j <= n,
{
    let mut j = i;
    while j < n && is_ws_char(s.get_char(j))
        invariant
            n == s@.len(),
            i <= j <= n,
            forall|k: int| i <= k < j ==> is_ws(s@[k]),
        decreases n - j,
    {
        j += 1;
    }
    proof {
        lemma_ws_run_shift(s@, i as int, j as int);
        assert(ws_run(s@, j as int) == 0);
    }
    j
}

/// Parses a quoted plain string at `i`: the body and the position after the
/// closing quote.
pub fn parse_quoted_at(s: &str, i: usize, n: usize) -> (r: Option<(String, usize)>)
    requires
        n == s@.len(),
        i <= n,
    ensures
        match r {
            Some(p) => spec_parse_quoted(s@, i as int) == Some((p.0@, p.1 as int)),
            None => spec_parse_quoted(s@, i as int) is None,
        },
{
    if i >= n || s.get_char(i) != '"' {
        return None;
    }
    let mut j = i + 1;
    while j < n && is_body_char(s.get_char(j))
        invariant
            n == s@.len(),
            i + 1 <= j <= n,
            forall|k: int| i + 1 <= k < j ==> (s@[k] != '"' && s@[k] != '\\'),
        decreases n - j,
    {
        j += 1;
    }
    proof {
        lemma_string_body_run_shift(s@, i + 1, j as int);
    }
    if j >= n {
        proof {
            assert(string_body_run(s@, j as int) is None);
        }
        return None;
    }
    if s.get_char(j) == '\\' {
        proof {
            assert(string_body_run(s@, j as int) is None);
        }
        return None;
    }
    proof {
        assert(string_body_run(s@, j as int) == Some(0nat));
        assert(string_body_run(s@, i + 1) == Some((j - i - 1) as nat));
    }
    let body = s.substring_char(i + 1, j).to_owned();
    proof {
        assert(body@ =~= s@.subrange(i + 1, i + 1 + (j - i - 1)));
    }
    Some((body, j + 1))
}

} // verus!
