//! Extraction of the JSON document from a raw model reply.
use vstd::prelude::*;

use crate::text::{
    chars_of, lemma_trim_spec_keeps, lemma_trim_spec_trimmed, string_from_chars, substring, trim_chars,
    trim_spec, white_space,
};

verus! {

/// `s` with carriage returns removed and line feeds turned into spaces, so a
/// multi-line string that a model forgot to escape stays parseable.
pub open spec fn flatten_newlines(s: Seq<char>) -> Seq<char>
    decreases s.len(),
{
    if s.len() == 0 {
        s
    } else {
        let rest = flatten_newlines(s.drop_last());
        let c = s.last();
        if c == '\r' {
            rest
        } else if c == '\n' {
            rest.push(' ')
        } else {
            rest.push(c)
        }
    }
}

/// Index of the first `{` or `[` of `s` at or after `from`.
pub open spec fn first_opener(s: Seq<char>, from: int) -> Option<int>
    decreases s.len() - from,
{
    if from < 0 || from >= s.len() {
        None
    } else if s[from] == '{' || s[from] == '[' {
        Some(from)
    } else {
        first_opener(s, from + 1)
    }
}

/// The bracket that closes `open`.
pub open spec fn closer_of(open: char) -> char {
    if open == '{' {
        '}'
    } else {
        ']'
    }
}

/// Scans `s` from `i` with `depth` unclosed brackets of the opener's kind,
/// skipping the contents of JSON strings (with backslash escapes), and
/// returns the index of the bracket that brings the depth to zero.
pub open spec fn closing_index(
    s: Seq<char>,
    open: char,
    i: int,
    depth: nat,
    in_string: bool,
    escape: bool,
) -> Option<int>
    decreases s.len() - i,
{
    if i < 0 || i >= s.len() {
        None
    } else {
        let c = s[i];
        if in_string {
            if escape {
                closing_index(s, open, i + 1, depth, true, false)
            } else if c == '\\' {
                closing_index(s, open, i + 1, depth, true, true)
            } else if c == '"' {
                closing_index(s, open, i + 1, depth, false, false)
            } else {
                closing_index(s, open, i + 1, depth, true, false)
            }
        } else if c == '"' {
            closing_index(s, open, i + 1, depth, true, false)
        } else if c == open {
            closing_index(s, open, i + 1, depth + 1, false, false)
        } else if c == closer_of(open) {
            if depth == 1 {
                Some(i)
            } else {
                closing_index(s, open, i + 1, (depth - 1) as nat, false, false)
            }
        } else {
            closing_index(s, open, i + 1, depth, false, false)
        }
    }
}

/// What `clean_json_response` returns: the input trimmed and flattened onto
/// one line; then, when it holds a `{` or `[`, the first such bracket up to
/// its matching closer (brackets inside strings do not count). When there is
/// no opener, or it is never closed, the whole flattened text.
pub open spec fn clean_json_spec(raw: Seq<char>) -> Seq<char> {
    let t = flatten_newlines(trim_spec(raw));
    match first_opener(t, 0) {
        None => t,
        Some(start) => match closing_index(t, t[start], start + 1, 1, false, false) {
            Some(end) => t.subrange(start, end + 1),
            None => t,
        },
    }
}

fn flatten_newlines_exec(s: &Vec<char>) -> (r: Vec<char>)
    ensures
        r@ == flatten_newlines(s@),
{
    let mut r: Vec<char> = Vec::new();
    let mut i: usize = 0;
    while i < s.len()
        invariant
            i <= s@.len(),
            r@ == flatten_newlines(s@.subrange(0, i as int)),
        decreases s@.len() - i,
    {
        let c = s[i];
        if c == '\r' {
        } else if c == '\n' {
            r.push(' ');
        } else {
            r.push(c);
        }
        proof {
            let pre = s@.subrange(0, i + 1);
            assert(pre.drop_last() =~= s@.subrange(0, i as int));
            assert(pre.last() == c);
        }
        i = i + 1;
    }
    assert(s@.subrange(0, s@.len() as int) =~= s@);
    r
}

/// Extracts the JSON document from a model reply: trims it, removes carriage
/// returns, turns line feeds into spaces and keeps the first `{...}` or
/// `[...]` block (brackets inside strings are ignored). Falls back to the
/// flattened text when no complete block is found.
pub fn clean_json_response(raw: &str) -> (r: String)
    ensures
        r@ == clean_json_spec(raw@),
{
    let chars = chars_of(raw);
    let trimmed = trim_chars(&chars);
    let t = flatten_newlines_exec(&trimmed);
    let ghost tv = t@;
    let n = t.len();
    let mut start: usize = 0;
    while start < n && t[start] != '{' && t[start] != '['
        invariant
            n == tv.len(),
            t@ == tv,
            tv == flatten_newlines(trim_spec(raw@)),
            start <= n,
            first_opener(tv, 0) == first_opener(tv, start as int),
        decreases n - start,
    {
        start = start + 1;
    }
    if start == n {
        return string_from_chars(t.as_slice());
    }
    let open = t[start];
    let close = if open == '{' {
        '}'
    } else {
        ']'
    };
    let mut depth: usize = 1;
    let mut in_string = false;
    let mut escape = false;
    let mut i: usize = start + 1;
    while i < n
        invariant
            n == tv.len(),
            t@ == tv,
            tv == flatten_newlines(trim_spec(raw@)),
            start < n,
            first_opener(tv, 0) == Some(start as int),
            open == tv[start as int],
            close == closer_of(open),
            start + 1 <= i <= n,
            1 <= depth <= i,
            !in_string ==> !escape,
            closing_index(tv, open, start + 1, 1, false, false) == closing_index(
                tv,
                open,
                i as int,
                depth as nat,
                in_string,
                escape,
            ),
        decreases n - i,
    {
        let c = t[i];
        if in_string {
            if escape {
                escape = false;
            } else if c == '\\' {
                escape = true;
            } else if c == '"' {
                in_string = false;
            }
        } else {
            if c == '"' {
                in_string = true;
            } else if c == open {
                depth = depth + 1;
            } else if c == close {
                if depth == 1 {
                    assert(closing_index(tv, open, i as int, 1, false, false) == Some(i as int));
                    return substring(&t, start, i + 1);
                }
                depth = depth - 1;
            }
        }
        i = i + 1;
    }
    string_from_chars(t.as_slice())
}

proof fn lemma_flatten_has_no_line_breaks(s: Seq<char>)
    ensures
        forall|i: int|
            0 <= i < flatten_newlines(s).len() ==> #[trigger] flatten_newlines(s)[i] != '\n'
                && flatten_newlines(s)[i] != '\r',
    decreases s.len(),
{
    if s.len() > 0 {
        let rest = flatten_newlines(s.drop_last());
        lemma_flatten_has_no_line_breaks(s.drop_last());
        let f = flatten_newlines(s);
        assert forall|i: int| 0 <= i < f.len() implies #[trigger] f[i] != '\n' && f[i] != '\r' by {
            if i < rest.len() {
                assert(f[i] == rest[i]);
            }
        }
    }
}

proof fn lemma_closing_index_is_closer(
    s: Seq<char>,
    open: char,
    i: int,
    depth: nat,
    in_string: bool,
    escape: bool,
)
    ensures
        closing_index(s, open, i, depth, in_string, escape) matches Some(e) ==> i <= e < s.len()
            && s[e] == closer_of(open),
    decreases s.len() - i,
{
    if 0 <= i < s.len() {
        let c = s[i];
        if in_string {
            if escape {
                lemma_closing_index_is_closer(s, open, i + 1, depth, true, false);
            } else if c == '\\' {
                lemma_closing_index_is_closer(s, open, i + 1, depth, true, true);
            } else if c == '"' {
                lemma_closing_index_is_closer(s, open, i + 1, depth, false, false);
            } else {
                lemma_closing_index_is_closer(s, open, i + 1, depth, true, false);
            }
        } else if c == '"' {
            lemma_closing_index_is_closer(s, open, i + 1, depth, true, false);
        } else if c == open {
            lemma_closing_index_is_closer(s, open, i + 1, depth + 1, false, false);
        } else if c == closer_of(open) {
            if depth != 1 {
                lemma_closing_index_is_closer(s, open, i + 1, (depth - 1) as nat, false, false);
            }
        } else {
            lemma_closing_index_is_closer(s, open, i + 1, depth, false, false);
        }
    }
}

proof fn lemma_first_opener_is_opener(s: Seq<char>, from: int)
    ensures
        first_opener(s, from) matches Some(k) ==> from <= k < s.len() && (s[k] == '{' || s[k]
            == '['),
    decreases s.len() - from,
{
    if 0 <= from < s.len() && !(s[from] == '{' || s[from] == '[') {
        lemma_first_opener_is_opener(s, from + 1);
    }
}

/// A cleaned reply is on one line: it holds no line feed and no carriage
/// return.
pub proof fn lemma_clean_json_is_one_line(raw: Seq<char>)
    ensures
        forall|i: int|
            0 <= i < clean_json_spec(raw).len() ==> #[trigger] clean_json_spec(raw)[i] != '\n'
                && clean_json_spec(raw)[i] != '\r',
{
    let t = flatten_newlines(trim_spec(raw));
    lemma_flatten_has_no_line_breaks(trim_spec(raw));
    lemma_first_opener_is_opener(t, 0);
    if let Some(start) = first_opener(t, 0) {
        lemma_closing_index_is_closer(t, t[start], start + 1, 1, false, false);
        if let Some(end) = closing_index(t, t[start], start + 1, 1, false, false) {
            assert forall|i: int| 0 <= i < clean_json_spec(raw).len() implies #[trigger] clean_json_spec(
                raw,
            )[i] != '\n' && clean_json_spec(raw)[i] != '\r' by {
                assert(clean_json_spec(raw)[i] == t[start + i]);
            }
        }
    }
}

/// When the cleaned reply is a block, it is a whole JSON container: it
/// starts with `{` or `[` and ends with the matching closer.
pub proof fn lemma_clean_json_block_is_bracketed(raw: Seq<char>)
    ensures
        ({
            let t = flatten_newlines(trim_spec(raw));
            let c = clean_json_spec(raw);
            c != t ==> c.len() >= 2 && (c[0] == '{' || c[0] == '[') && c.last() == closer_of(c[0])
        }),
{
    let t = flatten_newlines(trim_spec(raw));
    lemma_first_opener_is_opener(t, 0);
    if let Some(start) = first_opener(t, 0) {
        lemma_closing_index_is_closer(t, t[start], start + 1, 1, false, false);
    }
}

proof fn lemma_flatten_keeps_one_line(s: Seq<char>)
    requires
        forall|i: int| 0 <= i < s.len() ==> #[trigger] s[i] != '\n' && s[i] != '\r',
    ensures
        flatten_newlines(s) == s,
    decreases s.len(),
{
    if s.len() > 0 {
        lemma_flatten_keeps_one_line(s.drop_last());
        assert(s.drop_last().push(s.last()) =~= s);
    }
}

proof fn lemma_flatten_ends(s: Seq<char>)
    requires
        s.len() > 0,
        s[0] != '\r',
        s.last() != '\r',
    ensures
        flatten_newlines(s).len() > 0,
        flatten_newlines(s)[0] == (if s[0] == '\n' { ' ' } else { s[0] }),
        flatten_newlines(s).last() == (if s.last() == '\n' { ' ' } else { s.last() }),
    decreases s.len(),
{
    lemma_flatten_first(s);
}

proof fn lemma_flatten_first(s: Seq<char>)
    requires
        s.len() > 0,
        s[0] != '\r',
    ensures
        flatten_newlines(s).len() > 0,
        flatten_newlines(s)[0] == (if s[0] == '\n' { ' ' } else { s[0] }),
    decreases s.len(),
{
    if s.len() > 1 {
        assert(s.drop_last()[0] == s[0]);
        lemma_flatten_first(s.drop_last());
    } else {
        assert(flatten_newlines(s.drop_last()) =~= Seq::<char>::empty());
    }
}

proof fn lemma_closing_index_within(
    t: Seq<char>,
    open: char,
    start: int,
    end: int,
    i: int,
    depth: nat,
    in_string: bool,
    escape: bool,
)
    requires
        0 <= start < i <= end < t.len(),
        closing_index(t, open, i, depth, in_string, escape) == Some(end),
    ensures
        closing_index(t.subrange(start, end + 1), open, i - start, depth, in_string, escape) == Some(
            end - start,
        ),
    decreases end - i,
{
    let c = t.subrange(start, end + 1);
    assert(c.len() == end + 1 - start);
    assert(0 <= i - start < c.len());
    assert(c[i - start] == t[i]);
    let ch = t[i];
    let (d2, s2, e2) = if in_string {
        if escape {
            (depth, true, false)
        } else if ch == '\\' {
            (depth, true, true)
        } else if ch == '"' {
            (depth, false, false)
        } else {
            (depth, true, false)
        }
    } else if ch == '"' {
        (depth, true, false)
    } else if ch == open {
        (depth + 1, false, false)
    } else if ch == closer_of(open) {
        ((depth - 1) as nat, false, false)
    } else {
        (depth, false, false)
    };
    lemma_closing_index_is_closer(t, open, i + 1, d2, s2, e2);
    let stops = !in_string && ch != '"' && ch != open && ch == closer_of(open) && depth == 1;
    if !stops {
        assert(closing_index(t, open, i, depth, in_string, escape) == closing_index(t, open, i + 1, d2, s2, e2));
        assert(closing_index(c, open, i - start, depth, in_string, escape) == closing_index(c, open, i - start + 1, d2, s2, e2));
        lemma_closing_index_within(t, open, start, end, i + 1, d2, s2, e2);
    }
}

/// Cleaning a cleaned reply changes nothing, and a cleaned reply neither
/// starts nor ends with white space.
pub proof fn lemma_clean_json_idempotent(raw: Seq<char>)
    ensures
        clean_json_spec(clean_json_spec(raw)) == clean_json_spec(raw),
        clean_json_spec(raw).len() > 0 ==> !white_space(clean_json_spec(raw)[0]) && !white_space(
            clean_json_spec(raw).last(),
        ),
{
    let tr = trim_spec(raw);
    let t = flatten_newlines(tr);
    let c = clean_json_spec(raw);
    lemma_trim_spec_trimmed(raw);
    lemma_flatten_has_no_line_breaks(tr);
    lemma_clean_json_is_one_line(raw);
    lemma_clean_json_block_is_bracketed(raw);
    if tr.len() > 0 {
        lemma_flatten_ends(tr);
    }
    assert(t.len() > 0 ==> !white_space(t[0]) && !white_space(t.last()));
    assert(c.len() > 0 ==> !white_space(c[0]) && !white_space(c.last()));
    lemma_trim_spec_keeps(c);
    lemma_flatten_keeps_one_line(c);
    if c != t {
        let start = first_opener(t, 0)->0;
        let end = closing_index(t, t[start], start + 1, 1, false, false)->0;
        lemma_first_opener_is_opener(t, 0);
        lemma_closing_index_is_closer(t, t[start], start + 1, 1, false, false);
        assert(c == t.subrange(start, end + 1));
        assert(first_opener(c, 0) == Some(0int));
        lemma_closing_index_within(t, t[start], start, end, start + 1, 1, false, false);
        assert(c.subrange(0, end - start + 1) =~= c);
    }
}

} // verus!
