//! The token stream of the Angel-era text assets (`.blk`, `.ammo`, `.atdt`,
//! `.jump`, ...): whitespace-separated words, `#` / `;` / `//` line
//! comments, quoted strings kept whole without their quotes, and the
//! single-character delimiters `{` `}` `(` `)` `,`.
use crate::text::{ascii_ws, chars_of, copy_range, is_ascii_ws, newline_index, string_from_chars};
use vstd::prelude::*;

verus! {

/// The views of a vector of character vectors.
pub open spec fn views(v: Seq<Vec<char>>) -> Seq<Seq<char>> {
    v.map_values(|x: Vec<char>| x@)
}

pub open spec fn is_delim(c: char) -> bool {
    c == '{' || c == '}' || c == '(' || c == ')' || c == ','
}

/// `s[i..]` starts a `//` comment.
pub open spec fn double_slash(s: Seq<char>, i: int) -> bool {
    s[i] == '/' && i + 1 < s.len() && s[i + 1] == '/'
}

/// `s[i]` starts a line comment.
pub open spec fn starts_comment(s: Seq<char>, i: int) -> bool {
    s[i] == '#' || s[i] == ';' || double_slash(s, i)
}

/// `s[i]` ends a bare word.
pub open spec fn stops_word(s: Seq<char>, i: int) -> bool {
    is_ascii_ws(s[i]) || is_delim(s[i]) || s[i] == '"' || s[i] == '#' || s[i] == ';'
        || double_slash(s, i)
}

/// End (exclusive) of the bare word starting at `i`.
pub open spec fn bare_end(s: Seq<char>, i: int) -> int
    decreases s.len() - i,
{
    if i >= s.len() {
        s.len() as int
    } else if stops_word(s, i) {
        i
    } else {
        bare_end(s, i + 1)
    }
}

/// Index of the first `"` at or after `i` (or `s.len()`).
pub open spec fn quote_end(s: Seq<char>, i: int) -> int
    decreases s.len() - i,
{
    if i >= s.len() {
        s.len() as int
    } else if s[i] == '"' {
        i
    } else {
        quote_end(s, i + 1)
    }
}

/// The tokens of `s[i..]`.
pub open spec fn tokens_from(s: Seq<char>, i: int) -> Seq<Seq<char>>
    decreases s.len() - i,
{
    if i < 0 || i >= s.len() {
        seq![]
    } else {
        let c = s[i];
        if is_ascii_ws(c) {
            tokens_from(s, i + 1)
        } else if starts_comment(s, i) {
            let e = newline_index(s, i);
            if e <= i || e > s.len() {
                seq![]
            } else {
                tokens_from(s, e)
            }
        } else if is_delim(c) {
            seq![seq![c]] + tokens_from(s, i + 1)
        } else if c == '"' {
            let e = quote_end(s, i + 1);
            if e <= i || e > s.len() {
                seq![]
            } else if e < s.len() {
                seq![s.subrange(i + 1, e)] + tokens_from(s, e + 1)
            } else {
                seq![s.subrange(i + 1, e)]
            }
        } else {
            let e = bare_end(s, i);
            if e <= i || e > s.len() {
                seq![]
            } else {
                seq![s.subrange(i, e)] + tokens_from(s, e)
            }
        }
    }
}

/// The tokens of `s`.
pub open spec fn spec_tokens(s: Seq<char>) -> Seq<Seq<char>> {
    tokens_from(s, 0)
}

proof fn lemma_bare_end(s: Seq<char>, i: int, k: int)
    requires
        0 <= i <= k <= s.len(),
        forall|j: int| i <= j < k ==> !stops_word(s, j),
        k == s.len() || stops_word(s, k),
    ensures
        bare_end(s, i) == k,
    decreases k - i,
{
    if i < k {
        lemma_bare_end(s, i + 1, k);
    }
}

proof fn lemma_quote_end(s: Seq<char>, i: int, k: int)
    requires
        0 <= i <= k <= s.len(),
        forall|j: int| i <= j < k ==> s[j] != '"',
        k == s.len() || s[k] == '"',
    ensures
        quote_end(s, i) == k,
    decreases k - i,
{
    if i < k {
        lemma_quote_end(s, i + 1, k);
    }
}

proof fn lemma_newline_at(s: Seq<char>, i: int, k: int)
    requires
        0 <= i <= k <= s.len(),
        forall|j: int| i <= j < k ==> s[j] != '\n',
        k == s.len() || s[k] == '\n',
    ensures
        newline_index(s, i) == k,
    decreases k - i,
{
    if i < k {
        lemma_newline_at(s, i + 1, k);
    }
}

fn is_delim_char(c: char) -> (r: bool)
    ensures
        r == is_delim(c),
{
    c == '{' || c == '}' || c == '(' || c == ')' || c == ','
}

/// Token list of the characters `s`.
pub fn tokenize_chars(s: &[char]) -> (out: Vec<Vec<char>>)
    ensures
        views(out@) == spec_tokens(s@),
{
    let len = s.len();
    let mut out: Vec<Vec<char>> = Vec::new();
    let mut i: usize = 0;
    assert(views(out@) =~= seq![]);
    while i < len
        invariant
            len == s@.len(),
            i <= len,
            views(out@) + tokens_from(s@, i as int) == spec_tokens(s@),
        decreases len - i,
    {
        let c = s[i];
        let ghost old_i = i;
        if ascii_ws(c) {
            i = i + 1;
        } else if c == '#' || c == ';' || (c == '/' && i + 1 < len && s[i + 1] == '/') {
            let mut e = i;
            while e < len && s[e] != '\n'
                invariant
                    i <= e <= len,
                    len == s@.len(),
                    forall|j: int| i <= j < e ==> s@[j] != '\n',
                decreases len - e,
            {
                e = e + 1;
            }
            proof {
                lemma_newline_at(s@, i as int, e as int);
            }
            i = e;
        } else if is_delim_char(c) {
            let mut t: Vec<char> = Vec::new();
            t.push(c);
            proof {
                assert(t@ =~= seq![c]);
            }
            let ghost before = views(out@);
            out.push(t);
            assert(views(out@) =~= before + seq![t@]);
            i = i + 1;
        } else if c == '"' {
            let start = i + 1;
            let mut e = start;
            while e < len && s[e] != '"'
                invariant
                    start <= e <= len,
                    len == s@.len(),
                    forall|j: int| start <= j < e ==> s@[j] != '"',
                decreases len - e,
            {
                e = e + 1;
            }
            proof {
                lemma_quote_end(s@, start as int, e as int);
            }
            let t = copy_range(s, start, e);
            let ghost before = views(out@);
            out.push(t);
            assert(views(out@) =~= before + seq![t@]);
            if e < len {
                i = e + 1;
            } else {
                assert(tokens_from(s@, old_i as int) == seq![t@]);
                assert(views(out@) == spec_tokens(s@));
                return out;
            }
        } else {
            let start = i;
            let mut e = i;
            while e < len && !(ascii_ws(s[e]) || is_delim_char(s[e]) || s[e] == '"' || s[e]
                == '#' || s[e] == ';' || (s[e] == '/' && e + 1 < len && s[e + 1] == '/'))
                invariant
                    start <= e <= len,
                    len == s@.len(),
                    forall|j: int| start <= j < e ==> !stops_word(s@, j),
                decreases len - e,
            {
                e = e + 1;
            }
            proof {
                lemma_bare_end(s@, start as int, e as int);
                assert(!stops_word(s@, start as int));
            }
            let t = copy_range(s, start, e);
            let ghost before = views(out@);
            out.push(t);
            assert(views(out@) =~= before + seq![t@]);
            i = e;
        }
        assert(views(out@) + tokens_from(s@, i as int) =~= spec_tokens(s@));
    }
    assert(tokens_from(s@, i as int) =~= seq![]);
    assert(views(out@) =~= spec_tokens(s@));
    out
}

/// `String`s holding the views `v`.
pub fn strings_of(v: &Vec<Vec<char>>) -> (r: Vec<String>)
    ensures
        r@.len() == v@.len(),
        forall|k: int| 0 <= k < r@.len() ==> #[trigger] r@[k]@ == v@[k]@,
{
    let mut r: Vec<String> = Vec::new();
    let mut k: usize = 0;
    while k < v.len()
        invariant
            k <= v@.len(),
            r@.len() == k,
            forall|j: int| 0 <= j < k ==> #[trigger] r@[j]@ == v@[j]@,
        decreases v.len() - k,
    {
        r.push(string_from_chars(v[k].as_slice()));
        k = k + 1;
    }
    r
}

/// Tokens of `src` as owned strings.
pub fn tokenize(src: &str) -> (r: Vec<String>)
    ensures
        r@.len() == spec_tokens(src@).len(),
        forall|k: int| 0 <= k < r@.len() ==> #[trigger] r@[k]@ == spec_tokens(src@)[k],
{
    let s = chars_of(src);
    let toks = tokenize_chars(s.as_slice());
    let r = strings_of(&toks);
    assert forall|k: int| 0 <= k < r@.len() implies #[trigger] r@[k]@ == spec_tokens(src@)[k] by {
        assert(views(toks@)[k] == toks@[k]@);
    }
    r
}

} // verus!
