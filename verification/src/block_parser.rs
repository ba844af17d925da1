//! A cursor over the token stream of an Angel-era text asset.
//!
//! Low-level primitives (`peek`, `next`, `check_token`, `get_token`,
//! `get_delimiter`, `get_int`, `get_float`, `get_vec3`, `match_float`,
//! `get_color`) fail or succeed on the very next token; high-level helpers
//! (`start`, `start_if_peek`, `start_anonymous`, `endblock`, `read_*`) read
//! `key VALUE` pairs guarded by a peek at the key.
//!
//! Floating-point values are handed out as their text: a token is a float
//! exactly when `str::parse::<f32>` accepts it ([`is_float_text`]), and the
//! caller converts the text.
use crate::text::{
    chars_eq, chars_eq_ic, chars_of, eq_ic, float_text, is_float_text, parse_i32,
    spec_parse_i32, trim_quote_chars, trim_quotes,
};
use crate::tokenizer::{spec_tokens, tokenize_chars, views};
use vstd::prelude::*;

verus! {

// ---------------------------------------------------------------------
// The cursor model: a token sequence and a position in it
// ---------------------------------------------------------------------

/// The token at `p`, if any.
pub open spec fn tok_at(ts: Seq<Seq<char>>, p: int) -> Option<Seq<char>> {
    if 0 <= p < ts.len() {
        Some(ts[p])
    } else {
        None
    }
}

/// Position after consuming the token at `p`, if there is one.
pub open spec fn advance(ts: Seq<Seq<char>>, p: int) -> int {
    if 0 <= p < ts.len() {
        p + 1
    } else {
        p
    }
}

/// The token `t` when it is a float.
pub open spec fn as_float(t: Option<Seq<char>>) -> Option<Seq<char>> {
    match t {
        Some(x) => if is_float_text(x) {
            Some(x)
        } else {
            None
        },
        None => None,
    }
}

/// The token `t` read as an `i32`.
pub open spec fn as_i32(t: Option<Seq<char>>) -> Option<i32> {
    match t {
        Some(x) => spec_parse_i32(x),
        None => None,
    }
}

/// `key VALUE` reader: if the token at `p` is exactly `key`, the key and the
/// value after it (when there is one) are consumed and the value returned.
pub open spec fn sp_read_raw(ts: Seq<Seq<char>>, p: int, key: Seq<char>) -> (
    Option<Seq<char>>,
    int,
) {
    if tok_at(ts, p) == Some(key) {
        if p + 1 < ts.len() {
            (Some(ts[p + 1]), p + 2)
        } else {
            (None, p + 1)
        }
    } else {
        (None, p)
    }
}

/// `read_i32_opt`.
pub open spec fn sp_read_i32_opt(ts: Seq<Seq<char>>, p: int, key: Seq<char>) -> (Option<i32>, int) {
    let (v, q) = sp_read_raw(ts, p, key);
    (as_i32(v), q)
}

/// `read_float_opt`.
pub open spec fn sp_read_float_opt(ts: Seq<Seq<char>>, p: int, key: Seq<char>) -> (
    Option<Seq<char>>,
    int,
) {
    let (v, q) = sp_read_raw(ts, p, key);
    (as_float(v), q)
}

/// `read_string_opt`: the value without surrounding quotes.
pub open spec fn sp_read_string_opt(ts: Seq<Seq<char>>, p: int, key: Seq<char>) -> (
    Option<Seq<char>>,
    int,
) {
    let (v, q) = sp_read_raw(ts, p, key);
    (
        match v {
            Some(x) => Some(trim_quotes(x)),
            None => None,
        },
        q,
    )
}

/// `get_delimiter`: the next token is consumed; success when it equals
/// `name` up to ASCII case.
pub open spec fn sp_get_delimiter(ts: Seq<Seq<char>>, p: int, name: Seq<char>) -> (bool, int) {
    match tok_at(ts, p) {
        Some(t) => (eq_ic(t, name), p + 1),
        None => (false, p),
    }
}

/// `get_float`: the next token is consumed and must be a float.
pub open spec fn sp_get_float(ts: Seq<Seq<char>>, p: int) -> (Option<Seq<char>>, int) {
    (as_float(tok_at(ts, p)), advance(ts, p))
}

/// `match_float`: keyword `name`, then a float.
pub open spec fn sp_match_float(ts: Seq<Seq<char>>, p: int, name: Seq<char>) -> (
    Option<Seq<char>>,
    int,
) {
    let (ok, q) = sp_get_delimiter(ts, p, name);
    if ok {
        sp_get_float(ts, q)
    } else {
        (None, q)
    }
}

/// The token at `p` equals `name` up to ASCII case.
pub open spec fn peek_is_ic(ts: Seq<Seq<char>>, p: int, name: Seq<char>) -> bool {
    match tok_at(ts, p) {
        Some(t) => eq_ic(t, name),
        None => false,
    }
}

/// `endblock`: a `}` is consumed and ends the block; the end of the stream
/// ends it too.
pub open spec fn sp_endblock(ts: Seq<Seq<char>>, p: int) -> (bool, int) {
    if tok_at(ts, p) == Some(seq!['}']) {
        (true, p + 1)
    } else {
        (tok_at(ts, p) is None, p)
    }
}

/// `start_anonymous`: a `{` is consumed.
pub open spec fn sp_start_anonymous(ts: Seq<Seq<char>>, p: int) -> (bool, int) {
    if tok_at(ts, p) == Some(seq!['{']) {
        (true, p + 1)
    } else {
        (false, p)
    }
}

/// Position after the optional `{` at `p`.
pub open spec fn skip_open_brace(ts: Seq<Seq<char>>, p: int) -> int {
    if tok_at(ts, p) == Some(seq!['{']) {
        p + 1
    } else {
        p
    }
}

/// First position at or after `p` holding exactly `name` (or `ts.len()`).
pub open spec fn find_tok(ts: Seq<Seq<char>>, p: int, name: Seq<char>) -> int
    decreases ts.len() - p,
{
    if p >= ts.len() {
        ts.len() as int
    } else if ts[p] == name {
        p
    } else {
        find_tok(ts, p + 1, name)
    }
}

/// `find_tok` lies between `p` and the end.
pub proof fn lemma_find_tok_bounds(ts: Seq<Seq<char>>, p: int, name: Seq<char>)
    requires
        0 <= p <= ts.len(),
    ensures
        p <= find_tok(ts, p, name) <= ts.len(),
    decreases ts.len() - p,
{
    if p < ts.len() && ts[p] != name {
        lemma_find_tok_bounds(ts, p + 1, name);
    }
}

/// `start`: skip to the first `name`, consume it and an optional `{`.
pub open spec fn sp_start(ts: Seq<Seq<char>>, p: int, name: Seq<char>) -> (bool, int) {
    let j = find_tok(ts, p, name);
    if j < ts.len() {
        (true, skip_open_brace(ts, j + 1))
    } else {
        (false, ts.len() as int)
    }
}

/// `start_if_peek`: like `start`, but only when `name` is the next token.
pub open spec fn sp_start_if_peek(ts: Seq<Seq<char>>, p: int, name: Seq<char>) -> (bool, int) {
    if tok_at(ts, p) == Some(name) {
        (true, skip_open_brace(ts, p + 1))
    } else {
        (false, p)
    }
}

/// The text `"0"`, standing for a float that failed to parse.
pub open spec fn zero_text() -> Seq<char> {
    seq!['0']
}

/// A value token read as a float, `"0"` when it is not one.
pub open spec fn float_or_zero(t: Seq<char>) -> Seq<char> {
    if is_float_text(t) {
        t
    } else {
        zero_text()
    }
}

/// `read_vec{n}_opt`: after the key, `n` tokens are read as floats; the
/// result is `None` when the key is absent or the stream ends first.
pub open spec fn sp_read_floats_opt(ts: Seq<Seq<char>>, p: int, key: Seq<char>, n: int) -> (
    Option<Seq<Seq<char>>>,
    int,
) {
    if tok_at(ts, p) == Some(key) {
        if p + 1 + n <= ts.len() {
            (
                Some(Seq::new(n as nat, |k: int| float_or_zero(ts[p + 1 + k]))),
                p + 1 + n,
            )
        } else {
            (None, ts.len() as int)
        }
    } else {
        (None, p)
    }
}

/// First position at or after `p` holding `key` (ASCII case ignored) or
/// a brace, or the end.
pub open spec fn rgba_scan(ts: Seq<Seq<char>>, p: int, key: Seq<char>) -> int
    decreases ts.len() - p,
{
    if p < 0 || p >= ts.len() {
        ts.len() as int
    } else if eq_ic(ts[p], key) || ts[p] == seq!['{'] || ts[p] == seq!['}'] {
        p
    } else {
        rgba_scan(ts, p + 1, key)
    }
}

/// `read_rgba`: tokens are skipped up to `key` (ASCII case ignored), but
/// not past a brace; after the key, four tokens are read, each a float
/// or `None` (the caller's default), as long as tokens remain.
pub open spec fn sp_read_rgba(ts: Seq<Seq<char>>, p: int, key: Seq<char>) -> (
    Option<Seq<Option<Seq<char>>>>,
    int,
) {
    let j = rgba_scan(ts, p, key);
    if 0 <= j < ts.len() && eq_ic(ts[j], key) {
        let q1 = j + 1;
        let q2 = advance(ts, q1);
        let q3 = advance(ts, q2);
        let q4 = advance(ts, q3);
        (
            Some(
                seq![
                    as_float(tok_at(ts, q1)),
                    as_float(tok_at(ts, q2)),
                    as_float(tok_at(ts, q3)),
                    as_float(tok_at(ts, q4)),
                ],
            ),
            advance(ts, q4),
        )
    } else {
        (None, j)
    }
}

/// Errors of the primitives that demand a token.
#[derive(Debug, PartialEq, Eq)]
pub enum TokenError {
    /// The stream ended.
    UnexpectedEof,
    /// The next token was not the expected delimiter or keyword.
    ExpectedDelimiter { expected: String, got: Option<String> },
    /// The next token is not an `i32`.
    ExpectedInt(String),
    /// The next token is not a float.
    ExpectedFloat(String),
}

/// Token cursor over a text asset.
pub struct BlockParser {
    toks: Vec<Vec<char>>,
    texts: Vec<String>,
    pos: usize,
}

impl BlockParser {
    /// The token sequence.
    pub closed spec fn tokens(&self) -> Seq<Seq<char>> {
        views(self.toks@)
    }

    /// The position of the next token.
    pub closed spec fn position(&self) -> int {
        self.pos as int
    }

    #[verifier::type_invariant]
    closed spec fn inv(&self) -> bool {
        &&& self.texts@.len() == self.toks@.len()
        &&& forall|k: int| 0 <= k < self.toks@.len() ==> #[trigger] self.texts@[k]@ == self.toks@[k]@
        &&& self.pos <= self.toks@.len()
    }

    /// A cursor at the start of the tokens of `content`.
    pub fn new(content: &str) -> (r: Self)
        ensures
            r.tokens() == spec_tokens(content@),
            r.position() == 0,
    {
        let s = chars_of(content);
        let toks = tokenize_chars(s.as_slice());
        let mut texts: Vec<String> = Vec::new();
        let mut k: usize = 0;
        while k < toks.len()
            invariant
                k <= toks@.len(),
                texts@.len() == k,
                forall|j: int| 0 <= j < k ==> #[trigger] texts@[j]@ == toks@[j]@,
            decreases toks.len() - k,
        {
            texts.push(crate::text::string_from_chars(toks[k].as_slice()));
            k = k + 1;
        }
        BlockParser { toks, texts, pos: 0 }
    }

    fn peek_chars(&self) -> (r: Option<&Vec<char>>)
        ensures
            match r {
                Some(t) => tok_at(self.tokens(), self.position()) == Some(t@),
                None => tok_at(self.tokens(), self.position()) is None,
            },
    {
        proof {
            use_type_invariant(self);
        }
        if self.pos < self.toks.len() {
            Some(&self.toks[self.pos])
        } else {
            None
        }
    }

    /// The token at the cursor is exactly `key`.
    fn peek_eq(&self, key: &[char]) -> (r: bool)
        ensures
            r == (tok_at(self.tokens(), self.position()) == Some(key@)),
    {
        match self.peek_chars() {
            Some(t) => chars_eq(t.as_slice(), key),
            None => false,
        }
    }

    /// The token at the cursor equals `key` up to ASCII case.
    fn peek_eq_ic(&self, key: &[char]) -> (r: bool)
        ensures
            r == peek_is_ic(self.tokens(), self.position(), key@),
    {
        match self.peek_chars() {
            Some(t) => chars_eq_ic(t.as_slice(), key),
            None => false,
        }
    }

    fn bump(&mut self)
        ensures
            final(self).tokens() == old(self).tokens(),
            final(self).position() == advance(old(self).tokens(), old(self).position()),
    {
        proof {
            use_type_invariant(&*self);
        }
        if self.pos < self.toks.len() {
            self.pos = self.pos + 1;
        }
    }

    /// The next token, without consuming it.
    pub fn peek(&self) -> (r: Option<&str>)
        ensures
            match r {
                Some(t) => tok_at(self.tokens(), self.position()) == Some(t@),
                None => tok_at(self.tokens(), self.position()) is None,
            },
    {
        proof {
            use_type_invariant(self);
        }
        if self.pos < self.texts.len() {
            Some(self.texts[self.pos].as_str())
        } else {
            None
        }
    }

    /// Consume and return the next token.
    pub fn next(&mut self) -> (r: Option<String>)
        ensures
            final(self).tokens() == old(self).tokens(),
            final(self).position() == advance(old(self).tokens(), old(self).position()),
            match r {
                Some(t) => tok_at(old(self).tokens(), old(self).position()) == Some(t@),
                None => tok_at(old(self).tokens(), old(self).position()) is None,
            },
    {
        proof {
            use_type_invariant(&*self);
        }
        if self.pos < self.texts.len() {
            let t = self.texts[self.pos].clone();
            self.pos = self.pos + 1;
            Some(t)
        } else {
            None
        }
    }

    /// If the next token equals `name` up to ASCII case, consume it.
    pub fn check_token(&mut self, name: &str) -> (r: bool)
        ensures
            final(self).tokens() == old(self).tokens(),
            r == peek_is_ic(old(self).tokens(), old(self).position(), name@),
            final(self).position() == if r {
                old(self).position() + 1
            } else {
                old(self).position()
            },
    {
        let n = chars_of(name);
        if self.peek_eq_ic(n.as_slice()) {
            self.bump();
            true
        } else {
            false
        }
    }

    /// Consume the next token; an error at the end of the stream.
    pub fn get_token(&mut self) -> (r: Result<String, TokenError>)
        ensures
            final(self).tokens() == old(self).tokens(),
            final(self).position() == advance(old(self).tokens(), old(self).position()),
            match r {
                Ok(t) => tok_at(old(self).tokens(), old(self).position()) == Some(t@),
                Err(e) => tok_at(old(self).tokens(), old(self).position()) is None && e
                    == TokenError::UnexpectedEof,
            },
    {
        match self.next() {
            Some(t) => Ok(t),
            None => Err(TokenError::UnexpectedEof),
        }
    }

    /// Consume the next token and require it to equal `name` up to ASCII
    /// case.
    pub fn get_delimiter(&mut self, name: &str) -> (r: Result<(), TokenError>)
        ensures
            final(self).tokens() == old(self).tokens(),
            ({
                let (ok, q) = sp_get_delimiter(old(self).tokens(), old(self).position(), name@);
                &&& final(self).position() == q
                &&& match r {
                    Ok(_) => ok,
                    Err(TokenError::ExpectedDelimiter { expected, got }) => !ok && expected@
                        == name@ && match got {
                        Some(g) => tok_at(old(self).tokens(), old(self).position()) == Some(g@),
                        None => tok_at(old(self).tokens(), old(self).position()) is None,
                    },
                    Err(_) => false,
                }
            }),
    {
        let n = chars_of(name);
        let matched = self.peek_eq_ic(n.as_slice());
        let got = self.next();
        if matched {
            Ok(())
        } else {
            Err(TokenError::ExpectedDelimiter { expected: name.to_owned(), got })
        }
    }

    /// Consume the next token and read it as an `i32`.
    pub fn get_int(&mut self) -> (r: Result<i32, TokenError>)
        ensures
            final(self).tokens() == old(self).tokens(),
            final(self).position() == advance(old(self).tokens(), old(self).position()),
            match r {
                Ok(v) => as_i32(tok_at(old(self).tokens(), old(self).position())) == Some(v),
                Err(TokenError::UnexpectedEof) => tok_at(
                    old(self).tokens(),
                    old(self).position(),
                ) is None,
                Err(TokenError::ExpectedInt(t)) => tok_at(
                    old(self).tokens(),
                    old(self).position(),
                ) == Some(t@) && spec_parse_i32(t@) is None,
                Err(_) => false,
            },
    {
        let t = self.get_token()?;
        let c = chars_of(t.as_str());
        match parse_i32(c.as_slice()) {
            Some(v) => Ok(v),
            None => Err(TokenError::ExpectedInt(t)),
        }
    }

    /// Consume the next token and return it when it is a float.
    pub fn get_float(&mut self) -> (r: Result<String, TokenError>)
        ensures
            final(self).tokens() == old(self).tokens(),
            ({
                let (v, q) = sp_get_float(old(self).tokens(), old(self).position());
                &&& final(self).position() == q
                &&& match r {
                    Ok(t) => v == Some(t@),
                    Err(TokenError::UnexpectedEof) => tok_at(
                        old(self).tokens(),
                        old(self).position(),
                    ) is None,
                    Err(TokenError::ExpectedFloat(t)) => tok_at(
                        old(self).tokens(),
                        old(self).position(),
                    ) == Some(t@) && v is None,
                    Err(_) => false,
                }
            }),
    {
        let t = self.get_token()?;
        let c = chars_of(t.as_str());
        if float_text(c.as_slice()) {
            Ok(t)
        } else {
            Err(TokenError::ExpectedFloat(t))
        }
    }

    /// Consume three floats.
    pub fn get_vec3(&mut self) -> (r: Result<[String; 3], TokenError>)
        ensures
            final(self).tokens() == old(self).tokens(),
            ({
                let ts = old(self).tokens();
                let p = old(self).position();
                let (x, p1) = sp_get_float(ts, p);
                let (y, p2) = sp_get_float(ts, p1);
                let (z, p3) = sp_get_float(ts, p2);
                match r {
                    Ok(v) => x == Some(v@[0]@) && y == Some(v@[1]@) && z == Some(v@[2]@)
                        && final(self).position() == p3,
                    Err(_) => x is None || y is None || z is None,
                }
            }),
    {
        let x = self.get_float()?;
        let y = self.get_float()?;
        let z = self.get_float()?;
        Ok([x, y, z])
    }

    /// Keyword `name`, then a float.
    pub fn match_float(&mut self, name: &str) -> (r: Result<String, TokenError>)
        ensures
            final(self).tokens() == old(self).tokens(),
            ({
                let (v, q) = sp_match_float(old(self).tokens(), old(self).position(), name@);
                &&& final(self).position() == q
                &&& match r {
                    Ok(t) => v == Some(t@),
                    Err(_) => v is None,
                }
            }),
    {
        self.get_delimiter(name)?;
        self.get_float()
    }

    /// Four ints as an RGBA color (each truncated to a byte).
    pub fn get_color(&mut self) -> (r: Result<[u8; 4], TokenError>)
        ensures
            final(self).tokens() == old(self).tokens(),
            ({
                let ts = old(self).tokens();
                let p = old(self).position();
                match r {
                    Ok(c) => p + 4 <= ts.len() && final(self).position() == p + 4 && forall|
                        k: int,
                    |
                        0 <= k < 4 ==> (#[trigger] as_i32(tok_at(ts, p + k)) matches Some(v) && c@[k]
                            == v as u8),
                    Err(_) => exists|k: int|
                        0 <= k < 4 && #[trigger] as_i32(tok_at(ts, p + k)) is None,
                }
            }),
    {
        let ghost ts = self.tokens();
        let ghost p = self.position();
        proof {
            use_type_invariant(&*self);
        }
        let r = self.get_int();
        if r.is_err() {
            assert(as_i32(tok_at(ts, p + 0)) is None);
            return Err(r.unwrap_err());
        }
        let r0 = r.unwrap();
        let g = self.get_int();
        if g.is_err() {
            assert(as_i32(tok_at(ts, p + 1)) is None);
            return Err(g.unwrap_err());
        }
        let g0 = g.unwrap();
        let b = self.get_int();
        if b.is_err() {
            assert(as_i32(tok_at(ts, p + 2)) is None);
            return Err(b.unwrap_err());
        }
        let b0 = b.unwrap();
        let a = self.get_int();
        if a.is_err() {
            assert(as_i32(tok_at(ts, p + 3)) is None);
            return Err(a.unwrap_err());
        }
        let a0 = a.unwrap();
        let c: [u8; 4] = [r0 as u8, g0 as u8, b0 as u8, a0 as u8];
        assert forall|k: int| 0 <= k < 4 implies (#[trigger] as_i32(tok_at(ts, p + k)) matches Some(
            v,
        ) && c@[k] == v as u8) by {
            if k == 0 {
            } else if k == 1 {
            } else if k == 2 {
            } else {
            }
        }
        Ok(c)
    }

    /// Skip to the first token equal to `block_name`, consume it and an
    /// optional `{`. Everything before it is dropped; when it never shows
    /// up the whole stream is consumed.
    pub fn start(&mut self, block_name: &str) -> (r: bool)
        ensures
            final(self).tokens() == old(self).tokens(),
            (r, final(self).position()) == sp_start(
                old(self).tokens(),
                old(self).position(),
                block_name@,
            ),
    {
        proof {
            use_type_invariant(&*self);
        }
        let n = chars_of(block_name);
        let ghost ts = self.tokens();
        let ghost p0 = self.position();
        while self.pos < self.toks.len()
            invariant
                self.tokens() == ts,
                ts == old(self).tokens(),
                p0 == old(self).position(),
                p0 <= self.position() <= ts.len(),
                self.pos <= self.toks@.len(),
                ts.len() == self.toks@.len(),
                n@ == block_name@,
                find_tok(ts, p0, block_name@) == find_tok(ts, self.position(), block_name@),
            decreases self.toks.len() - self.pos,
        {
            proof {
                use_type_invariant(&*self);
            }
            if chars_eq(self.toks[self.pos].as_slice(), n.as_slice()) {
                assert(ts[self.position()] == self.toks@[self.pos as int]@);
                self.pos = self.pos + 1;
                let o = self.start_anonymous();
                return true;
            }
            self.pos = self.pos + 1;
        }
        false
    }

    /// Like `start`, but only when `block_name` is the next token.
    pub fn start_if_peek(&mut self, block_name: &str) -> (r: bool)
        ensures
            final(self).tokens() == old(self).tokens(),
            (r, final(self).position()) == sp_start_if_peek(
                old(self).tokens(),
                old(self).position(),
                block_name@,
            ),
    {
        let n = chars_of(block_name);
        if self.peek_eq(n.as_slice()) {
            self.bump();
            let o = self.start_anonymous();
            true
        } else {
            false
        }
    }

    /// Consume a `{` if it is the next token.
    pub fn start_anonymous(&mut self) -> (r: bool)
        ensures
            final(self).tokens() == old(self).tokens(),
            (r, final(self).position()) == sp_start_anonymous(
                old(self).tokens(),
                old(self).position(),
            ),
    {
        let brace: [char; 1] = ['{'];
        assert(brace@ =~= seq!['{']);
        if self.peek_eq(&brace) {
            self.bump();
            true
        } else {
            false
        }
    }

    /// True when the next token is `}` (consumed) or the stream has ended.
    pub fn endblock(&mut self) -> (r: bool)
        ensures
            final(self).tokens() == old(self).tokens(),
            (r, final(self).position()) == sp_endblock(old(self).tokens(), old(self).position()),
    {
        let brace: [char; 1] = ['}'];
        assert(brace@ =~= seq!['}']);
        if self.peek_eq(&brace) {
            self.bump();
            true
        } else {
            self.peek_chars().is_none()
        }
    }

    /// Consume the next token if it is exactly `expected_key`.
    pub fn consume_key(&mut self, expected_key: &str) -> (r: bool)
        ensures
            final(self).tokens() == old(self).tokens(),
            r == (tok_at(old(self).tokens(), old(self).position()) == Some(expected_key@)),
            final(self).position() == if r {
                old(self).position() + 1
            } else {
                old(self).position()
            },
    {
        let n = chars_of(expected_key);
        if self.peek_eq(n.as_slice()) {
            self.bump();
            true
        } else {
            false
        }
    }

    /// The raw value after the key `key`.
    fn read_raw_chars(&mut self, key: &[char]) -> (r: Option<String>)
        ensures
            final(self).tokens() == old(self).tokens(),
            ({
                let (v, q) = sp_read_raw(old(self).tokens(), old(self).position(), key@);
                &&& final(self).position() == q
                &&& match r {
                    Some(t) => v == Some(t@),
                    None => v is None,
                }
            }),
    {
        if self.peek_eq(key) {
            self.bump();
            self.next()
        } else {
            None
        }
    }

    /// The raw value after `expected_key`.
    fn read_raw(&mut self, expected_key: &str) -> (r: Option<String>)
        ensures
            final(self).tokens() == old(self).tokens(),
            ({
                let (v, q) = sp_read_raw(old(self).tokens(), old(self).position(), expected_key@);
                &&& final(self).position() == q
                &&& match r {
                    Some(t) => v == Some(t@),
                    None => v is None,
                }
            }),
    {
        let n = chars_of(expected_key);
        self.read_raw_chars(n.as_slice())
    }

    /// `read_i32_opt` with the key given as characters.
    pub fn read_i32_opt_chars(&mut self, key: &[char]) -> (r: Option<i32>)
        ensures
            final(self).tokens() == old(self).tokens(),
            (r, final(self).position()) == sp_read_i32_opt(
                old(self).tokens(),
                old(self).position(),
                key@,
            ),
    {
        match self.read_raw_chars(key) {
            Some(t) => {
                let c = chars_of(t.as_str());
                parse_i32(c.as_slice())
            },
            None => None,
        }
    }

    /// `expected_key VALUE` with an `i32` value.
    pub fn read_i32_opt(&mut self, expected_key: &str) -> (r: Option<i32>)
        ensures
            final(self).tokens() == old(self).tokens(),
            (r, final(self).position()) == sp_read_i32_opt(
                old(self).tokens(),
                old(self).position(),
                expected_key@,
            ),
    {
        match self.read_raw(expected_key) {
            Some(t) => {
                let c = chars_of(t.as_str());
                parse_i32(c.as_slice())
            },
            None => None,
        }
    }

    /// `read_i32_opt`, or `default`.
    pub fn read_i32(&mut self, expected_key: &str, default: i32) -> (r: i32)
        ensures
            final(self).tokens() == old(self).tokens(),
            ({
                let (v, q) = sp_read_i32_opt(
                    old(self).tokens(),
                    old(self).position(),
                    expected_key@,
                );
                &&& final(self).position() == q
                &&& r == match v {
                    Some(x) => x,
                    None => default,
                }
            }),
    {
        match self.read_i32_opt(expected_key) {
            Some(v) => v,
            None => default,
        }
    }

    /// `expected_key VALUE` with a float value (its text).
    pub fn read_float_opt(&mut self, expected_key: &str) -> (r: Option<String>)
        ensures
            final(self).tokens() == old(self).tokens(),
            ({
                let (v, q) = sp_read_float_opt(
                    old(self).tokens(),
                    old(self).position(),
                    expected_key@,
                );
                &&& final(self).position() == q
                &&& match r {
                    Some(t) => v == Some(t@),
                    None => v is None,
                }
            }),
    {
        match self.read_raw(expected_key) {
            Some(t) => {
                let c = chars_of(t.as_str());
                if float_text(c.as_slice()) {
                    Some(t)
                } else {
                    None
                }
            },
            None => None,
        }
    }

    /// `read_float_opt`, or the text `default`.
    pub fn read_float(&mut self, expected_key: &str, default: &str) -> (r: String)
        ensures
            final(self).tokens() == old(self).tokens(),
            ({
                let (v, q) = sp_read_float_opt(
                    old(self).tokens(),
                    old(self).position(),
                    expected_key@,
                );
                &&& final(self).position() == q
                &&& r@ == match v {
                    Some(x) => x,
                    None => default@,
                }
            }),
    {
        match self.read_float_opt(expected_key) {
            Some(v) => v,
            None => default.to_owned(),
        }
    }

    /// `expected_key VALUE` with a string value (surrounding quotes removed).
    pub fn read_string_opt(&mut self, expected_key: &str) -> (r: Option<String>)
        ensures
            final(self).tokens() == old(self).tokens(),
            ({
                let (v, q) = sp_read_string_opt(
                    old(self).tokens(),
                    old(self).position(),
                    expected_key@,
                );
                &&& final(self).position() == q
                &&& match r {
                    Some(t) => v == Some(t@),
                    None => v is None,
                }
            }),
    {
        match self.read_raw(expected_key) {
            Some(t) => {
                let c = chars_of(t.as_str());
                let trimmed = trim_quote_chars(c.as_slice());
                Some(crate::text::string_from_chars(trimmed.as_slice()))
            },
            None => None,
        }
    }

    /// `read_string_opt`, or `default`.
    pub fn read_string(&mut self, expected_key: &str, default: &str) -> (r: String)
        ensures
            final(self).tokens() == old(self).tokens(),
            ({
                let (v, q) = sp_read_string_opt(
                    old(self).tokens(),
                    old(self).position(),
                    expected_key@,
                );
                &&& final(self).position() == q
                &&& r@ == match v {
                    Some(x) => x,
                    None => default@,
                }
            }),
    {
        match self.read_string_opt(expected_key) {
            Some(v) => v,
            None => default.to_owned(),
        }
    }

    /// Consume the next token as a float text, `"0"` when it is not a float.
    fn float_or_zero_next(&mut self) -> (r: String)
        requires
            old(self).position() < old(self).tokens().len(),
        ensures
            final(self).tokens() == old(self).tokens(),
            final(self).position() == old(self).position() + 1,
            r@ == float_or_zero(old(self).tokens()[old(self).position()]),
    {
        let t = self.next().unwrap();
        let c = chars_of(t.as_str());
        if float_text(c.as_slice()) {
            t
        } else {
            let z: [char; 1] = ['0'];
            assert(z@ =~= zero_text());
            crate::text::string_from_chars(&z)
        }
    }

    /// `n` float values after `expected_key`.
    fn read_floats_opt(&mut self, expected_key: &str, n: usize) -> (r: Option<Vec<String>>)
        requires
            n <= 4,
        ensures
            final(self).tokens() == old(self).tokens(),
            ({
                let (v, q) = sp_read_floats_opt(
                    old(self).tokens(),
                    old(self).position(),
                    expected_key@,
                    n as int,
                );
                &&& final(self).position() == q
                &&& match r {
                    Some(xs) => (v matches Some(ys) && xs@.len() == n && forall|k: int|
                        0 <= k < n ==> #[trigger] xs@[k]@ == ys[k]),
                    None => v is None,
                }
            }),
    {
        proof {
            use_type_invariant(&*self);
        }
        let ghost ts = self.tokens();
        let ghost p0 = self.position();
        if !self.consume_key(expected_key) {
            return None;
        }
        let mut out: Vec<String> = Vec::new();
        let mut k: usize = 0;
        while k < n
            invariant
                self.tokens() == ts,
                ts == old(self).tokens(),
                p0 == old(self).position(),
                tok_at(ts, p0) == Some(expected_key@),
                k <= n <= 4,
                self.position() == p0 + 1 + k,
                self.position() <= ts.len(),
                out@.len() == k,
                forall|j: int| 0 <= j < k ==> #[trigger] out@[j]@ == float_or_zero(ts[p0 + 1 + j]),
            decreases n - k,
        {
            proof {
                use_type_invariant(&*self);
            }
            if self.pos >= self.toks.len() {
                return None;
            }
            let v = self.float_or_zero_next();
            out.push(v);
            k = k + 1;
        }
        Some(out)
    }

    /// `expected_key X Y Z`; values that are not floats read as `"0"`.
    pub fn read_vec3_opt(&mut self, expected_key: &str) -> (r: Option<[String; 3]>)
        ensures
            final(self).tokens() == old(self).tokens(),
            ({
                let (v, q) = sp_read_floats_opt(
                    old(self).tokens(),
                    old(self).position(),
                    expected_key@,
                    3,
                );
                &&& final(self).position() == q
                &&& match r {
                    Some(xs) => (v matches Some(ys) && forall|k: int|
                        0 <= k < 3 ==> #[trigger] xs@[k]@ == ys[k]),
                    None => v is None,
                }
            }),
    {
        match self.read_floats_opt(expected_key, 3) {
            Some(mut xs) => {
                let z = xs.pop().unwrap();
                let y = xs.pop().unwrap();
                let x = xs.pop().unwrap();
                Some([x, y, z])
            },
            None => None,
        }
    }

    /// `read_vec3_opt`, or `default`.
    pub fn read_vec3(&mut self, expected_key: &str, default: [String; 3]) -> (r: [String; 3])
        ensures
            final(self).tokens() == old(self).tokens(),
            ({
                let (v, q) = sp_read_floats_opt(
                    old(self).tokens(),
                    old(self).position(),
                    expected_key@,
                    3,
                );
                &&& final(self).position() == q
                &&& match v {
                    Some(ys) => forall|k: int| 0 <= k < 3 ==> #[trigger] r@[k]@ == ys[k],
                    None => r == default,
                }
            }),
    {
        match self.read_vec3_opt(expected_key) {
            Some(v) => v,
            None => default,
        }
    }

    /// `expected_key X Y`; values that are not floats read as `"0"`.
    pub fn read_vec2_opt(&mut self, expected_key: &str) -> (r: Option<[String; 2]>)
        ensures
            final(self).tokens() == old(self).tokens(),
            ({
                let (v, q) = sp_read_floats_opt(
                    old(self).tokens(),
                    old(self).position(),
                    expected_key@,
                    2,
                );
                &&& final(self).position() == q
                &&& match r {
                    Some(xs) => (v matches Some(ys) && forall|k: int|
                        0 <= k < 2 ==> #[trigger] xs@[k]@ == ys[k]),
                    None => v is None,
                }
            }),
    {
        match self.read_floats_opt(expected_key, 2) {
            Some(mut xs) => {
                let y = xs.pop().unwrap();
                let x = xs.pop().unwrap();
                Some([x, y])
            },
            None => None,
        }
    }

    /// `read_vec2_opt`, or `default`.
    pub fn read_vec2(&mut self, expected_key: &str, default: [String; 2]) -> (r: [String; 2])
        ensures
            final(self).tokens() == old(self).tokens(),
            ({
                let (v, q) = sp_read_floats_opt(
                    old(self).tokens(),
                    old(self).position(),
                    expected_key@,
                    2,
                );
                &&& final(self).position() == q
                &&& match v {
                    Some(ys) => forall|k: int| 0 <= k < 2 ==> #[trigger] r@[k]@ == ys[k],
                    None => r == default,
                }
            }),
    {
        match self.read_vec2_opt(expected_key) {
            Some(v) => v,
            None => default,
        }
    }

    /// `expected_key R G B A`, found by skipping tokens up to it (not past
    /// a brace): each channel's float text, `None` where it is missing or
    /// not a float.
    pub fn read_rgba(&mut self, expected_key: &str) -> (r: Option<Vec<Option<String>>>)
        ensures
            final(self).tokens() == old(self).tokens(),
            ({
                let (v, q) = sp_read_rgba(old(self).tokens(), old(self).position(), expected_key@);
                &&& final(self).position() == q
                &&& match r {
                    Some(cs) => v matches Some(ys) && cs@.len() == 4 && forall|k: int|
                        0 <= k < 4 ==> (match #[trigger] cs@[k] {
                            Some(t) => Some(t@),
                            None => None,
                        }) == ys[k],
                    None => v is None,
                }
            }),
    {
        proof {
            use_type_invariant(&*self);
        }
        let key = chars_of(expected_key);
        let open: [char; 1] = ['{'];
        let close: [char; 1] = ['}'];
        assert(open@ =~= seq!['{']);
        assert(close@ =~= seq!['}']);
        let ghost ts = self.tokens();
        let ghost p0 = self.position();
        while self.pos < self.toks.len() && !self.peek_eq_ic(key.as_slice()) && !self.peek_eq(&open)
            && !self.peek_eq(&close)
            invariant
                self.tokens() == ts,
                ts == old(self).tokens(),
                p0 == old(self).position(),
                0 <= self.position() <= ts.len(),
                self.pos <= self.toks@.len(),
                ts.len() == self.toks@.len(),
                key@ == expected_key@,
                open@ == seq!['{'],
                close@ == seq!['}'],
                rgba_scan(ts, p0, expected_key@) == rgba_scan(ts, self.position(), expected_key@),
            decreases self.toks.len() - self.pos,
        {
            self.bump();
        }
        if !self.peek_eq_ic(key.as_slice()) {
            return None;
        }
        self.bump();
        let c0 = self.read_float_val();
        let c1 = self.read_float_val();
        let c2 = self.read_float_val();
        let c3 = self.read_float_val();
        let mut cs: Vec<Option<String>> = Vec::new();
        cs.push(c0);
        cs.push(c1);
        cs.push(c2);
        cs.push(c3);
        Some(cs)
    }

    /// Consume the next token as a float; `None` when it is missing or not
    /// a float (the caller substitutes its default).
    pub fn read_float_val(&mut self) -> (r: Option<String>)
        ensures
            final(self).tokens() == old(self).tokens(),
            ({
                let (v, q) = sp_get_float(old(self).tokens(), old(self).position());
                &&& final(self).position() == q
                &&& match r {
                    Some(t) => v == Some(t@),
                    None => v is None,
                }
            }),
    {
        match self.get_float() {
            Ok(t) => Some(t),
            Err(_) => None,
        }
    }
}

} // verus!
