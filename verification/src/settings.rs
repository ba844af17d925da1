//! Line tokens of the settings-style text files (`.fx`, `.proj`, `.fxl`).
//!
//! Each line loses what follows a `//`, then what follows a `#`; it is
//! then split at whitespace outside double quotes, with `{` and `}`
//! standalone tokens; quotes stay in their tokens.  Lines without tokens
//! are dropped.
use crate::text::{
    chars_of, first_index_of, float_text, is_float_text, is_unicode_ws, lemma_first_index_of, lines,
    parse_i32, spec_lines, spec_parse_i32, str_is, string_from_chars, trim_quote_chars,
    trim_quotes, unicode_ws,
};
use vstd::prelude::*;

verus! {

/// The first index from `k` where `//` starts, or the end.
pub open spec fn double_slash_from(s: Seq<char>, k: int) -> int
    decreases s.len() - k,
{
    if k + 1 >= s.len() || k < 0 {
        s.len() as int
    } else if s[k] == '/' && s[k + 1] == '/' {
        k
    } else {
        double_slash_from(s, k + 1)
    }
}

/// A line without its `//` comment, then without its `#` comment.
pub open spec fn strip_comments(s: Seq<char>) -> Seq<char> {
    let a = s.take(double_slash_from(s, 0));
    a.take(first_index_of(a, '#'))
}

/// Tokens done, the token being read, and whether a quote is open.
pub struct TokScan {
    pub tokens: Seq<Seq<char>>,
    pub cur: Seq<char>,
    pub quoted: bool,
}

/// The token being read, closed (when not empty).
pub open spec fn flush(st: TokScan) -> Seq<Seq<char>> {
    if st.cur.len() > 0 {
        st.tokens.push(st.cur)
    } else {
        st.tokens
    }
}

pub open spec fn tok_step(st: TokScan, c: char) -> TokScan {
    if c == '"' {
        TokScan { cur: st.cur.push(c), quoted: !st.quoted, ..st }
    } else if st.quoted {
        TokScan { cur: st.cur.push(c), ..st }
    } else if is_unicode_ws(c) {
        TokScan { tokens: flush(st), cur: Seq::empty(), ..st }
    } else if c == '{' || c == '}' {
        TokScan { tokens: flush(st).push(seq![c]), cur: Seq::empty(), ..st }
    } else {
        TokScan { cur: st.cur.push(c), ..st }
    }
}

/// The scan after the first `k` characters.
pub open spec fn tok_scan(s: Seq<char>, k: nat) -> TokScan
    decreases k,
{
    if k == 0 {
        TokScan { tokens: Seq::empty(), cur: Seq::empty(), quoted: false }
    } else {
        tok_step(tok_scan(s, (k - 1) as nat), s[k - 1])
    }
}

/// The tokens of one line.
pub open spec fn line_tokens(line: Seq<char>) -> Seq<Seq<char>> {
    let s = strip_comments(line);
    flush(tok_scan(s, s.len()))
}

/// The token lines of the first `k` lines.
pub open spec fn token_lines_upto(ls: Seq<Seq<char>>, k: nat) -> Seq<Seq<Seq<char>>>
    decreases k,
{
    if k == 0 {
        Seq::empty()
    } else {
        let done = token_lines_upto(ls, (k - 1) as nat);
        let t = line_tokens(ls[k - 1]);
        if t.len() > 0 {
            done.push(t)
        } else {
            done
        }
    }
}

pub open spec fn spec_tokenize_lines(content: Seq<char>) -> Seq<Seq<Seq<char>>> {
    let ls = spec_lines(content);
    token_lines_upto(ls, ls.len())
}

pub open spec fn token_views(ts: Seq<String>) -> Seq<Seq<char>> {
    ts.map_values(|t: String| t@)
}

pub open spec fn line_views(ls: Seq<Vec<String>>) -> Seq<Seq<Seq<char>>> {
    ls.map_values(|l: Vec<String>| token_views(l@))
}

fn strip_comment_chars(s: &[char]) -> (r: Vec<char>)
    ensures
        r@ == strip_comments(s@),
{
    let mut k: usize = 0;
    while k < s.len() && s.len() - k > 1 && !(s[k] == '/' && s[k + 1] == '/')
        invariant
            k <= s@.len(),
            double_slash_from(s@, k as int) == double_slash_from(s@, 0),
        decreases s@.len() - k,
    {
        k = k + 1;
    }
    let cut: usize = if k < s.len() && s.len() - k > 1 {
        k
    } else {
        s.len()
    };
    assert(cut == double_slash_from(s@, 0));
    let mut a: Vec<char> = Vec::new();
    let mut i: usize = 0;
    while i < cut
        invariant
            i <= cut <= s@.len(),
            a@ == s@.take(i as int),
        decreases cut - i,
    {
        a.push(s[i]);
        i = i + 1;
        assert(a@ =~= s@.take(i as int));
    }
    proof {
        lemma_first_index_of(a@, '#');
    }
    let mut j: usize = 0;
    while j < a.len() && a[j] != '#'
        invariant
            j <= a@.len(),
            forall|q: int| 0 <= q < j ==> a@[q] != '#',
            0 <= first_index_of(a@, '#') <= a@.len(),
            first_index_of(a@, '#') < a@.len() ==> a@[first_index_of(a@, '#')] == '#',
            forall|q: int| 0 <= q < first_index_of(a@, '#') ==> a@[q] != '#',
        decreases a@.len() - j,
    {
        j = j + 1;
    }
    assert(j == first_index_of(a@, '#'));
    let mut r: Vec<char> = Vec::new();
    let mut q: usize = 0;
    while q < j
        invariant
            q <= j <= a@.len(),
            r@ == a@.take(q as int),
        decreases j - q,
    {
        r.push(a[q]);
        q = q + 1;
        assert(r@ =~= a@.take(q as int));
    }
    r
}

fn flush_token(tokens: &mut Vec<String>, cur: &mut Vec<char>)
    ensures
        token_views(final(tokens)@) == flush(TokScan { tokens: token_views(old(tokens)@), cur: old(cur)@, quoted: false }),
        final(cur)@ == Seq::<char>::empty(),
{
    if cur.len() > 0 {
        let ghost before = token_views(tokens@);
        let ghost cv = cur@;
        tokens.push(string_from_chars(cur.as_slice()));
        assert(token_views(tokens@) =~= before.push(cv));
    }
    *cur = Vec::new();
}

/// The tokens of one line.
fn tokenize_line(line: &[char]) -> (r: Vec<String>)
    ensures
        token_views(r@) == line_tokens(line@),
{
    let s = strip_comment_chars(line);
    let mut tokens: Vec<String> = Vec::new();
    let mut cur: Vec<char> = Vec::new();
    let mut quoted = false;
    let mut i: usize = 0;
    assert(token_views(tokens@) =~= Seq::<Seq<char>>::empty());
    while i < s.len()
        invariant
            i <= s@.len(),
            tok_scan(s@, i as nat) == (TokScan { tokens: token_views(tokens@), cur: cur@, quoted }),
        decreases s@.len() - i,
    {
        let c = s[i];
        if c == '"' {
            cur.push(c);
            quoted = !quoted;
        } else if quoted {
            cur.push(c);
        } else if unicode_ws(c) {
            flush_token(&mut tokens, &mut cur);
        } else if c == '{' || c == '}' {
            flush_token(&mut tokens, &mut cur);
            let ghost before = token_views(tokens@);
            let mut b: Vec<char> = Vec::new();
            b.push(c);
            tokens.push(string_from_chars(b.as_slice()));
            assert(token_views(tokens@) =~= before.push(seq![c]));
        } else {
            cur.push(c);
        }
        i = i + 1;
    }
    flush_token(&mut tokens, &mut cur);
    tokens
}

/// The token lines of a text (see the module documentation).
pub fn tokenize_lines(content: &str) -> (r: Vec<Vec<String>>)
    ensures
        line_views(r@) == spec_tokenize_lines(content@),
{
    let chars = chars_of(content);
    let ls = lines(chars.as_slice());
    let ghost lv = ls@.map_values(|l: Vec<char>| l@);
    assert(lv =~= spec_lines(content@));
    let mut out: Vec<Vec<String>> = Vec::new();
    let mut i: usize = 0;
    assert(line_views(out@) =~= Seq::<Seq<Seq<char>>>::empty());
    while i < ls.len()
        invariant
            i <= ls@.len(),
            lv == ls@.map_values(|l: Vec<char>| l@),
            line_views(out@) == token_lines_upto(lv, i as nat),
        decreases ls@.len() - i,
    {
        assert(lv[i as int] == ls@[i as int]@);
        let t = tokenize_line(ls[i].as_slice());
        if t.len() > 0 {
            let ghost before = line_views(out@);
            let ghost tv = token_views(t@);
            out.push(t);
            assert(line_views(out@) =~= before.push(tv));
        }
        i = i + 1;
    }
    out
}

// ---------------------------------------------------------------------
// Definitions and blocks
// ---------------------------------------------------------------------

/// A value of a settings block.  Numbers keep their text: `Float` holds a
/// token that `str::parse::<f32>` accepts and `str::parse::<i32>` does
/// not, and `FloatArray` the tokens of a line that `str::parse::<f32>`
/// accepts.
pub enum SettingsValue {
    String(String),
    Float(String),
    Int(i32),
    FloatArray(Vec<String>),
    Block(SettingsBlock),
}

/// A braced block: its keyed values and its anonymous child blocks.  A key
/// may occur more than once in `properties`; the last occurrence is the
/// one that counts (see [`props_model`]).
pub struct SettingsBlock {
    pub properties: Vec<(String, SettingsValue)>,
    pub children: Vec<SettingsBlock>,
}

/// `TYPE "Name" { ... }`.
pub struct SettingsDefinition {
    pub def_type: String,
    pub name: String,
    pub block: SettingsBlock,
}

/// What a [`SettingsValue`] stands for.
pub enum ValueModel {
    Text(Seq<char>),
    Float(Seq<char>),
    Int(i32),
    Floats(Seq<Seq<char>>),
    Block(BlockModel),
}

/// What a [`SettingsBlock`] stands for: a map from keys to values, and the
/// anonymous children in order.
pub struct BlockModel {
    pub props: Map<Seq<char>, ValueModel>,
    pub children: Seq<BlockModel>,
}

/// What a [`SettingsDefinition`] stands for.
pub struct DefModel {
    pub def_type: Seq<char>,
    pub name: Seq<char>,
    pub block: BlockModel,
}

pub open spec fn value_model(v: SettingsValue) -> ValueModel
    decreases v,
{
    match v {
        SettingsValue::String(s) => ValueModel::Text(s@),
        SettingsValue::Float(s) => ValueModel::Float(s@),
        SettingsValue::Int(i) => ValueModel::Int(i),
        SettingsValue::FloatArray(a) => ValueModel::Floats(token_views(a@)),
        SettingsValue::Block(b) => ValueModel::Block(block_model(b)),
    }
}

/// The map of a property list: each entry inserted in turn, so a later
/// entry replaces an earlier one with the same key.
pub open spec fn props_model(s: Seq<(String, SettingsValue)>) -> Map<Seq<char>, ValueModel>
    decreases s,
{
    if s.len() == 0 {
        Map::empty()
    } else {
        proof {
            assert(decreases_to!(s => s[s.len() - 1]));
        }
        props_model(s.drop_last()).insert(s[s.len() - 1].0@, value_model(s[s.len() - 1].1))
    }
}

pub open spec fn children_model(c: Seq<SettingsBlock>) -> Seq<BlockModel>
    decreases c,
{
    if c.len() == 0 {
        Seq::empty()
    } else {
        children_model(c.drop_last()).push(block_model(c[c.len() - 1]))
    }
}

pub open spec fn block_model(b: SettingsBlock) -> BlockModel
    decreases b,
{
    proof {
        assert(decreases_to!(b => b.properties));
        assert(decreases_to!(b => b.children));
    }
    BlockModel { props: props_model(b.properties@), children: children_model(b.children@) }
}

/// A block with nothing in it.
pub open spec fn empty_block() -> BlockModel {
    BlockModel { props: Map::empty(), children: Seq::empty() }
}

/// A line that is just the brace `c`.
pub open spec fn brace_line(l: Seq<Seq<char>>, c: char) -> bool {
    l.len() == 1 && l[0] == seq![c]
}

/// The tokens of `s` that `str::parse::<f32>` accepts, in order.
pub open spec fn float_texts(s: Seq<Seq<char>>) -> Seq<Seq<char>>
    decreases s.len(),
{
    if s.len() == 0 {
        Seq::empty()
    } else {
        let r = float_texts(s.drop_last());
        if is_float_text(s[s.len() - 1]) {
            r.push(s[s.len() - 1])
        } else {
            r
        }
    }
}

/// The value of a property line with values `vals`: one quoted token is a
/// string without its quotes, one token is otherwise an `i32`, a float or
/// a string, in that order of preference; several tokens are the floats
/// among them.
pub open spec fn line_value(vals: Seq<Seq<char>>) -> ValueModel {
    if vals.len() == 1 {
        let v = vals[0];
        if v.len() > 0 && v[0] == '"' && v[v.len() - 1] == '"' {
            ValueModel::Text(trim_quotes(v))
        } else if spec_parse_i32(v) is Some {
            ValueModel::Int(spec_parse_i32(v)->Some_0)
        } else if is_float_text(v) {
            ValueModel::Float(v)
        } else {
            ValueModel::Text(v)
        }
    } else {
        ValueModel::Floats(float_texts(vals))
    }
}

/// The rest of a block from line `k`, with `acc` read so far: the block
/// and the line after it.  A line `}` closes the block; a line `{` opens an
/// anonymous child; a lone key followed by a line `{` opens a child under
/// that key; a key with values sets it; a lone key otherwise is skipped.
pub open spec fn block_from(ls: Seq<Seq<Seq<char>>>, k: int, acc: BlockModel) -> (BlockModel, int)
    decreases ls.len() - k,
{
    if k < 0 || k >= ls.len() {
        (acc, ls.len() as int)
    } else {
        let line = ls[k];
        if brace_line(line, '}') {
            (acc, k + 1)
        } else if brace_line(line, '{') {
            let r = block_from(ls, k + 1, empty_block());
            let next = if k < r.1 <= ls.len() {
                r.1
            } else {
                k + 1
            };
            block_from(ls, next, BlockModel { children: acc.children.push(r.0), ..acc })
        } else if line.len() == 1 && k + 1 < ls.len() && brace_line(ls[k + 1], '{') {
            let r = block_from(ls, k + 2, empty_block());
            let next = if k < r.1 <= ls.len() {
                r.1
            } else {
                k + 1
            };
            block_from(
                ls,
                next,
                BlockModel { props: acc.props.insert(line[0], ValueModel::Block(r.0)), ..acc },
            )
        } else if line.len() > 1 {
            block_from(
                ls,
                k + 1,
                BlockModel { props: acc.props.insert(line[0], line_value(line.skip(1))), ..acc },
            )
        } else {
            block_from(ls, k + 1, acc)
        }
    }
}

/// A definition header: `TYPE "Name"` or `TYPE "Name" {`.
pub open spec fn header_line(l: Seq<Seq<char>>) -> bool {
    l.len() == 2 || (l.len() == 3 && l[2] == seq!['{'])
}

/// The definitions from line `k` on.  A header's block starts on the next
/// line, or on the one after when the header has no `{` and the next line
/// is `{`.  Other lines between definitions are skipped.
pub open spec fn defs_from(ls: Seq<Seq<Seq<char>>>, k: int) -> Seq<DefModel>
    decreases ls.len() - k,
{
    if k < 0 || k >= ls.len() {
        Seq::empty()
    } else {
        let line = ls[k];
        if header_line(line) {
            let start = if line.len() == 2 && k + 1 < ls.len() && brace_line(ls[k + 1], '{') {
                k + 2
            } else {
                k + 1
            };
            let r = block_from(ls, start, empty_block());
            let next = if k < r.1 <= ls.len() {
                r.1
            } else {
                k + 1
            };
            seq![DefModel { def_type: line[0], name: trim_quotes(line[1]), block: r.0 }] + defs_from(
                ls,
                next,
            )
        } else {
            defs_from(ls, k + 1)
        }
    }
}

pub open spec fn def_model(d: SettingsDefinition) -> DefModel {
    DefModel { def_type: d.def_type@, name: d.name@, block: block_model(d.block) }
}

pub open spec fn defs_model(ds: Seq<SettingsDefinition>) -> Seq<DefModel> {
    ds.map_values(|d: SettingsDefinition| def_model(d))
}

/// Whether a token is just the character `c`.
fn is_char_token(t: &String, c: char) -> (r: bool)
    ensures
        r == (t@ == seq![c]),
{
    let cs = chars_of(t.as_str());
    if cs.len() == 1 && cs[0] == c {
        assert(cs@ =~= seq![c]);
        true
    } else {
        false
    }
}

fn is_brace_line(l: &Vec<String>, c: char) -> (r: bool)
    ensures
        r == brace_line(token_views(l@), c),
{
    if l.len() == 1 {
        assert(token_views(l@)[0] == l@[0]@);
        is_char_token(&l[0], c)
    } else {
        false
    }
}

/// The value of a property line (its tokens after the key).
fn line_value_of(line: &Vec<String>) -> (r: SettingsValue)
    requires
        line@.len() >= 2,
    ensures
        value_model(r) == line_value(token_views(line@).skip(1)),
{
    let ghost vals = token_views(line@).skip(1);
    if line.len() == 2 {
        assert(vals[0] == line@[1]@);
        let v = chars_of(line[1].as_str());
        if v.len() > 0 && v[0] == '"' && v[v.len() - 1] == '"' {
            let t = trim_quote_chars(v.as_slice());
            return SettingsValue::String(string_from_chars(t.as_slice()));
        }
        match parse_i32(v.as_slice()) {
            Some(i) => {
                return SettingsValue::Int(i);
            },
            None => {},
        }
        if float_text(v.as_slice()) {
            SettingsValue::Float(line[1].clone())
        } else {
            SettingsValue::String(line[1].clone())
        }
    } else {
        let mut out: Vec<String> = Vec::new();
        let mut j: usize = 1;
        assert(vals.subrange(0, 0) =~= Seq::<Seq<char>>::empty());
        while j < line.len()
            invariant
                1 <= j <= line@.len(),
                vals == token_views(line@).skip(1),
                token_views(out@) == float_texts(vals.subrange(0, j - 1)),
            decreases line@.len() - j,
        {
            assert(vals[j - 1] == line@[j as int]@);
            let ghost before = vals.subrange(0, j - 1);
            assert(vals.subrange(0, j as int).drop_last() =~= before);
            let v = chars_of(line[j].as_str());
            if float_text(v.as_slice()) {
                let ghost o = token_views(out@);
                out.push(line[j].clone());
                assert(token_views(out@) =~= o.push(line@[j as int]@));
            }
            j = j + 1;
        }
        assert(vals.subrange(0, vals.len() as int) =~= vals);
        SettingsValue::FloatArray(out)
    }
}

/// The value of a property with value tokens `vals`.
pub(crate) fn values_value(vals: &Vec<String>) -> (r: SettingsValue)
    ensures
        value_model(r) == line_value(token_views(vals@)),
{
    if vals.len() == 0 {
        let ghost e = token_views(vals@);
        assert(e =~= Seq::<Seq<char>>::empty());
        assert(float_texts(e) =~= Seq::<Seq<char>>::empty());
        let out: Vec<String> = Vec::new();
        assert(token_views(out@) =~= Seq::<Seq<char>>::empty());
        return SettingsValue::FloatArray(out);
    }
    let mut line: Vec<String> = Vec::new();
    line.push(String::new());
    let mut i: usize = 0;
    while i < vals.len()
        invariant
            i <= vals@.len(),
            line@.len() == i + 1,
            forall|j: int| 0 <= j < i ==> #[trigger] line@[j + 1]@ == vals@[j]@,
        decreases vals@.len() - i,
    {
        line.push(vals[i].clone());
        i = i + 1;
    }
    assert(token_views(line@).skip(1) =~= token_views(vals@));
    line_value_of(&line)
}

proof fn lemma_push_prop(s: Seq<(String, SettingsValue)>, e: (String, SettingsValue))
    ensures
        props_model(s.push(e)) == props_model(s).insert(e.0@, value_model(e.1)),
{
    assert(s.push(e).drop_last() =~= s);
}

proof fn lemma_push_child(c: Seq<SettingsBlock>, b: SettingsBlock)
    ensures
        children_model(c.push(b)) == children_model(c).push(block_model(b)),
{
    assert(c.push(b).drop_last() =~= c);
}

/// Reads a block from line `start` up to and including its closing `}`,
/// giving the block and the index of the line after it.
fn parse_block_lines(lines: &Vec<Vec<String>>, start: usize) -> (r: (SettingsBlock, usize))
    requires
        start <= lines@.len(),
    ensures
        (block_model(r.0), r.1 as int) == block_from(line_views(lines@), start as int, empty_block()),
        start <= r.1 <= lines@.len(),
    decreases lines@.len() - start,
{
    let ghost lv = line_views(lines@);
    let mut block = SettingsBlock { properties: Vec::new(), children: Vec::new() };
    assert(block_model(block).props =~= Map::<Seq<char>, ValueModel>::empty());
    assert(block_model(block).children =~= Seq::<BlockModel>::empty());
    let mut i = start;
    let n = lines.len();
    while i < n
        invariant
            start <= i <= n,
            n == lines@.len(),
            lv == line_views(lines@),
            block_from(lv, i as int, block_model(block)) == block_from(lv, start as int, empty_block()),
        decreases n - i,
    {
        let line = &lines[i];
        assert(lv[i as int] == token_views(line@));
        if is_brace_line(line, '}') {
            return (block, i + 1);
        }
        if is_brace_line(line, '{') {
            let (child, next) = parse_block_lines(lines, i + 1);
            proof {
                lemma_push_child(block.children@, child);
            }
            block.children.push(child);
            i = next;
        } else if line.len() == 1 && i + 1 < n && is_brace_line(&lines[i + 1], '{') {
            assert(lv[i + 1] == token_views(lines@[i + 1]@));
            assert(lv[i as int][0] == line@[0]@);
            let (child, next) = parse_block_lines(lines, i + 2);
            let entry = (line[0].clone(), SettingsValue::Block(child));
            proof {
                lemma_push_prop(block.properties@, entry);
            }
            block.properties.push(entry);
            i = next;
        } else if line.len() > 1 {
            assert(lv[i as int][0] == line@[0]@);
            assert(token_views(line@).skip(1) == lv[i as int].skip(1));
            let entry = (line[0].clone(), line_value_of(line));
            proof {
                lemma_push_prop(block.properties@, entry);
            }
            block.properties.push(entry);
            i = i + 1;
        } else {
            i = i + 1;
        }
    }
    (block, n)
}

/// Reads the definitions of a settings file: `TYPE "Name"` headers, each
/// followed by its braced block (see [`defs_from`]).
pub fn parse_settings(content: &str) -> (r: Vec<SettingsDefinition>)
    ensures
        defs_model(r@) == defs_from(spec_tokenize_lines(content@), 0),
{
    let lines = tokenize_lines(content);
    let ghost lv = line_views(lines@);
    let mut defs: Vec<SettingsDefinition> = Vec::new();
    let mut i: usize = 0;
    let n = lines.len();
    while i < n
        invariant
            i <= n,
            n == lines@.len(),
            lv == line_views(lines@),
            lv == spec_tokenize_lines(content@),
            defs_model(defs@) + defs_from(lv, i as int) == defs_from(lv, 0),
        decreases n - i,
    {
        let line = &lines[i];
        assert(lv[i as int] == token_views(line@));
        let header = line.len() == 2 || (line.len() == 3 && is_char_token(&line[2], '{'));
        if line.len() == 3 {
            assert(lv[i as int][2] == line@[2]@);
        }
        if header {
            let start = if line.len() == 2 && i + 1 < n && is_brace_line(&lines[i + 1], '{') {
                i + 2
            } else {
                i + 1
            };
            assert(i + 1 < n ==> lv[i + 1] == token_views(lines@[i + 1]@));
            let (block, next) = parse_block_lines(&lines, start);
            assert(lv[i as int][0] == line@[0]@);
            assert(lv[i as int][1] == line@[1]@);
            let name_chars = chars_of(line[1].as_str());
            let name = string_from_chars(trim_quote_chars(name_chars.as_slice()).as_slice());
            let d = SettingsDefinition { def_type: line[0].clone(), name, block };
            let ghost before = defs_model(defs@);
            defs.push(d);
            assert(defs_model(defs@) =~= before.push(def_model(d)));
            assert(defs_from(lv, i as int) == seq![def_model(d)] + defs_from(lv, next as int));
            assert(defs_model(defs@) + defs_from(lv, next as int) =~= before + defs_from(lv, i as int));
            i = next;
        } else {
            i = i + 1;
        }
    }
    assert(defs_model(defs@) =~= defs_model(defs@) + defs_from(lv, n as int));
    defs
}

/// The older entry point, over one flat stream of tokens.  That stream is
/// empty (its tokenizer yields nothing), so no definition is found; the
/// files are read with [`parse_settings`].
pub fn parse_settings_file(content: &str) -> (r: Vec<SettingsDefinition>)
    ensures
        r@.len() == 0,
{
    Vec::new()
}

// ---------------------------------------------------------------------
// Reading values out of a block
// ---------------------------------------------------------------------

/// The value under `key`, if any.
pub open spec fn prop(m: BlockModel, key: Seq<char>) -> Option<ValueModel> {
    if m.props.dom().contains(key) {
        Some(m.props[key])
    } else {
        None
    }
}

/// A numeric setting as written: an `i32`, or the text of another float.
pub enum Number {
    Int(i32),
    Float(String),
}

pub enum NumberModel {
    Int(i32),
    Float(Seq<char>),
}

pub open spec fn number_model(n: Option<Number>) -> Option<NumberModel> {
    match n {
        Some(Number::Int(i)) => Some(NumberModel::Int(i)),
        Some(Number::Float(t)) => Some(NumberModel::Float(t@)),
        None => None,
    }
}

/// The number under `key`, if its value is one.
pub open spec fn number_of(m: BlockModel, key: Seq<char>) -> Option<NumberModel> {
    match prop(m, key) {
        Some(ValueModel::Int(i)) => Some(NumberModel::Int(i)),
        Some(ValueModel::Float(t)) => Some(NumberModel::Float(t)),
        _ => None,
    }
}

/// The float texts under `key`, if its value is a list of them.
pub open spec fn floats_of(m: BlockModel, key: Seq<char>) -> Option<Seq<Seq<char>>> {
    match prop(m, key) {
        Some(ValueModel::Floats(f)) => Some(f),
        _ => None,
    }
}

/// The string under `key`, if its value is one.
pub open spec fn string_of(m: BlockModel, key: Seq<char>) -> Option<Seq<char>> {
    match prop(m, key) {
        Some(ValueModel::Text(t)) => Some(t),
        _ => None,
    }
}

/// An integer under `key` read as a flag (not zero), else `default`.
pub open spec fn bool_of(m: BlockModel, key: Seq<char>, default: bool) -> bool {
    match prop(m, key) {
        Some(ValueModel::Int(i)) => i != 0,
        _ => default,
    }
}

/// The block under `key`, if its value is one.
pub open spec fn block_of(m: BlockModel, key: Seq<char>) -> Option<BlockModel> {
    match prop(m, key) {
        Some(ValueModel::Block(b)) => Some(b),
        _ => None,
    }
}

pub open spec fn opt_text(s: Option<String>) -> Option<Seq<char>> {
    match s {
        Some(t) => Some(t@),
        None => None,
    }
}

pub open spec fn opt_texts(v: Option<Vec<String>>) -> Option<Seq<Seq<char>>> {
    match v {
        Some(t) => Some(token_views(t@)),
        None => None,
    }
}

/// Entries after position `i` do not have key `key`, so the map is the
/// one of the first `i` entries as far as `key` goes.
proof fn lemma_props_take(s: Seq<(String, SettingsValue)>, i: int, key: Seq<char>)
    requires
        0 <= i <= s.len(),
        forall|j: int| i <= j < s.len() ==> #[trigger] s[j].0@ != key,
    ensures
        prop(BlockModel { props: props_model(s), children: Seq::empty() }, key) == prop(
            BlockModel { props: props_model(s.take(i)), children: Seq::empty() },
            key,
        ),
    decreases s.len() - i,
{
    if i < s.len() {
        lemma_props_take(s, i + 1, key);
        assert(s.take(i + 1).drop_last() =~= s.take(i));
        assert(s.take(i + 1)[i] == s[i]);
    } else {
        assert(s.take(i) =~= s);
    }
}

fn copy_texts(v: &Vec<String>) -> (r: Vec<String>)
    ensures
        token_views(r@) == token_views(v@),
{
    let mut r: Vec<String> = Vec::new();
    let mut i: usize = 0;
    while i < v.len()
        invariant
            i <= v@.len(),
            token_views(r@) == token_views(v@.take(i as int)),
        decreases v@.len() - i,
    {
        let ghost before = token_views(r@);
        r.push(v[i].clone());
        assert(token_views(r@) =~= before.push(v@[i as int]@));
        assert(token_views(v@.take(i + 1)) =~= token_views(v@.take(i as int)).push(v@[i as int]@));
        i = i + 1;
    }
    assert(v@.take(v@.len() as int) =~= v@);
    r
}

impl SettingsBlock {
    /// The value under `key`: the last entry with that key.
    pub fn get(&self, key: &str) -> (r: Option<&SettingsValue>)
        ensures
            match r {
                Some(v) => prop(block_model(*self), key@) == Some(value_model(*v)),
                None => prop(block_model(*self), key@) is None,
            },
    {
        let ghost s = self.properties@;
        let mut j = self.properties.len();
        while j > 0
            invariant
                j <= s.len(),
                s == self.properties@,
                forall|t: int| j <= t < s.len() ==> #[trigger] s[t].0@ != key@,
            decreases j,
        {
            if str_is(self.properties[j - 1].0.as_str(), key) {
                proof {
                    lemma_props_take(s, j as int, key@);
                    assert(s.take(j as int).drop_last() =~= s.take(j - 1));
                    assert(s.take(j as int)[j - 1] == s[j - 1]);
                }
                return Some(&self.properties[j - 1].1);
            }
            j = j - 1;
        }
        proof {
            lemma_props_take(s, 0, key@);
            assert(s.take(0) =~= Seq::<(String, SettingsValue)>::empty());
        }
        None
    }

    /// The number under `key` (an `Int`, or a `Float` by its text).
    pub fn get_number(&self, key: &str) -> (r: Option<Number>)
        ensures
            number_model(r) == number_of(block_model(*self), key@),
    {
        match self.get(key) {
            Some(SettingsValue::Int(i)) => Some(Number::Int(*i)),
            Some(SettingsValue::Float(t)) => Some(Number::Float(t.clone())),
            _ => None,
        }
    }

    /// The float texts under `key`, when its value is a list of them.
    pub fn get_floats(&self, key: &str) -> (r: Option<Vec<String>>)
        ensures
            opt_texts(r) == floats_of(block_model(*self), key@),
    {
        match self.get(key) {
            Some(SettingsValue::FloatArray(a)) => Some(copy_texts(a)),
            _ => None,
        }
    }

    /// The string under `key`, when its value is one.
    pub fn get_string(&self, key: &str) -> (r: Option<String>)
        ensures
            opt_text(r) == string_of(block_model(*self), key@),
    {
        match self.get(key) {
            Some(SettingsValue::String(s)) => Some(s.clone()),
            _ => None,
        }
    }

    /// An integer under `key` as a flag (not zero), else `default`.
    pub fn get_bool(&self, key: &str, default: bool) -> (r: bool)
        ensures
            r == bool_of(block_model(*self), key@, default),
    {
        match self.get(key) {
            Some(SettingsValue::Int(i)) => *i != 0,
            _ => default,
        }
    }

    /// The block under `key`, when its value is one.
    pub fn get_block(&self, key: &str) -> (r: Option<&SettingsBlock>)
        ensures
            match block_of(block_model(*self), key@) {
                Some(m) => r matches Some(b) && block_model(*b) == m,
                None => r is None,
            },
    {
        match self.get(key) {
            Some(SettingsValue::Block(b)) => Some(b),
            _ => None,
        }
    }

    /// The first anonymous child, or the block itself when it has none.
    pub fn first_child_or_self(&self) -> (r: &SettingsBlock)
        ensures
            block_model(*r) == if block_model(*self).children.len() > 0 {
                block_model(*self).children[0]
            } else {
                block_model(*self)
            },
    {
        if self.children.len() > 0 {
            proof {
                lemma_children_index(self.children@, 0);
            }
            &self.children[0]
        } else {
            self
        }
    }
}

proof fn lemma_children_index(c: Seq<SettingsBlock>, i: int)
    requires
        0 <= i < c.len(),
    ensures
        children_model(c).len() == c.len(),
        children_model(c)[i] == block_model(c[i]),
    decreases c.len(),
{
    if i < c.len() - 1 {
        lemma_children_index(c.drop_last(), i);
    } else {
        lemma_children_len(c.drop_last());
    }
}

proof fn lemma_children_len(c: Seq<SettingsBlock>)
    ensures
        children_model(c).len() == c.len(),
    decreases c.len(),
{
    if c.len() > 0 {
        lemma_children_len(c.drop_last());
    }
}

/// Adding an entry sets its key to its value and leaves every other key
/// as it was: a later entry with a key replaces an earlier one.
pub proof fn lemma_later_entry_wins(
    s: Seq<(String, SettingsValue)>,
    e: (String, SettingsValue),
    other: Seq<char>,
)
    ensures
        props_model(s.push(e)).dom().contains(e.0@),
        props_model(s.push(e))[e.0@] == value_model(e.1),
        other != e.0@ ==> (props_model(s.push(e)).dom().contains(other) == props_model(
            s,
        ).dom().contains(other) && props_model(s.push(e))[other] == props_model(s)[other]),
{
    lemma_push_prop(s, e);
}

} // verus!
