//! Blocks of `key value` fields.
//!
//! Many text formats describe an object as a braced block of fields whose
//! keys match case-insensitively (through `to_lowercase`) and whose values
//! follow the key: a string, a float, three floats or an integer.  Unknown
//! keys are skipped one token at a time; the block ends at its `}` or at the
//! end of the text.  A block is read against a *schema* that lists the
//! known keys, each with the kind and slot of the value it sets.  When a
//! value is missing or malformed the slot falls back to its current value
//! (a *sticky* field) or to the value it had when the block started.
use crate::block_parser::{
    sp_endblock, sp_read_float_opt, sp_read_floats_opt, sp_read_i32_opt, sp_read_string_opt,
    BlockParser,
};
use crate::text::{lowercase, to_lowercase};
use vstd::prelude::*;

verus! {

/// What a field's value is.
#[derive(Debug, Clone, Copy, PartialEq, Eq, Structural)]
pub enum FieldKind {
    /// A string (quotes removed), in a text slot.
    Text,
    /// A float, kept as its text, in a text slot.
    Float,
    /// Three floats (malformed ones read as `"0"`), in a vector slot.
    Vec3,
    /// An `i32`, in an integer slot.
    Int,
}

/// One known key of a block.
#[derive(Debug, Clone, Copy)]
pub struct FieldSpec {
    /// The key, lower-case.
    pub key: &'static str,
    pub kind: FieldKind,
    pub slot: usize,
    /// A missing or malformed value keeps the slot's current value (else
    /// the slot's value at the start of the block).
    pub sticky: bool,
}

/// The values of a block being read.
#[derive(Debug, Clone)]
pub struct FieldValues {
    pub texts: Vec<String>,
    pub vecs: Vec<[String; 3]>,
    pub ints: Vec<i32>,
}

/// Mathematical view of [`FieldValues`].
pub struct FieldValuesView {
    pub texts: Seq<Seq<char>>,
    pub vecs: Seq<Seq<Seq<char>>>,
    pub ints: Seq<i32>,
}

impl View for FieldValues {
    type V = FieldValuesView;

    open spec fn view(&self) -> FieldValuesView {
        FieldValuesView {
            texts: self.texts@.map_values(|t: String| t@),
            vecs: self.vecs@.map_values(|v: [String; 3]| v@.map_values(|t: String| t@)),
            ints: self.ints@,
        }
    }
}

/// Every schema slot exists in values shaped like `v`.
pub open spec fn schema_fits(schema: Seq<FieldSpec>, v: FieldValuesView) -> bool {
    forall|i: int|
        0 <= i < schema.len() ==> match (#[trigger] schema[i]).kind {
            FieldKind::Text | FieldKind::Float => schema[i].slot < v.texts.len(),
            FieldKind::Vec3 => schema[i].slot < v.vecs.len(),
            FieldKind::Int => schema[i].slot < v.ints.len(),
        }
}

/// Values of the same shape.
pub open spec fn same_shape(a: FieldValuesView, b: FieldValuesView) -> bool {
    &&& a.texts.len() == b.texts.len()
    &&& a.vecs.len() == b.vecs.len()
    &&& a.ints.len() == b.ints.len()
    &&& forall|i: int| 0 <= i < b.vecs.len() ==> (#[trigger] b.vecs[i]).len() == 3
}

/// Position of the first schema entry for `key`, or `schema.len()`.
pub open spec fn find_field(schema: Seq<FieldSpec>, key: Seq<char>, i: int) -> int
    decreases schema.len() - i,
{
    if i < 0 || i >= schema.len() {
        schema.len() as int
    } else if schema[i].key@ == key {
        i
    } else {
        find_field(schema, key, i + 1)
    }
}

/// Reading the field `f` whose key is the token `tok` at `p`.
pub open spec fn apply_field(
    ts: Seq<Seq<char>>,
    p: int,
    tok: Seq<char>,
    f: FieldSpec,
    start: FieldValuesView,
    cur: FieldValuesView,
) -> (FieldValuesView, int) {
    let base = if f.sticky {
        cur
    } else {
        start
    };
    let s = f.slot as int;
    match f.kind {
        FieldKind::Text => {
            let (v, q) = sp_read_string_opt(ts, p, tok);
            (
                FieldValuesView {
                    texts: cur.texts.update(
                        s,
                        match v {
                            Some(x) => x,
                            None => base.texts[s],
                        },
                    ),
                    ..cur
                },
                q,
            )
        },
        FieldKind::Float => {
            let (v, q) = sp_read_float_opt(ts, p, tok);
            (
                FieldValuesView {
                    texts: cur.texts.update(
                        s,
                        match v {
                            Some(x) => x,
                            None => base.texts[s],
                        },
                    ),
                    ..cur
                },
                q,
            )
        },
        FieldKind::Vec3 => {
            let (v, q) = sp_read_floats_opt(ts, p, tok, 3);
            (
                FieldValuesView {
                    vecs: cur.vecs.update(
                        s,
                        match v {
                            Some(x) => x,
                            None => base.vecs[s],
                        },
                    ),
                    ..cur
                },
                q,
            )
        },
        FieldKind::Int => {
            let (v, q) = sp_read_i32_opt(ts, p, tok);
            (
                FieldValuesView {
                    ints: cur.ints.update(
                        s,
                        match v {
                            Some(x) => x,
                            None => base.ints[s],
                        },
                    ),
                    ..cur
                },
                q,
            )
        },
    }
}

/// Reading a block's fields from `p` to its `}` (consumed) or the end of
/// the tokens: the values and the position after.
pub open spec fn field_block(
    ts: Seq<Seq<char>>,
    p: int,
    schema: Seq<FieldSpec>,
    start: FieldValuesView,
    cur: FieldValuesView,
) -> (FieldValuesView, int)
    decreases ts.len() - p,
{
    let (end, q) = sp_endblock(ts, p);
    if end || p < 0 {
        (cur, q)
    } else {
        let tok = ts[p];
        let i = find_field(schema, lowercase(tok), 0);
        if i >= schema.len() {
            field_block(ts, p + 1, schema, start, cur)
        } else {
            let (next, q2) = apply_field(ts, p, tok, schema[i], start, cur);
            if q2 <= p {
                (cur, q2)
            } else {
                field_block(ts, q2, schema, start, next)
            }
        }
    }
}

pub proof fn lemma_field_block_advances(
    ts: Seq<Seq<char>>,
    p: int,
    schema: Seq<FieldSpec>,
    start: FieldValuesView,
    cur: FieldValuesView,
)
    requires
        0 <= p <= ts.len(),
    ensures
        p <= field_block(ts, p, schema, start, cur).1 <= ts.len(),
    decreases ts.len() - p,
{
    let (end, q) = sp_endblock(ts, p);
    if !end {
        let tok = ts[p];
        let i = find_field(schema, lowercase(tok), 0);
        if i >= schema.len() {
            lemma_field_block_advances(ts, p + 1, schema, start, cur);
        } else {
            let (next, q2) = apply_field(ts, p, tok, schema[i], start, cur);
            if q2 > p {
                lemma_field_block_advances(ts, q2, schema, start, next);
            }
        }
    }
}

proof fn lemma_find_field(schema: Seq<FieldSpec>, key: Seq<char>, i: int, k: int)
    requires
        0 <= i <= k <= schema.len(),
        forall|j: int| i <= j < k ==> schema[j].key@ != key,
        k == schema.len() || schema[k].key@ == key,
    ensures
        find_field(schema, key, i) == k,
    decreases k - i,
{
    if i < k {
        lemma_find_field(schema, key, i + 1, k);
    }
}

fn find_field_index(schema: &Vec<FieldSpec>, key: &String) -> (r: usize)
    ensures
        r == find_field(schema@, key@, 0),
{
    let mut i: usize = 0;
    while i < schema.len()
        invariant
            i <= schema@.len(),
            forall|j: int| 0 <= j < i ==> schema@[j].key@ != key@,
        decreases schema.len() - i,
    {
        if crate::text::str_is(key.as_str(), schema[i].key) {
            proof {
                lemma_find_field(schema@, key@, 0, i as int);
            }
            return i;
        }
        i = i + 1;
    }
    proof {
        lemma_find_field(schema@, key@, 0, i as int);
    }
    i
}

pub fn copy_vec3(v: &[String; 3]) -> (r: [String; 3])
    ensures
        r@.map_values(|t: String| t@) == v@.map_values(|t: String| t@),
{
    let r = [v[0].clone(), v[1].clone(), v[2].clone()];
    assert(r@.map_values(|t: String| t@) =~= v@.map_values(|t: String| t@));
    r
}

/// Reads the field `f` at the cursor, whose token is `tok`.
fn read_one_field(
    p: &mut BlockParser,
    tok: &String,
    f: &FieldSpec,
    start: &FieldValues,
    values: &mut FieldValues,
)
    requires
        schema_fits(seq![*f], old(values)@),
        same_shape(start@, old(values)@),
    ensures
        final(p).tokens() == old(p).tokens(),
        (final(values)@, final(p).position()) == apply_field(
            old(p).tokens(),
            old(p).position(),
            tok@,
            *f,
            start@,
            old(values)@,
        ),
        same_shape(start@, final(values)@),
{
    assert(schema_fits(seq![*f], values@) ==> match seq![*f][0].kind {
        FieldKind::Text | FieldKind::Float => f.slot < values@.texts.len(),
        FieldKind::Vec3 => f.slot < values@.vecs.len(),
        FieldKind::Int => f.slot < values@.ints.len(),
    });
    let s = f.slot;
    let ghost cur = values@;
    let ghost base = if f.sticky {
        cur
    } else {
        start@
    };
    match f.kind {
        FieldKind::Text => {
            let fallback = if f.sticky {
                values.texts[s].clone()
            } else {
                start.texts[s].clone()
            };
            let v = p.read_string(tok.as_str(), fallback.as_str());
            values.texts.set(s, v);
            assert(values@.texts =~= cur.texts.update(s as int, v@));
        },
        FieldKind::Float => {
            let fallback = if f.sticky {
                values.texts[s].clone()
            } else {
                start.texts[s].clone()
            };
            let v = p.read_float(tok.as_str(), fallback.as_str());
            values.texts.set(s, v);
            assert(values@.texts =~= cur.texts.update(s as int, v@));
        },
        FieldKind::Vec3 => {
            let fallback = if f.sticky {
                copy_vec3(&values.vecs[s])
            } else {
                copy_vec3(&start.vecs[s])
            };
            let ghost fb = fallback@.map_values(|t: String| t@);
            let v = p.read_vec3(tok.as_str(), fallback);
            let ghost vv = v@.map_values(|t: String| t@);
            values.vecs.set(s, v);
            proof {
                let (rv, q) = sp_read_floats_opt(old(p).tokens(), old(p).position(), tok@, 3);
                match rv {
                    Some(ys) => {
                        assert(vv =~= ys);
                    },
                    None => {
                        assert(vv =~= fb);
                    },
                }
            }
            assert(values@.vecs =~= cur.vecs.update(s as int, vv));
        },
        FieldKind::Int => {
            let fallback = if f.sticky {
                values.ints[s]
            } else {
                start.ints[s]
            };
            let v = p.read_i32(tok.as_str(), fallback);
            values.ints.set(s, v);
            assert(values@.ints =~= cur.ints.update(s as int, v));
        },
    }
}

/// Reads a block's fields, from the cursor to the block's `}` or the end
/// of the text, into `values` (see [`field_block`]).
pub fn read_field_block(
    p: &mut BlockParser,
    schema: &Vec<FieldSpec>,
    start: &FieldValues,
    values: &mut FieldValues,
)
    requires
        0 <= old(p).position() <= old(p).tokens().len(),
        schema_fits(schema@, old(values)@),
        same_shape(start@, old(values)@),
    ensures
        final(p).tokens() == old(p).tokens(),
        (final(values)@, final(p).position()) == field_block(
            old(p).tokens(),
            old(p).position(),
            schema@,
            start@,
            old(values)@,
        ),
        same_shape(start@, final(values)@),
    decreases old(p).tokens().len() - old(p).position(),
{
    let ghost ts = p.tokens();
    let ghost p0 = p.position();
    let ghost v0 = values@;
    if p.endblock() {
        return;
    }
    let tok: String = match p.peek() {
        Some(t) => t.to_owned(),
        None => String::new(),
    };
    let key = to_lowercase(tok.as_str());
    let i = find_field_index(schema, &key);
    if i >= schema.len() {
        p.next();
    } else {
        assert(schema_fits(seq![schema@[i as int]], values@));
        read_one_field(p, &tok, &schema[i], start, values);
    }
    let ghost q = p.position();
    let ghost v1 = values@;
    assert(p0 < q <= ts.len());
    assert(field_block(ts, p0, schema@, start@, v0) == field_block(ts, q, schema@, start@, v1));
    read_field_block(p, schema, start, values);
}

impl FieldValues {
    /// An equal copy.
    pub fn duplicate(&self) -> (r: FieldValues)
        ensures
            r@ == self@,
    {
        let mut texts: Vec<String> = Vec::new();
        let mut i: usize = 0;
        while i < self.texts.len()
            invariant
                i <= self.texts@.len(),
                texts@.len() == i,
                forall|k: int| 0 <= k < i ==> #[trigger] texts@[k]@ == self.texts@[k]@,
            decreases self.texts.len() - i,
        {
            texts.push(self.texts[i].clone());
            i = i + 1;
        }
        let mut vecs: Vec<[String; 3]> = Vec::new();
        let mut j: usize = 0;
        while j < self.vecs.len()
            invariant
                j <= self.vecs@.len(),
                vecs@.len() == j,
                forall|k: int|
                    0 <= k < j ==> (#[trigger] vecs@[k])@.map_values(|t: String| t@)
                        == self.vecs@[k]@.map_values(|t: String| t@),
            decreases self.vecs.len() - j,
        {
            vecs.push(copy_vec3(&self.vecs[j]));
            j = j + 1;
        }
        let mut ints: Vec<i32> = Vec::new();
        let mut k: usize = 0;
        while k < self.ints.len()
            invariant
                k <= self.ints@.len(),
                ints@ == self.ints@.take(k as int),
            decreases self.ints.len() - k,
        {
            ints.push(self.ints[k]);
            k = k + 1;
            assert(ints@ =~= self.ints@.take(k as int));
        }
        let r = FieldValues { texts, vecs, ints };
        assert(r@.texts =~= self@.texts);
        assert(r@.vecs =~= self@.vecs);
        assert(r@.ints =~= self@.ints);
        r
    }
}

} // verus!
