//! `.expl`: explosion definitions.
//!
//! ```text
//! BASICEXPLOSION <name>
//! {
//!     ExplodeFX { FxType <name>  Offset x y z  Delay <float> }     (any number)
//!     Ellipsoid { Offset  MaxRadii  Orientation  StartRadiusPercentage
//!                 BlastDuration  MaxDamage  MaxDamageRadiusPercentage
//!                 ContinuousDamage }
//!     Box { Offset  Orientation  BlastDuration  ContinuousDamage
//!           StartDamage  EndDamage  StartDimensions  EndDimensions
//!           EndTranslation }
//! }
//! ```
//!
//! Keys match case-insensitively; a missing or malformed value gives the
//! field's default (0, or 1 for radii and dimensions).  A later `Ellipsoid`
//! or `Box` block replaces an earlier one.
use crate::block_parser::{
    skip_open_brace, sp_endblock, sp_read_string_opt, sp_start_anonymous, BlockParser,
};
use crate::fields::{
    copy_vec3, field_block, lemma_field_block_advances, read_field_block, same_shape, schema_fits,
    FieldKind, FieldSpec, FieldValues, FieldValuesView,
};
use crate::text::{lowercase, str_is, to_lowercase};
use crate::tokenizer::spec_tokens;
use vstd::prelude::*;

verus! {

/// An effect an explosion plays.
#[derive(Debug, Clone)]
pub struct ExplodeFXDef {
    pub fx_type: String,
    pub offset: [String; 3],
    pub delay: String,
}

/// Damage spreading in an ellipsoid.
#[derive(Debug, Clone)]
pub struct EllipsoidDamageDef {
    pub offset: [String; 3],
    pub max_radii: [String; 3],
    pub orientation: [String; 3],
    pub start_radius_percentage: String,
    pub blast_duration: String,
    pub max_damage: String,
    pub max_damage_radius_percentage: String,
    pub continuous_damage: bool,
}

/// Damage in a growing box.
#[derive(Debug, Clone)]
pub struct BoxDamageDef {
    pub offset: [String; 3],
    pub orientation: [String; 3],
    pub blast_duration: String,
    pub continuous_damage: bool,
    pub start_damage: String,
    pub end_damage: String,
    pub start_dimensions: [String; 3],
    pub end_dimensions: [String; 3],
    pub end_translation: [String; 3],
}

/// One `BASICEXPLOSION`.
#[derive(Debug, Clone)]
pub struct BasicExplosionDef {
    pub name: String,
    pub fx: Vec<ExplodeFXDef>,
    pub ellipsoid: Option<EllipsoidDamageDef>,
    pub box_damage: Option<BoxDamageDef>,
}

// ---------------------------------------------------------------------
// Schemas
// ---------------------------------------------------------------------

pub open spec fn field(key: &'static str, kind: FieldKind, slot: usize) -> FieldSpec {
    FieldSpec { key, kind, slot, sticky: false }
}

/// `ExplodeFX`: texts `FxType`, `Delay`; vector `Offset`.
pub open spec fn fx_schema() -> Seq<FieldSpec> {
    seq![
        field("fxtype", FieldKind::Text, 0),
        field("offset", FieldKind::Vec3, 0),
        field("delay", FieldKind::Float, 1),
    ]
}

/// `Ellipsoid`: vectors `Offset`, `MaxRadii`, `Orientation`; floats
/// `StartRadiusPercentage`, `BlastDuration`, `MaxDamage`,
/// `MaxDamageRadiusPercentage`; integer `ContinuousDamage`.
pub open spec fn ellipsoid_schema() -> Seq<FieldSpec> {
    seq![
        field("offset", FieldKind::Vec3, 0),
        field("maxradii", FieldKind::Vec3, 1),
        field("orientation", FieldKind::Vec3, 2),
        field("startradiuspercentage", FieldKind::Float, 0),
        field("blastduration", FieldKind::Float, 1),
        field("maxdamage", FieldKind::Float, 2),
        field("maxdamageradiuspercentage", FieldKind::Float, 3),
        field("continuousdamage", FieldKind::Int, 0),
    ]
}

/// `Box`: vectors `Offset`, `Orientation`, `StartDimensions`,
/// `EndDimensions`, `EndTranslation`; floats `BlastDuration`,
/// `StartDamage`, `EndDamage`; integer `ContinuousDamage`.
pub open spec fn box_schema() -> Seq<FieldSpec> {
    seq![
        field("offset", FieldKind::Vec3, 0),
        field("orientation", FieldKind::Vec3, 1),
        field("startdimensions", FieldKind::Vec3, 2),
        field("enddimensions", FieldKind::Vec3, 3),
        field("endtranslation", FieldKind::Vec3, 4),
        field("blastduration", FieldKind::Float, 0),
        field("startdamage", FieldKind::Float, 1),
        field("enddamage", FieldKind::Float, 2),
        field("continuousdamage", FieldKind::Int, 0),
    ]
}

fn field_spec(key: &'static str, kind: FieldKind, slot: usize) -> (f: FieldSpec)
    ensures
        f == field(key, kind, slot),
{
    FieldSpec { key, kind, slot, sticky: false }
}

fn fx_schema_vec() -> (v: Vec<FieldSpec>)
    ensures
        v@ == fx_schema(),
{
    let v = vec![
        field_spec("fxtype", FieldKind::Text, 0),
        field_spec("offset", FieldKind::Vec3, 0),
        field_spec("delay", FieldKind::Float, 1),
    ];
    assert(v@ =~= fx_schema());
    v
}

fn ellipsoid_schema_vec() -> (v: Vec<FieldSpec>)
    ensures
        v@ == ellipsoid_schema(),
{
    let v = vec![
        field_spec("offset", FieldKind::Vec3, 0),
        field_spec("maxradii", FieldKind::Vec3, 1),
        field_spec("orientation", FieldKind::Vec3, 2),
        field_spec("startradiuspercentage", FieldKind::Float, 0),
        field_spec("blastduration", FieldKind::Float, 1),
        field_spec("maxdamage", FieldKind::Float, 2),
        field_spec("maxdamageradiuspercentage", FieldKind::Float, 3),
        field_spec("continuousdamage", FieldKind::Int, 0),
    ];
    assert(v@ =~= ellipsoid_schema());
    v
}

fn box_schema_vec() -> (v: Vec<FieldSpec>)
    ensures
        v@ == box_schema(),
{
    let v = vec![
        field_spec("offset", FieldKind::Vec3, 0),
        field_spec("orientation", FieldKind::Vec3, 1),
        field_spec("startdimensions", FieldKind::Vec3, 2),
        field_spec("enddimensions", FieldKind::Vec3, 3),
        field_spec("endtranslation", FieldKind::Vec3, 4),
        field_spec("blastduration", FieldKind::Float, 0),
        field_spec("startdamage", FieldKind::Float, 1),
        field_spec("enddamage", FieldKind::Float, 2),
        field_spec("continuousdamage", FieldKind::Int, 0),
    ];
    assert(v@ =~= box_schema());
    v
}

// ---------------------------------------------------------------------
// Views: each definition as the values of its schema
// ---------------------------------------------------------------------

pub open spec fn vec3_view(v: [String; 3]) -> Seq<Seq<char>> {
    v@.map_values(|t: String| t@)
}

pub open spec fn flag_int(b: bool) -> i32 {
    if b {
        1
    } else {
        0
    }
}

/// An integer slot read as a flag.
pub open spec fn flags_normalized(v: FieldValuesView) -> FieldValuesView {
    FieldValuesView { ints: v.ints.map_values(|i: i32| flag_int(i != 0)), ..v }
}

impl View for ExplodeFXDef {
    type V = FieldValuesView;

    open spec fn view(&self) -> FieldValuesView {
        FieldValuesView {
            texts: seq![self.fx_type@, self.delay@],
            vecs: seq![vec3_view(self.offset)],
            ints: Seq::empty(),
        }
    }
}

impl View for EllipsoidDamageDef {
    type V = FieldValuesView;

    open spec fn view(&self) -> FieldValuesView {
        FieldValuesView {
            texts: seq![
                self.start_radius_percentage@,
                self.blast_duration@,
                self.max_damage@,
                self.max_damage_radius_percentage@,
            ],
            vecs: seq![
                vec3_view(self.offset),
                vec3_view(self.max_radii),
                vec3_view(self.orientation),
            ],
            ints: seq![flag_int(self.continuous_damage)],
        }
    }
}

impl View for BoxDamageDef {
    type V = FieldValuesView;

    open spec fn view(&self) -> FieldValuesView {
        FieldValuesView {
            texts: seq![self.blast_duration@, self.start_damage@, self.end_damage@],
            vecs: seq![
                vec3_view(self.offset),
                vec3_view(self.orientation),
                vec3_view(self.start_dimensions),
                vec3_view(self.end_dimensions),
                vec3_view(self.end_translation),
            ],
            ints: seq![flag_int(self.continuous_damage)],
        }
    }
}

/// Mathematical view of a [`BasicExplosionDef`].
pub struct BasicExplosionView {
    pub name: Seq<char>,
    pub fx: Seq<FieldValuesView>,
    pub ellipsoid: Option<FieldValuesView>,
    pub box_damage: Option<FieldValuesView>,
}

impl View for BasicExplosionDef {
    type V = BasicExplosionView;

    open spec fn view(&self) -> BasicExplosionView {
        BasicExplosionView {
            name: self.name@,
            fx: self.fx@.map_values(|f: ExplodeFXDef| f@),
            ellipsoid: match self.ellipsoid {
                Some(e) => Some(e@),
                None => None,
            },
            box_damage: match self.box_damage {
                Some(b) => Some(b@),
                None => None,
            },
        }
    }
}

pub open spec fn zero3() -> Seq<Seq<char>> {
    seq![seq!['0'], seq!['0'], seq!['0']]
}

pub open spec fn one3() -> Seq<Seq<char>> {
    seq![seq!['1'], seq!['1'], seq!['1']]
}

/// `ExplodeFX` defaults: no type, no offset, no delay.
pub open spec fn fx_init() -> FieldValuesView {
    FieldValuesView { texts: seq![Seq::empty(), seq!['0']], vecs: seq![zero3()], ints: Seq::empty() }
}

/// `Ellipsoid` defaults: unit radii, everything else 0.
pub open spec fn ellipsoid_init() -> FieldValuesView {
    FieldValuesView {
        texts: seq![seq!['0'], seq!['0'], seq!['0'], seq!['0']],
        vecs: seq![zero3(), one3(), zero3()],
        ints: seq![0i32],
    }
}

/// `Box` defaults: unit dimensions, everything else 0.
pub open spec fn box_init() -> FieldValuesView {
    FieldValuesView {
        texts: seq![seq!['0'], seq!['0'], seq!['0']],
        vecs: seq![zero3(), zero3(), one3(), one3(), zero3()],
        ints: seq![0i32],
    }
}

// ---------------------------------------------------------------------
// The format
// ---------------------------------------------------------------------

/// A sub-block named by the token at `p`: its `{`, then its fields read
/// against `schema` from `init`.  `None` without the `{`.
pub open spec fn sub_block(ts: Seq<Seq<char>>, p: int, schema: Seq<FieldSpec>, init: FieldValuesView) -> (Option<FieldValuesView>, int) {
    let (open, q1) = sp_start_anonymous(ts, p + 1);
    if open {
        let (v, q2) = field_block(ts, q1, schema, init, init);
        (Some(v), q2)
    } else {
        (None, q1)
    }
}

proof fn lemma_sub_block_advances(ts: Seq<Seq<char>>, p: int, schema: Seq<FieldSpec>, init: FieldValuesView)
    requires
        0 <= p < ts.len(),
    ensures
        p < sub_block(ts, p, schema, init).1 <= ts.len(),
{
    let (open, q1) = sp_start_anonymous(ts, p + 1);
    if open {
        lemma_field_block_advances(ts, q1, schema, init, init);
    }
}

/// The body of a `BASICEXPLOSION` from `p`, read into `def`.
pub open spec fn expl_body(ts: Seq<Seq<char>>, p: int, def: BasicExplosionView) -> (BasicExplosionView, int)
    decreases ts.len() - p,
    via expl_body_decreases
{
    let (end, q) = sp_endblock(ts, p);
    if end || p < 0 {
        (def, q)
    } else {
        let key = lowercase(ts[p]);
        if key == "explodefx"@ {
            let (v, q2) = sub_block(ts, p, fx_schema(), fx_init());
            expl_body(
                ts,
                q2,
                match v {
                    Some(f) => BasicExplosionView { fx: def.fx.push(f), ..def },
                    None => def,
                },
            )
        } else if key == "ellipsoid"@ {
            let (v, q2) = sub_block(ts, p, ellipsoid_schema(), ellipsoid_init());
            expl_body(
                ts,
                q2,
                match v {
                    Some(e) => BasicExplosionView { ellipsoid: Some(flags_normalized(e)), ..def },
                    None => def,
                },
            )
        } else if key == "box"@ {
            let (v, q2) = sub_block(ts, p, box_schema(), box_init());
            expl_body(
                ts,
                q2,
                match v {
                    Some(b) => BasicExplosionView { box_damage: Some(flags_normalized(b)), ..def },
                    None => def,
                },
            )
        } else {
            expl_body(ts, p + 1, def)
        }
    }
}

#[via_fn]
proof fn expl_body_decreases(ts: Seq<Seq<char>>, p: int, def: BasicExplosionView) {
    let (end, q) = sp_endblock(ts, p);
    if !(end || p < 0) {
        lemma_sub_block_advances(ts, p, fx_schema(), fx_init());
        lemma_sub_block_advances(ts, p, ellipsoid_schema(), ellipsoid_init());
        lemma_sub_block_advances(ts, p, box_schema(), box_init());
    }
}

pub proof fn lemma_expl_body_advances(ts: Seq<Seq<char>>, p: int, def: BasicExplosionView)
    requires
        0 <= p <= ts.len(),
    ensures
        p <= expl_body(ts, p, def).1 <= ts.len(),
    decreases ts.len() - p,
{
    let (end, q) = sp_endblock(ts, p);
    if !(end || p < 0) {
        let key = lowercase(ts[p]);
        lemma_sub_block_advances(ts, p, fx_schema(), fx_init());
        lemma_sub_block_advances(ts, p, ellipsoid_schema(), ellipsoid_init());
        lemma_sub_block_advances(ts, p, box_schema(), box_init());
        if key == "explodefx"@ {
            let (v, q2) = sub_block(ts, p, fx_schema(), fx_init());
            lemma_expl_body_advances(
                ts,
                q2,
                match v {
                    Some(f) => BasicExplosionView { fx: def.fx.push(f), ..def },
                    None => def,
                },
            );
        } else if key == "ellipsoid"@ {
            let (v, q2) = sub_block(ts, p, ellipsoid_schema(), ellipsoid_init());
            lemma_expl_body_advances(
                ts,
                q2,
                match v {
                    Some(e) => BasicExplosionView { ellipsoid: Some(flags_normalized(e)), ..def },
                    None => def,
                },
            );
        } else if key == "box"@ {
            let (v, q2) = sub_block(ts, p, box_schema(), box_init());
            lemma_expl_body_advances(
                ts,
                q2,
                match v {
                    Some(b) => BasicExplosionView { box_damage: Some(flags_normalized(b)), ..def },
                    None => def,
                },
            );
        } else {
            lemma_expl_body_advances(ts, p + 1, def);
        }
    }
}

/// A `BASICEXPLOSION` at `p`: the definition (when its `{` follows) and
/// the position after it.
pub open spec fn expl_def(ts: Seq<Seq<char>>, p: int) -> (Option<BasicExplosionView>, int) {
    let (name, q1) = sp_read_string_opt(ts, p, "BASICEXPLOSION"@);
    let (open, q2) = sp_start_anonymous(ts, q1);
    if open {
        let (def, q3) = expl_body(
            ts,
            q2,
            BasicExplosionView {
                name: match name {
                    Some(n) => n,
                    None => Seq::empty(),
                },
                fx: Seq::empty(),
                ellipsoid: None,
                box_damage: None,
            },
        );
        (Some(def), q3)
    } else {
        (None, q2)
    }
}

proof fn lemma_expl_def_advances(ts: Seq<Seq<char>>, p: int)
    requires
        0 <= p < ts.len(),
        ts[p] == "BASICEXPLOSION"@,
    ensures
        p < expl_def(ts, p).1 <= ts.len(),
{
    let (name, q1) = sp_read_string_opt(ts, p, "BASICEXPLOSION"@);
    let (open, q2) = sp_start_anonymous(ts, q1);
    if open {
        lemma_expl_body_advances(
            ts,
            q2,
            BasicExplosionView {
                name: match name {
                    Some(n) => n,
                    None => Seq::empty(),
                },
                fx: Seq::empty(),
                ellipsoid: None,
                box_damage: None,
            },
        );
    }
}

/// The definitions from `p` on, after those in `acc`.
pub open spec fn expl_scan(ts: Seq<Seq<char>>, p: int, acc: Seq<BasicExplosionView>) -> Seq<BasicExplosionView>
    decreases ts.len() - p,
    via expl_scan_decreases
{
    let (end, q) = sp_endblock(ts, p);
    if end || p < 0 {
        acc
    } else if ts[p] == "BASICEXPLOSION"@ {
        let (d, q3) = expl_def(ts, p);
        expl_scan(
            ts,
            q3,
            match d {
                Some(x) => acc.push(x),
                None => acc,
            },
        )
    } else {
        expl_scan(ts, p + 1, acc)
    }
}

#[via_fn]
proof fn expl_scan_decreases(ts: Seq<Seq<char>>, p: int, acc: Seq<BasicExplosionView>) {
    let (end, q) = sp_endblock(ts, p);
    if !(end || p < 0) && ts[p] == "BASICEXPLOSION"@ {
        lemma_expl_def_advances(ts, p);
    }
}

/// The explosions of an `.expl` text (after an optional outer `{`).
pub open spec fn spec_parse_expl(content: Seq<char>) -> Seq<BasicExplosionView> {
    let ts = spec_tokens(content);
    expl_scan(ts, skip_open_brace(ts, 0), Seq::empty())
}

// ---------------------------------------------------------------------
// Parsing
// ---------------------------------------------------------------------

fn text(s: &str) -> (t: String)
    ensures
        t@ == s@,
{
    s.to_owned()
}

fn vec3_of(x: &str) -> (v: [String; 3])
    ensures
        vec3_view(v) == seq![x@, x@, x@],
{
    let v = [text(x), text(x), text(x)];
    assert(vec3_view(v) =~= seq![x@, x@, x@]);
    v
}

fn fx_init_values() -> (v: FieldValues)
    ensures
        v@ == fx_init(),
{
    proof {
        reveal_strlit("0");
        reveal_strlit("");
        assert("0"@ =~= seq!['0']);
        assert(""@ =~= Seq::<char>::empty());
    }
    let v = FieldValues { texts: vec![text(""), text("0")], vecs: vec![vec3_of("0")], ints: Vec::new() };
    assert(v@.texts =~= fx_init().texts);
    assert(v@.vecs =~= fx_init().vecs);
    assert(v@.ints =~= fx_init().ints);
    v
}

fn ellipsoid_init_values() -> (v: FieldValues)
    ensures
        v@ == ellipsoid_init(),
{
    proof {
        reveal_strlit("0");
        reveal_strlit("1");
        assert("0"@ =~= seq!['0']);
        assert("1"@ =~= seq!['1']);
    }
    let v = FieldValues {
        texts: vec![text("0"), text("0"), text("0"), text("0")],
        vecs: vec![vec3_of("0"), vec3_of("1"), vec3_of("0")],
        ints: vec![0],
    };
    assert(v@.texts =~= ellipsoid_init().texts);
    assert(v@.vecs =~= ellipsoid_init().vecs);
    assert(v@.ints =~= ellipsoid_init().ints);
    v
}

fn box_init_values() -> (v: FieldValues)
    ensures
        v@ == box_init(),
{
    proof {
        reveal_strlit("0");
        reveal_strlit("1");
        assert("0"@ =~= seq!['0']);
        assert("1"@ =~= seq!['1']);
    }
    let v = FieldValues {
        texts: vec![text("0"), text("0"), text("0")],
        vecs: vec![vec3_of("0"), vec3_of("0"), vec3_of("1"), vec3_of("1"), vec3_of("0")],
        ints: vec![0],
    };
    assert(v@.texts =~= box_init().texts);
    assert(v@.vecs =~= box_init().vecs);
    assert(v@.ints =~= box_init().ints);
    v
}

/// Which sub-block a key opens.
#[derive(Clone, Copy, PartialEq, Eq)]
enum SubBlock {
    Fx,
    Ellipsoid,
    Box,
}

spec fn sub_schema(k: SubBlock) -> Seq<FieldSpec> {
    match k {
        SubBlock::Fx => fx_schema(),
        SubBlock::Ellipsoid => ellipsoid_schema(),
        SubBlock::Box => box_schema(),
    }
}

spec fn sub_init(k: SubBlock) -> FieldValuesView {
    match k {
        SubBlock::Fx => fx_init(),
        SubBlock::Ellipsoid => ellipsoid_init(),
        SubBlock::Box => box_init(),
    }
}

fn init_values(k: SubBlock) -> (v: FieldValues)
    ensures
        v@ == sub_init(k),
{
    match k {
        SubBlock::Fx => fx_init_values(),
        SubBlock::Ellipsoid => ellipsoid_init_values(),
        SubBlock::Box => box_init_values(),
    }
}

fn schema_vec(k: SubBlock) -> (v: Vec<FieldSpec>)
    ensures
        v@ == sub_schema(k),
{
    match k {
        SubBlock::Fx => fx_schema_vec(),
        SubBlock::Ellipsoid => ellipsoid_schema_vec(),
        SubBlock::Box => box_schema_vec(),
    }
}

/// Reads the sub-block whose key is at the cursor.
fn read_sub_block(p: &mut BlockParser, k: SubBlock) -> (r: Option<FieldValues>)
    requires
        0 <= old(p).position() < old(p).tokens().len(),
    ensures
        final(p).tokens() == old(p).tokens(),
        ({
            let (v, q) = sub_block(old(p).tokens(), old(p).position(), sub_schema(k), sub_init(k));
            &&& final(p).position() == q
            &&& match r {
                Some(x) => v == Some(x@) && same_shape(sub_init(k), x@),
                None => v is None,
            }
        }),
{
    p.next();
    if p.start_anonymous() {
        let schema = schema_vec(k);
        let start = init_values(k);
        let mut values = init_values(k);
        assert(schema_fits(schema@, values@)) by {
            assert(forall|i: int| 0 <= i < schema@.len() ==> #[trigger] schema@[i] == sub_schema(k)[i]);
        }
        read_field_block(p, &schema, &start, &mut values);
        Some(values)
    } else {
        None
    }
}

fn fx_from(v: &FieldValues) -> (f: ExplodeFXDef)
    requires
        same_shape(fx_init(), v@),
    ensures
        f@ == v@,
{
    let f = ExplodeFXDef {
        fx_type: v.texts[0].clone(),
        offset: copy_vec3(&v.vecs[0]),
        delay: v.texts[1].clone(),
    };
    assert(f@.texts =~= v@.texts);
    assert(f@.vecs =~= v@.vecs);
    assert(f@.ints =~= v@.ints);
    f
}

fn ellipsoid_from(v: &FieldValues) -> (e: EllipsoidDamageDef)
    requires
        same_shape(ellipsoid_init(), v@),
    ensures
        e@ == flags_normalized(v@),
{
    let e = EllipsoidDamageDef {
        offset: copy_vec3(&v.vecs[0]),
        max_radii: copy_vec3(&v.vecs[1]),
        orientation: copy_vec3(&v.vecs[2]),
        start_radius_percentage: v.texts[0].clone(),
        blast_duration: v.texts[1].clone(),
        max_damage: v.texts[2].clone(),
        max_damage_radius_percentage: v.texts[3].clone(),
        continuous_damage: v.ints[0] != 0,
    };
    assert(e@.texts =~= flags_normalized(v@).texts);
    assert(e@.vecs =~= flags_normalized(v@).vecs);
    assert(e@.ints =~= flags_normalized(v@).ints);
    e
}

fn box_from(v: &FieldValues) -> (b: BoxDamageDef)
    requires
        same_shape(box_init(), v@),
    ensures
        b@ == flags_normalized(v@),
{
    let b = BoxDamageDef {
        offset: copy_vec3(&v.vecs[0]),
        orientation: copy_vec3(&v.vecs[1]),
        blast_duration: v.texts[0].clone(),
        continuous_damage: v.ints[0] != 0,
        start_damage: v.texts[1].clone(),
        end_damage: v.texts[2].clone(),
        start_dimensions: copy_vec3(&v.vecs[2]),
        end_dimensions: copy_vec3(&v.vecs[3]),
        end_translation: copy_vec3(&v.vecs[4]),
    };
    assert(b@.texts =~= flags_normalized(v@).texts);
    assert(b@.vecs =~= flags_normalized(v@).vecs);
    assert(b@.ints =~= flags_normalized(v@).ints);
    b
}

/// Reads the body of a `BASICEXPLOSION` into `def`.
fn parse_expl_body(p: &mut BlockParser, def: &mut BasicExplosionDef)
    requires
        0 <= old(p).position() <= old(p).tokens().len(),
    ensures
        final(p).tokens() == old(p).tokens(),
        (final(def)@, final(p).position()) == expl_body(
            old(p).tokens(),
            old(p).position(),
            old(def)@,
        ),
    decreases old(p).tokens().len() - old(p).position(),
{
    let ghost ts = p.tokens();
    let ghost p0 = p.position();
    let ghost d0 = def@;
    if p.endblock() {
        return;
    }
    let tok: String = match p.peek() {
        Some(t) => t.to_owned(),
        None => String::new(),
    };
    let key = to_lowercase(tok.as_str());
    proof {
        lemma_sub_block_advances(ts, p0, fx_schema(), fx_init());
        lemma_sub_block_advances(ts, p0, ellipsoid_schema(), ellipsoid_init());
        lemma_sub_block_advances(ts, p0, box_schema(), box_init());
    }
    if str_is(key.as_str(), "explodefx") {
        if let Some(v) = read_sub_block(p, SubBlock::Fx) {
            let f = fx_from(&v);
            def.fx.push(f);
            assert(def@.fx =~= d0.fx.push(v@));
        }
    } else if str_is(key.as_str(), "ellipsoid") {
        if let Some(v) = read_sub_block(p, SubBlock::Ellipsoid) {
            def.ellipsoid = Some(ellipsoid_from(&v));
        }
    } else if str_is(key.as_str(), "box") {
        if let Some(v) = read_sub_block(p, SubBlock::Box) {
            def.box_damage = Some(box_from(&v));
        }
    } else {
        p.next();
    }
    let ghost q = p.position();
    let ghost d1 = def@;
    assert(expl_body(ts, p0, d0) == expl_body(ts, q, d1));
    parse_expl_body(p, def);
}

/// Parses an `.expl` text into its explosions, in file order.
pub fn parse_expl(content: &str) -> (r: Vec<BasicExplosionDef>)
    ensures
        r@.map_values(|d: BasicExplosionDef| d@) == spec_parse_expl(content@),
{
    let mut results: Vec<BasicExplosionDef> = Vec::new();
    let mut p = BlockParser::new(content);
    let ghost ts = p.tokens();
    if p.start_anonymous() {
    }
    assert(results@.map_values(|d: BasicExplosionDef| d@) =~= Seq::<BasicExplosionView>::empty());
    loop
        invariant_except_break
            p.tokens() == ts,
            ts == spec_tokens(content@),
            0 <= p.position() <= ts.len(),
            spec_parse_expl(content@) == expl_scan(
                ts,
                p.position(),
                results@.map_values(|d: BasicExplosionDef| d@),
            ),
        ensures
            spec_parse_expl(content@) == results@.map_values(|d: BasicExplosionDef| d@),
        decreases ts.len() - p.position(),
    {
        let ghost pos0 = p.position();
        let ghost acc0 = results@.map_values(|d: BasicExplosionDef| d@);
        if p.endblock() {
            break;
        }
        let is_expl = match p.peek() {
            Some(t) => str_is(t, "BASICEXPLOSION"),
            None => false,
        };
        if !is_expl {
            p.next();
            continue;
        }
        proof {
            lemma_expl_def_advances(ts, pos0);
            reveal_strlit("");
            assert(""@ =~= Seq::<char>::empty());
        }
        let name = p.read_string("BASICEXPLOSION", "");
        if p.start_anonymous() {
            let mut def = BasicExplosionDef { name, fx: Vec::new(), ellipsoid: None, box_damage: None };
            assert(def@.fx =~= Seq::<FieldValuesView>::empty());
            parse_expl_body(&mut p, &mut def);
            results.push(def);
            assert(results@.map_values(|d: BasicExplosionDef| d@) =~= acc0.push(def@));
        }
    }
    results
}

} // verus!
