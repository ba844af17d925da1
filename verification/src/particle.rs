//! Particle system definitions (`.ptx`).
//!
//! The tokens before the first `Particle` are skipped; the fields follow
//! it, up to its `}` or the end of the text.  Each known key reads its
//! value; a value that is missing or malformed leaves the field as it was.
//! Float values are kept as their text.
use crate::block_parser::{
    advance, as_float, lemma_find_tok_bounds, sp_endblock, sp_get_float, sp_read_floats_opt, sp_read_float_opt,
    sp_read_i32_opt, sp_read_string_opt, sp_start, tok_at, BlockParser,
};
use crate::text::{parse_i32, spec_parse_i32, str_is, string_from_chars};
use crate::tokenizer::spec_tokens;
use vstd::prelude::*;

verus! {

/// A particle system.
pub struct ParticleSystemDef {
    pub name: String,
    /// The texture to load, when one is named.
    pub texture_name: Option<String>,
    pub position_var: [String; 3],
    /// Width and height at birth.
    pub radius_birth: [String; 2],
    pub radius_death_percent: String,
    pub life: String,
    pub life_var: String,
    pub velocity: [String; 3],
    pub velocity_var: [String; 3],
    pub velocity_damping: [String; 3],
    pub gravity: String,
    /// RGBA at birth.
    pub color_birth: [String; 4],
    pub color_death: [String; 4],
    pub color_ramp: bool,
    pub rate: String,
    pub blend_set: i32,
    pub system_type: i32,
    pub rotate_ptx: bool,
    pub rotate_speed: String,
    pub relative_to_parent: bool,
    pub frame_rate: String,
    pub grid_x: u32,
    pub grid_y: u32,
    pub start_tile: u32,
    pub end_tile: u32,
}

pub struct PtxModel {
    pub name: Seq<char>,
    pub texture_name: Option<Seq<char>>,
    pub position_var: Seq<Seq<char>>,
    pub radius_birth: Seq<Seq<char>>,
    pub radius_death_percent: Seq<char>,
    pub life: Seq<char>,
    pub life_var: Seq<char>,
    pub velocity: Seq<Seq<char>>,
    pub velocity_var: Seq<Seq<char>>,
    pub velocity_damping: Seq<Seq<char>>,
    pub gravity: Seq<char>,
    pub color_birth: Seq<Seq<char>>,
    pub color_death: Seq<Seq<char>>,
    pub color_ramp: bool,
    pub rate: Seq<char>,
    pub blend_set: i32,
    pub system_type: i32,
    pub rotate_ptx: bool,
    pub rotate_speed: Seq<char>,
    pub relative_to_parent: bool,
    pub frame_rate: Seq<char>,
    pub grid_x: u32,
    pub grid_y: u32,
    pub start_tile: u32,
    pub end_tile: u32,
}

pub open spec fn texts3(a: [String; 3]) -> Seq<Seq<char>> {
    a@.map_values(|t: String| t@)
}

pub open spec fn texts2(a: [String; 2]) -> Seq<Seq<char>> {
    a@.map_values(|t: String| t@)
}

pub open spec fn texts4(a: [String; 4]) -> Seq<Seq<char>> {
    a@.map_values(|t: String| t@)
}

pub open spec fn ptx_model(d: ParticleSystemDef) -> PtxModel {
    PtxModel {
        name: d.name@,
        texture_name: match d.texture_name {
            Some(t) => Some(t@),
            None => None,
        },
        position_var: texts3(d.position_var),
        radius_birth: texts2(d.radius_birth),
        radius_death_percent: d.radius_death_percent@,
        life: d.life@,
        life_var: d.life_var@,
        velocity: texts3(d.velocity),
        velocity_var: texts3(d.velocity_var),
        velocity_damping: texts3(d.velocity_damping),
        gravity: d.gravity@,
        color_birth: texts4(d.color_birth),
        color_death: texts4(d.color_death),
        color_ramp: d.color_ramp,
        rate: d.rate@,
        blend_set: d.blend_set,
        system_type: d.system_type,
        rotate_ptx: d.rotate_ptx,
        rotate_speed: d.rotate_speed@,
        relative_to_parent: d.relative_to_parent,
        frame_rate: d.frame_rate@,
        grid_x: d.grid_x,
        grid_y: d.grid_y,
        start_tile: d.start_tile,
        end_tile: d.end_tile,
    }
}

/// The fields before any is read: zero vectors, white colours, life,
/// rate, radius death percent and tile grid 1, rotate speed 5, the rest 0.
pub open spec fn ptx_default(name: Seq<char>) -> PtxModel {
    let z = seq!['0'];
    let one = seq!['1'];
    PtxModel {
        name,
        texture_name: None,
        position_var: seq![z, z, z],
        radius_birth: seq![z, z],
        radius_death_percent: one,
        life: one,
        life_var: z,
        velocity: seq![z, z, z],
        velocity_var: seq![z, z, z],
        velocity_damping: seq![z, z, z],
        gravity: z,
        color_birth: seq![one, one, one, one],
        color_death: seq![one, one, one, one],
        color_ramp: false,
        rate: one,
        blend_set: 0,
        system_type: 0,
        rotate_ptx: false,
        rotate_speed: seq!['5'],
        relative_to_parent: false,
        frame_rate: z,
        grid_x: 1,
        grid_y: 1,
        start_tile: 0,
        end_tile: 0,
    }
}

pub open spec fn opt_or<T>(v: Option<T>, old: T) -> T {
    match v {
        Some(x) => x,
        None => old,
    }
}

/// A float token, or `"1"`.
pub open spec fn float_or_one(t: Option<Seq<char>>) -> Seq<char> {
    match as_float(t) {
        Some(x) => x,
        None => seq!['1'],
    }
}

/// Four float tokens from `p` (each `"1"` when missing or malformed) and
/// the position after them.
pub open spec fn rgba_from(ts: Seq<Seq<char>>, p: int) -> (Seq<Seq<char>>, int) {
    let p1 = advance(ts, p);
    let p2 = advance(ts, p1);
    let p3 = advance(ts, p2);
    (
        seq![
            float_or_one(tok_at(ts, p)),
            float_or_one(tok_at(ts, p1)),
            float_or_one(tok_at(ts, p2)),
            float_or_one(tok_at(ts, p3)),
        ],
        advance(ts, p3),
    )
}

/// A flag in the token after the key at `p`: the token read as an `i32`
/// (0 when it is not one) is not zero; `old` when there is no token.
pub open spec fn flag_after(ts: Seq<Seq<char>>, p: int, old: bool) -> (bool, int) {
    let p1 = advance(ts, p);
    match tok_at(ts, p1) {
        Some(x) => (
            match spec_parse_i32(x) {
                Some(n) => n != 0,
                None => false,
            },
            p1 + 1,
        ),
        None => (old, p1),
    }
}

/// The field the key at `p` names, read: the fields and the position
/// after.
pub open spec fn ptx_key(ts: Seq<Seq<char>>, p: int, m: PtxModel) -> (PtxModel, int) {
    let key = ts[p];
    if key == "TextureName"@ {
        let (v, q) = sp_read_string_opt(ts, p, key);
        (PtxModel { texture_name: if v is Some { v } else { m.texture_name }, ..m }, q)
    } else if key == "PositionVar"@ {
        let (v, q) = sp_read_floats_opt(ts, p, key, 3);
        (PtxModel { position_var: opt_or(v, m.position_var), ..m }, q)
    } else if key == "RadiusBirth"@ {
        let (v, q) = sp_read_floats_opt(ts, p, key, 2);
        (PtxModel { radius_birth: opt_or(v, m.radius_birth), ..m }, q)
    } else if key == "RadiusDeathPercent"@ {
        let (v, q) = sp_read_float_opt(ts, p, key);
        (PtxModel { radius_death_percent: opt_or(v, m.radius_death_percent), ..m }, q)
    } else if key == "Life"@ {
        let (v, q) = sp_read_float_opt(ts, p, key);
        (PtxModel { life: opt_or(v, m.life), ..m }, q)
    } else if key == "LifeVar"@ {
        let (v, q) = sp_read_float_opt(ts, p, key);
        (PtxModel { life_var: opt_or(v, m.life_var), ..m }, q)
    } else if key == "Velocity"@ {
        let (v, q) = sp_read_floats_opt(ts, p, key, 3);
        (PtxModel { velocity: opt_or(v, m.velocity), ..m }, q)
    } else if key == "VelocityVar"@ {
        let (v, q) = sp_read_floats_opt(ts, p, key, 3);
        (PtxModel { velocity_var: opt_or(v, m.velocity_var), ..m }, q)
    } else if key == "VelocityDamping"@ {
        let (v, q) = sp_read_floats_opt(ts, p, key, 3);
        (PtxModel { velocity_damping: opt_or(v, m.velocity_damping), ..m }, q)
    } else if key == "Gravity"@ {
        let (v, q) = sp_read_float_opt(ts, p, key);
        (PtxModel { gravity: opt_or(v, m.gravity), ..m }, q)
    } else if key == "ColorBirth"@ {
        let (c, q) = rgba_from(ts, advance(ts, p));
        (PtxModel { color_birth: c, ..m }, q)
    } else if key == "ColorDeath"@ {
        let (c, q) = rgba_from(ts, advance(ts, p));
        (PtxModel { color_death: c, ..m }, q)
    } else if key == "ColorRamp"@ {
        let (v, q) = sp_read_i32_opt(ts, p, key);
        (
            PtxModel {
                color_ramp: match v {
                    Some(x) => x != 0,
                    None => m.color_ramp,
                },
                ..m
            },
            q,
        )
    } else if key == "Rate"@ {
        let (v, q) = sp_read_float_opt(ts, p, key);
        (PtxModel { rate: opt_or(v, m.rate), ..m }, q)
    } else if key == "BlendSet"@ {
        let (v, q) = sp_read_i32_opt(ts, p, key);
        (PtxModel { blend_set: opt_or(v, m.blend_set), ..m }, q)
    } else if key == "Type"@ {
        let (v, q) = sp_read_i32_opt(ts, p, key);
        (PtxModel { system_type: opt_or(v, m.system_type), ..m }, q)
    } else if key == "ActivateRotate"@ || key == "RotatePtx"@ {
        let (b, q) = flag_after(ts, p, m.rotate_ptx);
        (PtxModel { rotate_ptx: b, ..m }, q)
    } else if key == "RotateSpeed"@ {
        let (v, q) = sp_read_float_opt(ts, p, key);
        (PtxModel { rotate_speed: opt_or(v, m.rotate_speed), ..m }, q)
    } else if key == "RelativeToParentMatrix"@ {
        let (b, q) = flag_after(ts, p, m.relative_to_parent);
        (PtxModel { relative_to_parent: b, ..m }, q)
    } else if key == "FrameRate"@ {
        let (v, q) = sp_read_float_opt(ts, p, key);
        (PtxModel { frame_rate: opt_or(v, m.frame_rate), ..m }, q)
    } else if key == "NumTextureTilesX"@ {
        let (v, q) = sp_read_i32_opt(ts, p, key);
        (PtxModel { grid_x: opt_or(v, m.grid_x as i32) as u32, ..m }, q)
    } else if key == "NumTextureTilesY"@ {
        let (v, q) = sp_read_i32_opt(ts, p, key);
        (PtxModel { grid_y: opt_or(v, m.grid_y as i32) as u32, ..m }, q)
    } else if key == "StartTextureTile"@ {
        let (v, q) = sp_read_i32_opt(ts, p, key);
        (PtxModel { start_tile: opt_or(v, m.start_tile as i32) as u32, ..m }, q)
    } else if key == "EndTextureTile"@ {
        let (v, q) = sp_read_i32_opt(ts, p, key);
        (PtxModel { end_tile: opt_or(v, m.end_tile as i32) as u32, ..m }, q)
    } else {
        (m, p + 1)
    }
}

/// The fields read from `p` up to the block's `}` or the end.
pub open spec fn ptx_body(ts: Seq<Seq<char>>, p: int, m: PtxModel) -> PtxModel
    decreases ts.len() - p,
{
    let (end, q) = sp_endblock(ts, p);
    if end || p < 0 || p >= ts.len() {
        m
    } else {
        let (m2, q2) = ptx_key(ts, p, m);
        if p < q2 <= ts.len() {
            ptx_body(ts, q2, m2)
        } else {
            m2
        }
    }
}

/// The position after the `Particle` that starts the fields, if any.
pub open spec fn ptx_start(ts: Seq<Seq<char>>, p: int) -> Option<int>
    decreases ts.len() - p,
{
    let (end, q) = sp_endblock(ts, p);
    if end || p < 0 || p >= ts.len() {
        None
    } else {
        let (found, q2) = sp_start(ts, p, "Particle"@);
        if found {
            Some(q2)
        } else if p < advance(ts, q2) <= ts.len() {
            ptx_start(ts, advance(ts, q2))
        } else {
            None
        }
    }
}

/// A particle system of a `.ptx` text: `None` when no `Particle` is found.
pub open spec fn spec_parse_ptx(content: Seq<char>, name: Seq<char>) -> Option<PtxModel> {
    let ts = spec_tokens(content);
    match ptx_start(ts, 0) {
        Some(q) => Some(ptx_body(ts, q, ptx_default(name))),
        None => None,
    }
}

fn text_of(c: char) -> (r: String)
    ensures
        r@ == seq![c],
{
    let a: [char; 1] = [c];
    assert(a@ =~= seq![c]);
    string_from_chars(&a)
}

fn texts3_of(c: char) -> (r: [String; 3])
    ensures
        texts3(r) == seq![seq![c], seq![c], seq![c]],
{
    let r = [text_of(c), text_of(c), text_of(c)];
    assert(texts3(r) =~= seq![seq![c], seq![c], seq![c]]);
    r
}

fn read_rgba(p: &mut BlockParser) -> (r: [String; 4])
    ensures
        final(p).tokens() == old(p).tokens(),
        (texts4(r), final(p).position()) == rgba_from(old(p).tokens(), old(p).position()),
{
    let a = match p.read_float_val() {
        Some(t) => t,
        None => text_of('1'),
    };
    let b = match p.read_float_val() {
        Some(t) => t,
        None => text_of('1'),
    };
    let c = match p.read_float_val() {
        Some(t) => t,
        None => text_of('1'),
    };
    let d = match p.read_float_val() {
        Some(t) => t,
        None => text_of('1'),
    };
    let r = [a, b, c, d];
    assert(texts4(r) =~= rgba_from(old(p).tokens(), old(p).position()).0);
    r
}

fn read_flag(p: &mut BlockParser, old_value: bool) -> (r: bool)
    ensures
        final(p).tokens() == old(p).tokens(),
        (r, final(p).position()) == flag_after(old(p).tokens(), old(p).position(), old_value),
{
    p.next();
    match p.next() {
        Some(t) => {
            let c = crate::text::chars_of(t.as_str());
            match parse_i32(c.as_slice()) {
                Some(n) => n != 0,
                None => false,
            }
        },
        None => old_value,
    }
}

fn vec3_of(v: [String; 3]) -> (r: [String; 3])
    ensures
        r == v,
{
    v
}

/// Reads the field named by the key at the cursor.
fn read_ptx_key(p: &mut BlockParser, def: &mut ParticleSystemDef, key: &str)
    requires
        0 <= old(p).position() < old(p).tokens().len(),
        key@ == old(p).tokens()[old(p).position()],
    ensures
        final(p).tokens() == old(p).tokens(),
        (ptx_model(*final(def)), final(p).position()) == ptx_key(
            old(p).tokens(),
            old(p).position(),
            ptx_model(*old(def)),
        ),
{
    let ghost m = ptx_model(*def);
    if str_is(key, "TextureName") {
        match p.read_string_opt("TextureName") {
            Some(t) => {
                def.texture_name = Some(t);
            },
            None => {},
        }
    } else if str_is(key, "PositionVar") {
        match p.read_vec3_opt("PositionVar") {
            Some(v) => {
                def.position_var = v;
                assert(texts3(def.position_var) =~= sp_read_floats_opt(
                    old(p).tokens(),
                    old(p).position(),
                    key@,
                    3,
                ).0->Some_0);
            },
            None => {},
        }
    } else if str_is(key, "RadiusBirth") {
        match p.read_vec2_opt("RadiusBirth") {
            Some(v) => {
                def.radius_birth = v;
                assert(texts2(def.radius_birth) =~= sp_read_floats_opt(
                    old(p).tokens(),
                    old(p).position(),
                    key@,
                    2,
                ).0->Some_0);
            },
            None => {},
        }
    } else if str_is(key, "RadiusDeathPercent") {
        if let Some(t) = p.read_float_opt("RadiusDeathPercent") {
            def.radius_death_percent = t;
        }
    } else if str_is(key, "Life") {
        if let Some(t) = p.read_float_opt("Life") {
            def.life = t;
        }
    } else if str_is(key, "LifeVar") {
        if let Some(t) = p.read_float_opt("LifeVar") {
            def.life_var = t;
        }
    } else if str_is(key, "Velocity") {
        if let Some(v) = p.read_vec3_opt("Velocity") {
            def.velocity = v;
            assert(texts3(def.velocity) =~= sp_read_floats_opt(
                old(p).tokens(),
                old(p).position(),
                key@,
                3,
            ).0->Some_0);
        }
    } else if str_is(key, "VelocityVar") {
        if let Some(v) = p.read_vec3_opt("VelocityVar") {
            def.velocity_var = v;
            assert(texts3(def.velocity_var) =~= sp_read_floats_opt(
                old(p).tokens(),
                old(p).position(),
                key@,
                3,
            ).0->Some_0);
        }
    } else if str_is(key, "VelocityDamping") {
        if let Some(v) = p.read_vec3_opt("VelocityDamping") {
            def.velocity_damping = v;
            assert(texts3(def.velocity_damping) =~= sp_read_floats_opt(
                old(p).tokens(),
                old(p).position(),
                key@,
                3,
            ).0->Some_0);
        }
    } else if str_is(key, "Gravity") {
        if let Some(t) = p.read_float_opt("Gravity") {
            def.gravity = t;
        }
    } else if str_is(key, "ColorBirth") {
        p.next();
        def.color_birth = read_rgba(p);
    } else if str_is(key, "ColorDeath") {
        p.next();
        def.color_death = read_rgba(p);
    } else if str_is(key, "ColorRamp") {
        if let Some(v) = p.read_i32_opt("ColorRamp") {
            def.color_ramp = v != 0;
        }
    } else if str_is(key, "Rate") {
        if let Some(t) = p.read_float_opt("Rate") {
            def.rate = t;
        }
    } else if str_is(key, "BlendSet") {
        if let Some(v) = p.read_i32_opt("BlendSet") {
            def.blend_set = v;
        }
    } else if str_is(key, "Type") {
        if let Some(v) = p.read_i32_opt("Type") {
            def.system_type = v;
        }
    } else if str_is(key, "ActivateRotate") || str_is(key, "RotatePtx") {
        def.rotate_ptx = read_flag(p, def.rotate_ptx);
    } else if str_is(key, "RotateSpeed") {
        if let Some(t) = p.read_float_opt("RotateSpeed") {
            def.rotate_speed = t;
        }
    } else if str_is(key, "RelativeToParentMatrix") {
        def.relative_to_parent = read_flag(p, def.relative_to_parent);
    } else if str_is(key, "FrameRate") {
        if let Some(t) = p.read_float_opt("FrameRate") {
            def.frame_rate = t;
        }
    } else if str_is(key, "NumTextureTilesX") {
        def.grid_x = p.read_i32("NumTextureTilesX", def.grid_x as i32) as u32;
    } else if str_is(key, "NumTextureTilesY") {
        def.grid_y = p.read_i32("NumTextureTilesY", def.grid_y as i32) as u32;
    } else if str_is(key, "StartTextureTile") {
        def.start_tile = p.read_i32("StartTextureTile", def.start_tile as i32) as u32;
    } else if str_is(key, "EndTextureTile") {
        def.end_tile = p.read_i32("EndTextureTile", def.end_tile as i32) as u32;
    } else {
        p.next();
    }
}

/// Reads a `.ptx` text into the particle system `name` (see
/// [`spec_parse_ptx`]); `None` when it has no `Particle` block.
pub fn parse_ptx(content: &str, name: String) -> (r: Option<ParticleSystemDef>)
    ensures
        match spec_parse_ptx(content@, name@) {
            Some(m) => r matches Some(d) && ptx_model(d) == m,
            None => r is None,
        },
{
    let mut p = BlockParser::new(content);
    let ghost ts = p.tokens();
    let mut found = false;
    loop
        invariant_except_break
            !found,
            p.tokens() == ts,
            ts == spec_tokens(content@),
            0 <= p.position() <= ts.len(),
            ptx_start(ts, p.position()) == ptx_start(ts, 0),
        ensures
            p.tokens() == ts,
            ts == spec_tokens(content@),
            0 <= p.position() <= ts.len(),
            found ==> ptx_start(ts, 0) == Some(p.position()),
            !found ==> ptx_start(ts, 0) is None,
        decreases ts.len() - p.position(),
    {
        let ghost p0 = p.position();
        if p.endblock() {
            break;
        }
        proof {
            reveal_strlit("Particle");
            lemma_find_tok_bounds(ts, p.position(), "Particle"@);
        }
        if p.start("Particle") {
            found = true;
            break;
        }
        p.next();
        assert(p0 < p.position() <= ts.len());
    }
    if !found {
        return None;
    }
    let z = text_of('0');
    let one = text_of('1');
    let mut def = ParticleSystemDef {
        name,
        texture_name: None,
        position_var: texts3_of('0'),
        radius_birth: [text_of('0'), text_of('0')],
        radius_death_percent: text_of('1'),
        life: text_of('1'),
        life_var: text_of('0'),
        velocity: texts3_of('0'),
        velocity_var: texts3_of('0'),
        velocity_damping: texts3_of('0'),
        gravity: text_of('0'),
        color_birth: [text_of('1'), text_of('1'), text_of('1'), text_of('1')],
        color_death: [text_of('1'), text_of('1'), text_of('1'), text_of('1')],
        color_ramp: false,
        rate: text_of('1'),
        blend_set: 0,
        system_type: 0,
        rotate_ptx: false,
        rotate_speed: text_of('5'),
        relative_to_parent: false,
        frame_rate: z,
        grid_x: 1,
        grid_y: 1,
        start_tile: 0,
        end_tile: 0,
    };
    assert(texts2(def.radius_birth) =~= seq![seq!['0'], seq!['0']]);
    assert(texts4(def.color_birth) =~= seq![seq!['1'], seq!['1'], seq!['1'], seq!['1']]);
    assert(texts4(def.color_death) =~= seq![seq!['1'], seq!['1'], seq!['1'], seq!['1']]);
    assert(ptx_model(def) == ptx_default(name@));
    let ghost start = p.position();
    let ghost m0 = ptx_model(def);
    while !p.endblock()
        invariant
            p.tokens() == ts,
            0 <= p.position() <= ts.len(),
            ptx_body(ts, p.position(), ptx_model(def)) == ptx_body(ts, start, m0),
        decreases ts.len() - p.position(),
    {
        let key = match p.peek() {
            Some(k) => String::from_str(k),
            None => String::new(),
        };
        let ghost p1 = p.position();
        read_ptx_key(&mut p, &mut def, key.as_str());
        assert(p1 < p.position() <= ts.len());
    }
    Some(def)
}

} // verus!
