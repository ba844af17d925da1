//! Decisions made while spawning entities: which files an entity type
//! reads, how its materials and sub-bounds are set up, how creatures pick
//! locomotion animations and how pending parents are found.
//!
//! Loading files, building meshes and talking to the engine are the
//! caller's; every function here takes what those produced as plain values.
use crate::text::{chars_of, decimal, push_decimal, push_str, str_is, string_from_chars};
use crate::types::Oni2MaterialPass;
use vstd::prelude::*;

verus! {

// ---------------------------------------------------------------------
// Small state carried by spawned creatures
// ---------------------------------------------------------------------

/// Frames during which a creature that was just snapped to the ground is
/// held grounded.
pub struct JustGroundSnapped(pub u8);

/// Frames a freshly snapped creature stays held.
pub const GROUND_SNAP_HOLD_FRAMES: u8 = 3;

impl JustGroundSnapped {
    /// The marker a ground snap leaves.
    pub fn after_snap() -> (m: Self)
        ensures
            m.0 == GROUND_SNAP_HOLD_FRAMES,
    {
        JustGroundSnapped(GROUND_SNAP_HOLD_FRAMES)
    }
}

/// The platform an entity rode last tick (an entity id), if any.
#[derive(Debug, Clone, Copy, PartialEq, Eq, Structural)]
pub struct PlatformRider {
    pub platform: Option<u64>,
}

impl PlatformRider {
    /// Not riding anything.
    pub fn new() -> (r: Self)
        ensures
            r.platform is None,
    {
        PlatformRider { platform: None }
    }

    /// Records the platform stood on this tick; returns whether the
    /// platform's movement since last tick carries the rider, which is when
    /// it stands on the same platform as last tick.
    pub fn moving_platform_step(&mut self, standing_on: Option<u64>) -> (carry: bool)
        ensures
            carry == (standing_on is Some && old(self).platform == standing_on),
            final(self).platform == standing_on,
    {
        let carry = match (standing_on, self.platform) {
            (Some(a), Some(b)) => a == b,
            _ => false,
        };
        self.platform = standing_on;
        carry
    }
}

/// The movement animation a creature last started.
#[derive(Debug, Clone, Copy, PartialEq, Eq, Structural)]
pub enum CreatureMovementAnim {
    Stand,
    Walk,
    Run,
    WalkLeft,
    WalkRight,
    RunLeft,
    RunRight,
}

impl CreatureMovementAnim {
    /// `Stand`.
    pub fn initial() -> (m: Self)
        ensures
            m == CreatureMovementAnim::Stand,
    {
        CreatureMovementAnim::Stand
    }
}

// ---------------------------------------------------------------------
// Locomotion animation choice
// ---------------------------------------------------------------------

/// Why a creature's locomotion may not change its animation this tick.
#[derive(Debug, Clone, Copy, PartialEq, Eq, Structural)]
pub struct LocomotionGates {
    /// A state-machine animation (attack, ...) is playing...
    pub fsm_anim_active: bool,
    /// ... unless it has timed out.
    pub fsm_timed_out: bool,
    /// A hit reaction is playing.
    pub reaction_active: bool,
    /// An animation schedule (jump phases, ...) is running.
    pub schedule_running: bool,
    /// A one-shot animation locks movement.
    pub movement_locked: bool,
}

/// One gait of the list that fits the movement direction, with the
/// caller's comparisons of the throttle against its ranges.
#[derive(Debug, Clone, Copy, PartialEq, Eq, Structural)]
pub struct GaitCandidate {
    /// Animation id.
    pub anim: u32,
    /// The throttle lies between the gait's two throttle bounds.
    pub in_range: bool,
    /// The throttle lies between the lower bound less 0.15 and the upper
    /// bound (the range a playing gait keeps).
    pub in_hysteresis_range: bool,
}

/// Everything a locomotion decision reads.
#[derive(Debug, Clone)]
pub struct MovementAnimInput {
    pub gates: LocomotionGates,
    /// The creature has a locomotion controller.
    pub has_locomotion: bool,
    pub gaits: Vec<GaitCandidate>,
    /// The first gait whose ideal throttle is nearest the throttle
    /// (`None` when there are no gaits).
    pub nearest: Option<usize>,
    pub current_anim: Option<u32>,
    /// The creature is in a fight stance.
    pub fight_stance: bool,
    /// Ids of `ANIMNORMAL_IDLE`, `ANIMNAV_STAND` and
    /// `ANIMFIGHTSTANCE_FIGHT`.
    pub idle_anim: u32,
    pub stand_anim: u32,
    pub fight_anim: u32,
}

/// The outcome of a locomotion decision.
#[derive(Debug, Clone, Copy, PartialEq, Eq, Structural)]
pub enum MovementAnimDecision {
    /// Something else drives the animation this tick.
    Blocked,
    /// Nothing to change.
    Keep,
    /// Start this animation (keeping the playback phase).
    Play(u32),
}

/// Locomotion is held off by a gate.
pub open spec fn gates_block(g: LocomotionGates) -> bool {
    (g.fsm_anim_active && !g.fsm_timed_out) || g.reaction_active || g.schedule_running
        || g.movement_locked
}

/// First gait index from `i` playing animation `id`, or `gs.len()`.
pub open spec fn first_with_anim(gs: Seq<GaitCandidate>, i: int, id: u32) -> int
    decreases gs.len() - i,
{
    if i >= gs.len() || i < 0 {
        gs.len() as int
    } else if gs[i].anim == id {
        i
    } else {
        first_with_anim(gs, i + 1, id)
    }
}

/// First gait index from `i` whose range holds the throttle, or `gs.len()`.
pub open spec fn first_in_range(gs: Seq<GaitCandidate>, i: int) -> int
    decreases gs.len() - i,
{
    if i >= gs.len() || i < 0 {
        gs.len() as int
    } else if gs[i].in_range {
        i
    } else {
        first_in_range(gs, i + 1)
    }
}

/// The gait chosen: the playing gait while the throttle stays in its
/// hysteresis range, else the first gait whose range holds the throttle,
/// else the nearest.
pub open spec fn chosen_gait(input: MovementAnimInput) -> Option<int> {
    let gs = input.gaits@;
    let cur = match input.current_anim {
        Some(id) => first_with_anim(gs, 0, id),
        None => gs.len() as int,
    };
    if cur < gs.len() && gs[cur].in_hysteresis_range {
        Some(cur)
    } else if first_in_range(gs, 0) < gs.len() {
        Some(first_in_range(gs, 0))
    } else {
        match input.nearest {
            Some(n) => Some(n as int),
            None => None,
        }
    }
}

/// The decision for one creature.
pub open spec fn spec_movement_decision(input: MovementAnimInput) -> MovementAnimDecision {
    if gates_block(input.gates) {
        MovementAnimDecision::Blocked
    } else if !input.has_locomotion {
        MovementAnimDecision::Keep
    } else {
        match chosen_gait(input) {
            None => MovementAnimDecision::Keep,
            Some(i) => {
                let a = input.gaits@[i].anim;
                let anim = if input.fight_stance && (a == input.idle_anim || a == input.stand_anim) {
                    input.fight_anim
                } else {
                    a
                };
                if input.current_anim == Some(anim) {
                    MovementAnimDecision::Keep
                } else {
                    MovementAnimDecision::Play(anim)
                }
            },
        }
    }
}

proof fn lemma_first_with_anim(gs: Seq<GaitCandidate>, i: int, id: u32, k: int)
    requires
        0 <= i <= k <= gs.len(),
        forall|j: int| i <= j < k ==> gs[j].anim != id,
        k == gs.len() || gs[k].anim == id,
    ensures
        first_with_anim(gs, i, id) == k,
    decreases k - i,
{
    if i < k {
        lemma_first_with_anim(gs, i + 1, id, k);
    }
}

proof fn lemma_first_in_range(gs: Seq<GaitCandidate>, i: int, k: int)
    requires
        0 <= i <= k <= gs.len(),
        forall|j: int| i <= j < k ==> !gs[j].in_range,
        k == gs.len() || gs[k].in_range,
    ensures
        first_in_range(gs, i) == k,
    decreases k - i,
{
    if i < k {
        lemma_first_in_range(gs, i + 1, k);
    }
}

/// Picks the locomotion animation of a creature for this tick (see
/// [`spec_movement_decision`]).
pub fn creature_movement_anim_system(input: &MovementAnimInput) -> (d: MovementAnimDecision)
    requires
        input.nearest matches Some(n) ==> n < input.gaits@.len(),
    ensures
        d == spec_movement_decision(*input),
{
    let g = input.gates;
    if (g.fsm_anim_active && !g.fsm_timed_out) || g.reaction_active || g.schedule_running
        || g.movement_locked {
        return MovementAnimDecision::Blocked;
    }
    if !input.has_locomotion {
        return MovementAnimDecision::Keep;
    }
    let ghost gs = input.gaits@;
    let n = input.gaits.len();
    let mut chosen: Option<usize> = None;
    if let Some(id) = input.current_anim {
        let mut i: usize = 0;
        while i < n && input.gaits[i].anim != id
            invariant
                n == gs.len(),
                gs == input.gaits@,
                i <= n,
                forall|j: int| 0 <= j < i ==> gs[j].anim != id,
            decreases n - i,
        {
            i = i + 1;
        }
        proof {
            lemma_first_with_anim(gs, 0, id, i as int);
        }
        if i < n && input.gaits[i].in_hysteresis_range {
            chosen = Some(i);
        }
    }
    if chosen.is_none() {
        let mut i: usize = 0;
        while i < n && !input.gaits[i].in_range
            invariant
                n == gs.len(),
                gs == input.gaits@,
                i <= n,
                forall|j: int| 0 <= j < i ==> !gs[j].in_range,
            decreases n - i,
        {
            i = i + 1;
        }
        proof {
            lemma_first_in_range(gs, 0, i as int);
        }
        if i < n {
            chosen = Some(i);
        } else {
            chosen = input.nearest;
        }
    }
    assert(chosen == match chosen_gait(*input) {
        Some(i) => Some(i as usize),
        None => None::<usize>,
    });
    match chosen {
        None => MovementAnimDecision::Keep,
        Some(i) => {
            let a = input.gaits[i].anim;
            let anim = if input.fight_stance && (a == input.idle_anim || a == input.stand_anim) {
                input.fight_anim
            } else {
                a
            };
            if input.current_anim == Some(anim) {
                MovementAnimDecision::Keep
            } else {
                MovementAnimDecision::Play(anim)
            }
        },
    }
}

// ---------------------------------------------------------------------
// Materials
// ---------------------------------------------------------------------

/// The engine material of one shader pass.
#[derive(Debug, Clone, Copy, PartialEq, Eq, Structural)]
pub enum PassMaterialPlan {
    /// Sphere-mapped reflection of the pass's texture (a blank one when
    /// the texture did not load).
    EnvReflect { textured: bool },
    /// A standard material: a white base under the texture when it loaded,
    /// else the material's diffuse colour; alpha-blended or opaque; drawn
    /// with a depth bias of 10 per pass index.
    Standard { textured: bool, blend: bool, pass_idx: usize },
}

/// The option holds exactly `lit`.
pub open spec fn opt_is(o: Option<String>, lit: Seq<char>) -> bool {
    o matches Some(s) && s@ == lit
}

/// What material a pass gets; `texture` is `Some(has_alpha)` when its
/// texture loaded.  `texgen reflect` selects reflection; otherwise the
/// pass blends when its texture has alpha, it combines as `decal`, or its
/// `blendset` is anything but `opaque` and `normal`.
pub open spec fn spec_pass_material(pass: Oni2MaterialPass, pass_idx: usize, texture: Option<bool>) -> PassMaterialPlan {
    if opt_is(pass.texgen, "reflect"@) {
        PassMaterialPlan::EnvReflect { textured: texture is Some }
    } else {
        PassMaterialPlan::Standard {
            textured: texture is Some,
            blend: texture == Some(true) || opt_is(pass.texcombine, "decal"@) || (pass.blendset matches Some(
                b,
            ) && b@ != "opaque"@ && b@ != "normal"@),
            pass_idx,
        }
    }
}

fn opt_str_is(o: &Option<String>, lit: &str) -> (r: bool)
    ensures
        r == opt_is(*o, lit@),
{
    match o {
        Some(s) => str_is(s.as_str(), lit),
        None => false,
    }
}

/// Chooses the material of a shader pass (see [`spec_pass_material`]).
pub fn build_pass_material(pass: &Oni2MaterialPass, pass_idx: usize, texture: Option<bool>) -> (m: PassMaterialPlan)
    ensures
        m == spec_pass_material(*pass, pass_idx, texture),
{
    let textured = texture.is_some();
    if opt_str_is(&pass.texgen, "reflect") {
        return PassMaterialPlan::EnvReflect { textured };
    }
    let has_alpha = match texture {
        Some(a) => a,
        None => false,
    };
    let is_decal = opt_str_is(&pass.texcombine, "decal");
    let is_blend = match &pass.blendset {
        Some(b) => !str_is(b.as_str(), "opaque") && !str_is(b.as_str(), "normal"),
        None => false,
    };
    PassMaterialPlan::Standard { textured, blend: has_alpha || is_decal || is_blend, pass_idx }
}

/// Speeds of a pass's texture-coordinate animation, as float texts.
#[derive(Debug, Clone)]
pub struct TextureUVAnimator {
    /// U increment per second.
    pub slides_speed: String,
    /// V increment per second.
    pub slidet_speed: String,
    /// Radians per second.
    pub rotate_speed: String,
    pub scalet_speed: String,
}

/// Position of the first word `sawtooth`, or `ws.len()`.
pub open spec fn sawtooth_index(ws: Seq<Seq<char>>, i: int) -> int
    decreases ws.len() - i,
{
    if i >= ws.len() || i < 0 {
        ws.len() as int
    } else if ws[i] == "sawtooth"@ {
        i
    } else {
        sawtooth_index(ws, i + 1)
    }
}

/// The speed of a `... sawtooth <speed> ...` directive: the word after the
/// first `sawtooth` read as a float, `"0"` when it is missing or not one.
pub open spec fn spec_sawtooth_speed(payload: Seq<char>) -> Seq<char> {
    let ws = crate::text::spec_words(payload);
    let i = sawtooth_index(ws, 0);
    if i + 1 < ws.len() {
        crate::block_parser::float_or_zero(ws[i + 1])
    } else {
        crate::block_parser::zero_text()
    }
}

proof fn lemma_sawtooth_index(ws: Seq<Seq<char>>, i: int, k: int)
    requires
        0 <= i <= k <= ws.len(),
        forall|j: int| i <= j < k ==> ws[j] != "sawtooth"@,
        k == ws.len() || ws[k] == "sawtooth"@,
    ensures
        sawtooth_index(ws, i) == k,
    decreases k - i,
{
    if i < k {
        lemma_sawtooth_index(ws, i + 1, k);
    }
}

fn parse_sawtooth_speed(payload: &str) -> (speed: String)
    ensures
        speed@ == spec_sawtooth_speed(payload@),
{
    let chars = chars_of(payload);
    let parts = crate::text::split_whitespace(chars.as_slice());
    let ghost ws = crate::text::spec_words(payload@);
    let saw = chars_of("sawtooth");
    let mut i: usize = 0;
    while i < parts.len() && !crate::text::chars_eq(parts[i].as_slice(), saw.as_slice())
        invariant
            i <= parts@.len(),
            parts@.len() == ws.len(),
            saw@ == "sawtooth"@,
            forall|k: int| 0 <= k < parts@.len() ==> #[trigger] parts@[k]@ == ws[k],
            forall|j: int| 0 <= j < i ==> ws[j] != "sawtooth"@,
        decreases parts.len() - i,
    {
        i = i + 1;
    }
    proof {
        lemma_sawtooth_index(ws, 0, i as int);
        reveal_strlit("0");
        assert("0"@ =~= crate::block_parser::zero_text());
    }
    if i < parts.len() && parts.len() - i > 1 {
        if crate::text::float_text(parts[i + 1].as_slice()) {
            string_from_chars(parts[i + 1].as_slice())
        } else {
            "0".to_owned()
        }
    } else {
        "0".to_owned()
    }
}

/// The speed in an optional directive, `"0"` without one.
pub open spec fn directive_speed(d: Option<String>) -> Seq<char> {
    match d {
        Some(s) => spec_sawtooth_speed(s@),
        None => crate::block_parser::zero_text(),
    }
}

fn directive_speed_of(d: &Option<String>) -> (speed: String)
    ensures
        speed@ == directive_speed(*d),
{
    proof {
        reveal_strlit("0");
        assert("0"@ =~= crate::block_parser::zero_text());
    }
    match d {
        Some(s) => parse_sawtooth_speed(s.as_str()),
        None => "0".to_owned(),
    }
}

/// The texture-coordinate animation of a pass, from its `slides`,
/// `slidet`, `rotate` and `scalet` sawtooth directives.
pub fn parse_uv_animator(pass: &Oni2MaterialPass) -> (a: TextureUVAnimator)
    ensures
        a.slides_speed@ == directive_speed(pass.slides),
        a.slidet_speed@ == directive_speed(pass.slidet),
        a.rotate_speed@ == directive_speed(pass.rotate),
        a.scalet_speed@ == directive_speed(pass.scalet),
{
    TextureUVAnimator {
        slides_speed: directive_speed_of(&pass.slides),
        slidet_speed: directive_speed_of(&pass.slidet),
        rotate_speed: directive_speed_of(&pass.rotate),
        scalet_speed: directive_speed_of(&pass.scalet),
    }
}

// ---------------------------------------------------------------------
// Entities
// ---------------------------------------------------------------------

/// A request to spawn an entity from its directory.
#[derive(Debug, Clone)]
pub struct EntitySpawnRequest {
    pub entity_dir: String,
    pub name: String,
    /// Spawned without rotation.
    pub rotated: bool,
    /// An animation file to play instead of the default one.
    pub anim_path: Option<String>,
    /// The entity type to load, when it differs from the name.
    pub entity_type_name: Option<String>,
}

/// Spawning an entity without rotation: its default animation, its type
/// named after it.
pub fn spawn_oni2_entity(entity_dir: &str, name: &str) -> (r: EntitySpawnRequest)
    ensures
        r.entity_dir@ == entity_dir@,
        r.name@ == name@,
        !r.rotated,
        r.anim_path is None,
        r.entity_type_name is None,
{
    EntitySpawnRequest {
        entity_dir: entity_dir.to_owned(),
        name: name.to_owned(),
        rotated: false,
        anim_path: None,
        entity_type_name: None,
    }
}

/// Where to look for the model of an entity type, in order.
#[derive(Debug, Clone)]
pub struct ModelLookup {
    /// `<dir>/<model file>`.
    pub primary: String,
    /// `<dir>/<model file with every ".mod" replaced by "0.mod">`, used in
    /// place of the primary path when that is missing; only for model files
    /// ending in `.mod`.
    pub zero_fallback: Option<String>,
    /// `<dir>/<name>.mod`, a text model in world space.
    pub text_model: String,
    /// `<dir>/win32_<model file>`, a model in world space.
    pub win32_model: String,
}

/// The files an entity type reads.
#[derive(Debug, Clone)]
pub struct EntityTypeFiles {
    /// `<dir>/Entity.type`.
    pub type_path: String,
    /// `<dir>/<skeleton file>`.
    pub skel_path: Option<String>,
    pub model: Option<ModelLookup>,
    /// `<dir>/Bound.bnd`.
    pub bound_path: String,
    /// `<dir>/<type name, or the entity name>`: the key of the cached
    /// animation library.
    pub anim_cache_key: String,
}

/// `dir/file`.
pub open spec fn join(dir: Seq<char>, file: Seq<char>) -> Seq<char> {
    dir + "/"@ + file
}

fn join_path(dir: &str, file: &[char]) -> (r: String)
    ensures
        r@ == join(dir@, file@),
{
    let mut out: Vec<char> = Vec::new();
    push_str(&mut out, dir);
    push_str(&mut out, "/");
    let ghost before = out@;
    let mut i: usize = 0;
    while i < file.len()
        invariant
            i <= file@.len(),
            out@ == before + file@.subrange(0, i as int),
        decreases file.len() - i,
    {
        out.push(file[i]);
        i = i + 1;
        assert(out@ =~= before + file@.subrange(0, i as int));
    }
    assert(file@.subrange(0, file@.len() as int) =~= file@);
    assert(out@ =~= join(dir@, file@));
    string_from_chars(out.as_slice())
}

/// The model lookup for model file `m` of an entity `name` in `dir`.
pub open spec fn spec_model_lookup(dir: Seq<char>, name: Seq<char>, m: Seq<char>) -> (Seq<char>, Option<Seq<char>>, Seq<char>, Seq<char>) {
    (
        join(dir, m),
        if crate::text::has_suffix(m, ".mod"@) {
            Some(join(dir, crate::text::replace_all(m, ".mod"@, "0.mod"@)))
        } else {
            None
        },
        join(dir, name + ".mod"@),
        join(dir, "win32_"@ + m),
    )
}

/// Lists the files an entity type in `entity_dir` reads, given the model
/// and skeleton files its `Entity.type` names.
pub fn load_oni2_entity_type(
    entity_dir: &str,
    name: &str,
    entity_type_name: Option<&str>,
    model_file: Option<&str>,
    skel_file: Option<&str>,
) -> (f: EntityTypeFiles)
    ensures
        f.type_path@ == join(entity_dir@, "Entity.type"@),
        match skel_file {
            Some(s) => f.skel_path matches Some(p) && p@ == join(entity_dir@, s@),
            None => f.skel_path is None,
        },
        match model_file {
            Some(m) => f.model matches Some(l) && (
                l.primary@,
                match l.zero_fallback {
                    Some(z) => Some(z@),
                    None => None,
                },
                l.text_model@,
                l.win32_model@,
            ) == spec_model_lookup(entity_dir@, name@, m@),
            None => f.model is None,
        },
        f.bound_path@ == join(entity_dir@, "Bound.bnd"@),
        f.anim_cache_key@ == join(
            entity_dir@,
            match entity_type_name {
                Some(t) => t@,
                None => name@,
            },
        ),
{
    let type_path = join_path(entity_dir, chars_of("Entity.type").as_slice());
    let skel_path = match skel_file {
        Some(s) => Some(join_path(entity_dir, chars_of(s).as_slice())),
        None => None,
    };
    let model = match model_file {
        Some(m) => {
            let mc = chars_of(m);
            let suffix = chars_of(".mod");
            let zero_fallback = if crate::text::ends_with(mc.as_slice(), suffix.as_slice()) {
                let zero = chars_of("0.mod");
                proof {
                    reveal_strlit(".mod");
                }
                let replaced = crate::text::replace_str(mc.as_slice(), suffix.as_slice(), zero.as_slice());
                Some(join_path(entity_dir, replaced.as_slice()))
            } else {
                None
            };
            let mut text_file: Vec<char> = chars_of(name);
            push_str(&mut text_file, ".mod");
            let mut win32_file: Vec<char> = chars_of("win32_");
            push_str(&mut win32_file, m);
            Some(
                ModelLookup {
                    primary: join_path(entity_dir, mc.as_slice()),
                    zero_fallback,
                    text_model: join_path(entity_dir, text_file.as_slice()),
                    win32_model: join_path(entity_dir, win32_file.as_slice()),
                },
            )
        },
        None => None,
    };
    let key_name = match entity_type_name {
        Some(t) => chars_of(t),
        None => chars_of(name),
    };
    EntityTypeFiles {
        type_path,
        skel_path,
        model,
        bound_path: join_path(entity_dir, chars_of("Bound.bnd").as_slice()),
        anim_cache_key: join_path(entity_dir, key_name.as_slice()),
    }
}

/// A model is loaded in world space when it came from the text or `win32`
/// fallback, except that a skeleton of more than 10 bones marks it
/// bone-local.
pub fn model_world_space(from_fallback: bool, skeleton_bones: Option<usize>) -> (w: bool)
    ensures
        w == (from_fallback && !(skeleton_bones matches Some(n) && n > 10)),
{
    match skeleton_bones {
        Some(n) => from_fallback && n <= 10,
        None => from_fallback,
    }
}

/// GPU skinning needs both a skeleton and a non-empty animation library.
pub fn use_gpu_skinning(has_skeleton: bool, has_library: bool) -> (s: bool)
    ensures
        s == (has_skeleton && has_library),
{
    has_skeleton && has_library
}

/// The bone a sub-bound is attached to, and whether its vertices are made
/// relative to that bone's rest position.
///
/// Only composite bounds (more than one sub-bound) on a skeleton use
/// bones: with exactly one bone more than sub-bounds, sub-bound `i` goes to
/// bone `i + 1` (at most the last bone); otherwise to the bone the caller
/// found nearest its centroid (`nearest`, among the bones after the root
/// when there are several).  Everything else stays on bone 0 unchanged.
pub fn sub_bound_bone(sub_idx: usize, n_subs: usize, n_bones: usize, nearest: usize) -> (r: (usize, bool))
    requires
        n_bones > 1 ==> 1 <= nearest < n_bones,
        n_bones == 1 ==> nearest == 0,
    ensures
        r == if n_subs > 1 && n_bones > 0 {
            if n_bones == n_subs + 1 {
                (if sub_idx + 1 < n_bones {
                    (sub_idx + 1) as usize
                } else {
                    (n_bones - 1) as usize
                }, true)
            } else {
                (nearest, true)
            }
        } else {
            (0usize, false)
        },
        r.0 < n_bones || (r.0 == 0 && !r.1),
{
    if n_subs > 1 && n_bones > 0 {
        if n_subs < usize::MAX && n_bones == n_subs + 1 {
            let idx = if sub_idx < n_bones - 1 {
                sub_idx + 1
            } else {
                n_bones - 1
            };
            (idx, true)
        } else {
            (nearest, true)
        }
    } else {
        (0, false)
    }
}

// ---------------------------------------------------------------------
// Single models
// ---------------------------------------------------------------------

/// The shader passes of one model material.
#[derive(Debug, Clone)]
pub struct MaterialPasses {
    pub texture_name: Option<String>,
    pub passes: Vec<Oni2MaterialPass>,
}

/// One child entity of a spawned model: a sub-mesh drawn with one pass.
#[derive(Debug, Clone)]
pub struct ModChild {
    /// Index into the model's sub-meshes.
    pub mesh: usize,
    /// Material index of the sub-mesh.
    pub material: usize,
    pub pass: usize,
    /// `<label>::submesh_<material>_pass_<pass>`.
    pub name: String,
    /// The material index has no material: draw with the grey fallback.
    pub fallback: bool,
}

/// How to spawn a model file for inspection.
#[derive(Debug, Clone)]
pub struct ModSpawnPlan {
    /// `<dir>/<label up to its first '_'>.skel`, shown when it exists.
    pub skeleton_path: String,
    /// The passes to build per material: its own, or one pass naming the
    /// material's texture when it has none.
    pub passes: Vec<Vec<Oni2MaterialPass>>,
    pub children: Vec<ModChild>,
}

pub open spec fn child_name(label: Seq<char>, material: nat, pass: nat) -> Seq<char> {
    label + "::submesh_"@ + decimal(material) + "_pass_"@ + decimal(pass)
}

/// Number of passes a material index is drawn with.
pub open spec fn passes_for(materials: Seq<MaterialPasses>, m: int) -> int {
    if 0 <= m < materials.len() {
        if materials[m].passes@.len() > 0 {
            materials[m].passes@.len() as int
        } else {
            1
        }
    } else {
        1
    }
}

/// The children of sub-meshes `0..k`: for each, one per pass in order.
pub open spec fn mod_children(label: Seq<char>, materials: Seq<MaterialPasses>, sub_mesh_materials: Seq<usize>, k: nat) -> Seq<(usize, usize, usize, Seq<char>, bool)>
    decreases k,
{
    if k == 0 {
        Seq::empty()
    } else {
        let m = sub_mesh_materials[k - 1];
        mod_children(label, materials, sub_mesh_materials, (k - 1) as nat) + Seq::new(
            passes_for(materials, m as int) as nat,
            |p: int|
                (
                    (k - 1) as usize,
                    m,
                    p as usize,
                    child_name(label, m as nat, p as nat),
                    !(m < materials.len()),
                ),
        )
    }
}

pub open spec fn child_tuple(c: ModChild) -> (usize, usize, usize, Seq<char>, bool) {
    (c.mesh, c.material, c.pass, c.name@, c.fallback)
}

fn child_name_of(label: &str, material: usize, pass: usize) -> (r: String)
    ensures
        r@ == child_name(label@, material as nat, pass as nat),
{
    let mut out: Vec<char> = Vec::new();
    push_str(&mut out, label);
    push_str(&mut out, "::submesh_");
    push_decimal(&mut out, material as u64);
    push_str(&mut out, "_pass_");
    push_decimal(&mut out, pass as u64);
    string_from_chars(out.as_slice())
}

/// Plans spawning a model file: its skeleton file, the passes of each
/// material and one child per sub-mesh and pass.
pub fn spawn_mod_file(entity_dir: &str, label: &str, materials: &Vec<MaterialPasses>, sub_mesh_materials: &Vec<usize>) -> (plan: ModSpawnPlan)
    ensures
        plan.skeleton_path@ == join(
            entity_dir@,
            crate::text::before_first(label@, '_') + ".skel"@,
        ),
        plan.passes@.len() == materials@.len(),
        forall|i: int|
            0 <= i < materials@.len() ==> if materials@[i].passes@.len() > 0 {
                (#[trigger] plan.passes@[i])@ == materials@[i].passes@
            } else {
                plan.passes@[i]@.len() == 1 && plan.passes@[i]@[0].texture_name
                    == materials@[i].texture_name && plan.passes@[i]@[0].texgen is None
                    && plan.passes@[i]@[0].blendset is None && plan.passes@[i]@[0].texcombine is None
            },
        plan.children@.map_values(|c: ModChild| child_tuple(c)) == mod_children(
            label@,
            materials@,
            sub_mesh_materials@,
            sub_mesh_materials@.len(),
        ),
{
    let lc = chars_of(label);
    let mut skel_file = crate::text::before_first_char(lc.as_slice(), '_');
    push_str(&mut skel_file, ".skel");
    let skeleton_path = join_path(entity_dir, skel_file.as_slice());
    let mut passes: Vec<Vec<Oni2MaterialPass>> = Vec::new();
    let mut i: usize = 0;
    while i < materials.len()
        invariant
            i <= materials@.len(),
            passes@.len() == i,
            forall|j: int|
                0 <= j < i ==> if materials@[j].passes@.len() > 0 {
                    (#[trigger] passes@[j])@ == materials@[j].passes@
                } else {
                    passes@[j]@.len() == 1 && passes@[j]@[0].texture_name
                        == materials@[j].texture_name && passes@[j]@[0].texgen is None
                        && passes@[j]@[0].blendset is None && passes@[j]@[0].texcombine is None
                },
        decreases materials.len() - i,
    {
        if materials[i].passes.len() > 0 {
            let mut own: Vec<Oni2MaterialPass> = Vec::new();
            let mut k: usize = 0;
            while k < materials[i].passes.len()
                invariant
                    i < materials@.len(),
                    k <= materials@[i as int].passes@.len(),
                    own@ == materials@[i as int].passes@.subrange(0, k as int),
                decreases materials@[i as int].passes@.len() - k,
            {
                own.push(materials[i].passes[k].duplicate());
                k = k + 1;
                assert(own@ =~= materials@[i as int].passes@.subrange(0, k as int));
            }
            assert(own@ =~= materials@[i as int].passes@);
            passes.push(own);
        } else {
            let synthetic = Oni2MaterialPass::with_texture(materials[i].texture_name.clone());
            passes.push(vec![synthetic]);
        }
        i = i + 1;
    }
    let mut children: Vec<ModChild> = Vec::new();
    let mut s: usize = 0;
    while s < sub_mesh_materials.len()
        invariant
            s <= sub_mesh_materials@.len(),
            children@.map_values(|c: ModChild| child_tuple(c)) == mod_children(
                label@,
                materials@,
                sub_mesh_materials@,
                s as nat,
            ),
        decreases sub_mesh_materials.len() - s,
    {
        let m = sub_mesh_materials[s];
        let (count, fallback) = if m < materials.len() {
            if materials[m].passes.len() > 0 {
                (materials[m].passes.len(), false)
            } else {
                (1, false)
            }
        } else {
            (1, true)
        };
        let ghost before = children@.map_values(|c: ModChild| child_tuple(c));
        let mut p: usize = 0;
        while p < count
            invariant
                p <= count,
                count == passes_for(materials@, m as int),
                fallback == !(m < materials@.len()),
                s < sub_mesh_materials@.len(),
                m == sub_mesh_materials@[s as int],
                children@.map_values(|c: ModChild| child_tuple(c)) == before + Seq::new(
                    p as nat,
                    |q: int|
                        (
                            s as usize,
                            m,
                            q as usize,
                            child_name(label@, m as nat, q as nat),
                            !(m < materials@.len()),
                        ),
                ),
            decreases count - p,
        {
            let name = child_name_of(label, m, p);
            let ghost prev = children@.map_values(|c: ModChild| child_tuple(c));
            let ghost entry = (s, m, p, name@, fallback);
            children.push(ModChild { mesh: s, material: m, pass: p, name, fallback });
            assert(children@.map_values(|c: ModChild| child_tuple(c)) =~= prev.push(entry));
            p = p + 1;
            assert(children@.map_values(|c: ModChild| child_tuple(c)) =~= before + Seq::new(
                p as nat,
                |q: int|
                    (
                        s as usize,
                        m,
                        q as usize,
                        child_name(label@, m as nat, q as nat),
                        !(m < materials@.len()),
                    ),
            ));
        }
        s = s + 1;
        assert(children@.map_values(|c: ModChild| child_tuple(c)) =~= mod_children(
            label@,
            materials@,
            sub_mesh_materials@,
            s as nat,
        ));
    }
    ModSpawnPlan { skeleton_path, passes, children }
}

// ---------------------------------------------------------------------
// Pending parents
// ---------------------------------------------------------------------

/// A spawned actor waiting to be attached to another one (by name), and
/// optionally to one of its bones.
#[derive(Debug, Clone)]
pub struct PendingParent {
    pub child: u64,
    pub parent_name: String,
    pub bone_name: Option<String>,
}

/// The bones of an animated actor: names and the entities of their joints.
#[derive(Debug, Clone)]
pub struct TargetSkeleton {
    pub bone_names: Vec<String>,
    pub joints: Vec<u64>,
}

/// An actor that may become a parent.
#[derive(Debug, Clone)]
pub struct ParentTarget {
    pub entity: u64,
    pub name: String,
    pub skeleton: Option<TargetSkeleton>,
}

/// First target from `i` named `name`, or `ts.len()`.
pub open spec fn first_target(ts: Seq<ParentTarget>, i: int, name: Seq<char>) -> int
    decreases ts.len() - i,
{
    if i < 0 || i >= ts.len() {
        ts.len() as int
    } else if ts[i].name@ == name {
        i
    } else {
        first_target(ts, i + 1, name)
    }
}

/// First bone from `i` whose name equals `bone` up to ASCII case.
pub open spec fn first_bone(names: Seq<String>, i: int, bone: Seq<char>) -> int
    decreases names.len() - i,
{
    if i < 0 || i >= names.len() {
        names.len() as int
    } else if crate::text::eq_ic(names[i]@, bone) {
        i
    } else {
        first_bone(names, i + 1, bone)
    }
}

/// The entity a pending actor attaches to: the first target with the
/// parent's name, or the joint of its first bone matching the bone name
/// (up to ASCII case) when the target is animated and has that joint.
pub open spec fn spec_resolve_parent(p: PendingParent, ts: Seq<ParentTarget>) -> Option<u64> {
    let k = first_target(ts, 0, p.parent_name@);
    if k >= ts.len() {
        None
    } else {
        let t = ts[k];
        match (p.bone_name, t.skeleton) {
            (Some(b), Some(sk)) => {
                let j = first_bone(sk.bone_names@, 0, b@);
                if j < sk.bone_names@.len() && j < sk.joints@.len() {
                    Some(sk.joints@[j])
                } else {
                    Some(t.entity)
                }
            },
            _ => Some(t.entity),
        }
    }
}

/// The attachments for pending actors `0..k`, in order: `(child, parent)`
/// for each one whose parent exists.
pub open spec fn resolved_upto(ps: Seq<PendingParent>, ts: Seq<ParentTarget>, k: nat) -> Seq<(u64, u64)>
    decreases k,
{
    if k == 0 {
        Seq::empty()
    } else {
        let done = resolved_upto(ps, ts, (k - 1) as nat);
        match spec_resolve_parent(ps[k - 1], ts) {
            Some(e) => done.push((ps[k - 1].child, e)),
            None => done,
        }
    }
}

proof fn lemma_first_target(ts: Seq<ParentTarget>, i: int, name: Seq<char>, k: int)
    requires
        0 <= i <= k <= ts.len(),
        forall|j: int| i <= j < k ==> ts[j].name@ != name,
        k == ts.len() || ts[k].name@ == name,
    ensures
        first_target(ts, i, name) == k,
    decreases k - i,
{
    if i < k {
        lemma_first_target(ts, i + 1, name, k);
    }
}

proof fn lemma_first_bone(names: Seq<String>, i: int, bone: Seq<char>, k: int)
    requires
        0 <= i <= k <= names.len(),
        forall|j: int| i <= j < k ==> !crate::text::eq_ic(names[j]@, bone),
        k == names.len() || crate::text::eq_ic(names[k]@, bone),
    ensures
        first_bone(names, i, bone) == k,
    decreases k - i,
{
    if i < k {
        lemma_first_bone(names, i + 1, bone, k);
    }
}

fn resolve_parent(p: &PendingParent, targets: &Vec<ParentTarget>) -> (r: Option<u64>)
    ensures
        r == spec_resolve_parent(*p, targets@),
{
    let mut k: usize = 0;
    while k < targets.len() && targets[k].name != p.parent_name
        invariant
            k <= targets@.len(),
            forall|j: int| 0 <= j < k ==> targets@[j].name@ != p.parent_name@,
        decreases targets.len() - k,
    {
        k = k + 1;
    }
    proof {
        lemma_first_target(targets@, 0, p.parent_name@, k as int);
    }
    if k >= targets.len() {
        return None;
    }
    let t = &targets[k];
    match (&p.bone_name, &t.skeleton) {
        (Some(b), Some(sk)) => {
            let bc = chars_of(b.as_str());
            let mut j: usize = 0;
            while j < sk.bone_names.len() && !crate::text::chars_eq_ic(
                chars_of(sk.bone_names[j].as_str()).as_slice(),
                bc.as_slice(),
            )
                invariant
                    j <= sk.bone_names@.len(),
                    bc@ == b@,
                    forall|q: int| 0 <= q < j ==> !crate::text::eq_ic(sk.bone_names@[q]@, b@),
                decreases sk.bone_names.len() - j,
            {
                j = j + 1;
            }
            proof {
                lemma_first_bone(sk.bone_names@, 0, b@, j as int);
            }
            if j < sk.bone_names.len() && j < sk.joints.len() {
                Some(sk.joints[j])
            } else {
                Some(t.entity)
            }
        },
        _ => Some(t.entity),
    }
}

/// Finds the parent of each pending actor: `(child, parent)` pairs, in
/// the order of `pending`, for those whose parent exists.
pub fn resolve_pending_parents_system(pending: &Vec<PendingParent>, targets: &Vec<ParentTarget>) -> (r: Vec<(u64, u64)>)
    ensures
        r@ == resolved_upto(pending@, targets@, pending@.len()),
{
    let mut out: Vec<(u64, u64)> = Vec::new();
    let mut i: usize = 0;
    while i < pending.len()
        invariant
            i <= pending@.len(),
            out@ == resolved_upto(pending@, targets@, i as nat),
        decreases pending.len() - i,
    {
        if let Some(parent) = resolve_parent(&pending[i], targets) {
            out.push((pending[i].child, parent));
        }
        i = i + 1;
    }
    out
}

} // verus!
