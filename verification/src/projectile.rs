//! Projectile definitions (`.proj` settings files).
//!
//! A definition's type picks the kind of projectile; its block, or an
//! anonymous child of it, holds the parameters.  Numeric parameters are
//! kept as written ([`Number`]), colours and vectors as their float texts;
//! each `None` stands for the kind's default.
use crate::settings::{
    block_model, block_of, bool_of, floats_of, number_model, number_of, opt_text, opt_texts,
    string_of, BlockModel, Number, SettingsBlock,
};
use crate::text::{push_str, str_is, string_from_chars};
use vstd::prelude::*;

verus! {

/// The kind of damage a hit does.
#[derive(Clone, Copy, Debug, PartialEq, Eq, Structural)]
pub enum HitType {
    Blunt,
    Energy,
    Fire,
    Plasma,
    Ballistic,
    Unknown,
}

/// The damage code of a known hit type: 12 blunt, 13 energy, 14 fire,
/// 15 plasma, 16 ballistic.
pub open spec fn hit_type_code(h: HitType) -> Option<i32> {
    match h {
        HitType::Blunt => Some(12),
        HitType::Energy => Some(13),
        HitType::Fire => Some(14),
        HitType::Plasma => Some(15),
        HitType::Ballistic => Some(16),
        HitType::Unknown => None,
    }
}

/// A damage code selects the hit type whose code it is; any other value
/// is unknown.
pub proof fn lemma_hit_type_codes(v: i32, h: HitType)
    ensures
        hit_type_code(h) matches Some(c) ==> hit_type_of(c) == h,
        12 <= v <= 16 ==> hit_type_code(hit_type_of(v)) == Some(v),
        !(12 <= v <= 16) ==> hit_type_of(v) == HitType::Unknown,
{
}

pub open spec fn hit_type_of(val: i32) -> HitType {
    if val == 12 {
        HitType::Blunt
    } else if val == 13 {
        HitType::Energy
    } else if val == 14 {
        HitType::Fire
    } else if val == 15 {
        HitType::Plasma
    } else if val == 16 {
        HitType::Ballistic
    } else {
        HitType::Unknown
    }
}

impl From<i32> for HitType {
    fn from(val: i32) -> (r: HitType) {
        if val == 12 {
            HitType::Blunt
        } else if val == 13 {
            HitType::Energy
        } else if val == 14 {
            HitType::Fire
        } else if val == 15 {
            HitType::Plasma
        } else if val == 16 {
            HitType::Ballistic
        } else {
            HitType::Unknown
        }
    }
}

impl vstd::std_specs::convert::FromSpecImpl<i32> for HitType {
    open spec fn obeys_from_spec() -> bool {
        true
    }

    open spec fn from_spec(val: i32) -> HitType {
        hit_type_of(val)
    }
}

/// How an explosion is oriented.
#[derive(Clone, Copy, Debug, PartialEq, Eq, Structural)]
pub enum ExplosionMatrix {
    Flat,
    Identity,
    Velocity,
}

pub open spec fn matrix_of(s: Seq<char>) -> ExplosionMatrix {
    if s == "Flat"@ {
        ExplosionMatrix::Flat
    } else if s == "Align z with velocity"@ {
        ExplosionMatrix::Velocity
    } else {
        ExplosionMatrix::Identity
    }
}

/// The orientation named by an `ExplosionMatrix` value.
pub fn explosion_matrix_from(s: &str) -> (r: ExplosionMatrix)
    ensures
        r == matrix_of(s@),
{
    if str_is(s, "Flat") {
        ExplosionMatrix::Flat
    } else if str_is(s, "Align z with velocity") {
        ExplosionMatrix::Velocity
    } else {
        ExplosionMatrix::Identity
    }
}

/// The damage of a hit: hit points and impulse (default 0), and the hit
/// type's number (default 0; see [`HitType`]'s `From<i32>`).
pub struct DamageDef {
    pub hit_points: Option<Number>,
    pub impulse: Option<Number>,
    pub hit_type: Option<Number>,
}

pub struct BasicProjectileDef {
    pub name: String,
    pub life_time: Option<Number>,
    pub gravity_factor: Option<Number>,
    pub color: Option<Vec<String>>,
    pub flight_fx: Option<String>,
    pub explosion_fx: Option<String>,
    pub explode_on_impact: bool,
    pub explode_on_time_out: bool,
    pub explosion_matrix: ExplosionMatrix,
    pub damage: DamageDef,
}

pub struct ModelProjectileDef {
    pub name: String,
    pub life_time: Option<Number>,
    pub gravity_factor: Option<Number>,
    pub color: Option<Vec<String>>,
    pub model_name: String,
    pub rotation_speed: Option<Vec<String>>,
    pub enable_collisions: bool,
    pub flight_fx: Option<String>,
    pub explosion_fx: Option<String>,
    pub explode_on_impact: bool,
    pub explode_on_time_out: bool,
    pub explosion_matrix: ExplosionMatrix,
    pub damage: DamageDef,
}

pub struct ShardDef {
    pub name: String,
    pub life_time: Option<Number>,
    pub life_time_var: Option<Number>,
    pub gravity_factor: Option<Number>,
    pub angular_velocity: Option<Number>,
    pub size: Option<Number>,
    pub color1: Option<Vec<String>>,
    pub color2: Option<Vec<String>>,
}

pub struct RocketDef {
    pub name: String,
    pub inner_def: BasicProjectileDef,
    pub model_name: String,
    pub rotation_speed: Option<Vec<String>>,
    pub ignition_time: Option<Number>,
    pub burn_time: Option<Number>,
    pub thrust: Option<Number>,
    pub burn_fx: Option<String>,
}

pub struct ActorProjectileDef {
    pub name: String,
    pub life_time: Option<Number>,
    pub gravity_factor: Option<Number>,
    pub mass: Option<Number>,
    pub angular_inertia: Option<Number>,
    pub entity_bound: Option<String>,
}

pub struct BulletCasingDef {
    pub name: String,
    pub projectile_type: String,
    pub initial_velocity: Option<Vec<String>>,
}

pub enum ProjectileDef {
    Basic(BasicProjectileDef),
    Actor(ActorProjectileDef),
    Model(ModelProjectileDef),
    Shard(ShardDef),
    Rocket(RocketDef),
    BulletCasing(BulletCasingDef),
}

impl ProjectileDef {
    /// Whether the projectile explodes when its time runs out.
    pub fn explode_on_timeout(&self) -> (r: bool)
        ensures
            r == match self {
                ProjectileDef::Basic(d) => d.explode_on_time_out,
                ProjectileDef::Model(d) => d.explode_on_time_out,
                _ => false,
            },
    {
        match self {
            ProjectileDef::Basic(d) => d.explode_on_time_out,
            ProjectileDef::Model(d) => d.explode_on_time_out,
            _ => false,
        }
    }

    /// The effect shown in flight (a rocket's burn effect).
    pub fn flight_fx(&self) -> (r: Option<String>)
        ensures
            opt_text(r) == match self {
                ProjectileDef::Basic(d) => opt_text(d.flight_fx),
                ProjectileDef::Model(d) => opt_text(d.flight_fx),
                ProjectileDef::Rocket(d) => opt_text(d.burn_fx),
                _ => None,
            },
    {
        match self {
            ProjectileDef::Basic(d) => d.flight_fx.clone(),
            ProjectileDef::Model(d) => d.flight_fx.clone(),
            ProjectileDef::Rocket(d) => d.burn_fx.clone(),
            _ => None,
        }
    }

    /// The effect of the explosion.
    pub fn explode_fx(&self) -> (r: Option<String>)
        ensures
            opt_text(r) == match self {
                ProjectileDef::Basic(d) => opt_text(d.explosion_fx),
                ProjectileDef::Model(d) => opt_text(d.explosion_fx),
                _ => None,
            },
    {
        match self {
            ProjectileDef::Basic(d) => d.explosion_fx.clone(),
            ProjectileDef::Model(d) => d.explosion_fx.clone(),
            _ => None,
        }
    }

    /// The class name of the kind.
    pub fn proj_class(&self) -> (r: &'static str)
        ensures
            r@ == match self {
                ProjectileDef::Basic(_) => "BasicProjectile"@,
                ProjectileDef::Actor(_) => "ActorProjectile"@,
                ProjectileDef::Model(_) => "ModelProjectile"@,
                ProjectileDef::Shard(_) => "Shard"@,
                ProjectileDef::Rocket(_) => "Rocket"@,
                ProjectileDef::BulletCasing(_) => "BulletCasing"@,
            },
    {
        match self {
            ProjectileDef::Basic(_) => "BasicProjectile",
            ProjectileDef::Actor(_) => "ActorProjectile",
            ProjectileDef::Model(_) => "ModelProjectile",
            ProjectileDef::Shard(_) => "Shard",
            ProjectileDef::Rocket(_) => "Rocket",
            ProjectileDef::BulletCasing(_) => "BulletCasing",
        }
    }
}

// ---------------------------------------------------------------------
// What each kind reads
// ---------------------------------------------------------------------

/// The damage read from a `Damage` block, or none at all.
pub open spec fn damage_from(d: DamageDef, db: Option<BlockModel>) -> bool {
    match db {
        Some(m) => {
            &&& number_model(d.hit_points) == number_of(m, "HitPoints"@)
            &&& number_model(d.impulse) == number_of(m, "Impulse"@)
            &&& number_model(d.hit_type) == number_of(m, "HitType"@)
        },
        None => d.hit_points is None && d.impulse is None && d.hit_type is None,
    }
}

pub open spec fn same_damage(a: DamageDef, b: DamageDef) -> bool {
    number_model(a.hit_points) == number_model(b.hit_points) && number_model(a.impulse)
        == number_model(b.impulse) && number_model(a.hit_type) == number_model(b.hit_type)
}

/// `Explosion`, or else `ImpactEvent`.
pub open spec fn explosion_fx_of(m: BlockModel) -> Option<Seq<char>> {
    match string_of(m, "Explosion"@) {
        Some(t) => Some(t),
        None => string_of(m, "ImpactEvent"@),
    }
}

/// `ExplosionMatrix` (empty when absent) as an orientation.
pub open spec fn matrix_in(m: BlockModel) -> ExplosionMatrix {
    match string_of(m, "ExplosionMatrix"@) {
        Some(t) => matrix_of(t),
        None => matrix_of(Seq::empty()),
    }
}

/// A string setting, empty when absent.
pub open spec fn string_or_empty(m: BlockModel, key: Seq<char>) -> Seq<char> {
    match string_of(m, key) {
        Some(t) => t,
        None => Seq::empty(),
    }
}

/// The first anonymous child of `m`, or `m` itself.
pub open spec fn first_child_or(m: BlockModel) -> BlockModel {
    if m.children.len() > 0 {
        m.children[0]
    } else {
        m
    }
}

/// The fields of a basic projectile read from `m`; the two explode flags
/// default to `flag_default`.
pub open spec fn basic_fields(d: BasicProjectileDef, m: BlockModel, flag_default: bool) -> bool {
    &&& number_model(d.life_time) == number_of(m, "LifeTime"@)
    &&& number_model(d.gravity_factor) == number_of(m, "GravityFactor"@)
    &&& opt_texts(d.color) == floats_of(m, "Color"@)
    &&& opt_text(d.explosion_fx) == explosion_fx_of(m)
    &&& d.explode_on_impact == bool_of(m, "ExplodeOnImpact"@, flag_default)
    &&& d.explode_on_time_out == bool_of(m, "ExplodeOnTimeOut"@, flag_default)
    &&& d.explosion_matrix == matrix_in(m)
}

/// The damage a definition's own block gives.
pub open spec fn outer_damage(d: DamageDef, m: BlockModel) -> bool {
    damage_from(d, block_of(m, "Damage"@))
}

/// The damage read from `inner`'s `Damage` block, or else the one from
/// the definition's own block.
pub open spec fn nested_damage(d: DamageDef, inner: BlockModel, m: BlockModel) -> bool {
    match block_of(inner, "Damage"@) {
        Some(db) => damage_from(d, Some(db)),
        None => outer_damage(d, m),
    }
}

/// What [`parse_projectile`] gives for a definition of type `def_type`
/// named `name` with block `m`.
pub open spec fn projectile_from(
    r: Option<ProjectileDef>,
    def_type: Seq<char>,
    name: Seq<char>,
    m: BlockModel,
) -> bool {
    if def_type == "BASICPROJECTILE"@ {
        r matches Some(ProjectileDef::Basic(d)) && d.name@ == name && basic_fields(d, m, true)
            && opt_text(d.flight_fx) == string_of(m, "FlightFX"@) && outer_damage(d.damage, m)
    } else if def_type == "MODELPROJECTILE"@ {
        let p = first_child_or(m);
        r matches Some(ProjectileDef::Model(d)) && d.name@ == name && d.model_name@
            == string_or_empty(m, "ModelName"@) && opt_texts(d.rotation_speed) == floats_of(
            m,
            "RotationSpeed"@,
        ) && d.enable_collisions == bool_of(p, "EnableCollisions"@, true) && number_model(
            d.life_time,
        ) == number_of(p, "LifeTime"@) && number_model(d.gravity_factor) == number_of(
            p,
            "GravityFactor"@,
        ) && opt_texts(d.color) == floats_of(p, "Color"@) && opt_text(d.flight_fx) == string_of(
            p,
            "FlightFX"@,
        ) && opt_text(d.explosion_fx) == explosion_fx_of(p) && d.explode_on_impact == bool_of(
            p,
            "ExplodeOnImpact"@,
            false,
        ) && d.explode_on_time_out == bool_of(p, "ExplodeOnTimeOut"@, false)
            && d.explosion_matrix == matrix_in(p) && nested_damage(d.damage, p, m)
    } else if def_type == "SHARD"@ {
        r matches Some(ProjectileDef::Shard(d)) && d.name@ == name && number_model(d.life_time)
            == number_of(m, "LifeTime"@) && number_model(d.life_time_var) == number_of(
            m,
            "LifeTimeVar"@,
        ) && number_model(d.gravity_factor) == number_of(m, "GravityFactor"@) && number_model(
            d.angular_velocity,
        ) == number_of(m, "AngularVelocity"@) && number_model(d.size) == number_of(m, "Size"@)
            && opt_texts(d.color1) == floats_of(m, "Color1"@) && opt_texts(d.color2) == floats_of(
            m,
            "Color2"@,
        )
    } else if def_type == "ROCKET"@ {
        let p = first_child_or(m);
        let b = first_child_or(p);
        r matches Some(ProjectileDef::Rocket(d)) && d.name@ == name && d.inner_def.name@ == name
            + "_inner"@ && basic_fields(d.inner_def, b, true) && d.inner_def.flight_fx is None
            && nested_damage(d.inner_def.damage, b, m) && d.model_name@ == string_or_empty(
            p,
            "ModelName"@,
        ) && opt_texts(d.rotation_speed) == floats_of(p, "RotationSpeed"@) && number_model(
            d.ignition_time,
        ) == number_of(m, "IgnitionTime"@) && number_model(d.burn_time) == number_of(
            m,
            "BurnTime"@,
        ) && number_model(d.thrust) == number_of(m, "Thrust"@) && opt_text(d.burn_fx)
            == string_of(m, "BurnFX"@)
    } else if def_type == "ACTORPROJECTILE"@ {
        let b = first_child_or(m);
        r matches Some(ProjectileDef::Actor(d)) && d.name@ == name && number_model(d.mass)
            == number_of(m, "Mass"@) && number_model(d.angular_inertia) == number_of(
            m,
            "AngularInertia"@,
        ) && opt_text(d.entity_bound) == string_of(m, "EntityBound"@) && number_model(
            d.life_time,
        ) == number_of(b, "LifeTime"@) && number_model(d.gravity_factor) == number_of(
            b,
            "GravityFactor"@,
        )
    } else if def_type == "BULLETCASING"@ {
        r matches Some(ProjectileDef::BulletCasing(d)) && d.name@ == name && d.projectile_type@
            == string_or_empty(m, "ProjectileType"@) && opt_texts(d.initial_velocity) == floats_of(
            m,
            "InitialVelocity"@,
        )
    } else {
        r is None
    }
}

// ---------------------------------------------------------------------
// Reading
// ---------------------------------------------------------------------

fn read_damage(db: Option<&SettingsBlock>) -> (d: DamageDef)
    ensures
        damage_from(
            d,
            match db {
                Some(b) => Some(block_model(*b)),
                None => None,
            },
        ),
{
    match db {
        Some(b) => DamageDef {
            hit_points: b.get_number("HitPoints"),
            impulse: b.get_number("Impulse"),
            hit_type: b.get_number("HitType"),
        },
        None => DamageDef { hit_points: None, impulse: None, hit_type: None },
    }
}

/// The damage of `inner`'s `Damage` block, or else `outer`'s.
fn read_nested_damage(inner: &SettingsBlock, outer: &SettingsBlock) -> (d: DamageDef)
    ensures
        nested_damage(d, block_model(*inner), block_model(*outer)),
{
    match inner.get_block("Damage") {
        Some(db) => read_damage(Some(db)),
        None => read_damage(outer.get_block("Damage")),
    }
}

pub(crate) fn string_or_empty_in(b: &SettingsBlock, key: &str) -> (r: String)
    ensures
        r@ == string_or_empty(block_model(*b), key@),
{
    match b.get_string(key) {
        Some(s) => s,
        None => String::new(),
    }
}

fn explosion_fx_in(b: &SettingsBlock) -> (r: Option<String>)
    ensures
        opt_text(r) == explosion_fx_of(block_model(*b)),
{
    match b.get_string("Explosion") {
        Some(s) => Some(s),
        None => b.get_string("ImpactEvent"),
    }
}

fn matrix_in_block(b: &SettingsBlock) -> (r: ExplosionMatrix)
    ensures
        r == matrix_in(block_model(*b)),
{
    let s = string_or_empty_in(b, "ExplosionMatrix");
    explosion_matrix_from(s.as_str())
}

pub(crate) fn copy_string(s: &str) -> (r: String)
    ensures
        r@ == s@,
{
    let mut v: Vec<char> = Vec::new();
    push_str(&mut v, s);
    assert(v@ =~= s@);
    string_from_chars(v.as_slice())
}

fn read_basic(name: String, b: &SettingsBlock, flag_default: bool, damage: DamageDef) -> (d:
    BasicProjectileDef)
    ensures
        basic_fields(d, block_model(*b), flag_default),
        d.name@ == name@,
        d.flight_fx is None,
        same_damage(d.damage, damage),
{
    BasicProjectileDef {
        name,
        life_time: b.get_number("LifeTime"),
        gravity_factor: b.get_number("GravityFactor"),
        color: b.get_floats("Color"),
        flight_fx: None,
        explosion_fx: explosion_fx_in(b),
        explode_on_impact: b.get_bool("ExplodeOnImpact", flag_default),
        explode_on_time_out: b.get_bool("ExplodeOnTimeOut", flag_default),
        explosion_matrix: matrix_in_block(b),
        damage,
    }
}

/// Reads a projectile definition of type `def_type` named `name` (see
/// [`projectile_from`]); `None` for a type that is not a projectile.
pub fn parse_projectile(def_type: &str, name: &str, block: &SettingsBlock) -> (r: Option<
    ProjectileDef,
>)
    ensures
        projectile_from(r, def_type@, name@, block_model(*block)),
{
    if str_is(def_type, "BASICPROJECTILE") {
        let damage = read_damage(block.get_block("Damage"));
        let mut d = read_basic(copy_string(name), block, true, damage);
        d.flight_fx = block.get_string("FlightFX");
        Some(ProjectileDef::Basic(d))
    } else if str_is(def_type, "MODELPROJECTILE") {
        let p = block.first_child_or_self();
        Some(
            ProjectileDef::Model(
                ModelProjectileDef {
                    name: copy_string(name),
                    model_name: string_or_empty_in(block, "ModelName"),
                    rotation_speed: block.get_floats("RotationSpeed"),
                    enable_collisions: p.get_bool("EnableCollisions", true),
                    life_time: p.get_number("LifeTime"),
                    gravity_factor: p.get_number("GravityFactor"),
                    color: p.get_floats("Color"),
                    flight_fx: p.get_string("FlightFX"),
                    explosion_fx: explosion_fx_in(p),
                    explode_on_impact: p.get_bool("ExplodeOnImpact", false),
                    explode_on_time_out: p.get_bool("ExplodeOnTimeOut", false),
                    explosion_matrix: matrix_in_block(p),
                    damage: read_nested_damage(p, block),
                },
            ),
        )
    } else if str_is(def_type, "SHARD") {
        Some(
            ProjectileDef::Shard(
                ShardDef {
                    name: copy_string(name),
                    life_time: block.get_number("LifeTime"),
                    life_time_var: block.get_number("LifeTimeVar"),
                    gravity_factor: block.get_number("GravityFactor"),
                    angular_velocity: block.get_number("AngularVelocity"),
                    size: block.get_number("Size"),
                    color1: block.get_floats("Color1"),
                    color2: block.get_floats("Color2"),
                },
            ),
        )
    } else if str_is(def_type, "ROCKET") {
        let p = block.first_child_or_self();
        let b = p.first_child_or_self();
        let damage = read_nested_damage(b, block);
        let mut inner_name: Vec<char> = Vec::new();
        push_str(&mut inner_name, name);
        push_str(&mut inner_name, "_inner");
        assert(inner_name@ =~= name@ + "_inner"@);
        let inner = read_basic(string_from_chars(inner_name.as_slice()), b, true, damage);
        Some(
            ProjectileDef::Rocket(
                RocketDef {
                    name: copy_string(name),
                    inner_def: inner,
                    model_name: string_or_empty_in(p, "ModelName"),
                    rotation_speed: p.get_floats("RotationSpeed"),
                    ignition_time: block.get_number("IgnitionTime"),
                    burn_time: block.get_number("BurnTime"),
                    thrust: block.get_number("Thrust"),
                    burn_fx: block.get_string("BurnFX"),
                },
            ),
        )
    } else if str_is(def_type, "ACTORPROJECTILE") {
        let b = block.first_child_or_self();
        Some(
            ProjectileDef::Actor(
                ActorProjectileDef {
                    name: copy_string(name),
                    mass: block.get_number("Mass"),
                    angular_inertia: block.get_number("AngularInertia"),
                    entity_bound: block.get_string("EntityBound"),
                    life_time: b.get_number("LifeTime"),
                    gravity_factor: b.get_number("GravityFactor"),
                },
            ),
        )
    } else if str_is(def_type, "BULLETCASING") {
        Some(
            ProjectileDef::BulletCasing(
                BulletCasingDef {
                    name: copy_string(name),
                    projectile_type: string_or_empty_in(block, "ProjectileType"),
                    initial_velocity: block.get_floats("InitialVelocity"),
                },
            ),
        )
    } else {
        None
    }
}

} // verus!
