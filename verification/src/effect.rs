//! Visual effect definitions (`.fx` settings files).
//!
//! A definition's type picks the kind of effect; the parameters come from
//! its block or from its first anonymous child.  As for projectiles,
//! numbers are kept as written, colours and vectors as their float texts,
//! and each `None` stands for the kind's default.  Textures are named
//! here and loaded by the caller.
use crate::projectile::{copy_string, first_child_or, string_or_empty, string_or_empty_in};
use crate::settings::{
    block_model, floats_of, number_model, number_of, opt_text, opt_texts, string_of, BlockModel,
    Number, SettingsBlock,
};
use crate::text::{chars_eq_ic, chars_of, eq_ic, str_is};
use vstd::prelude::*;

verus! {

pub open spec fn num_is(n: Option<Number>, m: BlockModel, key: Seq<char>) -> bool {
    number_model(n) == number_of(m, key)
}

pub open spec fn floats_is(v: Option<Vec<String>>, m: BlockModel, key: Seq<char>) -> bool {
    opt_texts(v) == floats_of(m, key)
}

/// A particle system an effect starts.
pub struct ParticleSystemRef {
    pub system_name: String,
    pub num_initial_particles: Option<Number>,
    pub birth_rate: Option<Number>,
}

/// The particle system a block names with `ParticleSystem`, if any.
pub open spec fn particle_ref_from(r: Option<ParticleSystemRef>, m: BlockModel) -> bool {
    match string_of(m, "ParticleSystem"@) {
        Some(s) => r matches Some(p) && p.system_name@ == s && num_is(
            p.num_initial_particles,
            m,
            "NumInitialParticles"@,
        ) && num_is(p.birth_rate, m, "BirthRate"@),
        None => r is None,
    }
}

/// Reads the particle system a block names (see [`particle_ref_from`]).
pub fn parse_particle_ref(block: &SettingsBlock) -> (r: Option<ParticleSystemRef>)
    ensures
        particle_ref_from(r, block_model(*block)),
{
    match block.get_string("ParticleSystem") {
        Some(system_name) => Some(
            ParticleSystemRef {
                system_name,
                num_initial_particles: block.get_number("NumInitialParticles"),
                birth_rate: block.get_number("BirthRate"),
            },
        ),
        None => None,
    }
}

pub struct SfxDef {
    pub name: String,
    pub audio_package: Option<String>,
}

pub struct SpriteEffectDef {
    pub name: String,
    pub texture_name: String,
    pub color: Option<Vec<String>>,
    pub blend_set: Option<Number>,
    pub duration: Option<Number>,
    pub line_length: Option<Number>,
    pub line_width: Option<Number>,
    pub particle_size: Option<Number>,
    pub alignment: Option<Number>,
}

pub struct DelayedParticleDef {
    pub name: String,
    pub system: ParticleSystemRef,
    pub duration: Option<Number>,
}

pub struct ParticleEffectDef {
    pub name: String,
    pub system: ParticleSystemRef,
}

pub struct HealthIndicatorDef {
    pub name: String,
    pub system: ParticleSystemRef,
    pub duration: Option<Number>,
    pub undamaged_color: Option<Vec<String>>,
    pub mid_color: Option<Vec<String>>,
    pub dead_color: Option<Vec<String>>,
    pub mid_percentage: Option<Number>,
}

pub struct CameraShakeDef {
    pub name: String,
    pub range_eulers: Option<Vec<String>>,
    pub time_to_shake: Option<Number>,
    pub time_left_when_start_dampening: Option<Number>,
    pub radius_max_shake: Option<Number>,
    pub radius_no_shake: Option<Number>,
}

pub struct LightningGeneratorDef {
    pub name: String,
    pub start_color: Option<Vec<String>>,
    pub end_color: Option<Vec<String>>,
    pub width: Option<Number>,
    pub bolt_type: Option<Number>,
    pub lifetime: Option<Number>,
    pub birth_rate: Option<Number>,
    pub position2: Option<Vec<String>>,
    pub position2_var: Option<Vec<String>>,
}

pub struct ChunkEmitterDef {
    pub name: String,
    pub projectile_type: String,
    pub num_initial_chunks: Option<Number>,
    pub birth_rate: Option<Number>,
    pub duration: Option<Number>,
    pub initial_velocity: Option<Vec<String>>,
    pub velocity_var: Option<Vec<String>>,
}

pub struct BulletCasingFxDef {
    pub name: String,
    pub projectile_type: String,
    pub initial_velocity: Option<Vec<String>>,
}

/// A laser beam.  Its head and tail textures are loaded only when named
/// (not empty and not `none` in any case).
pub struct LaserFxDef {
    pub name: String,
    pub width: Option<Number>,
    pub head_scale: Option<Number>,
    pub length: Option<Number>,
    pub head_texture: String,
    pub tail_texture: String,
    pub load_head_texture: bool,
    pub load_tail_texture: bool,
    pub light_max: Option<Number>,
    pub light_color: Option<Vec<String>>,
}

pub struct BlastFireDef {
    pub name: String,
    pub speed: Option<Number>,
    pub rotation: Option<Vec<String>>,
    pub scale: Option<Vec<String>>,
    pub path0: Option<Vec<String>>,
    pub path1: Option<Vec<String>>,
    pub path2: Option<Vec<String>>,
}

pub struct LightGlowDef {
    pub name: String,
    pub glow_texture_name: String,
    pub glow_look_at: Option<Number>,
    pub glow_billboard: Option<Number>,
    pub occlude_glow: Option<Number>,
    pub radial_attenuate: Option<Number>,
    pub screen_rotate: Option<Number>,
    pub glow_intensity: Option<Number>,
    pub glow_intensity_rate_of_change: Option<Number>,
    pub glow_color: Option<Vec<String>>,
}

pub struct ChargeDef {
    pub name: String,
    pub scale: Option<Number>,
    pub color1: Option<Vec<String>>,
    pub color2: Option<Vec<String>>,
    pub color3: Option<Vec<String>>,
    pub amplitude: Option<Number>,
    pub frequency: Option<Number>,
    pub rate: Option<Number>,
    pub offset: Option<Number>,
}

pub struct FlashDef {
    pub name: String,
    pub duration: Option<Number>,
    pub rate: Option<Number>,
    pub fade: Option<Number>,
    pub scale_min: Option<Number>,
    pub scale_max: Option<Number>,
    pub color1: Option<Vec<String>>,
    pub color2: Option<Vec<String>>,
    pub color3: Option<Vec<String>>,
}

pub enum EffectDef {
    Sfx(SfxDef),
    Sprite(SpriteEffectDef),
    DelayedParticle(DelayedParticleDef),
    HealthIndicator(HealthIndicatorDef),
    CameraShake(CameraShakeDef),
    Lightning(LightningGeneratorDef),
    Particle(ParticleEffectDef),
    ChunkEmitter(ChunkEmitterDef),
    BulletCasing(BulletCasingFxDef),
    Laser(LaserFxDef),
    BlastFire(BlastFireDef),
    LightGlow(LightGlowDef),
    Charge(ChargeDef),
    Flash(FlashDef),
}

/// A texture name that stands for a texture: not empty and not `none`.
pub open spec fn names_texture(t: Seq<char>) -> bool {
    !(t.len() == 0 || eq_ic(t, "none"@))
}

/// What [`parse_effect`] gives for a definition of type `def_type` named
/// `name` with block `m`: `None` for a type that is not an effect, and for
/// the particle kinds whose block names no particle system.
pub open spec fn effect_from(
    r: Option<EffectDef>,
    def_type: Seq<char>,
    name: Seq<char>,
    m: BlockModel,
) -> bool {
    if def_type == "SFX"@ {
        r matches Some(EffectDef::Sfx(d)) && d.name@ == name && opt_text(d.audio_package)
            == string_of(m, "AudioPackage"@)
    } else if def_type == "SPRITEEFFECT"@ {
        r matches Some(EffectDef::Sprite(d)) && d.name@ == name && d.texture_name@
            == string_or_empty(m, "TextureName"@) && floats_is(d.color, m, "Color"@) && num_is(
            d.blend_set,
            m,
            "BlendSet"@,
        ) && num_is(d.duration, m, "Duration"@) && num_is(d.line_length, m, "LineLength"@)
            && num_is(d.line_width, m, "LineWidth"@) && num_is(d.particle_size, m, "ParticleSize"@)
            && num_is(d.alignment, m, "Alignment"@)
    } else if def_type == "DELAYEDPARTICLEEFFECT"@ {
        let nested = first_child_or(m);
        match string_of(nested, "ParticleSystem"@) {
            None => r is None,
            Some(_) => r matches Some(EffectDef::DelayedParticle(d)) && d.name@ == name
                && particle_ref_from(Some(d.system), nested) && num_is(d.duration, m, "Duration"@),
        }
    } else if def_type == "PARTICLEEFFECT"@ {
        match string_of(m, "ParticleSystem"@) {
            None => r is None,
            Some(_) => r matches Some(EffectDef::Particle(d)) && d.name@ == name
                && particle_ref_from(Some(d.system), m),
        }
    } else if def_type == "HEALTHINDICATOR"@ {
        let top = first_child_or(m);
        let nested = first_child_or(top);
        match string_of(nested, "ParticleSystem"@) {
            None => r is None,
            Some(_) => r matches Some(EffectDef::HealthIndicator(d)) && d.name@ == name
                && particle_ref_from(Some(d.system), nested) && num_is(d.duration, top, "Duration"@)
                && floats_is(d.undamaged_color, m, "UndamagedColor"@) && floats_is(
                d.mid_color,
                m,
                "MidColor"@,
            ) && floats_is(d.dead_color, m, "DeadColor"@) && num_is(
                d.mid_percentage,
                m,
                "MidPercentage"@,
            ),
        }
    } else if def_type == "CAMERASHAKE"@ {
        r matches Some(EffectDef::CameraShake(d)) && d.name@ == name && floats_is(
            d.range_eulers,
            m,
            "RangeEulers"@,
        ) && num_is(d.time_to_shake, m, "TimeToShake"@) && num_is(
            d.time_left_when_start_dampening,
            m,
            "TimeLeftWhenStartDampening"@,
        ) && num_is(d.radius_max_shake, m, "RadiusMaxShake"@) && num_is(
            d.radius_no_shake,
            m,
            "RadiusNoShake"@,
        )
    } else if def_type == "LIGHTNINGGENERATOR"@ {
        let p = first_child_or(m);
        r matches Some(EffectDef::Lightning(d)) && d.name@ == name && floats_is(
            d.start_color,
            p,
            "StartColor"@,
        ) && floats_is(d.end_color, p, "EndColor"@) && num_is(d.width, p, "Width"@) && num_is(
            d.bolt_type,
            p,
            "BoltType"@,
        ) && num_is(d.lifetime, m, "LifeTime"@) && num_is(d.birth_rate, m, "BirthRate"@)
            && floats_is(d.position2, m, "Position2"@) && floats_is(
            d.position2_var,
            m,
            "Position2Var"@,
        )
    } else if def_type == "CHUNKEMITTER"@ {
        r matches Some(EffectDef::ChunkEmitter(d)) && d.name@ == name && d.projectile_type@
            == string_or_empty(m, "ProjectileType"@) && num_is(
            d.num_initial_chunks,
            m,
            "NumInitialChunks"@,
        ) && num_is(d.birth_rate, m, "BirthRate"@) && num_is(d.duration, m, "Duration"@)
            && floats_is(d.initial_velocity, m, "InitialVelocity"@) && floats_is(
            d.velocity_var,
            m,
            "InitialVelocityVar"@,
        )
    } else if def_type == "BULLETCASING"@ {
        r matches Some(EffectDef::BulletCasing(d)) && d.name@ == name && d.projectile_type@
            == string_or_empty(m, "ProjectileType"@) && floats_is(
            d.initial_velocity,
            m,
            "InitialVelocity"@,
        )
    } else if def_type == "LASER"@ {
        r matches Some(EffectDef::Laser(d)) && d.name@ == name && num_is(d.width, m, "Width"@)
            && num_is(d.head_scale, m, "HeadScale"@) && num_is(d.length, m, "Length"@)
            && d.head_texture@ == string_or_empty(m, "HeadTexture"@) && d.tail_texture@
            == string_or_empty(m, "TailTexture"@) && d.load_head_texture == names_texture(
            d.head_texture@,
        ) && d.load_tail_texture == names_texture(d.tail_texture@) && num_is(
            d.light_max,
            m,
            "LightMax"@,
        ) && floats_is(d.light_color, m, "LightColor"@)
    } else if def_type == "BLASTFIRE"@ {
        r matches Some(EffectDef::BlastFire(d)) && d.name@ == name && num_is(d.speed, m, "Speed"@)
            && floats_is(d.rotation, m, "Rotation"@) && floats_is(d.scale, m, "Scale"@)
            && floats_is(d.path0, m, "path0"@) && floats_is(d.path1, m, "path1"@) && floats_is(
            d.path2,
            m,
            "path2"@,
        )
    } else if def_type == "LIGHTGLOW"@ {
        r matches Some(EffectDef::LightGlow(d)) && d.name@ == name && d.glow_texture_name@
            == string_or_empty(m, "GlowTextureName"@) && num_is(d.glow_look_at, m, "GlowLookAt"@)
            && num_is(d.glow_billboard, m, "GlowBillboard"@) && num_is(
            d.occlude_glow,
            m,
            "OccludeGlow"@,
        ) && num_is(d.radial_attenuate, m, "RadialAttenuate"@) && num_is(
            d.screen_rotate,
            m,
            "ScreenRotate"@,
        ) && num_is(d.glow_intensity, m, "GlowIntensity"@) && num_is(
            d.glow_intensity_rate_of_change,
            m,
            "GlowIntensityRateOfChange"@,
        ) && floats_is(d.glow_color, m, "GlowColor"@)
    } else if def_type == "CHARGE"@ {
        r matches Some(EffectDef::Charge(d)) && d.name@ == name && num_is(d.scale, m, "Scale"@)
            && floats_is(d.color1, m, "Color1"@) && floats_is(d.color2, m, "Color2"@) && floats_is(
            d.color3,
            m,
            "Color3"@,
        ) && num_is(d.amplitude, m, "Amplitude"@) && num_is(d.frequency, m, "Frequency"@)
            && num_is(d.rate, m, "Rate"@) && num_is(d.offset, m, "Offset"@)
    } else if def_type == "FLASH"@ {
        r matches Some(EffectDef::Flash(d)) && d.name@ == name && num_is(d.duration, m, "Duration"@)
            && num_is(d.rate, m, "Rate"@) && num_is(d.fade, m, "Fade"@) && num_is(
            d.scale_min,
            m,
            "ScaleMin"@,
        ) && num_is(d.scale_max, m, "ScaleMax"@) && floats_is(d.color1, m, "Color1"@) && floats_is(
            d.color2,
            m,
            "Color2"@,
        ) && floats_is(d.color3, m, "Color3"@)
    } else {
        r is None
    }
}

/// Whether a texture name stands for a texture (see [`names_texture`]).
fn texture_named(t: &String) -> (r: bool)
    ensures
        r == names_texture(t@),
{
    let c = chars_of(t.as_str());
    let none = chars_of("none");
    !(c.len() == 0 || chars_eq_ic(c.as_slice(), none.as_slice()))
}

/// Reads an effect definition of type `def_type` named `name` (see
/// [`effect_from`]).
pub fn parse_effect(def_type: &str, name: &str, block: &SettingsBlock) -> (r: Option<EffectDef>)
    ensures
        effect_from(r, def_type@, name@, block_model(*block)),
{
    if str_is(def_type, "SFX") {
        Some(
            EffectDef::Sfx(
                SfxDef { name: copy_string(name), audio_package: block.get_string("AudioPackage") },
            ),
        )
    } else if str_is(def_type, "SPRITEEFFECT") {
        Some(
            EffectDef::Sprite(
                SpriteEffectDef {
                    name: copy_string(name),
                    texture_name: string_or_empty_in(block, "TextureName"),
                    color: block.get_floats("Color"),
                    blend_set: block.get_number("BlendSet"),
                    duration: block.get_number("Duration"),
                    line_length: block.get_number("LineLength"),
                    line_width: block.get_number("LineWidth"),
                    particle_size: block.get_number("ParticleSize"),
                    alignment: block.get_number("Alignment"),
                },
            ),
        )
    } else if str_is(def_type, "DELAYEDPARTICLEEFFECT") {
        let nested = block.first_child_or_self();
        match parse_particle_ref(nested) {
            Some(system) => Some(
                EffectDef::DelayedParticle(
                    DelayedParticleDef {
                        name: copy_string(name),
                        system,
                        duration: block.get_number("Duration"),
                    },
                ),
            ),
            None => None,
        }
    } else if str_is(def_type, "PARTICLEEFFECT") {
        match parse_particle_ref(block) {
            Some(system) => Some(
                EffectDef::Particle(ParticleEffectDef { name: copy_string(name), system }),
            ),
            None => None,
        }
    } else if str_is(def_type, "HEALTHINDICATOR") {
        let top = block.first_child_or_self();
        let nested = top.first_child_or_self();
        match parse_particle_ref(nested) {
            Some(system) => Some(
                EffectDef::HealthIndicator(
                    HealthIndicatorDef {
                        name: copy_string(name),
                        system,
                        duration: top.get_number("Duration"),
                        undamaged_color: block.get_floats("UndamagedColor"),
                        mid_color: block.get_floats("MidColor"),
                        dead_color: block.get_floats("DeadColor"),
                        mid_percentage: block.get_number("MidPercentage"),
                    },
                ),
            ),
            None => None,
        }
    } else if str_is(def_type, "CAMERASHAKE") {
        Some(
            EffectDef::CameraShake(
                CameraShakeDef {
                    name: copy_string(name),
                    range_eulers: block.get_floats("RangeEulers"),
                    time_to_shake: block.get_number("TimeToShake"),
                    time_left_when_start_dampening: block.get_number("TimeLeftWhenStartDampening"),
                    radius_max_shake: block.get_number("RadiusMaxShake"),
                    radius_no_shake: block.get_number("RadiusNoShake"),
                },
            ),
        )
    } else if str_is(def_type, "LIGHTNINGGENERATOR") {
        let p = block.first_child_or_self();
        Some(
            EffectDef::Lightning(
                LightningGeneratorDef {
                    name: copy_string(name),
                    start_color: p.get_floats("StartColor"),
                    end_color: p.get_floats("EndColor"),
                    width: p.get_number("Width"),
                    bolt_type: p.get_number("BoltType"),
                    lifetime: block.get_number("LifeTime"),
                    birth_rate: block.get_number("BirthRate"),
                    position2: block.get_floats("Position2"),
                    position2_var: block.get_floats("Position2Var"),
                },
            ),
        )
    } else if str_is(def_type, "CHUNKEMITTER") {
        Some(
            EffectDef::ChunkEmitter(
                ChunkEmitterDef {
                    name: copy_string(name),
                    projectile_type: string_or_empty_in(block, "ProjectileType"),
                    num_initial_chunks: block.get_number("NumInitialChunks"),
                    birth_rate: block.get_number("BirthRate"),
                    duration: block.get_number("Duration"),
                    initial_velocity: block.get_floats("InitialVelocity"),
                    velocity_var: block.get_floats("InitialVelocityVar"),
                },
            ),
        )
    } else if str_is(def_type, "BULLETCASING") {
        Some(
            EffectDef::BulletCasing(
                BulletCasingFxDef {
                    name: copy_string(name),
                    projectile_type: string_or_empty_in(block, "ProjectileType"),
                    initial_velocity: block.get_floats("InitialVelocity"),
                },
            ),
        )
    } else if str_is(def_type, "LASER") {
        let head_texture = string_or_empty_in(block, "HeadTexture");
        let tail_texture = string_or_empty_in(block, "TailTexture");
        let load_head_texture = texture_named(&head_texture);
        let load_tail_texture = texture_named(&tail_texture);
        Some(
            EffectDef::Laser(
                LaserFxDef {
                    name: copy_string(name),
                    width: block.get_number("Width"),
                    head_scale: block.get_number("HeadScale"),
                    length: block.get_number("Length"),
                    head_texture,
                    tail_texture,
                    load_head_texture,
                    load_tail_texture,
                    light_max: block.get_number("LightMax"),
                    light_color: block.get_floats("LightColor"),
                },
            ),
        )
    } else if str_is(def_type, "BLASTFIRE") {
        Some(
            EffectDef::BlastFire(
                BlastFireDef {
                    name: copy_string(name),
                    speed: block.get_number("Speed"),
                    rotation: block.get_floats("Rotation"),
                    scale: block.get_floats("Scale"),
                    path0: block.get_floats("path0"),
                    path1: block.get_floats("path1"),
                    path2: block.get_floats("path2"),
                },
            ),
        )
    } else if str_is(def_type, "LIGHTGLOW") {
        Some(
            EffectDef::LightGlow(
                LightGlowDef {
                    name: copy_string(name),
                    glow_texture_name: string_or_empty_in(block, "GlowTextureName"),
                    glow_look_at: block.get_number("GlowLookAt"),
                    glow_billboard: block.get_number("GlowBillboard"),
                    occlude_glow: block.get_number("OccludeGlow"),
                    radial_attenuate: block.get_number("RadialAttenuate"),
                    screen_rotate: block.get_number("ScreenRotate"),
                    glow_intensity: block.get_number("GlowIntensity"),
                    glow_intensity_rate_of_change: block.get_number("GlowIntensityRateOfChange"),
                    glow_color: block.get_floats("GlowColor"),
                },
            ),
        )
    } else if str_is(def_type, "CHARGE") {
        Some(
            EffectDef::Charge(
                ChargeDef {
                    name: copy_string(name),
                    scale: block.get_number("Scale"),
                    color1: block.get_floats("Color1"),
                    color2: block.get_floats("Color2"),
                    color3: block.get_floats("Color3"),
                    amplitude: block.get_number("Amplitude"),
                    frequency: block.get_number("Frequency"),
                    rate: block.get_number("Rate"),
                    offset: block.get_number("Offset"),
                },
            ),
        )
    } else if str_is(def_type, "FLASH") {
        Some(
            EffectDef::Flash(
                FlashDef {
                    name: copy_string(name),
                    duration: block.get_number("Duration"),
                    rate: block.get_number("Rate"),
                    fade: block.get_number("Fade"),
                    scale_min: block.get_number("ScaleMin"),
                    scale_max: block.get_number("ScaleMax"),
                    color1: block.get_floats("Color1"),
                    color2: block.get_floats("Color2"),
                    color3: block.get_floats("Color3"),
                },
            ),
        )
    } else {
        None
    }
}

} // verus!
