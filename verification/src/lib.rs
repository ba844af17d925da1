//! Parsers and decoders for the asset formats of the Oni 2 prototype.
use vstd::prelude::*;

pub mod text;
pub mod tokenizer;
pub mod block_parser;
pub mod blk;
pub mod wav;
pub mod hd_bd;
pub mod stm;
pub mod registry;
pub mod ammo;
pub mod testanim;
pub mod bsp;
pub mod types;
pub mod spawn;
pub mod fields;
pub mod expl;
pub mod atdt;
pub mod model;
pub mod blocks;
pub mod model_text;
pub mod gait;
pub mod entity_type;
pub mod skeleton;
pub mod rooms;
pub mod settings;
pub mod fxl;
pub mod texture;
pub mod projectile;
pub mod effect;
pub mod rct;
pub mod audiopackages;
pub mod particle;
pub mod jump;
pub mod td;
pub mod anims;
pub mod graph;
pub mod loco;
pub mod bound;
pub mod actor_xml;
pub mod animation;
pub mod registries;
pub mod mesh;
pub mod colliders;
pub mod layout;
pub mod weap;
pub mod entity_plan;
pub mod actor;
pub mod inventory;
pub mod actor_weap;
pub mod camera;

verus! {

} // verus!
