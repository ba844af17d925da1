//! What an entity type is built from once its files are read: the passes
//! and texture animators of each model material, whether it is skinned,
//! the bone each sub-bound collider rides on, and where its animation
//! library comes from.
//!
//! Building meshes, materials and bind poses, and the vertex arithmetic,
//! are the caller's; it follows this plan.
use crate::registry::{assoc_get, NameTable};
use crate::spawn::{directive_speed, parse_uv_animator, sub_bound_bone, MaterialPasses, TextureUVAnimator};
use crate::types::Oni2MaterialPass;
use vstd::prelude::*;

verus! {

/// The pass a material without passes is drawn with: one that only names
/// the material's texture.
pub open spec fn synthetic_pass(texture_name: Option<String>) -> Oni2MaterialPass {
    Oni2MaterialPass {
        texture_name,
        lighting: None,
        blendset: None,
        texcombine: None,
        texsrc: None,
        alphafunc: None,
        slides: None,
        slidet: None,
        rotate: None,
        scalet: None,
        texgen: None,
    }
}

/// The passes a model material is built with: its own, or the synthetic
/// one when it has none.
pub open spec fn planned_passes(m: MaterialPasses) -> Seq<Oni2MaterialPass> {
    if m.passes@.len() > 0 {
        m.passes@
    } else {
        seq![synthetic_pass(m.texture_name)]
    }
}

/// `a` is the texture animation of pass `p`.
pub open spec fn animates(a: TextureUVAnimator, p: Oni2MaterialPass) -> bool {
    &&& a.slides_speed@ == directive_speed(p.slides)
    &&& a.slidet_speed@ == directive_speed(p.slidet)
    &&& a.rotate_speed@ == directive_speed(p.rotate)
    &&& a.scalet_speed@ == directive_speed(p.scalet)
}

/// The bone of sub-bound `i` among `n_subs` on a skeleton of `n_bones`
/// bones (0 without a skeleton), and whether its vertices are made
/// relative to that bone: only composite bounds on a skeleton use bones;
/// with exactly one bone more than sub-bounds, sub-bound `i` goes to bone
/// `i + 1` (at most the last); otherwise to the bone found nearest its
/// centroid.
pub open spec fn collider_bone(i: usize, n_subs: usize, n_bones: usize, nearest: usize) -> (usize, bool) {
    if n_subs > 1 && n_bones > 0 {
        if n_bones == n_subs + 1 {
            (if i + 1 < n_bones {
                (i + 1) as usize
            } else {
                (n_bones - 1) as usize
            }, true)
        } else {
            (nearest, true)
        }
    } else {
        (0usize, false)
    }
}

/// A library of at least one animation.
pub open spec fn has_animations(library_anims: Option<usize>) -> bool {
    match library_anims {
        Some(k) => k > 0,
        None => false,
    }
}

/// How an entity type is built.
pub struct EntityTypePlan {
    pub name: String,
    /// Per model material, the passes its materials are built from.
    pub materials: Vec<Vec<Oni2MaterialPass>>,
    /// Per model material, the texture animation of each of its passes.
    pub material_animators: Vec<Vec<TextureUVAnimator>>,
    /// Skinned on the GPU: then, and only then, inverse bind poses are
    /// computed and skinned meshes built.
    pub skinned: bool,
    /// The animation library is kept (it has animations).
    pub keeps_library: bool,
    /// Per sub-bound: its bone and whether its vertices and centroid are
    /// made relative to that bone's rest position.
    pub bone_colliders: Vec<(usize, bool)>,
}

/// Number of materials of the loaded model (0 without one).
pub open spec fn model_material_count(materials: Option<&Vec<MaterialPasses>>) -> nat {
    match materials {
        Some(ms) => ms@.len(),
        None => 0,
    }
}

/// Plans an entity type `name` from what was read: the model's materials
/// (`None` without a model), the skeleton's bone count (`None` without a
/// skeleton), the number of animations in its library (`None` without
/// one), and per sub-bound of `Bound.bnd` the bone the caller found
/// nearest its centroid.
pub fn plan_entity_type(
    name: &str,
    materials: Option<&Vec<MaterialPasses>>,
    skeleton_bones: Option<usize>,
    library_anims: Option<usize>,
    nearest: &Vec<usize>,
) -> (plan: EntityTypePlan)
    requires
        forall|i: int|
            0 <= i < nearest@.len() ==> match skeleton_bones {
                Some(n) => (n > 1 ==> 1 <= #[trigger] nearest@[i] < n) && (n == 1 ==> nearest@[i] == 0),
                None => true,
            },
    ensures
        plan.name@ == name@,
        plan.materials@.len() == model_material_count(materials),
        plan.material_animators@.len() == model_material_count(materials),
        forall|i: int|
            0 <= i < model_material_count(materials) ==> {
                let m = materials.unwrap()@[i];
                &&& (#[trigger] plan.materials@[i])@ == planned_passes(m)
                &&& plan.materials@[i]@.len() == if m.passes@.len() > 0 {
                    m.passes@.len()
                } else {
                    1
                }
                &&& plan.material_animators@[i]@.len() == plan.materials@[i]@.len()
                &&& forall|p: int|
                    0 <= p < plan.materials@[i]@.len() ==> animates(
                        #[trigger] plan.material_animators@[i]@[p],
                        plan.materials@[i]@[p],
                    )
            },
        plan.keeps_library == (skeleton_bones is Some && has_animations(library_anims)),
        plan.skinned == plan.keeps_library,
        plan.bone_colliders@.len() == nearest@.len(),
        forall|i: int|
            0 <= i < nearest@.len() ==> #[trigger] plan.bone_colliders@[i] == collider_bone(
                i as usize,
                nearest@.len() as usize,
                match skeleton_bones {
                    Some(n) => n,
                    None => 0usize,
                },
                nearest@[i],
            ),
{
    let mut mats: Vec<Vec<Oni2MaterialPass>> = Vec::new();
    let mut anims: Vec<Vec<TextureUVAnimator>> = Vec::new();
    match materials {
        Some(ms) => {
            let mut i: usize = 0;
            while i < ms.len()
                invariant
                    materials == Some(ms),
                    i <= ms@.len(),
                    mats@.len() == i,
                    anims@.len() == i,
                    forall|j: int|
                        0 <= j < i ==> {
                            &&& (#[trigger] mats@[j])@ == planned_passes(ms@[j])
                            &&& anims@[j]@.len() == mats@[j]@.len()
                            &&& forall|p: int|
                                0 <= p < mats@[j]@.len() ==> animates(
                                    #[trigger] anims@[j]@[p],
                                    mats@[j]@[p],
                                )
                        },
                decreases ms.len() - i,
            {
                let mut own: Vec<Oni2MaterialPass> = Vec::new();
                if ms[i].passes.len() > 0 {
                    let mut k: usize = 0;
                    while k < ms[i].passes.len()
                        invariant
                            i < ms@.len(),
                            k <= ms@[i as int].passes@.len(),
                            own@ == ms@[i as int].passes@.subrange(0, k as int),
                        decreases ms@[i as int].passes@.len() - k,
                    {
                        own.push(ms[i].passes[k].duplicate());
                        k = k + 1;
                        assert(own@ =~= ms@[i as int].passes@.subrange(0, k as int));
                    }
                    assert(own@ =~= ms@[i as int].passes@);
                } else {
                    let synthetic = Oni2MaterialPass::with_texture(ms[i].texture_name.clone());
                    own.push(synthetic);
                    assert(own@ =~= seq![synthetic_pass(ms@[i as int].texture_name)]);
                }
                let mut an: Vec<TextureUVAnimator> = Vec::new();
                let mut k: usize = 0;
                while k < own.len()
                    invariant
                        k <= own@.len(),
                        an@.len() == k,
                        forall|p: int| 0 <= p < k ==> animates(#[trigger] an@[p], own@[p]),
                    decreases own.len() - k,
                {
                    an.push(parse_uv_animator(&own[k]));
                    k = k + 1;
                }
                mats.push(own);
                anims.push(an);
                i = i + 1;
            }
        },
        None => {},
    }
    let keeps_library = match (skeleton_bones, library_anims) {
        (Some(_), Some(k)) => k > 0,
        _ => false,
    };
    let n_bones: usize = match skeleton_bones {
        Some(n) => n,
        None => 0,
    };
    let n_subs = nearest.len();
    let mut colliders: Vec<(usize, bool)> = Vec::new();
    let mut s: usize = 0;
    while s < n_subs
        invariant
            s <= n_subs,
            n_subs == nearest@.len(),
            n_bones == match skeleton_bones {
                Some(n) => n,
                None => 0usize,
            },
            forall|i: int|
                0 <= i < nearest@.len() ==> match skeleton_bones {
                    Some(n) => (n > 1 ==> 1 <= #[trigger] nearest@[i] < n) && (n == 1 ==> nearest@[i]
                        == 0),
                    None => true,
                },
            colliders@.len() == s,
            forall|i: int|
                0 <= i < s ==> #[trigger] colliders@[i] == collider_bone(
                    i as usize,
                    n_subs,
                    n_bones,
                    nearest@[i],
                ),
        decreases n_subs - s,
    {
        let near = if n_bones > 1 {
            nearest[s]
        } else {
            0
        };
        let c = sub_bound_bone(s, n_subs, n_bones, near);
        proof {
            if n_subs > 1 && n_bones > 0 && n_bones != n_subs + 1 {
                assert(n_bones > 1 || n_bones == 1);
            }
        }
        colliders.push(c);
        assert(colliders@[s as int] == collider_bone(s, n_subs, n_bones, nearest@[s as int]));
        s = s + 1;
    }
    EntityTypePlan {
        name: name.to_string(),
        materials: mats,
        material_animators: anims,
        skinned: keeps_library,
        keeps_library,
        bone_colliders: colliders,
    }
}

/// Where the animation library of an entity type comes from.
#[derive(Debug, Clone, Copy, PartialEq, Eq)]
pub enum LibrarySource {
    /// No skeleton: no library.
    NoSkeleton,
    /// The library cached under the key is used; nothing is loaded.
    Cached,
    /// The library is loaded once and stored under the key.
    Load,
}

/// Whether the animation library under `key` is taken from the cache or
/// loaded (and then stored under `key` with [`NameTable::insert`]).
pub fn anim_library_source<L>(libraries: &NameTable<L>, key: &str, has_skeleton: bool) -> (s: LibrarySource)
    ensures
        s == if !has_skeleton {
            LibrarySource::NoSkeleton
        } else if assoc_get(libraries.entries(), key@) is Some {
            LibrarySource::Cached
        } else {
            LibrarySource::Load
        },
{
    if !has_skeleton {
        LibrarySource::NoSkeleton
    } else if libraries.get(key).is_some() {
        LibrarySource::Cached
    } else {
        LibrarySource::Load
    }
}

} // verus!
