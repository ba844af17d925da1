//! How a spawned entity's sub-bound colliders, their triangles and its
//! joint entities are laid out.
//!
//! Building the collider shapes and spawning the entities are the
//! caller's: it hands in which colliders were built and gets back where
//! each one goes.
use crate::text::{decimal, lowercase, push_decimal, push_str, str_is, string_from_chars, to_lowercase};
use vstd::prelude::*;

verus! {

// ---------------------------------------------------------------------
// Collision triangles
// ---------------------------------------------------------------------

/// The triangles of a sub-bound's collision mesh: each quad `[a, b, c, d]`
/// becomes `[a, b, c]` and `[a, c, d]`, in order, followed by the
/// sub-bound's own triangles.
pub fn collider_triangles(quads: &Vec<[u32; 4]>, tris: &Vec<[u32; 3]>) -> (r: Vec<[u32; 3]>)
    ensures
        r@.len() == 2 * quads@.len() + tris@.len(),
        forall|k: int|
            #![trigger quads@[k]]
            0 <= k < quads@.len() ==> {
                &&& r@[2 * k][0] == quads@[k][0]
                &&& r@[2 * k][1] == quads@[k][1]
                &&& r@[2 * k][2] == quads@[k][2]
                &&& r@[2 * k + 1][0] == quads@[k][0]
                &&& r@[2 * k + 1][1] == quads@[k][2]
                &&& r@[2 * k + 1][2] == quads@[k][3]
            },
        forall|j: int|
            #![trigger tris@[j]]
            0 <= j < tris@.len() ==> r@[2 * quads@.len() + j] == tris@[j],
{
    let mut out: Vec<[u32; 3]> = Vec::new();
    let mut i: usize = 0;
    while i < quads.len()
        invariant
            i <= quads@.len(),
            out@.len() == 2 * i,
            forall|k: int|
                #![trigger quads@[k]]
                0 <= k < i ==> {
                    &&& out@[2 * k][0] == quads@[k][0]
                    &&& out@[2 * k][1] == quads@[k][1]
                    &&& out@[2 * k][2] == quads@[k][2]
                    &&& out@[2 * k + 1][0] == quads@[k][0]
                    &&& out@[2 * k + 1][1] == quads@[k][2]
                    &&& out@[2 * k + 1][2] == quads@[k][3]
                },
        decreases quads.len() - i,
    {
        let q = quads[i];
        out.push([q[0], q[1], q[2]]);
        out.push([q[0], q[2], q[3]]);
        i = i + 1;
    }
    let mut j: usize = 0;
    while j < tris.len()
        invariant
            j <= tris@.len(),
            out@.len() == 2 * quads@.len() + j,
            forall|k: int|
                #![trigger quads@[k]]
                0 <= k < quads@.len() ==> {
                    &&& out@[2 * k][0] == quads@[k][0]
                    &&& out@[2 * k][1] == quads@[k][1]
                    &&& out@[2 * k][2] == quads@[k][2]
                    &&& out@[2 * k + 1][0] == quads@[k][0]
                    &&& out@[2 * k + 1][1] == quads@[k][2]
                    &&& out@[2 * k + 1][2] == quads@[k][3]
                },
            forall|m: int|
                #![trigger tris@[m]]
                0 <= m < j ==> out@[2 * quads@.len() + m] == tris@[m],
        decreases tris.len() - j,
    {
        out.push(tris[j]);
        j = j + 1;
    }
    out
}

// ---------------------------------------------------------------------
// Joint entities
// ---------------------------------------------------------------------

/// `<entity>::<bone name>`, or `<entity>::bone_<i>` past the skeleton's
/// names.
pub open spec fn joint_name(name: Seq<char>, bone_names: Seq<String>, i: nat) -> Seq<char> {
    name + "::"@ + if i < bone_names.len() {
        bone_names[i as int]@
    } else {
        "bone_"@ + decimal(i)
    }
}

/// The names of the joint entities of a skinned entity, one per bone.
pub fn joint_names(name: &str, bone_names: &Vec<String>, num_bones: usize) -> (r: Vec<String>)
    ensures
        r@.len() == num_bones,
        forall|i: int| 0 <= i < num_bones ==> (#[trigger] r@[i])@ == joint_name(name@, bone_names@, i as nat),
{
    let mut out: Vec<String> = Vec::new();
    let mut i: usize = 0;
    while i < num_bones
        invariant
            i <= num_bones,
            out@.len() == i,
            forall|k: int| 0 <= k < i ==> (#[trigger] out@[k])@ == joint_name(name@, bone_names@, k as nat),
        decreases num_bones - i,
    {
        let mut cs: Vec<char> = Vec::new();
        push_str(&mut cs, name);
        push_str(&mut cs, "::");
        if i < bone_names.len() {
            push_str(&mut cs, bone_names[i].as_str());
        } else {
            push_str(&mut cs, "bone_");
            push_decimal(&mut cs, i as u64);
        }
        assert(cs@ =~= joint_name(name@, bone_names@, i as nat));
        out.push(string_from_chars(cs.as_slice()));
        i = i + 1;
    }
    out
}

// ---------------------------------------------------------------------
// Collider placement
// ---------------------------------------------------------------------

/// A sub-bound collider that was built: the bone it belongs to and its
/// bound type.
pub struct BuiltCollider {
    pub bone: usize,
    pub bound_type: Option<String>,
}

/// Where a collider is attached.
pub enum ColliderTarget {
    /// On the entity itself.
    Parent,
    /// On the joint entity of this bone.
    Joint(usize),
    /// On a new child entity of this name.
    Child(String),
}

/// The rigid body the entity itself gets.
#[derive(Debug, Clone, Copy, PartialEq, Eq)]
pub enum BodyKind {
    NoBody,
    Static,
    Kinematic,
}

pub struct ColliderPlacement {
    pub target: ColliderTarget,
    /// A one-way octree bound, which also records its interior point.
    pub octree: bool,
}

pub struct ColliderPlan {
    pub body: BodyKind,
    /// One per built collider, in order.
    pub placements: Vec<ColliderPlacement>,
}

/// The bound type is `octree`, in any case.
pub open spec fn is_octree(bound_type: Option<String>) -> bool {
    bound_type matches Some(s) && lowercase(s@) == "octree"@
}

pub open spec fn all_on_root(cs: Seq<BuiltCollider>) -> bool {
    forall|j: int| 0 <= j < cs.len() ==> (#[trigger] cs[j]).bone == 0
}

/// `<entity>::collider_<i>`.
pub open spec fn collider_child_name(name: Seq<char>, i: nat) -> Seq<char> {
    name + "::collider_"@ + decimal(i)
}

/// Where collider `i` goes. A skinned entity puts all of them on itself
/// when every one belongs to the root bone, else each on its bone's joint
/// (on itself when there is no such joint); any other entity gives each
/// its own child.
pub open spec fn placed_as(t: ColliderTarget, name: Seq<char>, cs: Seq<BuiltCollider>, i: int, skinned: bool, n_joints: nat) -> bool {
    if skinned {
        if all_on_root(cs) {
            t is Parent
        } else if cs[i].bone < n_joints {
            t == ColliderTarget::Joint(cs[i].bone)
        } else {
            t is Parent
        }
    } else {
        t matches ColliderTarget::Child(n) && n@ == collider_child_name(name, i as nat)
    }
}

/// The body of the entity: kinematic when it is skinned and has built
/// colliders; static when it has sub-bounds but neither skeleton nor
/// animation library; none otherwise.
pub open spec fn spec_body(n_built: nat, has_any_collider: bool, has_skeleton: bool, has_library: bool) -> BodyKind {
    if has_skeleton && has_library && n_built > 0 {
        BodyKind::Kinematic
    } else if has_any_collider && !has_skeleton && !has_library {
        BodyKind::Static
    } else {
        BodyKind::NoBody
    }
}

fn octree_bound(bound_type: &Option<String>) -> (r: bool)
    ensures
        r == is_octree(*bound_type),
{
    match bound_type {
        Some(bt) => {
            let low = to_lowercase(bt.as_str());
            str_is(low.as_str(), "octree")
        },
        None => false,
    }
}

fn collider_child_name_of(name: &str, i: usize) -> (r: String)
    ensures
        r@ == collider_child_name(name@, i as nat),
{
    let mut cs: Vec<char> = Vec::new();
    push_str(&mut cs, name);
    push_str(&mut cs, "::collider_");
    push_decimal(&mut cs, i as u64);
    string_from_chars(cs.as_slice())
}

/// Plans the colliders of a spawned entity. `colliders` are the sub-bound
/// colliders that were built, `has_any_collider` whether the entity type
/// has sub-bounds at all, and `n_joints` the number of joint entities.
/// The entity is skinned when it has both a skeleton and an animation
/// library.
pub fn plan_colliders(
    name: &str,
    colliders: &Vec<BuiltCollider>,
    has_any_collider: bool,
    has_skeleton: bool,
    has_library: bool,
    n_joints: usize,
) -> (plan: ColliderPlan)
    ensures
        plan.body == spec_body(colliders@.len(), has_any_collider, has_skeleton, has_library),
        plan.placements@.len() == colliders@.len(),
        forall|i: int|
            0 <= i < colliders@.len() ==> {
                &&& placed_as(
                    (#[trigger] plan.placements@[i]).target,
                    name@,
                    colliders@,
                    i,
                    has_skeleton && has_library,
                    n_joints as nat,
                )
                &&& plan.placements@[i].octree == is_octree(colliders@[i].bound_type)
            },
{
    let skinned = has_skeleton && has_library;
    let body = if skinned && colliders.len() > 0 {
        BodyKind::Kinematic
    } else if has_any_collider && !has_skeleton && !has_library {
        BodyKind::Static
    } else {
        BodyKind::NoBody
    };
    let mut all_root = true;
    let mut k: usize = 0;
    while k < colliders.len()
        invariant
            k <= colliders@.len(),
            all_root == forall|j: int| 0 <= j < k ==> (#[trigger] colliders@[j]).bone == 0,
        decreases colliders.len() - k,
    {
        if colliders[k].bone != 0 {
            all_root = false;
        }
        k = k + 1;
    }
    assert(all_root == all_on_root(colliders@));
    let mut placements: Vec<ColliderPlacement> = Vec::new();
    let mut i: usize = 0;
    while i < colliders.len()
        invariant
            i <= colliders@.len(),
            skinned == (has_skeleton && has_library),
            all_root == all_on_root(colliders@),
            placements@.len() == i,
            forall|m: int|
                0 <= m < i ==> {
                    &&& placed_as(
                        (#[trigger] placements@[m]).target,
                        name@,
                        colliders@,
                        m,
                        skinned,
                        n_joints as nat,
                    )
                    &&& placements@[m].octree == is_octree(colliders@[m].bound_type)
                },
        decreases colliders.len() - i,
    {
        let c = &colliders[i];
        let target = if skinned {
            if all_root {
                ColliderTarget::Parent
            } else if c.bone < n_joints {
                ColliderTarget::Joint(c.bone)
            } else {
                ColliderTarget::Parent
            }
        } else {
            ColliderTarget::Child(collider_child_name_of(name, i))
        };
        let octree = octree_bound(&c.bound_type);
        placements.push(ColliderPlacement { target, octree });
        i = i + 1;
    }
    ColliderPlan { body, placements }
}

} // verus!
