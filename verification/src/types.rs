//! Data shared by the model, skeleton and entity parsers.
//!
//! Float values read from text files are kept as the text of a valid `f32`
//! literal; callers turn them into numbers.
use vstd::prelude::*;

verus! {

/// One shader pass of a model material.
#[derive(Debug, Clone)]
pub struct Oni2MaterialPass {
    pub texture_name: Option<String>,
    pub lighting: Option<String>,
    pub blendset: Option<String>,
    pub texcombine: Option<String>,
    pub texsrc: Option<u32>,
    pub alphafunc: Option<String>,
    pub slides: Option<String>,
    pub slidet: Option<String>,
    pub rotate: Option<String>,
    pub scalet: Option<String>,
    /// `texgen` mode (`reflect` selects sphere-mapped reflection).
    pub texgen: Option<String>,
}

fn duplicate_text(o: &Option<String>) -> (r: Option<String>)
    ensures
        r == *o,
{
    match o {
        Some(s) => Some(s.clone()),
        None => None,
    }
}

impl Oni2MaterialPass {
    /// An equal copy.
    pub fn duplicate(&self) -> (p: Self)
        ensures
            p == *self,
    {
        Oni2MaterialPass {
            texture_name: duplicate_text(&self.texture_name),
            lighting: duplicate_text(&self.lighting),
            blendset: duplicate_text(&self.blendset),
            texcombine: duplicate_text(&self.texcombine),
            texsrc: self.texsrc,
            alphafunc: duplicate_text(&self.alphafunc),
            slides: duplicate_text(&self.slides),
            slidet: duplicate_text(&self.slidet),
            rotate: duplicate_text(&self.rotate),
            scalet: duplicate_text(&self.scalet),
            texgen: duplicate_text(&self.texgen),
        }
    }

    /// A pass that only names its texture.
    pub fn with_texture(texture_name: Option<String>) -> (p: Self)
        ensures
            p.texture_name == texture_name,
            p.lighting is None,
            p.blendset is None,
            p.texcombine is None,
            p.texsrc is None,
            p.alphafunc is None,
            p.slides is None,
            p.slidet is None,
            p.rotate is None,
            p.scalet is None,
            p.texgen is None,
    {
        Oni2MaterialPass {
            texture_name,
            lighting: None,
            blendset: None,
            texcombine: None,
            texsrc: None,
            alphafunc: None,
            slides: None,
            slidet: None,
            rotate: None,
            scalet: None,
            texgen: None,
        }
    }
}

pub open spec fn opt_text(o: Option<String>) -> Option<Seq<char>> {
    match o {
        Some(s) => Some(s@),
        None => None,
    }
}

/// Mathematical view of an [`Oni2MaterialPass`].
pub struct PassView {
    pub texture_name: Option<Seq<char>>,
    pub lighting: Option<Seq<char>>,
    pub blendset: Option<Seq<char>>,
    pub texcombine: Option<Seq<char>>,
    pub texsrc: Option<u32>,
    pub alphafunc: Option<Seq<char>>,
    pub slides: Option<Seq<char>>,
    pub slidet: Option<Seq<char>>,
    pub rotate: Option<Seq<char>>,
    pub scalet: Option<Seq<char>>,
    pub texgen: Option<Seq<char>>,
}

impl View for Oni2MaterialPass {
    type V = PassView;

    open spec fn view(&self) -> PassView {
        PassView {
            texture_name: opt_text(self.texture_name),
            lighting: opt_text(self.lighting),
            blendset: opt_text(self.blendset),
            texcombine: opt_text(self.texcombine),
            texsrc: self.texsrc,
            alphafunc: opt_text(self.alphafunc),
            slides: opt_text(self.slides),
            slidet: opt_text(self.slidet),
            rotate: opt_text(self.rotate),
            scalet: opt_text(self.scalet),
            texgen: opt_text(self.texgen),
        }
    }
}

/// A pass with nothing set.
pub open spec fn empty_pass() -> PassView {
    PassView {
        texture_name: None,
        lighting: None,
        blendset: None,
        texcombine: None,
        texsrc: None,
        alphafunc: None,
        slides: None,
        slidet: None,
        rotate: None,
        scalet: None,
        texgen: None,
    }
}

/// A reference from a triangle strip to one vertex's attributes.
#[derive(Debug, Clone, Copy, PartialEq, Eq, Structural)]
pub struct Oni2Adjunct {
    pub vertex_idx: u32,
    pub normal_idx: u32,
    pub color_idx: u32,
    /// -1 when the vertex has no texture coordinate.
    pub tex1_idx: i32,
    /// Bone index local to the packet's `bone_map`.
    pub bone_idx: u32,
}

/// A run of triangle strips drawn with one material.
#[derive(Debug, Clone)]
pub struct Oni2Packet {
    pub adjuncts: Vec<Oni2Adjunct>,
    /// Each strip lists adjunct indices.
    pub strips: Vec<Vec<u32>>,
    /// Per strip: 1 = `str` (normal winding), 2 = `stp` (swapped parity).
    pub strip_types: Vec<u32>,
    pub material_index: usize,
    /// Local bone index → global bone index.
    pub bone_map: Vec<u32>,
}

/// Mathematical view of an [`Oni2Packet`].
pub struct PacketView {
    pub adjuncts: Seq<Oni2Adjunct>,
    pub strips: Seq<Seq<u32>>,
    pub strip_types: Seq<u32>,
    pub material_index: usize,
    pub bone_map: Seq<u32>,
}

impl View for Oni2Packet {
    type V = PacketView;

    open spec fn view(&self) -> PacketView {
        PacketView {
            adjuncts: self.adjuncts@,
            strips: self.strips@.map_values(|s: Vec<u32>| s@),
            strip_types: self.strip_types@,
            material_index: self.material_index,
            bone_map: self.bone_map@,
        }
    }
}

/// Which animation channels a bone carries.
#[derive(Debug, Clone, Copy, PartialEq, Eq, Structural)]
pub struct Oni2BoneChannels {
    pub has_trans_x: bool,
    pub has_trans_y: bool,
    pub has_trans_z: bool,
    pub has_rot_x: bool,
    pub has_rot_y: bool,
    pub has_rot_z: bool,
}

impl Oni2BoneChannels {
    /// No channels.
    pub fn none() -> (c: Self)
        ensures
            !c.has_trans_x && !c.has_trans_y && !c.has_trans_z,
            !c.has_rot_x && !c.has_rot_y && !c.has_rot_z,
    {
        Oni2BoneChannels {
            has_trans_x: false,
            has_trans_y: false,
            has_trans_z: false,
            has_rot_x: false,
            has_rot_y: false,
            has_rot_z: false,
        }
    }
}

/// The channel kinds of one bone, in animation order: positions X, Y,
/// Z (`false`), then rotations X, Y, Z (`true`), each when present.
pub open spec fn bone_channel_kinds(c: Oni2BoneChannels) -> Seq<bool> {
    (if c.has_trans_x {
        seq![false]
    } else {
        seq![]
    }) + (if c.has_trans_y {
        seq![false]
    } else {
        seq![]
    }) + (if c.has_trans_z {
        seq![false]
    } else {
        seq![]
    }) + (if c.has_rot_x {
        seq![true]
    } else {
        seq![]
    }) + (if c.has_rot_y {
        seq![true]
    } else {
        seq![]
    }) + (if c.has_rot_z {
        seq![true]
    } else {
        seq![]
    })
}

/// The channel kinds of bones `0..k`, concatenated.
pub open spec fn channel_map(cs: Seq<Oni2BoneChannels>, k: nat) -> Seq<bool>
    decreases k,
{
    if k == 0 {
        Seq::empty()
    } else {
        channel_map(cs, (k - 1) as nat) + bone_channel_kinds(cs[k - 1])
    }
}

/// Appends one bone's channel kinds.
fn push_if(out: &mut Vec<bool>, flag: bool, value: bool)
    ensures
        final(out)@ == old(out)@ + (if flag {
            seq![value]
        } else {
            Seq::<bool>::empty()
        }),
{
    if flag {
        out.push(value);
    }
    assert(final(out)@ =~= old(out)@ + (if flag {
        seq![value]
    } else {
        Seq::<bool>::empty()
    }));
}

pub fn push_bone_channels(out: &mut Vec<bool>, c: &Oni2BoneChannels)
    ensures
        final(out)@ == old(out)@ + bone_channel_kinds(*c),
{
    let ghost start = out@;
    push_if(out, c.has_trans_x, false);
    push_if(out, c.has_trans_y, false);
    push_if(out, c.has_trans_z, false);
    push_if(out, c.has_rot_x, true);
    push_if(out, c.has_rot_y, true);
    push_if(out, c.has_rot_z, true);
    assert(out@ =~= start + bone_channel_kinds(*c));
}

/// The flattened channel kinds of all bones (`true` for a rotation).
pub fn build_channel_map(channels: &Vec<Oni2BoneChannels>) -> (m: Vec<bool>)
    ensures
        m@ == channel_map(channels@, channels@.len()),
{
    let mut m: Vec<bool> = Vec::new();
    let mut i: usize = 0;
    while i < channels.len()
        invariant
            i <= channels@.len(),
            m@ == channel_map(channels@, i as nat),
        decreases channels.len() - i,
    {
        push_bone_channels(&mut m, &channels[i]);
        i = i + 1;
    }
    m
}

} // verus!
