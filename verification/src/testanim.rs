//! The animation test scene: one entity playing one animation file, with
//! keyboard controls and a text overlay.
//!
//! The library decides what the scene shows and how keys change playback;
//! spawning, rendering and frame-rate arithmetic are left to the caller.
use crate::text::{
    after_last, after_last_char, before_first, before_first_char, chars_of, decimal, push_decimal,
    push_str, string_from_chars,
};
use vstd::prelude::*;

verus! {

/// The animation file the test scene plays (a path such as
/// `Entity/kno/kno_walk.anim`).
pub struct TestAnimMode(pub String);

/// Marker for the overlay text of the test scene.
pub struct TestAnimHud;

/// What the test scene shows.
pub struct TestAnimScene {
    /// The animation file to play.
    pub anim_file: String,
    /// The entity whose animation it is: the file name up to its first `.`,
    /// then up to its first `_`.
    pub entity_name: String,
    /// `Entity/<entity_name>`.
    pub entity_dir: String,
    /// The overlay text before the first frame.
    pub hud_text: String,
}

// ---------------------------------------------------------------------
// Paths
// ---------------------------------------------------------------------

/// The entity an animation file belongs to.
pub open spec fn entity_of_anim_file(path: Seq<char>) -> Seq<char> {
    before_first(before_first(after_last(path, '/'), '.'), '_')
}

/// The overlay text before the first frame.
pub open spec fn initial_hud_text() -> Seq<char> {
    hud_text(0, 0, 20, false, true)
}

/// Plans the test scene for an animation file: the entity to spawn and
/// where its assets lie.
pub fn setup_testanim_scene(testanim: &TestAnimMode) -> (scene: TestAnimScene)
    ensures
        scene.anim_file@ == testanim.0@,
        scene.entity_name@ == entity_of_anim_file(testanim.0@),
        scene.entity_dir@ == "Entity/"@ + entity_of_anim_file(testanim.0@),
        scene.hud_text@ == initial_hud_text(),
{
    let path = chars_of(testanim.0.as_str());
    let file = after_last_char(path.as_slice(), '/');
    let stem = before_first_char(file.as_slice(), '.');
    let name = before_first_char(stem.as_slice(), '_');
    let mut dir: Vec<char> = Vec::new();
    push_str(&mut dir, "Entity/");
    let mut i: usize = 0;
    while i < name.len()
        invariant
            i <= name@.len(),
            dir@ == "Entity/"@ + name@.take(i as int),
        decreases name.len() - i,
    {
        dir.push(name[i]);
        i = i + 1;
        assert(dir@ =~= "Entity/"@ + name@.take(i as int));
    }
    assert(name@.take(name@.len() as int) =~= name@);
    TestAnimScene {
        anim_file: testanim.0.clone(),
        entity_name: string_from_chars(name.as_slice()),
        entity_dir: string_from_chars(dir.as_slice()),
        hud_text: update_testanim_hud(0, 0, 20, false, true),
    }
}

// ---------------------------------------------------------------------
// Playback controls
// ---------------------------------------------------------------------

/// The playback state the controls change.
#[derive(Debug, Clone, Copy, PartialEq, Eq, Structural)]
pub struct AnimPlayback {
    pub paused: bool,
    /// Frames to step on the next update: 1 forward, -1 back, 0 none.
    pub pending_step: i32,
    pub looping: bool,
}

/// Keys pressed this frame.
#[derive(Debug, Clone, Copy, PartialEq, Eq, Structural)]
pub struct TestAnimKeys {
    /// Space: toggle pause.
    pub space: bool,
    /// Right arrow: step forward while paused.
    pub arrow_right: bool,
    /// Left arrow: step back while paused.
    pub arrow_left: bool,
    /// Up arrow: 5 frames per second faster (at most 120).
    pub arrow_up: bool,
    /// Down arrow: 5 frames per second slower (at least 1).
    pub arrow_down: bool,
    /// L: toggle looping.
    pub key_l: bool,
}

/// Frame-rate changes to apply, raise first.
#[derive(Debug, Clone, Copy, PartialEq, Eq, Structural)]
pub struct FpsAdjust {
    pub raise: bool,
    pub lower: bool,
}

/// Applies one frame of key presses to the playback state: pause toggles
/// first, so a step key pressed with it sees the new state; a back step
/// wins over a forward step; looping toggles.  Returns the frame-rate
/// changes for the caller to apply.
pub fn testanim_input_system(keys: &TestAnimKeys, anim: &mut AnimPlayback) -> (fps: FpsAdjust)
    ensures
        final(anim).paused == (old(anim).paused != keys.space),
        final(anim).pending_step == if final(anim).paused && keys.arrow_left {
            -1i32
        } else if final(anim).paused && keys.arrow_right {
            1i32
        } else {
            old(anim).pending_step
        },
        final(anim).looping == (old(anim).looping != keys.key_l),
        fps == (FpsAdjust { raise: keys.arrow_up, lower: keys.arrow_down }),
{
    if keys.space {
        anim.paused = !anim.paused;
    }
    if keys.arrow_right && anim.paused {
        anim.pending_step = 1;
    }
    if keys.arrow_left && anim.paused {
        anim.pending_step = -1;
    }
    if keys.key_l {
        anim.looping = !anim.looping;
    }
    FpsAdjust { raise: keys.arrow_up, lower: keys.arrow_down }
}

// ---------------------------------------------------------------------
// Overlay
// ---------------------------------------------------------------------

/// `Frame: <frame>/<total>  FPS: <fps>  <PAUSED|PLAYING>  <LOOP|ONCE>`.
pub open spec fn hud_text(frame: nat, total: nat, fps: nat, paused: bool, looping: bool) -> Seq<char> {
    "Frame: "@ + decimal(frame) + "/"@ + decimal(total) + "  FPS: "@ + decimal(fps) + "  "@ + (if paused {
        "PAUSED"@
    } else {
        "PLAYING"@
    }) + "  "@ + (if looping {
        "LOOP"@
    } else {
        "ONCE"@
    })
}

/// The overlay text for the current frame, frame count and frame rate.
pub fn update_testanim_hud(frame: u64, total: u64, fps: u32, paused: bool, looping: bool) -> (text: String)
    ensures
        text@ == hud_text(frame as nat, total as nat, fps as nat, paused, looping),
{
    let mut out: Vec<char> = Vec::new();
    push_str(&mut out, "Frame: ");
    push_decimal(&mut out, frame);
    push_str(&mut out, "/");
    push_decimal(&mut out, total);
    push_str(&mut out, "  FPS: ");
    push_decimal(&mut out, fps as u64);
    push_str(&mut out, "  ");
    if paused {
        push_str(&mut out, "PAUSED");
    } else {
        push_str(&mut out, "PLAYING");
    }
    push_str(&mut out, "  ");
    if looping {
        push_str(&mut out, "LOOP");
    } else {
        push_str(&mut out, "ONCE");
    }
    assert(out@ =~= hud_text(frame as nat, total as nat, fps as nat, paused, looping));
    string_from_chars(out.as_slice())
}

} // verus!
