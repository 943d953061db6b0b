//! Puddle-reflection scheduling: the quality profiles, the reflection backend
//! in use and the per-frame decision whether the planar reflection pass runs.
use vstd::prelude::*;

verus! {

/// Reflection backend. `Planar` renders the scene mirrored across the road
/// plane into an offscreen target; `Off` skips the reflection pass entirely.
#[derive(Clone, Copy, Debug, PartialEq, Eq, Structural)]
pub enum ReflectionMethod {
    Off,
    Planar,
}

/// How the planar reflection is rendered at a puddle-quality setting.
#[derive(Clone, Copy, Debug, PartialEq, Eq, Structural)]
pub struct PuddleQualityProfile {
    /// Puddle reflections are on at all.
    pub enabled: bool,
    /// The reflection target is the framebuffer size divided by this.
    pub reflection_scale_div: u32,
    /// The reflection is re-rendered every this many wet frames.
    pub reflection_cadence: u32,
}

/// The profile of puddle-quality level `level` (0 off, 1 low, 2 medium,
/// 3 and above high).
pub open spec fn spec_puddle_quality_profile(level: u32) -> PuddleQualityProfile {
    if level == 0 {
        PuddleQualityProfile { enabled: false, reflection_scale_div: 1, reflection_cadence: 1 }
    } else if level == 1 {
        PuddleQualityProfile { enabled: true, reflection_scale_div: 4, reflection_cadence: 2 }
    } else if level == 2 {
        PuddleQualityProfile { enabled: true, reflection_scale_div: 2, reflection_cadence: 1 }
    } else {
        PuddleQualityProfile { enabled: true, reflection_scale_div: 1, reflection_cadence: 1 }
    }
}

/// Off; LOW renders a quarter-resolution reflection every other frame; MEDIUM
/// a half-resolution one every frame; HIGH a full-resolution one every frame.
pub fn puddle_quality_profile(level: u32) -> (p: PuddleQualityProfile)
    ensures
        p == spec_puddle_quality_profile(level),
        p.enabled <==> level >= 1,
        level == 1 ==> p.reflection_scale_div == 4 && p.reflection_cadence == 2,
        level == 2 ==> p.reflection_scale_div == 2 && p.reflection_cadence == 1,
        level >= 3 ==> p.reflection_scale_div == 1 && p.reflection_cadence == 1,
{
    if level == 0 {
        PuddleQualityProfile { enabled: false, reflection_scale_div: 1, reflection_cadence: 1 }
    } else if level == 1 {
        PuddleQualityProfile { enabled: true, reflection_scale_div: 4, reflection_cadence: 2 }
    } else if level == 2 {
        PuddleQualityProfile { enabled: true, reflection_scale_div: 2, reflection_cadence: 1 }
    } else {
        PuddleQualityProfile { enabled: true, reflection_scale_div: 1, reflection_cadence: 1 }
    }
}

/// What the renderer does about reflections in one frame.
#[derive(Clone, Copy, Debug, PartialEq, Eq, Structural)]
pub struct ReflectionFrame {
    /// The reflection target must be recreated at this scale divisor first.
    pub resize_to: Option<u32>,
    /// The backend the post composite samples.
    pub method: ReflectionMethod,
    /// The planar reflection pass is recorded this frame.
    pub record: bool,
}

/// The renderer's reflection bookkeeping between frames.
#[derive(Clone, Copy, Debug, PartialEq, Eq, Structural)]
pub struct ReflectionState {
    /// Scale divisor of the current reflection target.
    pub scale_div: u32,
    /// Alternates on consecutive wet frames under a two-frame cadence.
    pub cadence_flip: bool,
}

/// The decision for one frame and the state that follows it, from the current
/// state, the puddle profile and whether the road is wet.
pub open spec fn spec_reflection_frame(
    state: ReflectionState,
    profile: PuddleQualityProfile,
    wet: bool,
) -> (ReflectionFrame, ReflectionState) {
    let resize_to = if profile.enabled && state.scale_div != profile.reflection_scale_div {
        Some(profile.reflection_scale_div)
    } else {
        None
    };
    let scale_div = if profile.enabled { profile.reflection_scale_div } else { state.scale_div };
    let method = if profile.enabled { ReflectionMethod::Planar } else { ReflectionMethod::Off };
    let (record, flip) = if profile.enabled && wet {
        if profile.reflection_cadence <= 1 {
            (true, false)
        } else {
            (!state.cadence_flip, !state.cadence_flip)
        }
    } else {
        (false, false)
    };
    (
        ReflectionFrame { resize_to, method, record },
        ReflectionState { scale_div, cadence_flip: flip },
    )
}

impl ReflectionState {
    /// The state at renderer start: a full-resolution target, cadence reset.
    pub fn new() -> (s: ReflectionState)
        ensures
            s == (ReflectionState { scale_div: 1, cadence_flip: false }),
    {
        ReflectionState { scale_div: 1, cadence_flip: false }
    }

    /// Decides this frame's reflection work and advances the bookkeeping.
    pub fn frame(&mut self, profile: PuddleQualityProfile, wet: bool) -> (f: ReflectionFrame)
        ensures
            (f, *final(self)) == spec_reflection_frame(*old(self), profile, wet),
            f.method == ReflectionMethod::Planar <==> profile.enabled,
            f.method == ReflectionMethod::Off <==> !profile.enabled,
    {
        let resize_to = if profile.enabled && self.scale_div != profile.reflection_scale_div {
            self.scale_div = profile.reflection_scale_div;
            Some(profile.reflection_scale_div)
        } else {
            None
        };
        let method = if profile.enabled {
            ReflectionMethod::Planar
        } else {
            ReflectionMethod::Off
        };
        let record = if profile.enabled && wet {
            if profile.reflection_cadence <= 1 {
                self.cadence_flip = false;
                true
            } else {
                self.cadence_flip = !self.cadence_flip;
                self.cadence_flip
            }
        } else {
            self.cadence_flip = false;
            false
        };
        ReflectionFrame { resize_to, method, record }
    }
}

/// Under a cadence of two or more, of any two consecutive wet frames exactly
/// one records the reflection pass; under a cadence of one every wet frame
/// does; a dry road or disabled puddles never record.
pub proof fn law_reflection_cadence(state: ReflectionState, profile: PuddleQualityProfile)
    ensures
        ({
            let (f1, s1) = spec_reflection_frame(state, profile, true);
            let (f2, _s2) = spec_reflection_frame(s1, profile, true);
            &&& profile.enabled && profile.reflection_cadence > 1 ==> f1.record != f2.record
            &&& profile.enabled && profile.reflection_cadence <= 1 ==> f1.record && f2.record
            &&& !profile.enabled ==> !f1.record
        }),
        !spec_reflection_frame(state, profile, false).0.record,
{
}

/// After any frame with puddles enabled the target matches the profile, so a
/// resize is asked for at most once per profile change.
pub proof fn law_reflection_resize_once(state: ReflectionState, profile: PuddleQualityProfile, wet1: bool, wet2: bool)
    requires
        profile.enabled,
    ensures
        ({
            let (_f1, s1) = spec_reflection_frame(state, profile, wet1);
            let (f2, _s2) = spec_reflection_frame(s1, profile, wet2);
            &&& s1.scale_div == profile.reflection_scale_div
            &&& f2.resize_to == None::<u32>
        }),
{
}

/// Puddle quality only gets sharper and more frequent as the level rises:
/// level 0 is off and every other level is on; among enabled levels a higher
/// one never uses a larger scale divisor or a longer cadence; from MEDIUM
/// (level 2) up the reflection is re-rendered on every wet frame, MEDIUM at
/// half resolution and HIGH at full resolution, and LOW renders at a quarter
/// resolution every other wet frame.
pub proof fn law_puddle_quality_levels(a: u32, b: u32)
    ensures
        spec_puddle_quality_profile(a).enabled <==> a >= 1,
        1 <= a <= b ==> spec_puddle_quality_profile(b).reflection_scale_div
            <= spec_puddle_quality_profile(a).reflection_scale_div
            && spec_puddle_quality_profile(b).reflection_cadence
            <= spec_puddle_quality_profile(a).reflection_cadence,
        a >= 2 ==> spec_puddle_quality_profile(a).reflection_cadence == 1,
        a == 1 ==> spec_puddle_quality_profile(a).reflection_scale_div == 4
            && spec_puddle_quality_profile(a).reflection_cadence == 2,
        a == 2 ==> spec_puddle_quality_profile(a).reflection_scale_div == 2,
        a >= 3 ==> spec_puddle_quality_profile(a).reflection_scale_div == 1,
{
}

/// The composite samples the planar reflection on every frame with puddles
/// enabled, whether or not the pass is re-recorded that frame and whether or
/// not the road is wet (a skipped frame keeps the previous reflection); it
/// samples nothing exactly when puddles are disabled.
pub proof fn law_reflection_method_follows_profile(
    state: ReflectionState,
    profile: PuddleQualityProfile,
    wet: bool,
)
    ensures
        spec_reflection_frame(state, profile, wet).0.method == ReflectionMethod::Planar
            <==> profile.enabled,
        spec_reflection_frame(state, profile, wet).0.method == ReflectionMethod::Off
            <==> !profile.enabled,
        spec_reflection_frame(state, profile, wet).0.method == spec_reflection_frame(
            state,
            profile,
            !wet,
        ).0.method,
        ({
            let (f1, s1) = spec_reflection_frame(state, profile, wet);
            let (f2, _s2) = spec_reflection_frame(s1, profile, wet);
            f1.method == f2.method
        }),
{
}

/// Side of the reflection target for a framebuffer side `size` at scale
/// divisor `scale_div` (a divisor of zero counts as one): never below one
/// texel.
pub open spec fn spec_reflection_side(size: u32, scale_div: u32) -> u32 {
    let div = if scale_div >= 1 { scale_div } else { 1 };
    let s = size / div;
    if s >= 1 {
        s
    } else {
        1
    }
}

/// Extent of the planar reflection target for a framebuffer of size `extent`.
pub fn reflection_extent(extent: [u32; 2], scale_div: u32) -> (r: [u32; 2])
    ensures
        r[0] == spec_reflection_side(extent[0], scale_div),
        r[1] == spec_reflection_side(extent[1], scale_div),
{
    let div = if scale_div >= 1 { scale_div } else { 1 };
    let w = extent[0] / div;
    let h = extent[1] / div;
    [if w >= 1 { w } else { 1 }, if h >= 1 { h } else { 1 }]
}

} // verus!
