//! The animatable state of a scene, complete and as a sparse override.

use crate::interpolate::{Fraction, Interpolate};
use vstd::prelude::*;

verus! {

/// A vector of three fixed-point scalars.
#[derive(Clone, Copy, Debug, PartialEq, Eq, Structural)]
pub struct Vec3 {
    pub x: i64,
    pub y: i64,
    pub z: i64,
}

/// A vector blends component by component.
impl Interpolate for Vec3 {
    open spec fn blend(self, other: Self, t: Fraction) -> Self {
        Vec3 {
            x: self.x.blend(other.x, t),
            y: self.y.blend(other.y, t),
            z: self.z.blend(other.z, t),
        }
    }

    proof fn lemma_blend_start(self, other: Self, t: Fraction) {
        self.x.lemma_blend_start(other.x, t);
        self.y.lemma_blend_start(other.y, t);
        self.z.lemma_blend_start(other.z, t);
    }

    fn interpolate(&self, other: &Self, t: Fraction) -> (r: Self) {
        Vec3 {
            x: self.x.interpolate(&other.x, t),
            y: self.y.interpolate(&other.y, t),
            z: self.z.interpolate(&other.z, t),
        }
    }
}

/// The complete animatable state: every field has a value.
#[derive(Clone, Copy, Debug, PartialEq, Eq, Structural)]
pub struct Properties {
    pub camera_pos: Vec3,
    pub camera_dir: Vec3,
    pub scale: i64,
    pub frame: usize,
    pub progress: i64,
    pub progress_angle: i64,
}

/// A sparse override of the animatable state: each field may be absent.
#[derive(Clone, Copy, Debug, PartialEq, Eq, Structural)]
pub struct OptionalProperties {
    pub camera_pos: Option<Vec3>,
    pub camera_dir: Option<Vec3>,
    pub scale: Option<i64>,
    pub frame: Option<usize>,
    pub progress: Option<i64>,
    pub progress_angle: Option<i64>,
}

/// `a` where it is present, else `b`.
pub open spec fn first_of<T>(a: Option<T>, b: Option<T>) -> Option<T> {
    if a is Some {
        a
    } else {
        b
    }
}

/// The value of `a` where it is present, else `d`.
pub open spec fn value_or<T>(a: Option<T>, d: T) -> T {
    match a {
        Some(v) => v,
        None => d,
    }
}

fn pick_first<T: Copy>(a: Option<T>, b: Option<T>) -> (r: Option<T>)
    ensures
        r == first_of(a, b),
{
    match a {
        Some(_) => a,
        None => b,
    }
}

fn pick_value<T: Copy>(a: Option<T>, d: T) -> (r: T)
    ensures
        r == value_or(a, d),
{
    match a {
        Some(v) => v,
        None => d,
    }
}

impl OptionalProperties {
    /// The override in which every field is absent.
    pub open spec fn absent() -> OptionalProperties {
        OptionalProperties {
            camera_pos: None,
            camera_dir: None,
            scale: None,
            frame: None,
            progress: None,
            progress_angle: None,
        }
    }

    /// Field by field, the value of `self` where present, else that of `other`.
    pub open spec fn combined(self, other: OptionalProperties) -> OptionalProperties {
        OptionalProperties {
            camera_pos: first_of(self.camera_pos, other.camera_pos),
            camera_dir: first_of(self.camera_dir, other.camera_dir),
            scale: first_of(self.scale, other.scale),
            frame: first_of(self.frame, other.frame),
            progress: first_of(self.progress, other.progress),
            progress_angle: first_of(self.progress_angle, other.progress_angle),
        }
    }

    /// Field by field, the value of `self` where present, else the default.
    pub open spec fn resolved(self, defaults: Properties) -> Properties {
        Properties {
            camera_pos: value_or(self.camera_pos, defaults.camera_pos),
            camera_dir: value_or(self.camera_dir, defaults.camera_dir),
            scale: value_or(self.scale, defaults.scale),
            frame: value_or(self.frame, defaults.frame),
            progress: value_or(self.progress, defaults.progress),
            progress_angle: value_or(self.progress_angle, defaults.progress_angle),
        }
    }

    /// Layers `self` over `other`: a field of `other` shows only where
    /// `self` leaves it absent.
    pub fn combine(&self, other: &Self) -> (r: Self)
        ensures
            r == self.combined(*other),
    {
        OptionalProperties {
            camera_pos: pick_first(self.camera_pos, other.camera_pos),
            camera_dir: pick_first(self.camera_dir, other.camera_dir),
            scale: pick_first(self.scale, other.scale),
            frame: pick_first(self.frame, other.frame),
            progress: pick_first(self.progress, other.progress),
            progress_angle: pick_first(self.progress_angle, other.progress_angle),
        }
    }

    /// Resolves the override into a complete state, taking each absent field
    /// from `defaults`.
    pub fn with_defaults(&self, defaults: &Properties) -> (r: Properties)
        ensures
            r == self.resolved(*defaults),
    {
        Properties {
            camera_pos: pick_value(self.camera_pos, defaults.camera_pos),
            camera_dir: pick_value(self.camera_dir, defaults.camera_dir),
            scale: pick_value(self.scale, defaults.scale),
            frame: pick_value(self.frame, defaults.frame),
            progress: pick_value(self.progress, defaults.progress),
            progress_angle: pick_value(self.progress_angle, defaults.progress_angle),
        }
    }

    /// An override that carries a camera position and nothing else.
    pub fn camera_pos(pos: Vec3) -> (r: Self)
        ensures
            r == (OptionalProperties { camera_pos: Some(pos), ..Self::absent() }),
    {
        OptionalProperties {
            camera_pos: Some(pos),
            camera_dir: None,
            scale: None,
            frame: None,
            progress: None,
            progress_angle: None,
        }
    }

    /// An override that carries a progress and nothing else.
    pub fn progress(progress: i64) -> (r: Self)
        ensures
            r == (OptionalProperties { progress: Some(progress), ..Self::absent() }),
    {
        OptionalProperties {
            camera_pos: None,
            camera_dir: None,
            scale: None,
            frame: None,
            progress: Some(progress),
            progress_angle: None,
        }
    }
}

impl Default for OptionalProperties {
    fn default() -> (r: Self)
        ensures
            r == Self::absent(),
    {
        OptionalProperties {
            camera_pos: None,
            camera_dir: None,
            scale: None,
            frame: None,
            progress: None,
            progress_angle: None,
        }
    }
}

/// Layering an override over the all-absent override changes nothing, and
/// so does layering the all-absent override over it.
pub proof fn lemma_combine_absent(a: OptionalProperties)
    ensures
        a.combined(OptionalProperties::absent()) == a,
        OptionalProperties::absent().combined(a) == a,
{
}

/// Layering is associative: three overrides layer to the same whichever two
/// are layered first.
pub proof fn lemma_combine_associative(
    a: OptionalProperties,
    b: OptionalProperties,
    c: OptionalProperties,
)
    ensures
        a.combined(b).combined(c) == a.combined(b.combined(c)),
{
}

/// Resolving the all-absent override yields exactly the defaults.
pub proof fn lemma_absent_resolves_to_defaults(defaults: Properties)
    ensures
        OptionalProperties::absent().resolved(defaults) == defaults,
{
}

/// Precedence runs from the first layer to the last: a field comes from
/// the upper override where present, else from the lower one where
/// present, else from the defaults.
pub proof fn lemma_precedence(
    upper: OptionalProperties,
    lower: OptionalProperties,
    defaults: Properties,
)
    ensures
        upper.combined(lower).resolved(defaults) == upper.resolved(lower.resolved(defaults)),
{
}

impl Properties {
    /// The field-wise blend from `self` towards `other` at progress `t`.
    pub open spec fn blended(self, other: Properties, t: Fraction) -> Properties {
        Properties {
            camera_pos: self.camera_pos.blend(other.camera_pos, t),
            camera_dir: self.camera_dir.blend(other.camera_dir, t),
            scale: self.scale.blend(other.scale, t),
            frame: self.frame.blend(other.frame, t),
            progress: self.progress.blend(other.progress, t),
            progress_angle: self.progress_angle.blend(other.progress_angle, t),
        }
    }

    /// Blends every field from `self` towards `other` at progress `t`.
    pub fn interpolate(&self, other: &Self, t: Fraction) -> (r: Self)
        requires
            t.wf(),
        ensures
            r == self.blended(*other, t),
    {
        Properties {
            camera_pos: self.camera_pos.interpolate(&other.camera_pos, t),
            camera_dir: self.camera_dir.interpolate(&other.camera_dir, t),
            scale: self.scale.interpolate(&other.scale, t),
            frame: self.frame.interpolate(&other.frame, t),
            progress: self.progress.interpolate(&other.progress, t),
            progress_angle: self.progress_angle.interpolate(&other.progress_angle, t),
        }
    }
}

} // verus!
