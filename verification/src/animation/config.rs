//! The authored description of an animation, with its images decoded.

use crate::animation::properties::{OptionalProperties, Properties};
use image::DynamicImage;
use vstd::prelude::*;

verus! {

/// An authored keyframe: at time `t`, the fields present in `properties`
/// take the given values.
#[derive(Clone, Copy, Debug, PartialEq, Eq, Structural)]
pub struct PropertyKeyframe {
    pub t: i64,
    pub properties: OptionalProperties,
}

/// A scene as authored: a filmstrip of `frames` frames, the time after which
/// the next scene takes over, the overrides that hold throughout the scene,
/// and the keyframes, in any order.
#[derive(Debug)]
pub struct SceneConfig {
    pub image: DynamicImage,
    pub frames: u32,
    pub duration: i64,
    pub properties: OptionalProperties,
    pub keyframes: Vec<PropertyKeyframe>,
}

/// The background as authored: the colour lookup image and the time that
/// one pass through it takes.
#[derive(Debug)]
pub struct BackgroundConfig {
    pub colormap: DynamicImage,
    pub duration: i64,
}

/// The scenes as authored, with the defaults that hold where neither a
/// keyframe nor a scene sets a field.
#[derive(Debug)]
pub struct ScenesConfig {
    pub properties: Properties,
    pub scene: Vec<SceneConfig>,
}

/// An animation as authored.
#[derive(Debug)]
pub struct AnimationConfig {
    pub background: BackgroundConfig,
    pub scenes: ScenesConfig,
}

} // verus!
