//! Errors of loading an animation.

use vstd::prelude::*;

verus! {

/// Why a set of images cannot become an animation. Every such error
/// ends the loading: there is no animation with parts missing.
#[derive(Clone, Copy, Debug, PartialEq, Eq, Structural)]
pub enum LoadError {
    /// A filmstrip was asked to hold no frames at all.
    NoFrames,
    /// The height of a filmstrip is not a whole number of frames.
    IndivisibleHeight,
    /// A frame has more pixels than a bit mask can hold.
    TooLarge,
    /// An animation was given no scene.
    NoScenes,
    /// A scene was given no frame.
    EmptyScene,
}

} // verus!
