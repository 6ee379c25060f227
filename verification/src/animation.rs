//! Scenes, their images and property tracks, and the playback cursor.

pub mod bitmask;
pub mod colormap;
pub mod config;
pub mod error;
pub mod properties;
pub mod runtime;
pub mod timeline;

use crate::animation::bitmask::{filmstrip_error, is_filmstrip, Image};
use crate::animation::colormap::Colormap;
use crate::animation::config::{AnimationConfig, SceneConfig};
use crate::animation::error::LoadError;
use crate::animation::properties::{OptionalProperties, Properties};
use crate::animation::timeline::PropertiesTimeline;
use rand::Rng;
use vstd::prelude::*;

verus! {

/// A scene: its frames, the time after which the next scene takes over, the
/// overrides that hold throughout the scene, and its tracks.
#[derive(Clone, Debug, PartialEq, Eq)]
pub struct SceneData {
    pub frames: Vec<Image>,
    pub duration: i64,
    pub properties: OptionalProperties,
    pub timeline: PropertiesTimeline,
}

/// The playback cursor: the scene that plays and the time at which it began.
#[derive(Clone, Copy, Debug, PartialEq, Eq, Structural)]
pub struct Timer {
    pub index: usize,
    pub offset: i64,
}

/// The time that has passed at `time` since `offset`, kept within the range
/// of a time.
pub open spec fn elapsed(time: i64, offset: i64) -> i64 {
    if time - offset > i64::MAX {
        i64::MAX
    } else if time - offset < i64::MIN {
        i64::MIN
    } else {
        (time - offset) as i64
    }
}

fn elapsed_since(time: i64, offset: i64) -> (t: i64)
    ensures
        t == elapsed(time, offset),
{
    let d = time as i128 - offset as i128;
    if d > i64::MAX as i128 {
        i64::MAX
    } else if d < i64::MIN as i128 {
        i64::MIN
    } else {
        d as i64
    }
}

/// Calls `rand::rng` and `Rng::random_range` on the range from zero up to,
/// but not including, `max`. The call panics on an empty range, so `max` is
/// not zero; the index lies in the range, and nothing else is known of it.
#[verifier::external_body]
fn random_below(max: usize) -> (index: usize)
    requires
        0 < max,
    ensures
        index < max,
{
    rand::rng().random_range(0..max)
}

impl Timer {
    /// A cursor at time zero on a scene picked at random among `max` scenes.
    pub fn new(max: usize) -> (r: Self)
        requires
            0 < max,
        ensures
            r.index < max,
            r.offset == 0,
    {
        Timer { index: random_below(max), offset: 0 }
    }

    /// Whether at `time` a scene of the given duration has played out.
    pub open spec fn due(self, time: i64, duration: i64) -> bool {
        elapsed(time, self.offset) > duration
    }

    /// The cursor after a look at the clock: where the scene has played out,
    /// the next of `count` scenes begins at `time`, the first one following
    /// the last; else nothing changes.
    pub open spec fn stepped(self, time: i64, duration: i64, count: int) -> Timer {
        if self.due(time, duration) {
            Timer { index: ((self.index + 1) % count) as usize, offset: time }
        } else {
            self
        }
    }

    /// Moves the cursor on where the scene has played out at `time`, and
    /// says whether it did.
    pub fn step(&mut self, time: i64, duration: i64, count: usize) -> (moved: bool)
        requires
            old(self).index < count,
        ensures
            *final(self) == old(self).stepped(time, duration, count as int),
            moved == old(self).due(time, duration),
            final(self).index < count,
    {
        if elapsed_since(time, self.offset) > duration {
            self.offset = time;
            self.index = (self.index + 1) % count;
            true
        } else {
            false
        }
    }
}

impl Default for Timer {
    /// A cursor at time zero on the first scene.
    fn default() -> (r: Self)
        ensures
            r == (Timer { index: 0, offset: 0 }),
    {
        Timer { index: 0, offset: 0 }
    }
}

/// A scene that has just begun has played for no time at all, and it is not
/// left before its duration is over: after a move at `time`, a look at the
/// clock at a later time `then` moves the cursor again only where more than
/// the duration of the scene moved to has passed since.
pub proof fn lemma_scene_lasts(
    timer: Timer,
    time: i64,
    then: i64,
    left: i64,
    entered: i64,
    count: int,
)
    requires
        timer.due(time, left),
        time <= then,
    ensures
        timer.stepped(time, left, count).offset == time,
        elapsed(time, timer.stepped(time, left, count).offset) == 0,
        then - time <= entered ==> timer.stepped(time, left, count).stepped(then, entered, count)
            == timer.stepped(time, left, count),
{
}

impl SceneData {
    /// The complete state at time `t` of the scene: each field from the
    /// tracks where they give a value, else from the scene's overrides
    /// where present, else from the defaults.
    pub open spec fn state_at(&self, t: i64, defaults: Properties) -> Properties {
        self.timeline.sampled(t).combined(self.properties).resolved(defaults)
    }

    /// The frame to show for a frame index, counted round the frames.
    pub open spec fn shown(&self, frame: usize) -> Image {
        self.frames@[frame as int % self.frames@.len() as int]
    }

    /// The complete state at time `t` of the scene.
    pub fn resolve(&self, t: i64, defaults: &Properties) -> (r: Properties)
        ensures
            r == self.state_at(t, *defaults),
    {
        self.timeline.get(t).combine(&self.properties).with_defaults(defaults)
    }
}

impl SceneData {
    /// The scene is what its authored description gives: the frames of its
    /// filmstrip, its duration and overrides, and the tracks of its
    /// keyframes in order of time.
    pub open spec fn built_from(&self, config: SceneConfig) -> bool {
        &&& is_filmstrip(self.frames@, config.image, config.frames)
        &&& self.duration == config.duration
        &&& self.properties == config.properties
        &&& self.timeline.built_from(config.keyframes@)
        &&& self.timeline.wf()
    }

    /// Builds a scene from its authored description: cuts and encodes the
    /// filmstrip and sorts the keyframes into tracks.
    pub fn new(config: &SceneConfig) -> (r: Result<SceneData, LoadError>)
        ensures
            match r {
                Ok(scene) => filmstrip_error(config.image, config.frames) is None
                    && scene.built_from(*config),
                Err(e) => filmstrip_error(config.image, config.frames) == Some(e),
            },
    {
        match Image::encode_filmstrip(&config.image, config.frames) {
            Ok(frames) => Ok(
                SceneData {
                    frames,
                    duration: config.duration,
                    properties: config.properties,
                    timeline: PropertiesTimeline::new(config.keyframes.as_slice()),
                },
            ),
            Err(e) => Err(e),
        }
    }
}

/// What the surroundings ask of a run: fades, in ticks, and how to show.
#[derive(Clone, Copy, Debug, PartialEq, Eq, Structural)]
pub struct RuntimeConfig {
    pub fade_duration: i64,
    pub fade_in: bool,
    pub fade_out: Option<i64>,
    pub full_screen: bool,
    pub preview: Option<isize>,
    pub configure: bool,
}

impl RuntimeConfig {
    /// No fade, no full screen, no preview, no configuration.
    pub open spec fn plain() -> RuntimeConfig {
        RuntimeConfig {
            fade_duration: 0,
            fade_in: false,
            fade_out: None,
            full_screen: false,
            preview: None,
            configure: false,
        }
    }
}

impl Default for RuntimeConfig {
    fn default() -> (r: Self)
        ensures
            r == Self::plain(),
    {
        RuntimeConfig {
            fade_duration: 0,
            fade_in: false,
            fade_out: None,
            full_screen: false,
            preview: None,
            configure: false,
        }
    }
}

/// The animation: its assets and its playback state.
#[derive(Clone, Debug, PartialEq, Eq)]
pub struct Animation {
    pub colormap: Colormap,
    pub scenes: Vec<SceneData>,
    pub defaults: Properties,
    pub scene_timer: Timer,
    pub keyframe: usize,
    pub runtime: RuntimeConfig,
}

/// Why a list of scenes cannot be played, if it cannot: it is empty, or one
/// of its scenes has no frame.
pub open spec fn scenes_error(scenes: Seq<SceneData>) -> Option<LoadError> {
    if scenes.len() == 0 {
        Some(LoadError::NoScenes)
    } else if exists|i: int| 0 <= i < scenes.len() && scenes[i].frames@.len() == 0 {
        Some(LoadError::EmptyScene)
    } else {
        None
    }
}

/// The number of leading authored scenes that can be built.
pub open spec fn buildable(scenes: Seq<SceneConfig>) -> nat
    decreases scenes.len(),
{
    if scenes.len() == 0 || filmstrip_error(scenes[0].image, scenes[0].frames) is Some {
        0
    } else {
        1 + buildable(scenes.drop_first())
    }
}

/// Why a list of authored scenes gives no animation, if it gives none: the
/// error of the first scene that cannot be built, or that there is no scene.
pub open spec fn config_error(scenes: Seq<SceneConfig>) -> Option<LoadError> {
    let n = buildable(scenes) as int;
    if n < scenes.len() {
        filmstrip_error(scenes[n].image, scenes[n].frames)
    } else if scenes.len() == 0 {
        Some(LoadError::NoScenes)
    } else {
        None
    }
}

/// `buildable` is the index of the first authored scene that cannot be
/// built, or the number of scenes where all can.
pub proof fn lemma_config_error(scenes: Seq<SceneConfig>, n: int)
    requires
        0 <= n <= scenes.len(),
        forall|j: int| 0 <= j < n ==> filmstrip_error(scenes[j].image, scenes[j].frames) is None,
        n < scenes.len() ==> filmstrip_error(scenes[n].image, scenes[n].frames) is Some,
    ensures
        buildable(scenes) == n,
    decreases scenes.len(),
{
    if n > 0 {
        let rest = scenes.drop_first();
        assert(filmstrip_error(scenes[0].image, scenes[0].frames) is None);
        assert forall|j: int| 0 <= j < n - 1 implies filmstrip_error(
            rest[j].image,
            rest[j].frames,
        ) is None by {
            assert(rest[j] == scenes[j + 1]);
        }
        lemma_config_error(rest, n - 1);
    }
}

fn check_scenes(scenes: &Vec<SceneData>) -> (r: Option<LoadError>)
    ensures
        r == scenes_error(scenes@),
{
    let count = scenes.len();
    if count == 0 {
        return Some(LoadError::NoScenes);
    }
    let mut i: usize = 0;
    while i < count
        invariant
            i <= count,
            count == scenes@.len(),
            forall|j: int| 0 <= j < i ==> scenes@[j].frames@.len() != 0,
        decreases count - i,
    {
        if scenes[i].frames.len() == 0 {
            return Some(LoadError::EmptyScene);
        }
        i += 1;
    }
    None
}

impl Animation {
    /// There is a scene, the cursor is on a scene, and every scene has a
    /// frame.
    pub open spec fn wf(&self) -> bool {
        &&& scenes_error(self.scenes@) is None
        &&& self.scene_timer.index < self.scenes@.len()
    }

    /// The scene that plays.
    pub open spec fn current(&self) -> SceneData {
        self.scenes@[self.scene_timer.index as int]
    }

    /// The animation holds the given assets, has just begun and runs plain.
    pub open spec fn fresh(&self, colormap: Colormap, scenes: Vec<SceneData>, defaults: Properties)
        -> bool {
        &&& self.colormap == colormap
        &&& self.scenes == scenes
        &&& self.defaults == defaults
        &&& self.scene_timer.offset == 0
        &&& self.keyframe == 0
        &&& self.runtime == RuntimeConfig::plain()
    }

    /// The animation of the given assets that begins at time zero on scene
    /// `start`, counted round the scenes.
    pub fn start_at(colormap: Colormap, scenes: Vec<SceneData>, defaults: Properties, start: usize)
        -> (r: Result<Self, LoadError>)
        ensures
            match r {
                Ok(a) => {
                    &&& scenes_error(scenes@) is None
                    &&& a.fresh(colormap, scenes, defaults)
                    &&& a.scene_timer.index == start as int % scenes@.len() as int
                },
                Err(e) => scenes_error(scenes@) == Some(e),
            },
    {
        match check_scenes(&scenes) {
            Some(e) => Err(e),
            None => {
                let index = start % scenes.len();
                Ok(
                    Animation {
                        colormap,
                        scenes,
                        defaults,
                        scene_timer: Timer { index, offset: 0 },
                        keyframe: 0,
                        runtime: RuntimeConfig::default(),
                    },
                )
            },
        }
    }

    /// The animation of the assets of a bundle. It begins at time zero on a
    /// scene picked at random.
    pub fn load(colormap: Colormap, scenes: Vec<SceneData>, defaults: Properties) -> (r: Result<
        Self,
        LoadError,
    >)
        ensures
            match r {
                Ok(a) => {
                    &&& scenes_error(scenes@) is None
                    &&& a.fresh(colormap, scenes, defaults)
                    &&& a.wf()
                },
                Err(e) => scenes_error(scenes@) == Some(e),
            },
    {
        match check_scenes(&scenes) {
            Some(e) => Err(e),
            None => {
                let timer = Timer::new(scenes.len());
                Self::start_at(colormap, scenes, defaults, timer.index)
            },
        }
    }

    /// The animation that an authored description gives: the lookup table of
    /// its background image, and one scene for each authored scene, in the
    /// given order. It begins at time zero on the first scene. The error of
    /// the first scene that cannot be built is the error of the whole.
    pub fn load_dev(config: AnimationConfig) -> (r: Result<Self, LoadError>)
        ensures
            match r {
                Ok(a) => {
                    &&& config_error(config.scenes.scene@) is None
                    &&& a.wf()
                    &&& a.colormap.made_of(config.background.colormap)
                    &&& a.defaults == config.scenes.properties
                    &&& a.scene_timer == (Timer { index: 0, offset: 0 })
                    &&& a.keyframe == 0
                    &&& a.runtime == RuntimeConfig::plain()
                    &&& a.scenes@.len() == config.scenes.scene@.len()
                    &&& forall|i: int|
                        0 <= i < a.scenes@.len() ==> (#[trigger] a.scenes@[i]).built_from(
                            config.scenes.scene@[i],
                        )
                },
                Err(e) => config_error(config.scenes.scene@) == Some(e),
            },
    {
        let AnimationConfig { background, scenes: authored } = config;
        let count = authored.scene.len();
        let mut scenes: Vec<SceneData> = Vec::new();
        let mut i: usize = 0;
        while i < count
            invariant
                i <= count,
                count == authored.scene@.len(),
                authored == config.scenes,
                background == config.background,
                scenes@.len() == i,
                forall|j: int|
                    0 <= j < i ==> filmstrip_error(
                        authored.scene@[j].image,
                        authored.scene@[j].frames,
                    ) is None,
                forall|j: int|
                    0 <= j < i ==> (#[trigger] scenes@[j]).built_from(authored.scene@[j]),
            decreases count - i,
        {
            match SceneData::new(&authored.scene[i]) {
                Ok(scene) => {
                    scenes.push(scene);
                },
                Err(e) => {
                    proof {
                        lemma_config_error(authored.scene@, i as int);
                    }
                    return Err(e);
                },
            }
            i += 1;
        }
        proof {
            lemma_config_error(authored.scene@, count as int);
            if count > 0 {
                assert forall|j: int| 0 <= j < scenes@.len() implies scenes@[j].frames@.len()
                    != 0 by {
                    assert(scenes@[j].built_from(authored.scene@[j]));
                }
            }
        }
        let colormap = Colormap::new(background.colormap);
        Self::start_at(colormap, scenes, authored.properties, 0)
    }

    /// Looks at the clock, moves on to the next scene where the one that
    /// plays has played out, and gives the complete state at `time` and the
    /// frame to show. A move and the state of the scene moved to come from
    /// the same call; the scene moved to has then just begun.
    pub fn scene(&mut self, time: i64) -> (r: (Properties, &Image))
        requires
            old(self).wf(),
        ensures
            final(self).wf(),
            final(self).colormap == old(self).colormap,
            final(self).scenes == old(self).scenes,
            final(self).defaults == old(self).defaults,
            final(self).runtime == old(self).runtime,
            final(self).scene_timer == old(self).scene_timer.stepped(
                time,
                old(self).current().duration,
                old(self).scenes@.len() as int,
            ),
            final(self).keyframe == (if old(self).scene_timer.due(
                time,
                old(self).current().duration,
            ) {
                0
            } else {
                old(self).keyframe
            }),
            r.0 == final(self).current().state_at(
                elapsed(time, final(self).scene_timer.offset),
                final(self).defaults,
            ),
            *r.1 == final(self).current().shown(r.0.frame),
    {
        let count = self.scenes.len();
        let duration = self.scenes[self.scene_timer.index].duration;
        if self.scene_timer.step(time, duration, count) {
            self.keyframe = 0;
        }
        let t = elapsed_since(time, self.scene_timer.offset);
        let scene = &self.scenes[self.scene_timer.index];
        let properties = scene.resolve(t, &self.defaults);
        let frame = &scene.frames[properties.frame % scene.frames.len()];
        (properties, frame)
    }

    /// The number of scenes.
    pub fn scenes(&self) -> (r: usize)
        ensures
            r == self.scenes@.len(),
    {
        self.scenes.len()
    }

    /// The number of frames of scene `n`.
    pub fn frames(&self, n: usize) -> (r: usize)
        requires
            n < self.scenes@.len(),
        ensures
            r == self.scenes@[n as int].frames@.len(),
    {
        self.scenes[n].frames.len()
    }

    /// Frame `frame` of scene `n`.
    pub fn image(&self, n: usize, frame: usize) -> (r: &Image)
        requires
            n < self.scenes@.len(),
            frame < self.scenes@[n as int].frames@.len(),
        ensures
            *r == self.scenes@[n as int].frames@[frame as int],
    {
        &self.scenes[n].frames[frame]
    }

    /// The same animation run as `runtime` asks.
    pub fn with_runtime(self, runtime: RuntimeConfig) -> (r: Self)
        ensures
            r == (Animation { runtime, ..self }),
    {
        Animation { runtime, ..self }
    }
}

} // verus!
