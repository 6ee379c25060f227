use image::{DynamicImage, GrayImage, RgbImage};
use macintosh_wallpaper::animation::bitmask::{Image, Size};
use macintosh_wallpaper::animation::error::LoadError;
use macintosh_wallpaper::animation::colormap::Colormap;
use macintosh_wallpaper::animation::config::{
    AnimationConfig, BackgroundConfig, PropertyKeyframe, SceneConfig, ScenesConfig,
};
use macintosh_wallpaper::animation::properties::{OptionalProperties, Properties, Vec3};
use macintosh_wallpaper::animation::timeline::{Keyframe, PropertiesTimeline};
use macintosh_wallpaper::animation::{Animation, RuntimeConfig, SceneData, Timer};

fn defaults() -> Properties {
    Properties {
        camera_pos: Vec3 { x: 0, y: 0, z: 10 },
        camera_dir: Vec3 { x: 0, y: 0, z: -1 },
        scale: 1000,
        frame: 0,
        progress: 0,
        progress_angle: 0,
    }
}

fn colormap() -> Colormap {
    Colormap::new(DynamicImage::ImageRgb8(RgbImage::from_raw(3, 1, vec![0; 9]).unwrap()))
}

fn frame(word: u32) -> Image {
    Image { data: vec![word], size: Size { x: 2, y: 2 } }
}

fn scene(duration: i64, frames: Vec<Image>) -> SceneData {
    SceneData {
        frames,
        duration,
        properties: OptionalProperties::default(),
        timeline: PropertiesTimeline::default(),
    }
}

fn strip(height: u32) -> DynamicImage {
    DynamicImage::ImageLuma8(
        GrayImage::from_raw(1, height, (0..height).map(|y| (y % 2) as u8).collect()).unwrap(),
    )
}

fn authored(frames: u32, height: u32, duration: i64) -> SceneConfig {
    SceneConfig {
        image: strip(height),
        frames,
        duration,
        properties: OptionalProperties::default(),
        keyframes: vec![],
    }
}

fn config(scene: Vec<SceneConfig>) -> AnimationConfig {
    AnimationConfig {
        background: BackgroundConfig {
            colormap: DynamicImage::ImageRgb8(RgbImage::from_raw(3, 1, vec![1, 2, 3, 4, 5, 6, 7, 8, 9]).unwrap()),
            duration: 60_000,
        },
        scenes: ScenesConfig { properties: defaults(), scene },
    }
}

#[test]
fn scene_advances_once_its_duration_is_over() {
    let scenes = vec![scene(2000, vec![frame(1)]), scene(2000, vec![frame(2)])];
    let mut animation = Animation::start_at(colormap(), scenes, defaults(), 0).unwrap();
    assert_eq!(animation.scene_timer, Timer { index: 0, offset: 0 });

    let (_, image) = animation.scene(2500);
    assert_eq!(image.data, vec![2]);
    assert_eq!(animation.scene_timer.index, 1);
    assert_eq!(animation.scene_timer.offset, 2500);

    let (_, image) = animation.scene(2600);
    assert_eq!(image.data, vec![2]);
    assert_eq!(animation.scene_timer.index, 1);
    assert_eq!(2600 - animation.scene_timer.offset, 100);
}

#[test]
fn scene_stays_until_its_duration_is_over() {
    let scenes = vec![scene(2000, vec![frame(1)]), scene(2000, vec![frame(2)])];
    let mut animation = Animation::start_at(colormap(), scenes, defaults(), 0).unwrap();
    animation.scene(0);
    assert_eq!(animation.scene_timer, Timer { index: 0, offset: 0 });
    animation.scene(2000);
    assert_eq!(animation.scene_timer, Timer { index: 0, offset: 0 });
    animation.scene(2001);
    assert_eq!(animation.scene_timer, Timer { index: 1, offset: 2001 });
}

#[test]
fn scenes_come_round_again() {
    let scenes = vec![scene(10, vec![frame(1)]), scene(10, vec![frame(2)]), scene(10, vec![frame(3)])];
    let mut animation = Animation::start_at(colormap(), scenes, defaults(), 0).unwrap();
    let mut seen = vec![];
    for time in [0, 11, 22, 33, 44] {
        let (_, image) = animation.scene(time);
        seen.push(image.data[0]);
    }
    assert_eq!(seen, vec![1, 2, 3, 1, 2]);
    assert_eq!(animation.scene_timer, Timer { index: 1, offset: 44 });
}

#[test]
fn a_long_gap_advances_one_scene_only() {
    let scenes = vec![scene(10, vec![frame(1)]), scene(10, vec![frame(2)]), scene(10, vec![frame(3)])];
    let mut animation = Animation::start_at(colormap(), scenes, defaults(), 0).unwrap();
    animation.scene(1_000_000);
    assert_eq!(animation.scene_timer, Timer { index: 1, offset: 1_000_000 });
}

#[test]
fn single_scene_restarts() {
    let timeline = PropertiesTimeline::new(&[
        PropertyKeyframe { t: 0, properties: OptionalProperties::progress(0) },
        PropertyKeyframe { t: 100, properties: OptionalProperties::progress(1000) },
    ]);
    let scenes = vec![SceneData {
        frames: vec![frame(1)],
        duration: 100,
        properties: OptionalProperties::default(),
        timeline,
    }];
    let mut animation = Animation::start_at(colormap(), scenes, defaults(), 0).unwrap();
    assert_eq!(animation.scene(50).0.progress, 500);
    assert_eq!(animation.scene(100).0.progress, 1000);
    // The scene has played out: it begins again, and the state is that of
    // its beginning.
    assert_eq!(animation.scene(101).0.progress, 0);
    assert_eq!(animation.scene_timer, Timer { index: 0, offset: 101 });
    assert_eq!(animation.scene(151).0.progress, 500);
}

#[test]
fn keyframe_hint_is_reset_on_advance() {
    let scenes = vec![scene(10, vec![frame(1)]), scene(10, vec![frame(2)])];
    let mut animation = Animation::start_at(colormap(), scenes, defaults(), 0).unwrap();
    animation.keyframe = 5;
    animation.scene(10);
    assert_eq!(animation.keyframe, 5);
    animation.scene(11);
    assert_eq!(animation.keyframe, 0);
}

#[test]
fn clock_that_runs_backwards_does_not_advance() {
    let scenes = vec![scene(10, vec![frame(1)]), scene(10, vec![frame(2)])];
    let mut animation = Animation::start_at(colormap(), scenes, defaults(), 0).unwrap();
    animation.scene(11);
    let (properties, _) = animation.scene(5);
    assert_eq!(properties, defaults());
    assert_eq!(animation.scene_timer, Timer { index: 1, offset: 11 });
}

#[test]
fn elapsed_time_does_not_overflow() {
    let scenes = vec![scene(10, vec![frame(1)]), scene(i64::MAX, vec![frame(2)])];
    let mut animation = Animation::start_at(colormap(), scenes, defaults(), 0).unwrap();
    animation.scene(i64::MIN);
    assert_eq!(animation.scene_timer, Timer { index: 0, offset: 0 });
    animation.scene_timer.offset = i64::MIN;
    animation.scene(i64::MAX);
    assert_eq!(animation.scene_timer, Timer { index: 1, offset: i64::MAX });
    animation.scene_timer.offset = i64::MIN;
    animation.scene(i64::MAX);
    // The time that has passed is held at the longest time there is, which
    // is not longer than the scene lasts.
    assert_eq!(animation.scene_timer, Timer { index: 1, offset: i64::MIN });
}

#[test]
fn timeline_beats_scene_beats_defaults() {
    let timeline = PropertiesTimeline::new(&[
        PropertyKeyframe {
            t: 0,
            properties: OptionalProperties { scale: Some(10), ..OptionalProperties::default() },
        },
        PropertyKeyframe {
            t: 100,
            properties: OptionalProperties { scale: Some(20), ..OptionalProperties::default() },
        },
    ]);
    let scenes = vec![SceneData {
        frames: vec![frame(1)],
        duration: 1000,
        properties: OptionalProperties {
            scale: Some(77),
            progress: Some(88),
            ..OptionalProperties::default()
        },
        timeline,
    }];
    let mut animation = Animation::start_at(colormap(), scenes, defaults(), 0).unwrap();
    let (properties, _) = animation.scene(50);
    assert_eq!(properties, Properties { scale: 15, progress: 88, ..defaults() });
    let (properties, _) = animation.scene(-1);
    assert_eq!(properties, Properties { scale: 77, progress: 88, ..defaults() });
    let (properties, _) = animation.scene(500);
    assert_eq!(properties, Properties { scale: 20, progress: 88, ..defaults() });
}

#[test]
fn frame_index_wraps_round_the_frames() {
    let scenes = vec![SceneData {
        frames: vec![frame(10), frame(11), frame(12)],
        duration: 1000,
        properties: OptionalProperties { frame: Some(7), ..OptionalProperties::default() },
        timeline: PropertiesTimeline::default(),
    }];
    let mut animation = Animation::start_at(colormap(), scenes, defaults(), 0).unwrap();
    let (properties, image) = animation.scene(0);
    assert_eq!(properties.frame, 7);
    assert_eq!(image.data, vec![11]);
}

#[test]
fn frame_track_picks_the_frame() {
    let timeline = PropertiesTimeline::new(&[
        PropertyKeyframe { t: 0, properties: OptionalProperties { frame: Some(0), ..OptionalProperties::default() } },
        PropertyKeyframe { t: 30, properties: OptionalProperties { frame: Some(3), ..OptionalProperties::default() } },
    ]);
    assert_eq!(timeline.frame.keyframes, vec![Keyframe { t: 0, value: 0 }, Keyframe { t: 30, value: 3 }]);
    let scenes = vec![SceneData {
        frames: vec![frame(10), frame(11), frame(12)],
        duration: 1000,
        properties: OptionalProperties::default(),
        timeline,
    }];
    let mut animation = Animation::start_at(colormap(), scenes, defaults(), 0).unwrap();
    assert_eq!(animation.scene(0).1.data, vec![10]);
    assert_eq!(animation.scene(10).1.data, vec![11]);
    assert_eq!(animation.scene(20).1.data, vec![12]);
    assert_eq!(animation.scene(30).1.data, vec![10]);
}

#[test]
fn start_is_counted_round_the_scenes() {
    let scenes = vec![scene(10, vec![frame(1)]), scene(10, vec![frame(2)])];
    let animation = Animation::start_at(colormap(), scenes.clone(), defaults(), 1).unwrap();
    assert_eq!(animation.scene_timer, Timer { index: 1, offset: 0 });
    let animation = Animation::start_at(colormap(), scenes, defaults(), 5).unwrap();
    assert_eq!(animation.scene_timer, Timer { index: 1, offset: 0 });
}

#[test]
fn animation_needs_a_scene() {
    assert_eq!(Animation::start_at(colormap(), vec![], defaults(), 0).err(), Some(LoadError::NoScenes));
    assert_eq!(Animation::load(colormap(), vec![], defaults()).err(), Some(LoadError::NoScenes));
    assert_eq!(Animation::load_dev(config(vec![])).err(), Some(LoadError::NoScenes));
}

#[test]
fn every_scene_needs_a_frame() {
    let scenes = vec![scene(10, vec![frame(1)]), scene(10, vec![])];
    assert_eq!(Animation::start_at(colormap(), scenes.clone(), defaults(), 0).err(), Some(LoadError::EmptyScene));
    assert_eq!(Animation::load(colormap(), scenes, defaults()).err(), Some(LoadError::EmptyScene));
}

#[test]
fn bundle_starts_on_some_scene() {
    let scenes = vec![scene(10, vec![frame(1)]), scene(10, vec![frame(2)]), scene(10, vec![frame(3)])];
    for _ in 0..50 {
        let animation = Animation::load(colormap(), scenes.clone(), defaults()).unwrap();
        assert!(animation.scene_timer.index < 3);
        assert_eq!(animation.scene_timer.offset, 0);
        assert_eq!(animation.keyframe, 0);
        assert_eq!(animation.scenes, scenes);
        assert_eq!(animation.defaults, defaults());
        assert_eq!(animation.colormap, colormap());
        assert_eq!(animation.runtime, RuntimeConfig::default());
    }
}

#[test]
fn bundle_of_one_scene_starts_on_it() {
    let animation = Animation::load(colormap(), vec![scene(10, vec![frame(1)])], defaults()).unwrap();
    assert_eq!(animation.scene_timer, Timer { index: 0, offset: 0 });
}

#[test]
fn timer_picks_a_scene() {
    for max in 1..20 {
        let timer = Timer::new(max);
        assert!(timer.index < max);
        assert_eq!(timer.offset, 0);
    }
}

#[test]
fn timer_steps_to_the_next_scene() {
    let mut timer = Timer { index: 2, offset: 100 };
    assert!(!timer.step(150, 50, 3));
    assert_eq!(timer, Timer { index: 2, offset: 100 });
    assert!(timer.step(151, 50, 3));
    assert_eq!(timer, Timer { index: 0, offset: 151 });
}

#[test]
fn authored_animation_is_built() {
    let mut first = authored(2, 4, 500);
    first.properties = OptionalProperties::progress(3);
    first.keyframes = vec![
        PropertyKeyframe { t: 10, properties: OptionalProperties { scale: Some(2), ..OptionalProperties::default() } },
        PropertyKeyframe { t: 0, properties: OptionalProperties { scale: Some(1), ..OptionalProperties::default() } },
    ];
    let animation = Animation::load_dev(config(vec![first, authored(1, 3, 700)])).unwrap();
    assert_eq!(animation.scene_timer, Timer { index: 0, offset: 0 });
    assert_eq!(animation.keyframe, 0);
    assert_eq!(animation.defaults, defaults());
    assert_eq!(animation.runtime, RuntimeConfig::default());
    assert_eq!(animation.colormap.width, 3);
    assert_eq!(animation.colormap.height, 1);
    assert_eq!(animation.colormap.data, vec![1, 2, 3, 4, 5, 6, 7, 8, 9]);
    assert_eq!(animation.scenes(), 2);
    assert_eq!(animation.frames(0), 2);
    assert_eq!(animation.frames(1), 1);
    assert_eq!(animation.image(0, 0), &Image { data: vec![0b10], size: Size { x: 1, y: 2 } });
    assert_eq!(animation.image(0, 1), &Image { data: vec![0b10], size: Size { x: 1, y: 2 } });
    assert_eq!(animation.image(1, 0), &Image { data: vec![0b010], size: Size { x: 1, y: 3 } });
    assert_eq!(animation.scenes[0].duration, 500);
    assert_eq!(animation.scenes[1].duration, 700);
    assert_eq!(animation.scenes[0].properties, OptionalProperties::progress(3));
    assert_eq!(
        animation.scenes[0].timeline.scale.keyframes,
        vec![Keyframe { t: 0, value: 1 }, Keyframe { t: 10, value: 2 }]
    );
    assert_eq!(animation.scenes[1].timeline, PropertiesTimeline::default());
}

#[test]
fn authored_filmstrip_must_divide() {
    let result = Animation::load_dev(config(vec![authored(1, 3, 700), authored(2, 3, 700)]));
    assert_eq!(result.err(), Some(LoadError::IndivisibleHeight));
}

#[test]
fn first_authored_error_is_reported() {
    let result = Animation::load_dev(config(vec![authored(1, 3, 1), authored(0, 3, 1), authored(2, 3, 1)]));
    assert_eq!(result.err(), Some(LoadError::NoFrames));
    let result = Animation::load_dev(config(vec![authored(2, 3, 1), authored(0, 3, 1)]));
    assert_eq!(result.err(), Some(LoadError::IndivisibleHeight));
}

#[test]
fn scene_is_built_from_its_description() {
    let built = SceneData::new(&authored(2, 2, 9)).unwrap();
    assert_eq!(built.duration, 9);
    assert_eq!(built.frames.len(), 2);
    assert_eq!(built.frames[0].data, vec![0]);
    assert_eq!(built.frames[1].data, vec![1]);
    assert_eq!(SceneData::new(&authored(0, 2, 9)).err(), Some(LoadError::NoFrames));
}

#[test]
fn runtime_is_replaced() {
    let runtime = RuntimeConfig {
        fade_duration: 500,
        fade_in: true,
        fade_out: Some(2000),
        full_screen: true,
        preview: Some(-4),
        configure: false,
    };
    let animation = Animation::start_at(colormap(), vec![scene(10, vec![frame(1)])], defaults(), 0).unwrap();
    let before = animation.clone();
    let after = animation.with_runtime(runtime);
    assert_eq!(after.runtime, runtime);
    assert_eq!(after.scenes, before.scenes);
    assert_eq!(after.scene_timer, before.scene_timer);
    assert_eq!(after.defaults, before.defaults);
    assert_eq!(after.colormap, before.colormap);
}

#[test]
fn default_runtime_is_plain() {
    assert_eq!(
        RuntimeConfig::default(),
        RuntimeConfig {
            fade_duration: 0,
            fade_in: false,
            fade_out: None,
            full_screen: false,
            preview: None,
            configure: false,
        }
    );
}

#[test]
fn resolve_layers_the_sources() {
    let data = SceneData {
        frames: vec![frame(1)],
        duration: 10,
        properties: OptionalProperties { scale: Some(5), ..OptionalProperties::default() },
        timeline: PropertiesTimeline::new(&[PropertyKeyframe { t: 3, properties: OptionalProperties::progress(9) }]),
    };
    assert_eq!(data.resolve(0, &defaults()), Properties { scale: 5, ..defaults() });
    assert_eq!(data.resolve(3, &defaults()), Properties { scale: 5, progress: 9, ..defaults() });
}
