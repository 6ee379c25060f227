use macintosh_wallpaper::animation::properties::{OptionalProperties, Properties, Vec3};

fn defaults() -> Properties {
    Properties {
        camera_pos: Vec3 { x: 1, y: 2, z: 3 },
        camera_dir: Vec3 { x: 0, y: 0, z: -1 },
        scale: 1000,
        frame: 0,
        progress: 0,
        progress_angle: 90,
    }
}

fn full() -> OptionalProperties {
    OptionalProperties {
        camera_pos: Some(Vec3 { x: 9, y: 9, z: 9 }),
        camera_dir: Some(Vec3 { x: 1, y: 0, z: 0 }),
        scale: Some(5),
        frame: Some(7),
        progress: Some(500),
        progress_angle: Some(-45),
    }
}

#[test]
fn default_override_is_all_absent() {
    let none = OptionalProperties::default();
    assert_eq!(none.camera_pos, None);
    assert_eq!(none.camera_dir, None);
    assert_eq!(none.scale, None);
    assert_eq!(none.frame, None);
    assert_eq!(none.progress, None);
    assert_eq!(none.progress_angle, None);
}

#[test]
fn combine_with_all_absent_is_identity() {
    let none = OptionalProperties::default();
    let a = OptionalProperties::progress(250);
    assert_eq!(a.combine(&none), a);
    assert_eq!(none.combine(&a), a);
    assert_eq!(full().combine(&none), full());
    assert_eq!(none.combine(&none), none);
}

#[test]
fn combine_prefers_the_first() {
    let upper = OptionalProperties { scale: Some(1), progress: Some(2), ..OptionalProperties::default() };
    let lower = OptionalProperties { scale: Some(10), frame: Some(4), ..OptionalProperties::default() };
    let both = upper.combine(&lower);
    assert_eq!(both.scale, Some(1));
    assert_eq!(both.progress, Some(2));
    assert_eq!(both.frame, Some(4));
    assert_eq!(both.camera_pos, None);
}

#[test]
fn with_defaults_of_all_absent_is_the_defaults() {
    assert_eq!(OptionalProperties::default().with_defaults(&defaults()), defaults());
}

#[test]
fn with_defaults_keeps_what_is_present() {
    let resolved = full().with_defaults(&defaults());
    assert_eq!(
        resolved,
        Properties {
            camera_pos: Vec3 { x: 9, y: 9, z: 9 },
            camera_dir: Vec3 { x: 1, y: 0, z: 0 },
            scale: 5,
            frame: 7,
            progress: 500,
            progress_angle: -45,
        }
    );
    let sparse = OptionalProperties::progress(77).with_defaults(&defaults());
    assert_eq!(sparse, Properties { progress: 77, ..defaults() });
}

#[test]
fn precedence_runs_from_upper_to_defaults() {
    let upper = OptionalProperties { scale: Some(1), ..OptionalProperties::default() };
    let lower = OptionalProperties { scale: Some(2), frame: Some(3), ..OptionalProperties::default() };
    let resolved = upper.combine(&lower).with_defaults(&defaults());
    assert_eq!(resolved, Properties { scale: 1, frame: 3, ..defaults() });
    assert_eq!(resolved, upper.with_defaults(&lower.with_defaults(&defaults())));
}

#[test]
fn camera_pos_builder_sets_one_field() {
    let pos = Vec3 { x: 4, y: 5, z: 6 };
    assert_eq!(
        OptionalProperties::camera_pos(pos),
        OptionalProperties { camera_pos: Some(pos), ..OptionalProperties::default() }
    );
}

#[test]
fn progress_builder_sets_one_field() {
    assert_eq!(
        OptionalProperties::progress(12),
        OptionalProperties { progress: Some(12), ..OptionalProperties::default() }
    );
}

#[test]
fn independent_sources_merge() {
    let camera = OptionalProperties::camera_pos(Vec3 { x: 1, y: 1, z: 1 });
    let progress = OptionalProperties::progress(40);
    let merged = camera.combine(&progress);
    assert_eq!(merged.camera_pos, Some(Vec3 { x: 1, y: 1, z: 1 }));
    assert_eq!(merged.progress, Some(40));
    assert_eq!(merged.scale, None);
}
