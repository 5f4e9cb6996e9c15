use skeletal_anim::clip::{AnimationClip, Keyframe};
use skeletal_anim::errors::AnimError;
use skeletal_anim::fixed::FX_ONE;
use skeletal_anim::quat::Quat;
use skeletal_anim::qv::QVTransform;
use skeletal_anim::skeleton::{Joint, Skeleton};
use skeletal_anim::transform::Transform;
use skeletal_anim::vec3::Vec3;

fn one_joint_skeleton() -> Skeleton<QVTransform> {
    let joints = vec![Joint {
        name: "root".to_string(),
        parent: None,
        bind_pose: QVTransform::from_translation(&Vec3 { x: 7, y: 8, z: 9 }),
    }];
    Skeleton::new(joints).unwrap()
}

fn key(time: i64, x: i64) -> Keyframe<QVTransform> {
    Keyframe { time, transform: QVTransform::from_translation(&Vec3 { x, y: 0, z: 0 }) }
}

/// A clip over one joint moving from x = 0 at t = 0 to x = 1 at t = 2 s.
fn slide_clip(looping: bool) -> AnimationClip<QVTransform> {
    let skeleton = one_joint_skeleton();
    let tracks = vec![vec![key(0, 0), key(2_000_000, 1_000_000)]];
    AnimationClip::new(tracks, &skeleton, 2_000_000, looping).unwrap()
}

#[test]
fn interpolates_between_keyframes() {
    let clip = slide_clip(false);
    let p = clip.sample(0, 500_000).unwrap();
    assert_eq!(p.translation, Vec3 { x: 250_000, y: 0, z: 0 });
    let p = clip.sample(0, 1_000_000).unwrap();
    assert_eq!(p.translation, Vec3 { x: 500_000, y: 0, z: 0 });
}

#[test]
fn loop_wraps_past_duration() {
    let clip = slide_clip(true);
    assert_eq!(clip.sample(0, 2_500_000).unwrap(), clip.sample(0, 500_000).unwrap());
    assert_eq!(clip.sample(0, 4_500_000).unwrap(), clip.sample(0, 500_000).unwrap());
    // playing backward wraps the same way: -0.5 s lands at 1.5 s
    assert_eq!(clip.sample(0, -500_000).unwrap(), clip.sample(0, 1_500_000).unwrap());
}

#[test]
fn non_loop_clamps_to_the_ends() {
    let clip = slide_clip(false);
    let last = clip.sample(0, 2_000_000).unwrap();
    assert_eq!(clip.sample(0, 5_000_000).unwrap(), last);
    assert_eq!(last.translation, Vec3 { x: 1_000_000, y: 0, z: 0 });
    let first = clip.sample(0, 0).unwrap();
    assert_eq!(clip.sample(0, -1_000_000).unwrap(), first);
    assert_eq!(first.translation, Vec3 { x: 0, y: 0, z: 0 });
}

#[test]
fn empty_track_falls_back_to_bind_pose() {
    let skeleton = one_joint_skeleton();
    let tracks = vec![vec![]];
    let clip = AnimationClip::new(tracks, &skeleton, 2_000_000, false).unwrap();
    let p = clip.sample(0, 1_000_000).unwrap();
    assert_eq!(p.translation, Vec3 { x: 7, y: 8, z: 9 });
}

#[test]
fn time_before_first_keyframe_returns_first() {
    let skeleton = one_joint_skeleton();
    let tracks = vec![vec![key(1_000_000, 300_000), key(2_000_000, 600_000)]];
    let clip = AnimationClip::new(tracks, &skeleton, 2_000_000, false).unwrap();
    let p = clip.sample(0, 200_000).unwrap();
    assert_eq!(p.translation, Vec3 { x: 300_000, y: 0, z: 0 });
}

#[test]
fn set_duration_rescales_the_time_axis() {
    let mut clip = slide_clip(false);
    let before_mid = clip.sample(0, 1_000_000).unwrap();
    clip.set_duration(1_000_000).unwrap();
    // half the new duration samples like half the native duration
    assert_eq!(clip.sample(0, 500_000).unwrap(), before_mid);
    // the full new duration reaches the last keyframe
    assert_eq!(
        clip.sample(0, 1_000_000).unwrap().translation,
        Vec3 { x: 1_000_000, y: 0, z: 0 }
    );
}

#[test]
fn set_duration_rejects_non_positive() {
    let mut clip = slide_clip(false);
    assert_eq!(clip.set_duration(0), Err(AnimError::InvalidDuration));
    assert_eq!(clip.set_duration(-5), Err(AnimError::InvalidDuration));
    // the clip is unchanged and still samples
    assert_eq!(
        clip.sample(0, 1_000_000).unwrap().translation,
        Vec3 { x: 500_000, y: 0, z: 0 }
    );
}

#[test]
fn construction_rejects_bad_durations_and_tracks() {
    let skeleton = one_joint_skeleton();
    let r = AnimationClip::<QVTransform>::new(vec![vec![]], &skeleton, 0, false);
    assert_eq!(r.err(), Some(AnimError::InvalidDuration));
    // one track too many
    let r = AnimationClip::<QVTransform>::new(vec![vec![], vec![]], &skeleton, 1_000_000, false);
    assert_eq!(r.err(), Some(AnimError::IndexError));
    // keyframe times must increase strictly
    let tracks = vec![vec![key(500_000, 0), key(500_000, 1)]];
    let r = AnimationClip::new(tracks, &skeleton, 1_000_000, false);
    assert_eq!(r.err(), Some(AnimError::IndexError));
    // keyframe times must lie within the duration
    let tracks = vec![vec![key(2_000_000, 0)]];
    let r = AnimationClip::new(tracks, &skeleton, 1_000_000, false);
    assert_eq!(r.err(), Some(AnimError::IndexError));
}

#[test]
fn sample_rejects_out_of_range_joint() {
    let clip = slide_clip(false);
    assert_eq!(clip.sample(1, 0).err(), Some(AnimError::IndexError));
}

#[test]
fn skeleton_rejects_forward_parents() {
    let joints = vec![
        Joint {
            name: "a".to_string(),
            parent: Some(1),
            bind_pose: QVTransform::identity(),
        },
        Joint { name: "b".to_string(), parent: None, bind_pose: QVTransform::identity() },
    ];
    let r = Skeleton::new(joints);
    assert_eq!(r.err(), Some(AnimError::MalformedSkeleton));
}

#[test]
fn skeleton_rejects_out_of_range_bind_pose() {
    let joints = vec![Joint {
        name: "a".to_string(),
        parent: None,
        bind_pose: QVTransform {
            scale: FX_ONE,
            rotation: Quat { w: 2 * FX_ONE, x: 0, y: 0, z: 0 },
            translation: Vec3 { x: 0, y: 0, z: 0 },
        },
    }];
    let r = Skeleton::new(joints);
    assert_eq!(r.err(), Some(AnimError::MalformedSkeleton));
}

#[test]
fn skeleton_joint_lookup() {
    let skeleton = one_joint_skeleton();
    assert_eq!(skeleton.joint_count(), 1);
    assert!(skeleton.joint(0).is_ok());
    assert_eq!(skeleton.joint(1).err(), Some(AnimError::IndexError));
    assert_eq!(skeleton.parent_of(0), None);
}
