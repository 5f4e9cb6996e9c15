use skeletal_anim::blend_tree::{BlendTree, BlendTreeDef, NodeDef};
use skeletal_anim::clip::{AnimationClip, Keyframe};
use skeletal_anim::controller::AnimationController;
use skeletal_anim::dualquat::DualQuaternion;
use skeletal_anim::errors::AnimError;
use skeletal_anim::fixed::FX_ONE;
use skeletal_anim::params::ParamSet;
use skeletal_anim::pose::compose;
use skeletal_anim::qv::QVTransform;
use skeletal_anim::skeleton::{Joint, Skeleton};
use skeletal_anim::transform::Transform;
use skeletal_anim::vec3::Vec3;

fn chain_skeleton_qv() -> Skeleton<QVTransform> {
    let joints = vec![
        Joint { name: "root".to_string(), parent: None, bind_pose: QVTransform::identity() },
        Joint { name: "mid".to_string(), parent: Some(0), bind_pose: QVTransform::identity() },
        Joint { name: "tip".to_string(), parent: Some(1), bind_pose: QVTransform::identity() },
    ];
    Skeleton::new(joints).unwrap()
}

fn chain_skeleton_dq() -> Skeleton<DualQuaternion> {
    let joints = vec![
        Joint { name: "root".to_string(), parent: None, bind_pose: DualQuaternion::identity() },
        Joint { name: "mid".to_string(), parent: Some(0), bind_pose: DualQuaternion::identity() },
        Joint { name: "tip".to_string(), parent: Some(1), bind_pose: DualQuaternion::identity() },
    ];
    Skeleton::new(joints).unwrap()
}

#[test]
fn compose_three_joint_chain_of_translations() {
    let skeleton = chain_skeleton_qv();
    let local = vec![
        QVTransform::from_translation(&Vec3 { x: 1_000_000, y: 0, z: 0 }),
        QVTransform::from_translation(&Vec3 { x: 0, y: 1_000_000, z: 0 }),
        QVTransform::from_translation(&Vec3 { x: 0, y: 0, z: 1_000_000 }),
    ];
    let mut out = vec![QVTransform::identity(); 3];
    compose(&skeleton, &local, &mut out).unwrap();
    assert_eq!(out[0].translation, Vec3 { x: 1_000_000, y: 0, z: 0 });
    assert_eq!(out[1].translation, Vec3 { x: 1_000_000, y: 1_000_000, z: 0 });
    assert_eq!(out[2].translation, Vec3 { x: 1_000_000, y: 1_000_000, z: 1_000_000 });
}

#[test]
fn compose_three_joint_chain_dual_quaternion() {
    let skeleton = chain_skeleton_dq();
    let local = vec![
        DualQuaternion::from_translation(&Vec3 { x: 1_000_000, y: 0, z: 0 }),
        DualQuaternion::from_translation(&Vec3 { x: 0, y: 1_000_000, z: 0 }),
        DualQuaternion::from_translation(&Vec3 { x: 0, y: 0, z: 1_000_000 }),
    ];
    let mut out = vec![DualQuaternion::identity(); 3];
    compose(&skeleton, &local, &mut out).unwrap();
    assert_eq!(out[0].translation(), Vec3 { x: 1_000_000, y: 0, z: 0 });
    assert_eq!(out[1].translation(), Vec3 { x: 1_000_000, y: 1_000_000, z: 0 });
    assert_eq!(out[2].translation(), Vec3 { x: 1_000_000, y: 1_000_000, z: 1_000_000 });
}

#[test]
fn compose_rejects_wrong_lengths() {
    let skeleton = chain_skeleton_qv();
    let local = vec![QVTransform::identity(); 2];
    let mut out = vec![QVTransform::identity(); 3];
    assert_eq!(compose(&skeleton, &local, &mut out), Err(AnimError::IndexError));
    let local = vec![QVTransform::identity(); 3];
    let mut out = vec![QVTransform::identity(); 2];
    assert_eq!(compose(&skeleton, &local, &mut out), Err(AnimError::IndexError));
}

/// One joint sliding from x = 0 to x = 1 over two seconds.
fn slide_controller() -> AnimationController<QVTransform> {
    let joints = vec![Joint {
        name: "root".to_string(),
        parent: None,
        bind_pose: QVTransform::identity(),
    }];
    let skeleton = Skeleton::new(joints).unwrap();
    let tracks = vec![vec![
        Keyframe { time: 0, transform: QVTransform::from_translation(&Vec3 { x: 0, y: 0, z: 0 }) },
        Keyframe {
            time: 2_000_000,
            transform: QVTransform::from_translation(&Vec3 { x: 1_000_000, y: 0, z: 0 }),
        },
    ]];
    let clip = AnimationClip::new(tracks, &skeleton, 2_000_000, true).unwrap();
    let def = BlendTreeDef { nodes: vec![NodeDef::ClipNode { clip: 0, start_time: 0 }], root: 0 };
    let params = ParamSet::new();
    let tree = BlendTree::new(&def, vec![clip], &skeleton, &params).unwrap();
    AnimationController::new(skeleton, tree, params).unwrap()
}

#[test]
fn update_advances_the_clock_by_speed() {
    let mut c = slide_controller();
    assert_eq!(c.time(), 0);
    c.update(500_000);
    assert_eq!(c.time(), 500_000);
    c.set_playback_speed(2 * FX_ONE);
    c.update(500_000);
    assert_eq!(c.time(), 1_500_000);
    c.set_playback_speed(-FX_ONE);
    c.update(1_000_000);
    assert_eq!(c.time(), 500_000);
}

#[test]
fn output_pose_samples_at_the_clock() {
    let mut c = slide_controller();
    c.update(1_000_000);
    let mut out = vec![QVTransform::identity(); 1];
    c.get_output_pose(0, &mut out).unwrap();
    assert_eq!(out[0].translation, Vec3 { x: 500_000, y: 0, z: 0 });
}

#[test]
fn output_pose_applies_the_partial_render_step() {
    let mut c = slide_controller();
    c.update(1_000_000);
    let mut out = vec![QVTransform::identity(); 1];
    c.get_output_pose(500_000, &mut out).unwrap();
    assert_eq!(out[0].translation, Vec3 { x: 750_000, y: 0, z: 0 });
    // the partial step is not persisted
    assert_eq!(c.time(), 1_000_000);
}

#[test]
fn backward_playback_wraps_a_looping_clip() {
    let mut c = slide_controller();
    c.set_playback_speed(-FX_ONE);
    c.update(500_000);
    assert_eq!(c.time(), -500_000);
    let mut out = vec![QVTransform::identity(); 1];
    c.get_output_pose(0, &mut out).unwrap();
    // -0.5 s wraps to 1.5 s of the two-second loop
    assert_eq!(out[0].translation, Vec3 { x: 750_000, y: 0, z: 0 });
}

#[test]
fn unknown_parameter_is_reported_loudly() {
    let mut c = slide_controller();
    let r = c.set_param_value(&"missing".to_string(), 1);
    assert_eq!(r, Err(AnimError::UnknownParameter));
    assert_eq!(
        c.get_param_value(&"missing".to_string()).err(),
        Some(AnimError::UnknownParameter)
    );
}

#[test]
fn parameters_read_back_exactly() {
    let joints = vec![Joint {
        name: "root".to_string(),
        parent: None,
        bind_pose: QVTransform::identity(),
    }];
    let skeleton = Skeleton::new(joints).unwrap();
    let tracks = vec![vec![]];
    let clip = AnimationClip::new(tracks, &skeleton, 1_000_000, true).unwrap();
    let def = BlendTreeDef { nodes: vec![NodeDef::ClipNode { clip: 0, start_time: 0 }], root: 0 };
    let mut params = ParamSet::new();
    params.declare("speed".to_string(), 0);
    let tree = BlendTree::new(&def, vec![clip], &skeleton, &params).unwrap();
    let mut c = AnimationController::new(skeleton, tree, params).unwrap();
    c.set_param_value(&"speed".to_string(), 700_000).unwrap();
    assert_eq!(c.get_param_value(&"speed".to_string()).unwrap(), 700_000);
    assert_eq!(c.get_parameters().values[0], 700_000);
}

#[test]
fn controller_rejects_mismatched_tree() {
    let skeleton3 = chain_skeleton_qv();
    let joints = vec![Joint {
        name: "root".to_string(),
        parent: None,
        bind_pose: QVTransform::identity(),
    }];
    let skeleton1 = Skeleton::new(joints).unwrap();
    let tracks = vec![vec![]];
    let clip = AnimationClip::new(tracks, &skeleton1, 1_000_000, true).unwrap();
    let def = BlendTreeDef { nodes: vec![NodeDef::ClipNode { clip: 0, start_time: 0 }], root: 0 };
    let params = ParamSet::new();
    let tree = BlendTree::new(&def, vec![clip], &skeleton1, &params).unwrap();
    let r = AnimationController::new(skeleton3, tree, ParamSet::new());
    assert_eq!(r.err(), Some(AnimError::IndexError));
}

#[test]
fn parent_links_cover_every_non_root_joint() {
    let skeleton = chain_skeleton_qv();
    let links = skeleton.parent_links();
    assert_eq!(links, vec![(0, 1), (1, 2)]);
}

#[test]
fn error_names_are_stable() {
    assert_eq!(AnimError::MalformedSkeleton.name(), "malformed skeleton");
    assert_eq!(AnimError::InvalidDuration.name(), "invalid duration");
    assert_eq!(AnimError::UnknownParameter.name(), "unknown parameter");
    assert_eq!(AnimError::IndexError.name(), "index error");
}
