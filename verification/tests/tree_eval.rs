use skeletal_anim::blend_tree::{BlendTree, BlendTreeDef, NodeDef};
use skeletal_anim::clip::{AnimationClip, Keyframe};
use skeletal_anim::errors::AnimError;
use skeletal_anim::fixed::FX_ONE;
use skeletal_anim::params::ParamSet;
use skeletal_anim::qv::QVTransform;
use skeletal_anim::skeleton::{Joint, Skeleton};
use skeletal_anim::transform::Transform;
use skeletal_anim::vec3::Vec3;

fn one_joint_skeleton() -> Skeleton<QVTransform> {
    let joints = vec![Joint {
        name: "root".to_string(),
        parent: None,
        bind_pose: QVTransform::identity(),
    }];
    Skeleton::new(joints).unwrap()
}

/// A clip holding the joint at a constant x offset.
fn constant_clip(skeleton: &Skeleton<QVTransform>, x: i64) -> AnimationClip<QVTransform> {
    let tracks = vec![vec![Keyframe {
        time: 0,
        transform: QVTransform::from_translation(&Vec3 { x, y: 0, z: 0 }),
    }]];
    AnimationClip::new(tracks, skeleton, 1_000_000, true).unwrap()
}

/// Two constant clips blended by the "speed" parameter.
fn speed_blend_tree(params: &ParamSet) -> Result<BlendTree<QVTransform>, AnimError> {
    let skeleton = one_joint_skeleton();
    let clips = vec![constant_clip(&skeleton, 0), constant_clip(&skeleton, 1_000_000)];
    let def = BlendTreeDef {
        nodes: vec![
            NodeDef::ClipNode { clip: 0, start_time: 0 },
            NodeDef::ClipNode { clip: 1, start_time: 0 },
            NodeDef::LerpNode { left: 0, right: 1, param: "speed".to_string() },
        ],
        root: 2,
    };
    BlendTree::new(&def, clips, &skeleton, params)
}

fn params_with_speed(value: i64) -> ParamSet {
    let mut params = ParamSet::new();
    params.declare("speed".to_string(), value);
    params
}

fn eval(tree: &BlendTree<QVTransform>, time: i64, params: &ParamSet) -> Vec<QVTransform> {
    let mut out = vec![QVTransform::identity(); 1];
    tree.get_output_pose(time, params, &mut out).unwrap();
    out
}

#[test]
fn evaluation_is_deterministic() {
    let params = params_with_speed(300_000);
    let tree = speed_blend_tree(&params).unwrap();
    let a = eval(&tree, 123_456, &params);
    let b = eval(&tree, 123_456, &params);
    assert_eq!(a, b);
}

#[test]
fn lerp_at_zero_returns_first_child() {
    let params = params_with_speed(0);
    let tree = speed_blend_tree(&params).unwrap();
    let pose = eval(&tree, 0, &params);
    assert_eq!(pose[0].translation, Vec3 { x: 0, y: 0, z: 0 });
}

#[test]
fn lerp_at_one_returns_second_child() {
    let params = params_with_speed(FX_ONE);
    let tree = speed_blend_tree(&params).unwrap();
    let pose = eval(&tree, 0, &params);
    assert_eq!(pose[0].translation, Vec3 { x: 1_000_000, y: 0, z: 0 });
}

#[test]
fn parameter_value_round_trips_through_evaluation() {
    let mut params = params_with_speed(0);
    params.set_value(&"speed".to_string(), 700_000).unwrap();
    assert_eq!(params.value_of(&"speed".to_string()).unwrap(), 700_000);
    let tree = speed_blend_tree(&params).unwrap();
    let pose = eval(&tree, 0, &params);
    // blending 0 and one unit by exactly 0.7 gives exactly 0.7 units
    assert_eq!(pose[0].translation, Vec3 { x: 700_000, y: 0, z: 0 });
}

#[test]
fn parameter_outside_range_is_clamped() {
    let params = params_with_speed(2_000_000);
    let tree = speed_blend_tree(&params).unwrap();
    let pose = eval(&tree, 0, &params);
    assert_eq!(pose[0].translation, Vec3 { x: 1_000_000, y: 0, z: 0 });
}

#[test]
fn missing_parameter_fails_tree_construction() {
    let params = ParamSet::new();
    let skeleton = one_joint_skeleton();
    let clips = vec![constant_clip(&skeleton, 0)];
    let def = BlendTreeDef {
        nodes: vec![
            NodeDef::ClipNode { clip: 0, start_time: 0 },
            NodeDef::ClipNode { clip: 0, start_time: 0 },
            NodeDef::LerpNode { left: 0, right: 1, param: "foo".to_string() },
        ],
        root: 2,
    };
    let r = BlendTree::new(&def, clips, &skeleton, &params);
    assert_eq!(r.err(), Some(AnimError::UnknownParameter));
}

#[test]
fn evaluation_against_shrunk_parameters_fails() {
    let params = params_with_speed(0);
    let tree = speed_blend_tree(&params).unwrap();
    let empty = ParamSet::new();
    let mut out = vec![QVTransform::identity(); 1];
    let r = tree.get_output_pose(0, &empty, &mut out);
    assert_eq!(r, Err(AnimError::UnknownParameter));
}

#[test]
fn wrong_output_length_is_an_index_error() {
    let params = params_with_speed(0);
    let tree = speed_blend_tree(&params).unwrap();
    let mut out: Vec<QVTransform> = Vec::new();
    let r = tree.get_output_pose(0, &params, &mut out);
    assert_eq!(r, Err(AnimError::IndexError));
}

#[test]
fn tree_construction_rejects_bad_structure() {
    let params = params_with_speed(0);
    let skeleton = one_joint_skeleton();
    // a child index at or after its parent
    let def = BlendTreeDef {
        nodes: vec![NodeDef::LerpNode { left: 0, right: 0, param: "speed".to_string() }],
        root: 0,
    };
    let clips = vec![constant_clip(&skeleton, 0)];
    let r = BlendTree::new(&def, clips, &skeleton, &params);
    assert_eq!(r.err(), Some(AnimError::IndexError));
    // a clip index out of range
    let def = BlendTreeDef { nodes: vec![NodeDef::ClipNode { clip: 3, start_time: 0 }], root: 0 };
    let clips = vec![constant_clip(&skeleton, 0)];
    let r = BlendTree::new(&def, clips, &skeleton, &params);
    assert_eq!(r.err(), Some(AnimError::IndexError));
}

#[test]
fn clip_leaf_applies_its_start_time_offset() {
    let params = ParamSet::new();
    let skeleton = one_joint_skeleton();
    // a clip sliding from 0 to one unit over one second
    let tracks = vec![vec![
        Keyframe { time: 0, transform: QVTransform::from_translation(&Vec3 { x: 0, y: 0, z: 0 }) },
        Keyframe {
            time: 1_000_000,
            transform: QVTransform::from_translation(&Vec3 { x: 1_000_000, y: 0, z: 0 }),
        },
    ]];
    let clip = AnimationClip::new(tracks, &skeleton, 1_000_000, false).unwrap();
    let def = BlendTreeDef {
        nodes: vec![NodeDef::ClipNode { clip: 0, start_time: 250_000 }],
        root: 0,
    };
    let tree = BlendTree::new(&def, vec![clip], &skeleton, &params).unwrap();
    let pose = eval(&tree, 750_000, &params);
    // the leaf samples at 0.75 - 0.25 = 0.5 seconds
    assert_eq!(pose[0].translation, Vec3 { x: 500_000, y: 0, z: 0 });
}
