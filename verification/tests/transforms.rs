use skeletal_anim::dualquat::DualQuaternion;
use skeletal_anim::fixed::FX_ONE;
use skeletal_anim::quat::Quat;
use skeletal_anim::qv::QVTransform;
use skeletal_anim::transform::{FromTransform, Transform};
use skeletal_anim::vec3::Vec3;

fn translation_qv(x: i64, y: i64, z: i64) -> QVTransform {
    QVTransform::from_translation(&Vec3 { x, y, z })
}

#[test]
fn quat_identity_is_unit() {
    let id = Quat::identity();
    assert_eq!(id, Quat { w: FX_ONE, x: 0, y: 0, z: 0 });
    let n = Quat::normalize(&id);
    assert_eq!(n, id);
}

#[test]
fn quat_normalize_scales_to_unit() {
    let q = Quat { w: 2_000_000, x: 0, y: 0, z: 0 };
    assert_eq!(Quat::normalize(&q), Quat::identity());
    let zero = Quat { w: 0, x: 0, y: 0, z: 0 };
    assert_eq!(Quat::normalize(&zero), Quat::identity());
}

#[test]
fn quat_concat_identities() {
    let id = Quat::identity();
    assert_eq!(Quat::concat(&id, &id), id);
    // a quarter turn about z composed with the identity stays itself after
    // renormalization (707107^2 * 2 is just above one, so the components
    // settle at the normalized values)
    let qz = Quat::normalize(&Quat { w: 707_107, x: 0, y: 0, z: 707_107 });
    let back = Quat::concat(&qz, &id);
    assert_eq!(back, Quat::normalize(&qz));
}

#[test]
fn rotate_by_identity_returns_vector() {
    let v = Vec3 { x: 123, y: -456, z: 789 };
    assert_eq!(Quat::rotate_vec(&Quat::identity(), &v), v);
}

#[test]
fn rotate_quarter_turn_about_z() {
    // w = x = 707107/1000000 is within one unit of the exact half-sqrt(2)
    let q = Quat::normalize(&Quat { w: 707_107, x: 0, y: 0, z: 707_107 });
    let v = Vec3 { x: 1_000_000, y: 0, z: 0 };
    let r = Quat::rotate_vec(&q, &v);
    // a quarter turn about z sends +x to +y, up to fixed-point rounding
    assert!(r.x.abs() < 100, "x was {}", r.x);
    assert!((r.y - 1_000_000).abs() < 100, "y was {}", r.y);
    assert_eq!(r.z, 0);
}

#[test]
fn qv_interpolate_endpoints_exact() {
    let a = translation_qv(1_000_000, 0, 0);
    let b = translation_qv(0, 2_000_000, 0);
    assert_eq!(QVTransform::interpolate(&a, &b, 0), a);
    assert_eq!(QVTransform::interpolate(&a, &b, FX_ONE), b);
    let mid = QVTransform::interpolate(&a, &b, 500_000);
    assert_eq!(mid.translation, Vec3 { x: 500_000, y: 1_000_000, z: 0 });
}

#[test]
fn dq_interpolate_endpoints_exact() {
    let a = DualQuaternion::from_translation(&Vec3 { x: 1_000_000, y: 0, z: 0 });
    let b = DualQuaternion::from_translation(&Vec3 { x: 0, y: 2_000_000, z: 0 });
    assert_eq!(DualQuaternion::interpolate(&a, &b, 0), a);
    assert_eq!(DualQuaternion::interpolate(&a, &b, FX_ONE), b);
}

#[test]
fn qv_concat_pure_translations_adds() {
    let a = translation_qv(1_000_000, 0, 0);
    let b = translation_qv(0, 1_000_000, 0);
    let c = QVTransform::concat(&a, &b);
    assert_eq!(c.translation, Vec3 { x: 1_000_000, y: 1_000_000, z: 0 });
    assert_eq!(c.scale, FX_ONE);
    assert_eq!(c.rotation, Quat::identity());
}

#[test]
fn dq_concat_pure_translations_adds() {
    let a = DualQuaternion::from_translation(&Vec3 { x: 1_000_000, y: 0, z: 0 });
    let b = DualQuaternion::from_translation(&Vec3 { x: 0, y: 1_000_000, z: 0 });
    let c = DualQuaternion::concat(&a, &b);
    assert_eq!(c.translation(), Vec3 { x: 1_000_000, y: 1_000_000, z: 0 });
}

#[test]
fn conversion_round_trips_pure_translation() {
    let qv = translation_qv(123_000, -456_000, 789_000);
    let dq: DualQuaternion = DualQuaternion::from_transform(&qv);
    assert_eq!(dq.translation(), qv.translation);
    let back: QVTransform = QVTransform::from_transform(&dq);
    assert_eq!(back.translation, qv.translation);
    assert_eq!(back.rotation, qv.rotation);
}

#[test]
fn identity_transforms_translate_by_zero() {
    let qv = QVTransform::identity();
    assert_eq!(qv.translation(), Vec3 { x: 0, y: 0, z: 0 });
    let dq = DualQuaternion::identity();
    assert_eq!(dq.translation(), Vec3 { x: 0, y: 0, z: 0 });
}
