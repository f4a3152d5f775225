//! The camera's rotations, projections and depths.

use iframe::warp::config::WarpConfig;
use iframe::warp::demo::{compute_mvp, Row};
use iframe::warp::presenter::{FlowConstants, Presenter};
use iframe::warp::math::{
    deg_to_rad, linearize_depth, project_view_point, tan_half_y, unproject_uv, Mat3, Vec2, Vec3,
    ViewPoint, WarpConstants,
};

fn fx(v: f64) -> i64 {
    (v * 1e6).round() as i64
}

fn near_to(a: i64, b: f64, tolerance: f64) -> bool {
    (a as f64 / 1e6 - b).abs() < tolerance
}

fn rotation(yaw: f64, pitch: f64) -> Mat3 {
    let (sy, cy) = yaw.sin_cos();
    let (sp, cp) = pitch.sin_cos();
    Mat3::from_yaw_pitch(fx(sy), fx(cy), fx(sp), fx(cp))
}

#[test]
fn test_identity_matrix_roundtrip() {
    let ident = Mat3::identity();
    let p = Vec3::new(fx(1.0), fx(2.0), fx(3.0));
    let rotated = ident.transform_vec3(p);
    assert_eq!(p, rotated);
}

#[test]
fn test_unproject_project_roundtrip() {
    let fov = 90.0f64.to_radians();
    let aspect = fx(16.0 / 9.0);
    let tan = fx((fov * 0.5).tan());
    let u_orig = 0.75;
    let v_orig = 0.35;
    let z_orig = 10.0;

    let p_view = unproject_uv(fx(u_orig), fx(v_orig), fx(z_orig), tan, aspect);
    assert!(near_to(p_view.z, z_orig, 1e-4));

    let uv = project_view_point(p_view, tan, aspect).expect("Must project in front");
    assert!(near_to(uv.x, u_orig, 1e-4));
    assert!(near_to(uv.y, v_orig, 1e-4));
}

#[test]
fn test_rotation_matrix_inverse() {
    let rot = rotation(0.15, -0.08);
    let inv = rot.inverse();
    let p = Vec3::new(fx(5.0), fx(-3.0), fx(12.0));
    let transformed = rot.transform_vec3(p);
    let restored = inv.transform_vec3(transformed);
    assert!(near_to(restored.x, 5.0, 1e-4));
    assert!(near_to(restored.y, -3.0, 1e-4));
    assert!(near_to(restored.z, 12.0, 1e-4));
}

#[test]
fn test_depth_linearization() {
    let near = 0.1;
    let far = 100.0;
    let z_lin_near = linearize_depth(fx(0.0), fx(near), fx(far), false);
    let z_lin_far = linearize_depth(fx(1.0), fx(near), fx(far), false);
    assert!(near_to(z_lin_near, near, 1e-2));
    assert!(near_to(z_lin_far, far, 1e-2));

    let z_rev_near = linearize_depth(fx(1.0), fx(near), fx(far), true);
    let z_rev_far = linearize_depth(fx(0.0), fx(near), fx(far), true);
    assert!(near_to(z_rev_near, near, 1e-2));
    assert!(near_to(z_rev_far, far, 1e-2));
}

#[test]
fn depths_have_exact_values() {
    // 0.1 * 100 / (100 - 0.5 * 99.9) = 0.19980019...
    assert_eq!(linearize_depth(500_000, 100_000, 100_000_000, false), 199_800);
    assert_eq!(linearize_depth(250_000, 100_000, 100_000_000, true), 400_000);
    // Beyond the ends the ends count.
    assert_eq!(linearize_depth(-7, 100_000, 100_000_000, false), 100_000);
    assert_eq!(linearize_depth(7_000_000, 100_000, 100_000_000, false), 100_000_000);
    // Nothing left to divide by.
    assert_eq!(linearize_depth(1_000_000, 0, 5_000_000, false), 5_000_000);
    // Depths grow with the value of the buffer.
    let mut last = 0;
    for z in 0..=100 {
        let d = linearize_depth(z * 10_000, 100_000, 1_000_000_000, false);
        assert!(d >= last);
        last = d;
    }
}

#[test]
fn rotations_turn_vectors() {
    assert_eq!(rotation(0.0, 0.0), Mat3::identity());
    // A quarter turn to the side moves what lies ahead to the side.
    let quarter = Mat3::from_yaw_pitch(1_000_000, 0, 0, 1_000_000);
    assert_eq!(quarter.transform_vec3(Vec3::new(0, 0, 7)), Vec3::new(7, 0, 0));
    assert_eq!(quarter.inverse().inverse(), quarter);
    let tilted = Mat3::from_yaw_pitch(600_000, 800_000, 0, 1_000_000);
    assert_eq!(
        tilted.transform_vec3(Vec3::new(1_000_000, 2_000_000, 3_000_000)),
        Vec3::new(2_600_000, 2_000_000, 1_800_000)
    );
    assert_eq!(Vec3::new(1_000_000, 2_000_000, 3_000_000).dot(Vec3::new(4, 5, 6)), 32);
    let far = Vec3::new(i64::MIN, i64::MIN, i64::MIN);
    assert_eq!(far.dot(far), i64::MAX);
    assert_eq!(far.dot(Vec3::new(i64::MAX, i64::MAX, i64::MAX)), i64::MIN);
}

#[test]
fn projections_have_exact_values() {
    let p = unproject_uv(750_000, 250_000, 10_000_000, 1_000_000, 2_000_000);
    assert_eq!(p, ViewPoint { x: 5_000_000_000_000, y: 2_500_000_000_000, z: 10_000_000 });
    assert_eq!(p.to_vec3(), Vec3::new(5_000_000, 2_500_000, 10_000_000));
    assert_eq!(
        project_view_point(p, 1_000_000, 2_000_000),
        Some(Vec2 { x: 750_000, y: 250_000 })
    );
    let near = ViewPoint::from_vec3(Vec3::new(1, 1, 100));
    assert_eq!(project_view_point(near, 1_000_000, 1_000_000), None);
    let behind = ViewPoint::from_vec3(Vec3::new(1, 1, -5_000_000));
    assert_eq!(project_view_point(behind, 1_000_000, 1_000_000), None);
    // A view without width.
    assert_eq!(
        project_view_point(ViewPoint::from_vec3(Vec3::new(5, 5, 1_000_000)), 0, 1_000_000),
        Some(Vec2 { x: i64::MAX, y: i64::MIN })
    );
    assert_eq!(tan_half_y(1_000_000, 0), 1_000_000_000);
    assert_eq!(tan_half_y(1_000_000, 1_600_000), 625_000);
    assert_eq!(deg_to_rad(180_000_000), 3_141_593);
    assert_eq!(deg_to_rad(-90_000_000), -1_570_796);
}

#[test]
fn shader_is_told_the_settings() {
    let mut cfg = WarpConfig::default();
    cfg.is_reverse_z = true;
    cfg.fps_multiplier = 3;
    let c = WarpConstants::new(1920, 1080, Mat3::identity(), 1_000_000, &cfg).unwrap();
    assert_eq!((c.width, c.height), (1920, 1080));
    assert_eq!(c.tan_half_fov_x, 1_000_000);
    assert_eq!(c.tan_half_fov_y, 562_500);
    assert_eq!((c.is_reverse_z, c.debug_depth), (1, 0));
    assert_eq!(c.fps_multiplier, 3);
    assert_eq!(c.near_plane, cfg.depth_near);
    assert!(WarpConstants::new(0, 1080, Mat3::identity(), 1_000_000, &cfg).is_none());
    assert!(WarpConstants::new(1920, 0, Mat3::identity(), 1_000_000, &cfg).is_none());
}

#[test]
fn the_scene_is_put_on_the_screen() {
    // Not turned, on a screen of 16 to 9.
    let m = compute_mvp(0, 1_000_000, 0, 1_777_778);
    assert_eq!(m.r0, Row { x: 562_500, y: 0, z: 0, w: 0 });
    assert_eq!(m.r1, Row { x: 0, y: 1_000_000, z: 0, w: 0 });
    assert_eq!(m.r2, Row { x: 0, y: 0, z: 1_001_001, w: 1_000_000 });
    assert_eq!(m.r3, Row { x: 0, y: 0, z: 2_899_900, w: 3_000_000 });
    let turned = compute_mvp(600_000, 800_000, -500_000, 2_000_000);
    assert_eq!(turned.r0, Row { x: 400_000, y: 0, z: 600_601, w: 600_000 });
    assert_eq!(turned.r1.z, -250_000);
    assert_eq!(turned.r2, Row { x: -300_000, y: 0, z: 800_801, w: 800_000 });
}

#[test]
fn frames_in_between_are_told_the_figures() {
    let mut p = Presenter::start(1280, 720, 0);
    p.hud_key(true);
    p.presented(10_000_000);
    let c = p.synth_constants(500_000, 2, false, 1_700_000, 42);
    assert_eq!((c.width, c.height, c.alpha, c.fps_multiplier), (1280, 720, 500_000, 2));
    assert_eq!((c.debug_flow, c.show_perf_hud), (0, 1));
    assert_eq!(c.sharpening, 1_000_000);
    assert_eq!(c.output_fps, 100_000_000);
    assert_eq!(c.frametime_ms, 10_000_000);
    assert_eq!(c.elapsed_ns, 42);
    assert_eq!(p.synth_constants(0, 1, true, -5, 0).sharpening, 0);
    assert_eq!(p.synth_constants(0, 1, true, 500_000, 0).sharpening, 500_000);
    assert_eq!(
        p.flow_constants(),
        FlowConstants {
            width: 1280,
            height: 720,
            motion_threshold: 1_200_000,
            hud_confidence: 800_000
        }
    );
}

#[test]
fn places_come_back_from_near_and_far() {
    for fov in [0.1f64, 0.5, 1.57, 3.0] {
        let tan = fx((fov * 0.5).tan());
        for aspect in [fx(0.1), fx(16.0 / 9.0), fx(10.0)] {
            for z in [1_001, 1_100, 10_000_000, 999_999_999] {
                for (u, v) in [(0, 0), (755_000, 350_000), (123_457, 999_999), (1_000_000, 1)] {
                    let p = unproject_uv(u, v, z, tan, aspect);
                    assert_eq!(p.z, z);
                    assert_eq!(project_view_point(p, tan, aspect), Some(Vec2 { x: u, y: v }));
                }
            }
        }
    }
    // Out of reach on both sides.
    let p = unproject_uv(i64::MAX, i64::MAX, i64::MAX, i64::MAX, 1_000_000);
    assert_eq!(p.to_vec3(), Vec3::new(i64::MAX, -i64::MAX, i64::MAX));
    assert_eq!(Vec2::new(3, -4), Vec2 { x: 3, y: -4 });
    let v = Vec3::new(-5, 7, 9);
    assert_eq!(ViewPoint::from_vec3(v).to_vec3(), v);
}
