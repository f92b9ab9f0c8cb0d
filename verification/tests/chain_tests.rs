use ik_satisficer::chain::{
    ChainError, FabrikChain, KinematicsMode, MotionHeuristics, PoseDiscrepancy,
};
use ik_satisficer::fixed::{dist_fix, Vec3Fix, PI_FIX, SCALE};

fn v(x: i64, y: i64, z: i64) -> Vec3Fix {
    Vec3Fix::new(x * SCALE, y * SCALE, z * SCALE)
}

fn line_chain(n: usize) -> FabrikChain {
    let mut joints = Vec::new();
    for i in 0..n {
        joints.push(Vec3Fix::new(i as i64 * SCALE, 0, 0));
    }
    FabrikChain::new(joints, MotionHeuristics::new(Vec::new(), Vec::new()))
}

#[test]
fn test_initialize_lengths() {
    let joints = vec![v(0, 0, 0), v(1, 0, 0), v(2, 0, 0)];
    let motion_heuristics = MotionHeuristics::new(Vec::new(), Vec::new());
    let chain = FabrikChain::new(joints, motion_heuristics);
    assert_eq!(chain.lengths, vec![SCALE, SCALE]);
}

#[test]
fn length_invariance_after_solve() {
    // For several iteration counts the segment lengths derived at
    // construction are preserved within a 1e-4 tolerance (100 units).
    for iterations in [0usize, 1, 3, 10] {
        let mut chain = line_chain(4);
        chain.targets.push((3, v(1, 2, 0)));
        let mut mode = KinematicsMode::InverseKinematics;
        let lengths = chain.lengths.clone();
        chain
            .solve(iterations, PoseDiscrepancy::WithinTolerance, &mut mode, 1_000_000)
            .unwrap();
        for i in 0..lengths.len() {
            let d = dist_fix(chain.joints[i], chain.joints[i + 1]);
            assert!((d - lengths[i]).abs() <= 100, "length {} drifted: {}", i, d);
        }
    }
}

#[test]
fn reachability_convergence() {
    // Five colinear joints spaced unit length apart, target within total
    // reach: after ten iterations the end effector lands within 1e-2 of
    // the target.
    let mut chain = line_chain(5);
    let target = v(2, 2, 0);
    chain.targets.push((4, target));
    chain.lock_ground = false;
    let mut mode = KinematicsMode::InverseKinematics;
    chain
        .solve(10, PoseDiscrepancy::WithinTolerance, &mut mode, 1_000_000)
        .unwrap();
    let ee = *chain.joints.last().unwrap();
    assert!(dist_fix(ee, target) <= SCALE / 100, "end effector missed the target");
}

#[test]
fn ground_lock_pins_root() {
    let mut chain = line_chain(4);
    assert!(chain.lock_ground);
    for target in [v(3, 1, 0), v(-2, 2, 2), v(0, 5, 0)] {
        chain.targets.clear();
        chain.targets.push((3, target));
        let mut mode = KinematicsMode::InverseKinematics;
        chain
            .solve(10, PoseDiscrepancy::WithinTolerance, &mut mode, 1_000_000)
            .unwrap();
        assert_eq!(chain.joints[0], Vec3Fix::new(0, 0, 0));
    }
}

#[test]
fn reset_restores_construction_state() {
    let mut chain = line_chain(4);
    let fresh = line_chain(4);
    chain.targets.push((3, v(0, 3, 0)));
    let mut mode = KinematicsMode::InverseKinematics;
    chain
        .solve(10, PoseDiscrepancy::WithinTolerance, &mut mode, 1_000_000)
        .unwrap();
    chain
        .solve(10, PoseDiscrepancy::WithinTolerance, &mut mode, 2_000_000)
        .unwrap();
    assert_ne!(chain.joints, fresh.joints);
    chain.reset();
    assert_eq!(chain.joints, fresh.joints);
    assert_eq!(chain.lengths, fresh.lengths);
    assert_eq!(chain.angles, fresh.angles);
    assert_eq!(chain.prev_angles, fresh.prev_angles);
    assert_eq!(chain.angular_velocities, fresh.angular_velocities);
    assert!(chain.targets.is_empty());
    assert_eq!(chain.prev_time, None);
}

#[test]
fn reset_twice_equals_reset_once() {
    let mut chain = line_chain(4);
    chain.targets.push((3, v(0, 3, 0)));
    let mut mode = KinematicsMode::InverseKinematics;
    chain
        .solve(10, PoseDiscrepancy::WithinTolerance, &mut mode, 1_000_000)
        .unwrap();
    chain.reset();
    let joints_once = chain.joints.clone();
    let angles_once = chain.angles.clone();
    let prev_once = chain.prev_angles.clone();
    let vel_once = chain.angular_velocities.clone();
    let transforms_once = chain.segment_transforms.clone();
    let time_once = chain.prev_time;
    chain.reset();
    assert_eq!(chain.joints, joints_once);
    assert_eq!(chain.angles, angles_once);
    assert_eq!(chain.prev_angles, prev_once);
    assert_eq!(chain.angular_velocities, vel_once);
    assert_eq!(chain.segment_transforms, transforms_once);
    assert_eq!(chain.prev_time, time_once);
}

#[test]
fn angle_array_shape() {
    for n in [1usize, 2, 3, 5, 8] {
        let mut chain = line_chain(n);
        assert_eq!(chain.angles.len(), n);
        if n >= 1 {
            assert_eq!(chain.angles[0], PI_FIX);
            assert_eq!(chain.angles[n - 1], PI_FIX);
        }
        if n >= 1 {
            chain.targets.push((n - 1, v(1, 1, 1)));
            let mut mode = KinematicsMode::InverseKinematics;
            chain
                .solve(5, PoseDiscrepancy::WithinTolerance, &mut mode, 1_000_000)
                .unwrap();
            assert_eq!(chain.angles.len(), n);
            assert_eq!(chain.angles[0], PI_FIX);
            assert_eq!(chain.angles[n - 1], PI_FIX);
        }
    }
}

#[test]
fn scenario_a_unreachable_target() {
    // Three joints on the x-axis, unreachable target at (3,0,0), ground
    // lock on: the chain extends fully toward the target with its root
    // pinned and unit lengths preserved.
    let mut chain = line_chain(3);
    chain.targets.push((2, v(3, 0, 0)));
    let mut mode = KinematicsMode::InverseKinematics;
    chain
        .solve(10, PoseDiscrepancy::WithinTolerance, &mut mode, 1_000_000)
        .unwrap();
    assert_eq!(chain.joints[0], Vec3Fix::new(0, 0, 0));
    let tol = 100;
    assert!((chain.joints[1].x - SCALE).abs() <= tol);
    assert!(chain.joints[1].y.abs() <= tol && chain.joints[1].z.abs() <= tol);
    assert!((chain.joints[2].x - 2 * SCALE).abs() <= tol);
    assert!(chain.joints[2].y.abs() <= tol && chain.joints[2].z.abs() <= tol);
    for i in 0..2 {
        let d = dist_fix(chain.joints[i], chain.joints[i + 1]);
        assert!((d - SCALE).abs() <= tol);
    }
}

#[test]
fn scenario_b_interior_pin() {
    // Five evenly spaced joints, a pinned target placed on interior joint
    // index 2, end effector unconstrained: the pinned joint matches its
    // target and its two segments keep their lengths.
    let mut chain = line_chain(5);
    let pinned = v(2, 0, 0);
    chain.targets.push((2, pinned));
    let mut mode = KinematicsMode::InverseKinematics;
    chain
        .solve(10, PoseDiscrepancy::WithinTolerance, &mut mode, 1_000_000)
        .unwrap();
    let tol = 100;
    assert!(dist_fix(chain.joints[2], pinned) <= tol);
    assert!((dist_fix(chain.joints[1], chain.joints[2]) - SCALE).abs() <= tol);
    assert!((dist_fix(chain.joints[2], chain.joints[3]) - SCALE).abs() <= tol);
}

#[test]
fn degenerate_coincident_joints() {
    // A zero-length segment must never poison later frames: every
    // coordinate stays a plain bounded integer over repeated solves.
    let joints = vec![v(0, 0, 0), v(0, 0, 0), v(1, 0, 0)];
    let mut chain = FabrikChain::new(joints, MotionHeuristics::new(Vec::new(), Vec::new()));
    assert_eq!(chain.lengths[0], 0);
    chain.targets.push((2, v(0, 2, 0)));
    let mut mode = KinematicsMode::InverseKinematics;
    for t in 1..5u64 {
        chain
            .solve(10, PoseDiscrepancy::WithinTolerance, &mut mode, t * 1_000_000)
            .unwrap();
    }
    let bound = 100 * SCALE;
    for j in &chain.joints {
        assert!(j.x.abs() <= bound && j.y.abs() <= bound && j.z.abs() <= bound);
    }
}

#[test]
fn empty_chain_errors() {
    let mut chain = FabrikChain::new(Vec::new(), MotionHeuristics::new(Vec::new(), Vec::new()));
    assert_eq!(chain.get_ee(), Err(ChainError::EmptyChain));
    let mut mode = KinematicsMode::InverseKinematics;
    let r = chain.solve(3, PoseDiscrepancy::WithinTolerance, &mut mode, 1_000_000);
    assert_eq!(r, Err(ChainError::EmptyChain));
}

#[test]
fn unsupported_discrepancy_errors() {
    let mut chain = line_chain(3);
    let joints_before = chain.joints.clone();
    let mut mode = KinematicsMode::InverseKinematics;
    let r = chain.solve(3, PoseDiscrepancy::SevereDivergence, &mut mode, 1_000_000);
    assert_eq!(r, Err(ChainError::UnsupportedDiscrepancy));
    let r = chain.solve(3, PoseDiscrepancy::EnvironmentalCompensation, &mut mode, 1_000_000);
    assert_eq!(r, Err(ChainError::UnsupportedDiscrepancy));
    assert_eq!(chain.joints, joints_before);
    assert!(matches!(mode, KinematicsMode::InverseKinematics));
}

#[test]
fn get_ee_returns_last_joint() {
    let chain = line_chain(4);
    assert_eq!(chain.get_ee(), Ok(Vec3Fix::new(3 * SCALE, 0, 0)));
}

#[test]
fn mild_divergence_returns_corrections() {
    let mut chain = line_chain(3);
    chain.finalize();
    // move the live chain away from the fantasy copy
    chain.targets.push((2, v(0, 2, 0)));
    let mut mode = KinematicsMode::InverseKinematics;
    chain
        .solve(10, PoseDiscrepancy::WithinTolerance, &mut mode, 1_000_000)
        .unwrap();
    let r = chain.solve(10, PoseDiscrepancy::MildDivergence, &mut mode, 2_000_000);
    let q = r.unwrap().unwrap();
    assert_eq!(q.len(), chain.joints.len());
    assert!(matches!(mode, KinematicsMode::ForwardKinematics));
    // the end joint diverged, so its correction quantity is non-zero
    assert!(q[2] != Vec3Fix::new(0, 0, 0));
}

#[test]
fn finalize_captures_current_state() {
    let mut chain = line_chain(3);
    chain.targets.push((2, v(1, 1, 0)));
    let mut mode = KinematicsMode::InverseKinematics;
    chain
        .solve(5, PoseDiscrepancy::WithinTolerance, &mut mode, 1_000_000)
        .unwrap();
    chain.finalize();
    let fantasy = chain.fantasy_limb.as_ref().unwrap();
    assert_eq!(fantasy.joints, chain.joints);
    assert_eq!(fantasy.lengths, chain.lengths);
    assert_eq!(fantasy.angles, chain.angles);
}

#[test]
fn first_velocity_sample_is_skipped() {
    let mut chain = line_chain(4);
    chain.targets.push((3, v(0, 3, 0)));
    let mut mode = KinematicsMode::InverseKinematics;
    chain
        .solve(10, PoseDiscrepancy::WithinTolerance, &mut mode, 5_000_000)
        .unwrap();
    // no previous clock sample at construction: explicitly unset
    assert!(chain.angular_velocities.is_empty());
    assert_eq!(chain.prev_time, Some(5_000_000));
    chain.targets.clear();
    chain.targets.push((3, v(1, 1, 0)));
    chain
        .solve(10, PoseDiscrepancy::WithinTolerance, &mut mode, 6_000_000)
        .unwrap();
    // second recompute has a full set of per-joint samples
    assert_eq!(chain.angular_velocities.len(), chain.joints.len());
    assert!(chain.angular_velocities.iter().any(|&w| w != 0));
}

#[test]
fn segment_transform_frame() {
    let joints = vec![v(0, 0, 0), v(2, 0, 0)];
    let chain = FabrikChain::new(joints, MotionHeuristics::new(Vec::new(), Vec::new()));
    assert_eq!(chain.segment_transforms.len(), chain.lengths.len());
    let t = chain.segment_transforms[0];
    assert_eq!(t.midpoint, Vec3Fix::new(SCALE, 0, 0));
    // primary axis points from the later joint to the earlier one; the
    // frame is the quarter-twisted basis
    assert_eq!(t.axis_y, Vec3Fix::new(SCALE, 0, 0));
    assert_eq!(t.axis_x, Vec3Fix::new(0, 0, -SCALE));
    assert_eq!(t.axis_z, Vec3Fix::new(0, -SCALE, 0));
}

#[test]
fn interior_angle_values() {
    // right angle
    let joints = vec![v(0, 0, 0), v(1, 0, 0), v(1, 1, 0)];
    let mut chain = FabrikChain::new(joints, MotionHeuristics::new(Vec::new(), Vec::new()));
    let mut mode = KinematicsMode::InverseKinematics;
    chain
        .solve(0, PoseDiscrepancy::WithinTolerance, &mut mode, 1_000_000)
        .unwrap();
    let right = chain.angles[1];
    assert!((right - 1_570_796).abs() <= 500, "right angle read as {}", right);
    // straight line
    let joints = vec![v(0, 0, 0), v(1, 0, 0), v(2, 0, 0)];
    let mut chain = FabrikChain::new(joints, MotionHeuristics::new(Vec::new(), Vec::new()));
    chain
        .solve(0, PoseDiscrepancy::WithinTolerance, &mut mode, 1_000_000)
        .unwrap();
    let straight = chain.angles[1];
    assert!((straight - PI_FIX).abs() <= 500, "straight angle read as {}", straight);
}
