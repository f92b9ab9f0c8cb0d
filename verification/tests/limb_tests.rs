use ik_satisficer::fixed::{Vec3Fix, SCALE};
use ik_satisficer::limb::{Limb, SolveError};

#[test]
fn test1() {
    let mut limb = Limb::new(3, 3, Vec3Fix::new(800_000, 800_000, 800_000));
    let _ = limb.solve();
}

#[test]
fn new_stacks_unit_segments() {
    let limb = Limb::new(3, 1, Vec3Fix::new(0, 0, 0));
    assert_eq!(limb.segments.len(), 3);
    assert_eq!(limb.bounces, 1);
    for (i, s) in limb.segments.iter().enumerate() {
        assert_eq!(s.start, Vec3Fix::new(0, i as i64 * SCALE, 0));
        assert_eq!(s.end, Vec3Fix::new(0, (i as i64 + 1) * SCALE, 0));
        assert_eq!(s.length, SCALE);
    }
}

#[test]
fn empty_limb_error() {
    let mut limb = Limb::new(0, 2, Vec3Fix::new(SCALE, 0, 0));
    assert_eq!(limb.solve(), Err(SolveError::EmptyLimb));
}

#[test]
fn zero_bounces_is_a_no_op() {
    let mut limb = Limb::new(0, 0, Vec3Fix::new(SCALE, 0, 0));
    assert_eq!(limb.solve(), Ok(()));
    let mut limb = Limb::new(2, 0, Vec3Fix::new(SCALE, 0, 0));
    let before = limb.segments.clone();
    assert_eq!(limb.solve(), Ok(()));
    assert_eq!(limb.segments, before);
}

#[test]
fn solve_grounds_first_segment() {
    let mut limb = Limb::new(3, 1, Vec3Fix::new(2 * SCALE, 0, 0));
    limb.solve().unwrap();
    // the forward sweep re-places the first start from the origin
    // snapped in during the bounce; its magnitude is the unit length
    let s0 = limb.segments[0];
    let n2 = (s0.start.x as i128).pow(2) + (s0.start.y as i128).pow(2) + (s0.start.z as i128).pow(
        2,
    );
    assert!(n2 <= (SCALE as i128 + 100).pow(2));
}
