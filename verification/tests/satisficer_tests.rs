use ik_satisficer::fixed::{Vec3Fix, SCALE};
use ik_satisficer::satisficer::{
    compute_iterations, IKSatisficer, Limb, LimbNode, Position, TerminusType,
};

#[test]
fn lib_it_works() {
    let limb = Limb::new(3);
    let mut ik = IKSatisficer::new(1, limb);
    let r = ik.satisfice(Position::from(Vec3Fix::new(0, 10 * SCALE, 0)));
    assert!(r.is_ok());
}

#[test]
fn compute_iterations_formula() {
    assert_eq!(compute_iterations(2, 5), 17);
    assert_eq!(compute_iterations(1, 1), 1);
    assert_eq!(compute_iterations(3, 4), 19);
}

#[test]
fn new_limb_layout() {
    let limb = Limb::new(2);
    let nodes = limb.nodes();
    assert_eq!(nodes.len(), 7);
    match &nodes[0] {
        LimbNode::Terminus(t) => {
            assert!(matches!(t.terminus_type, TerminusType::Ground));
            assert_eq!(t.pos, Position::from(Vec3Fix::new(0, 0, 0)));
        },
        _ => panic!("first node should be the ground terminus"),
    }
    match &nodes[6] {
        LimbNode::Terminus(t) => {
            assert!(matches!(t.terminus_type, TerminusType::EndEffector));
            assert_eq!(t.pos, Position::from(Vec3Fix::new(0, 2 * SCALE, 0)));
        },
        _ => panic!("last node should be the end-effector terminus"),
    }
    for i in [1usize, 3, 5] {
        match &nodes[i] {
            LimbNode::Segment(s) => assert_eq!(s.length, SCALE),
            _ => panic!("odd positions hold segments"),
        }
    }
    match &nodes[2] {
        LimbNode::Joint(j) => assert_eq!(j.pos, Position::from(Vec3Fix::new(0, 0, 0))),
        _ => panic!("even interior positions hold joints"),
    }
    match &nodes[4] {
        LimbNode::Joint(j) => assert_eq!(j.pos, Position::from(Vec3Fix::new(0, SCALE, 0))),
        _ => panic!("even interior positions hold joints"),
    }
}

#[test]
fn satisfice_sweeps_toward_previous_positions() {
    // One forward sweep over a three-joint limb pinned to a target high
    // up the y-axis: each positioned node is re-placed at the previous
    // segment's length along the direction from the previous position,
    // measured from the origin, so the far nodes collapse onto the unit
    // sphere around it.
    let limb = Limb::new(3);
    let mut ik = IKSatisficer::new(1, limb);
    ik.satisfice(Position::from(Vec3Fix::new(0, 10 * SCALE, 0))).unwrap();
    let nodes = ik.nodes();
    // the end effector was pinned to (0, 10, 0), then swept to the unit
    // direction of its offset from the previous node, scaled by the unit
    // segment length
    match &nodes[8] {
        LimbNode::Terminus(t) => {
            assert!(matches!(t.terminus_type, TerminusType::EndEffector));
            assert_eq!(t.pos, Position::from(Vec3Fix::new(0, SCALE, 0)));
        },
        _ => panic!("last node should be the end-effector terminus"),
    }
    match &nodes[6] {
        LimbNode::Joint(j) => assert_eq!(j.pos, Position::from(Vec3Fix::new(0, SCALE, 0))),
        _ => panic!("expected a joint"),
    }
}

#[test]
fn satisfice_keeps_node_count() {
    let limb = Limb::new(4);
    let n = limb.nodes().len();
    let mut ik = IKSatisficer::new(1, limb);
    ik.satisfice(Position::from(Vec3Fix::new(SCALE, SCALE, SCALE))).unwrap();
    assert_eq!(ik.nodes().len(), n);
}

#[test]
fn position_from_vector() {
    let p = Position::from(Vec3Fix::new(1, 2, 3));
    assert_eq!(p.0, Vec3Fix::new(1, 2, 3));
}
