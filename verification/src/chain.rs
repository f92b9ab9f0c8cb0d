//! The FABRIK chain: ordered joints with frozen segment lengths, pinned
//! targets, a ground lock, interior-angle and angular-velocity tracking,
//! derived segment transforms, a retained initial snapshot for reset, and
//! an optional independently owned "fantasy" copy for pose comparison.

use vstd::prelude::*;

use crate::fixed::{
    angle_points, dist_fix, place_toward, spec_angle_points, spec_dist, spec_place, spec_cross,
    spec_unit_from, spec_unit_of, cross_fix, unit_from, unit_of_vec, tdiv, tdiv_i128, Vec3Fix,
    ANGLE_LIMIT, PI_FIX, SCALE,
};

verus! {

// ---------------------------------------------------------------------------
// Plain data types
// ---------------------------------------------------------------------------

/// Caller-supplied classification of how far the live pose deviates from
/// the expected one; selects the solving strategy for this call.
#[derive(Clone, Copy, Debug, PartialEq, Eq, Structural)]
pub enum PoseDiscrepancy {
    WithinTolerance,
    MildDivergence,
    SevereDivergence,
    EnvironmentalCompensation,
}

impl Default for PoseDiscrepancy {
    fn default() -> (d: Self)
        ensures
            d is WithinTolerance,
    {
        PoseDiscrepancy::WithinTolerance
    }
}

/// The observable solving mode, set as a side effect of `solve`.
#[derive(Clone, Copy, Debug, PartialEq, Eq, Structural)]
pub enum KinematicsMode {
    InverseKinematics,
    ForwardKinematics,
}

impl Default for KinematicsMode {
    fn default() -> (d: Self)
        ensures
            d is InverseKinematics,
    {
        KinematicsMode::InverseKinematics
    }
}

/// Errors surfaced by chain operations.
#[derive(Clone, Copy, Debug, PartialEq, Eq, Structural)]
pub enum ChainError {
    /// The chain has no joints, so no end effector or root exists.
    EmptyChain,
    /// The requested discrepancy class has no implemented strategy.
    UnsupportedDiscrepancy,
}

/// Fixed-point quaternion components, carried as heuristic metadata only.
#[derive(Clone, Copy, Debug, Default, PartialEq, Eq, Structural)]
pub struct QuatFix {
    pub x: i64,
    pub y: i64,
    pub z: i64,
    pub w: i64,
}

/// Heuristic metadata carried through the chain but not consumed by the
/// solver itself: anchor points and a parent ranking.
#[derive(Clone, Debug)]
pub struct MotionHeuristics {
    pub anchor_points: Vec<(usize, Vec3Fix, QuatFix)>,
    pub parent_ranking: Vec<(usize, i32, i32)>,
}

impl MotionHeuristics {
    pub fn new(
        anchor_points: Vec<(usize, Vec3Fix, QuatFix)>,
        parent_ranking: Vec<(usize, i32, i32)>,
    ) -> (r: MotionHeuristics)
        ensures
            r.anchor_points@ == anchor_points@,
            r.parent_ranking@ == parent_ranking@,
    {
        MotionHeuristics { anchor_points, parent_ranking }
    }
}

impl Default for MotionHeuristics {
    fn default() -> (r: Self)
        ensures
            r.anchor_points@ == Seq::<(usize, Vec3Fix, QuatFix)>::empty(),
            r.parent_ranking@ == Seq::<(usize, i32, i32)>::empty(),
    {
        MotionHeuristics { anchor_points: Vec::new(), parent_ranking: Vec::new() }
    }
}

/// A segment's rendering transform: the midpoint of its two joints and an
/// orientation frame given by three fixed-point axis vectors.  The frame
/// is the segment's orthonormal basis after the conventional quarter-turn
/// twist about the segment's own forward axis: `axis_x` is the secondary
/// (perpendicular) axis, `axis_y` the negated primary (segment) axis, and
/// `axis_z` the tertiary axis.
#[derive(Clone, Copy, Debug, PartialEq, Eq, Structural)]
pub struct SegTransform {
    pub midpoint: Vec3Fix,
    pub axis_x: Vec3Fix,
    pub axis_y: Vec3Fix,
    pub axis_z: Vec3Fix,
}

// ---------------------------------------------------------------------------
// Well-formedness of the parts
// ---------------------------------------------------------------------------

pub open spec fn points_ok(j: Seq<Vec3Fix>) -> bool {
    forall|i: int| 0 <= i < j.len() ==> (#[trigger] j[i]).spec_in_range()
}

pub open spec fn lens_ok(l: Seq<i64>) -> bool {
    forall|i: int| 0 <= i < l.len() ==> 0 <= #[trigger] l[i]
}

pub open spec fn targets_ok(t: Seq<(usize, Vec3Fix)>, n: nat) -> bool {
    forall|i: int|
        0 <= i < t.len() ==> (#[trigger] t[i]).0 < n && t[i].1.spec_in_range()
}

/// Angle arrays hold bounded values with the straight-angle placeholder at
/// both endpoints.
pub open spec fn angles_ok(a: Seq<i64>) -> bool {
    (forall|i: int| 0 <= i < a.len() ==> 0 <= #[trigger] a[i] <= ANGLE_LIMIT) && (a.len() >= 1
        ==> a[0] == PI_FIX && a[a.len() - 1] == PI_FIX)
}

// ---------------------------------------------------------------------------
// The derived quantities, as mathematical functions of the joints
// ---------------------------------------------------------------------------

/// Segment lengths derived once at construction: the distance between each
/// pair of adjacent joints.
pub open spec fn spec_lengths_of(j: Seq<Vec3Fix>) -> Seq<i64> {
    if j.len() == 0 {
        Seq::empty()
    } else {
        Seq::new((j.len() - 1) as nat, |i: int| spec_dist(j[i], j[i + 1]) as i64)
    }
}

/// An angle array of `n` straight-angle placeholders.
pub open spec fn spec_all_pi(n: nat) -> Seq<i64> {
    Seq::new(n, |i: int| PI_FIX)
}

/// The interior-angle array: the straight placeholder at both endpoints,
/// and at each interior joint the angle between the rays toward its two
/// neighbours.
pub open spec fn spec_angles_of(j: Seq<Vec3Fix>) -> Seq<i64> {
    Seq::new(
        j.len(),
        |i: int|
            if i == 0 || i == j.len() - 1 {
                PI_FIX
            } else {
                spec_angle_points(j[i - 1], j[i], j[i + 1])
            },
    )
}

/// The rendering transform of the segment between `b` (earlier joint) and
/// `a` (later joint).  Degenerate directions fall back to fixed reference
/// axes so that the frame is always defined.
pub open spec fn spec_transform(a: Vec3Fix, b: Vec3Fix) -> SegTransform {
    let up = Vec3Fix { x: 0, y: SCALE, z: 0 };
    let fwd = Vec3Fix { x: 0, y: 0, z: SCALE };
    let zero = Vec3Fix { x: 0, y: 0, z: 0 };
    let prim = if a == b {
        up
    } else {
        spec_unit_from(a, b)
    };
    let c1 = spec_cross(prim, up);
    let c1f = if c1 == zero {
        spec_cross(prim, fwd)
    } else {
        c1
    };
    let sec0 = spec_unit_of(c1f.x as int, c1f.y as int, c1f.z as int);
    let sec = if sec0 == zero {
        fwd
    } else {
        sec0
    };
    let c2 = spec_cross(prim, sec);
    let ter0 = spec_unit_of(c2.x as int, c2.y as int, c2.z as int);
    let ter = if ter0 == zero {
        up
    } else {
        ter0
    };
    SegTransform {
        midpoint: Vec3Fix {
            x: tdiv(a.x + b.x, 2) as i64,
            y: tdiv(a.y + b.y, 2) as i64,
            z: tdiv(a.z + b.z, 2) as i64,
        },
        axis_x: sec,
        axis_y: Vec3Fix {
            x: (-(prim.x as int)) as i64,
            y: (-(prim.y as int)) as i64,
            z: (-(prim.z as int)) as i64,
        },
        axis_z: ter,
    }
}

/// One transform per segment.
pub open spec fn spec_transforms_of(j: Seq<Vec3Fix>) -> Seq<SegTransform> {
    if j.len() == 0 {
        Seq::empty()
    } else {
        Seq::new((j.len() - 1) as nat, |k: int| spec_transform(j[k + 1], j[k]))
    }
}

/// Angular velocities in fixed-point angle units per second, from the
/// current and previous angle arrays and the elapsed microseconds.  With
/// no previous time sample (or no elapsed time) the array is left empty:
/// the sample is explicitly unset rather than a spurious spike.
pub open spec fn spec_velocities(
    angles: Seq<i64>,
    prev: Seq<i64>,
    prev_time: Option<u64>,
    now: u64,
) -> Seq<i64> {
    match prev_time {
        Option::None => Seq::empty(),
        Option::Some(t) => if now <= t {
            Seq::empty()
        } else {
            Seq::new(prev.len(), |i: int| tdiv((angles[i] - prev[i]) * (SCALE as int), now - t) as i64)
        },
    }
}

// ---------------------------------------------------------------------------
// The FABRIK round, as a mathematical function of the joints
// ---------------------------------------------------------------------------

/// Force-set each pinned target in order: `joints[index] = position`.
pub open spec fn spec_apply_targets(j: Seq<Vec3Fix>, t: Seq<(usize, Vec3Fix)>) -> Seq<Vec3Fix>
    decreases t.len(),
{
    if t.len() == 0 {
        j
    } else {
        spec_apply_targets(j, t.drop_last()).update(t.last().0 as int, t.last().1)
    }
}

/// The root-ward reach pass, after processing indices `joints.len() - 2`
/// down to `i`: each joint is re-placed at its segment's length from its
/// already-processed successor.
pub open spec fn spec_root_pass_down(j: Seq<Vec3Fix>, l: Seq<i64>, i: int) -> Seq<Vec3Fix>
    decreases j.len() - i,
{
    if i < 0 || i >= j.len() - 1 {
        j
    } else {
        let prev = spec_root_pass_down(j, l, i + 1);
        prev.update(i, spec_place(prev[i + 1], prev[i], l[i]))
    }
}

/// The effector-ward reach pass, after processing indices `1` up to `k`:
/// each joint is re-placed at its segment's length from its
/// already-processed predecessor.
pub open spec fn spec_eff_pass_up(j: Seq<Vec3Fix>, l: Seq<i64>, k: int) -> Seq<Vec3Fix>
    decreases k,
{
    if k <= 0 || k >= j.len() {
        j
    } else {
        let prev = spec_eff_pass_up(j, l, k - 1);
        prev.update(k, spec_place(prev[k - 1], prev[k], l[k - 1]))
    }
}

/// Pin the root joint to the origin when the ground lock is on.
pub open spec fn spec_lock(j: Seq<Vec3Fix>, lock: bool) -> Seq<Vec3Fix> {
    if lock && j.len() >= 1 {
        j.update(0, Vec3Fix { x: 0, y: 0, z: 0 })
    } else {
        j
    }
}

/// One solving round: apply targets, reach root-ward, lock the ground,
/// reach effector-ward.
pub open spec fn spec_round(
    j: Seq<Vec3Fix>,
    l: Seq<i64>,
    t: Seq<(usize, Vec3Fix)>,
    lock: bool,
) -> Seq<Vec3Fix> {
    spec_eff_pass_up(
        spec_lock(spec_root_pass_down(spec_apply_targets(j, t), l, 0), lock),
        l,
        j.len() - 1,
    )
}

/// `k` solving rounds.
pub open spec fn spec_rounds(
    j: Seq<Vec3Fix>,
    l: Seq<i64>,
    t: Seq<(usize, Vec3Fix)>,
    lock: bool,
    k: nat,
) -> Seq<Vec3Fix>
    decreases k,
{
    if k == 0 {
        j
    } else {
        spec_round(spec_rounds(j, l, t, lock, (k - 1) as nat), l, t, lock)
    }
}

// ---------------------------------------------------------------------------
// The chain itself
// ---------------------------------------------------------------------------

/// A kinematic chain of joints with frozen segment lengths.
#[derive(Debug)]
pub struct FabrikChain {
    pub joints: Vec<Vec3Fix>,
    pub lengths: Vec<i64>,
    pub segment_transforms: Vec<SegTransform>,
    pub angles: Vec<i64>,
    pub prev_angles: Vec<i64>,
    pub angular_velocities: Vec<i64>,
    pub targets: Vec<(usize, Vec3Fix)>,
    pub motion_heuristics: MotionHeuristics,
    /// Microsecond timestamp of the last recompute; `None` until the first
    /// one, so the first velocity sample is skipped instead of spiking.
    pub prev_time: Option<u64>,
    pub lock_ground: bool,
    pub fantasy_limb: Option<Box<FabrikChain>>,
    /// The retained construction-time snapshot that `reset` restores.
    /// Stored by value; treat it as read-only.
    pub initial_state: Option<Box<FabrikChain>>,
}

/// Deep value equality of two chains, fantasy and snapshot included.
pub open spec fn chain_eq(a: FabrikChain, b: FabrikChain) -> bool
    decreases a,
{
    a.joints@ == b.joints@ && a.lengths@ == b.lengths@ && a.segment_transforms@
        == b.segment_transforms@ && a.angles@ == b.angles@ && a.prev_angles@ == b.prev_angles@
        && a.angular_velocities@ == b.angular_velocities@ && a.targets@ == b.targets@
        && a.motion_heuristics.anchor_points@ == b.motion_heuristics.anchor_points@
        && a.motion_heuristics.parent_ranking@ == b.motion_heuristics.parent_ranking@
        && a.prev_time == b.prev_time && a.lock_ground == b.lock_ground && (match (
        a.fantasy_limb,
        b.fantasy_limb,
    ) {
        (Option::None, Option::None) => true,
        (Option::Some(x), Option::Some(y)) => chain_eq(*x, *y),
        _ => false,
    }) && (match (a.initial_state, b.initial_state) {
        (Option::None, Option::None) => true,
        (Option::Some(x), Option::Some(y)) => chain_eq(*x, *y),
        _ => false,
    })
}

/// The state of a chain as freshly constructed from `j`: lengths derived,
/// angle arrays at the straight placeholder, no velocities, no targets, no
/// time sample, ground lock on, transforms derived.
pub open spec fn fresh_fields(
    c: FabrikChain,
    j: Seq<Vec3Fix>,
    ap: Seq<(usize, Vec3Fix, QuatFix)>,
    pr: Seq<(usize, i32, i32)>,
) -> bool {
    c.joints@ == j && c.lengths@ == spec_lengths_of(j) && c.angles@ == spec_all_pi(j.len())
        && c.prev_angles@ == spec_all_pi(j.len()) && c.angular_velocities@ == Seq::<i64>::empty()
        && c.targets@ == Seq::<(usize, Vec3Fix)>::empty() && c.segment_transforms@
        == spec_transforms_of(j) && c.prev_time is None && c.lock_ground
        && c.motion_heuristics.anchor_points@ == ap && c.motion_heuristics.parent_ranking@ == pr
}

impl FabrikChain {
    /// Shape and range constraints on the chain's own arrays.
    pub open spec fn wf_local(&self) -> bool {
        let n = self.joints@.len();
        points_ok(self.joints@) && lens_ok(self.lengths@) && self.lengths@.len() == (
        if n == 0 {
            0int
        } else {
            n - 1
        }) && self.angles@.len() == n && self.prev_angles@.len() == n && angles_ok(self.angles@)
            && angles_ok(self.prev_angles@) && (self.angular_velocities@.len() == 0
            || self.angular_velocities@.len() == n) && self.segment_transforms@.len()
            == self.lengths@.len() && targets_ok(self.targets@, n)
    }

    /// Well-formedness, extended through the fantasy copy and the retained
    /// snapshot.
    pub open spec fn wf(&self) -> bool
        decreases self,
    {
        self.wf_local() && (match self.fantasy_limb {
            Option::Some(f) => f.wf() && f.joints@.len() == self.joints@.len(),
            Option::None => true,
        }) && (match self.initial_state {
            Option::Some(s) => s.wf() && s.joints@.len() == self.joints@.len(),
            Option::None => true,
        })
    }

    pub open spec fn has_fantasy(&self) -> bool {
        self.fantasy_limb is Some
    }

    pub open spec fn has_initial(&self) -> bool {
        self.initial_state is Some
    }

    pub open spec fn fantasy(&self) -> FabrikChain {
        *self.fantasy_limb.unwrap()
    }

    pub open spec fn initial(&self) -> FabrikChain {
        *self.initial_state.unwrap()
    }

    /// An independently owned deep copy of the whole chain.
    pub fn deep_copy(&self) -> (r: FabrikChain)
        ensures
            chain_eq(r, *self),
        decreases *self,
    {
        let fantasy_limb: Option<Box<FabrikChain>> = match &self.fantasy_limb {
            Option::Some(b) => Option::Some(Box::new(b.deep_copy())),
            Option::None => Option::None,
        };
        let initial_state: Option<Box<FabrikChain>> = match &self.initial_state {
            Option::Some(b) => Option::Some(Box::new(b.deep_copy())),
            Option::None => Option::None,
        };
        FabrikChain {
            joints: copy_vec(&self.joints),
            lengths: copy_vec(&self.lengths),
            segment_transforms: copy_vec(&self.segment_transforms),
            angles: copy_vec(&self.angles),
            prev_angles: copy_vec(&self.prev_angles),
            angular_velocities: copy_vec(&self.angular_velocities),
            targets: copy_vec(&self.targets),
            motion_heuristics: MotionHeuristics {
                anchor_points: copy_vec(&self.motion_heuristics.anchor_points),
                parent_ranking: copy_vec(&self.motion_heuristics.parent_ranking),
            },
            prev_time: self.prev_time,
            lock_ground: self.lock_ground,
            fantasy_limb,
            initial_state,
        }
    }

    /// Create a chain from its initial joint positions.  Segment lengths
    /// are derived here and never recomputed; both the fantasy copy and
    /// the reset snapshot capture this freshly constructed state.
    pub fn new(joints: Vec<Vec3Fix>, motion_heuristics: MotionHeuristics) -> (r: FabrikChain)
        requires
            points_ok(joints@),
        ensures
            r.wf(),
            fresh_fields(
                r,
                joints@,
                motion_heuristics.anchor_points@,
                motion_heuristics.parent_ranking@,
            ),
            r.has_fantasy(),
            fresh_fields(
                r.fantasy(),
                joints@,
                motion_heuristics.anchor_points@,
                motion_heuristics.parent_ranking@,
            ),
            !r.fantasy().has_fantasy(),
            !r.fantasy().has_initial(),
            r.has_initial(),
            fresh_fields(
                r.initial(),
                joints@,
                motion_heuristics.anchor_points@,
                motion_heuristics.parent_ranking@,
            ),
            !r.initial().has_fantasy(),
            !r.initial().has_initial(),
    {
        let n: usize = joints.len();
        let mut lengths: Vec<i64> = Vec::new();
        let mut i: usize = 1;
        while i < n
            invariant
                1 <= i <= n || (n == 0 && i == 1),
                n == joints@.len(),
                points_ok(joints@),
                lengths@.len() == (if i > n { 0int } else { i - 1 }),
                forall|k: int|
                    0 <= k < lengths@.len() ==> #[trigger] lengths@[k] == spec_dist(
                        joints@[k],
                        joints@[k + 1],
                    ) as i64 && 0 <= lengths@[k],
            decreases n - i,
        {
            let d: i64 = dist_fix(joints[i - 1], joints[i]);
            lengths.push(d);
            i = i + 1;
        }
        proof {
            assert(lengths@ =~= spec_lengths_of(joints@));
        }
        let mut angles: Vec<i64> = Vec::new();
        let mut k: usize = 0;
        while k < n
            invariant
                0 <= k <= n,
                angles@ =~= spec_all_pi(k as nat),
            decreases n - k,
        {
            angles.push(PI_FIX);
            k = k + 1;
        }
        proof {
            assert(angles@ =~= spec_all_pi(n as nat));
        }
        let prev_angles: Vec<i64> = copy_vec(&angles);
        let segment_transforms: Vec<SegTransform> = compute_transforms(&joints);
        let core = FabrikChain {
            joints,
            lengths,
            segment_transforms,
            angles,
            prev_angles,
            angular_velocities: Vec::new(),
            targets: Vec::new(),
            motion_heuristics,
            prev_time: Option::None,
            lock_ground: true,
            fantasy_limb: Option::None,
            initial_state: Option::None,
        };
        proof {
            assert(angles_ok(spec_all_pi(core.joints@.len())));
            assert(core.wf_local());
            assert(core.wf());
        }
        let snap_fantasy = core.deep_copy();
        let snap_initial = core.deep_copy();
        proof {
            lemma_chain_eq_wf(snap_fantasy, core);
            lemma_chain_eq_wf(snap_initial, core);
        }
        FabrikChain {
            joints: core.joints,
            lengths: core.lengths,
            segment_transforms: core.segment_transforms,
            angles: core.angles,
            prev_angles: core.prev_angles,
            angular_velocities: core.angular_velocities,
            targets: core.targets,
            motion_heuristics: core.motion_heuristics,
            prev_time: core.prev_time,
            lock_ground: core.lock_ground,
            fantasy_limb: Option::Some(Box::new(snap_fantasy)),
            initial_state: Option::Some(Box::new(snap_initial)),
        }
    }
}

/// Equality of the fields that most operations leave untouched.
pub open spec fn same_misc(a: FabrikChain, b: FabrikChain) -> bool {
    a.motion_heuristics.anchor_points@ == b.motion_heuristics.anchor_points@
        && a.motion_heuristics.parent_ranking@ == b.motion_heuristics.parent_ranking@
        && a.lock_ground == b.lock_ground && a.fantasy_limb == b.fantasy_limb
        && a.initial_state == b.initial_state
}

/// Equality of the angle, velocity, timestamp and transform tracking.
pub open spec fn same_tracking(a: FabrikChain, b: FabrikChain) -> bool {
    a.angles@ == b.angles@ && a.prev_angles@ == b.prev_angles@ && a.angular_velocities@
        == b.angular_velocities@ && a.prev_time == b.prev_time && a.segment_transforms@
        == b.segment_transforms@
}

/// The forward-kinematics correction quantity for one joint: the unit
/// direction of the residual from the live joint toward the fantasy
/// joint, divided by the joint's interior angle.  Degenerate cases (zero
/// residual or zero angle) yield the zero vector instead of a non-number.
pub open spec fn spec_correction(f: Vec3Fix, j: Vec3Fix, angle: i64) -> Vec3Fix {
    let u = spec_unit_of(f.x - j.x, f.y - j.y, f.z - j.z);
    if angle == 0 {
        Vec3Fix { x: 0, y: 0, z: 0 }
    } else {
        Vec3Fix {
            x: tdiv(u.x * (SCALE as int), angle as int) as i64,
            y: tdiv(u.y * (SCALE as int), angle as int) as i64,
            z: tdiv(u.z * (SCALE as int), angle as int) as i64,
        }
    }
}

/// One correction quantity per joint.
pub open spec fn spec_corrections(fj: Seq<Vec3Fix>, j: Seq<Vec3Fix>, a: Seq<i64>) -> Seq<Vec3Fix> {
    Seq::new(j.len(), |i: int| spec_correction(fj[i], j[i], a[i]))
}

/// How `reset` relates the state before and after: every tracked field
/// restored from the retained snapshot, the segment transforms re-derived
/// from the restored joints, and a fresh copy of the snapshot stored back
/// so that the next reset finds it again.
pub open spec fn reset_rel(pre: FabrikChain, post: FabrikChain) -> bool {
    pre.has_initial() && post.joints@ == pre.initial().joints@ && post.lengths@
        == pre.initial().lengths@ && post.angles@ == pre.initial().angles@ && post.prev_angles@
        == pre.initial().prev_angles@ && post.angular_velocities@
        == pre.initial().angular_velocities@ && post.targets@ == pre.initial().targets@
        && post.prev_time == pre.initial().prev_time && post.lock_ground
        == pre.initial().lock_ground && post.motion_heuristics.anchor_points@
        == pre.initial().motion_heuristics.anchor_points@ && post.motion_heuristics.parent_ranking@
        == pre.initial().motion_heuristics.parent_ranking@ && post.segment_transforms@
        == spec_transforms_of(pre.initial().joints@) && post.has_fantasy()
        == pre.initial().has_fantasy() && (post.has_fantasy() ==> chain_eq(
        post.fantasy(),
        pre.initial().fantasy(),
    )) && post.has_initial() && chain_eq(post.initial(), pre.initial())
}

impl FabrikChain {
    /// The end effector: the last joint.  An empty chain has none and
    /// reports that explicitly.
    pub fn get_ee(&self) -> (r: Result<Vec3Fix, ChainError>)
        ensures
            self.joints@.len() == 0 ==> (r matches Result::Err(e) && e == ChainError::EmptyChain),
            self.joints@.len() > 0 ==> (r matches Result::Ok(p) && p == self.joints@.last()),
    {
        let n: usize = self.joints.len();
        if n == 0 {
            Result::Err(ChainError::EmptyChain)
        } else {
            Result::Ok(self.joints[n - 1])
        }
    }

    /// The root-ward reach pass: from the joint before the effector down
    /// to the root, re-place each joint at its segment's length from its
    /// already-placed successor.
    #[verifier::loop_isolation(false)]
    pub fn fwd_reach(&mut self)
        requires
            old(self).joints@.len() >= 1,
            points_ok(old(self).joints@),
            lens_ok(old(self).lengths@),
            old(self).lengths@.len() == old(self).joints@.len() - 1,
        ensures
            final(self).joints@ == spec_root_pass_down(
                old(self).joints@,
                old(self).lengths@,
                0,
            ),
            final(self).joints@.len() == old(self).joints@.len(),
            points_ok(final(self).joints@),
            final(self).lengths@ == old(self).lengths@,
            final(self).targets@ == old(self).targets@,
            same_tracking(*final(self), *old(self)),
            same_misc(*final(self), *old(self)),
    {
        let n: usize = self.joints.len();
        let mut i: usize = n - 1;
        while i > 0
            invariant
                0 <= i <= n - 1,
                self.joints@.len() == n,
                points_ok(self.joints@),
                self.joints@ == spec_root_pass_down(
                    old(self).joints@,
                    old(self).lengths@,
                    i as int,
                ),
                self.lengths@ == old(self).lengths@,
                self.targets@ == old(self).targets@,
                same_tracking(*self, *old(self)),
                same_misc(*self, *old(self)),
            decreases i,
        {
            i = i - 1;
            let ghost before = self.joints@;
            let anchor: Vec3Fix = self.joints[i + 1];
            let prev: Vec3Fix = self.joints[i];
            let len: i64 = self.lengths[i];
            let p: Vec3Fix = place_toward(anchor, prev, len);
            self.joints[i] = p;
            proof {
                assert(self.joints@ == before.update(i as int, p));
                assert forall|k: int|
                    0 <= k < self.joints@.len() implies (#[trigger] self.joints@[k]).spec_in_range() by {
                    if k != i {
                        assert(self.joints@[k] == before[k]);
                    }
                }
            }
        }
    }

    /// The effector-ward reach pass: from the root up to the effector,
    /// re-place each joint at its segment's length from its
    /// already-placed predecessor.
    #[verifier::loop_isolation(false)]
    pub fn bwd_reach(&mut self)
        requires
            old(self).joints@.len() >= 1,
            points_ok(old(self).joints@),
            lens_ok(old(self).lengths@),
            old(self).lengths@.len() == old(self).joints@.len() - 1,
        ensures
            final(self).joints@ == spec_eff_pass_up(
                old(self).joints@,
                old(self).lengths@,
                old(self).joints@.len() - 1,
            ),
            final(self).joints@.len() == old(self).joints@.len(),
            points_ok(final(self).joints@),
            final(self).lengths@ == old(self).lengths@,
            final(self).targets@ == old(self).targets@,
            same_tracking(*final(self), *old(self)),
            same_misc(*final(self), *old(self)),
    {
        let n: usize = self.joints.len();
        let mut i: usize = 0;
        while i < n - 1
            invariant
                0 <= i <= n - 1,
                self.joints@.len() == n,
                points_ok(self.joints@),
                self.joints@ == spec_eff_pass_up(old(self).joints@, old(self).lengths@, i as int),
                self.lengths@ == old(self).lengths@,
                self.targets@ == old(self).targets@,
                same_tracking(*self, *old(self)),
                same_misc(*self, *old(self)),
            decreases n - 1 - i,
        {
            let ghost before = self.joints@;
            let anchor: Vec3Fix = self.joints[i];
            let prev: Vec3Fix = self.joints[i + 1];
            let len: i64 = self.lengths[i];
            let p: Vec3Fix = place_toward(anchor, prev, len);
            self.joints[i + 1] = p;
            i = i + 1;
            proof {
                assert(self.joints@ == before.update(i as int, p));
                assert forall|k: int|
                    0 <= k < self.joints@.len() implies (#[trigger] self.joints@[k]).spec_in_range() by {
                    if k != i {
                        assert(self.joints@[k] == before[k]);
                    }
                }
            }
        }
    }

    /// Swap the current interior angles into the previous-angle slot and
    /// recompute them from the current joints.
    pub fn recalculate_angles(&mut self)
        requires
            points_ok(old(self).joints@),
        ensures
            final(self).angles@ == spec_angles_of(old(self).joints@),
            angles_ok(final(self).angles@),
            final(self).prev_angles@ == old(self).angles@,
            final(self).joints@ == old(self).joints@,
            final(self).lengths@ == old(self).lengths@,
            final(self).targets@ == old(self).targets@,
            final(self).angular_velocities@ == old(self).angular_velocities@,
            final(self).segment_transforms@ == old(self).segment_transforms@,
            final(self).prev_time == old(self).prev_time,
            same_misc(*final(self), *old(self)),
    {
        let fresh: Vec<i64> = compute_angles(&self.joints);
        core::mem::swap(&mut self.angles, &mut self.prev_angles);
        self.angles = fresh;
    }

    /// Recompute the angular velocities from the two most recent angle
    /// arrays and the injected clock sample, then re-derive the segment
    /// transforms.  That the transform count equals the length count is
    /// a proved postcondition here, not a runtime check.
    pub fn recalculate_segments(&mut self, now_micros: u64)
        requires
            points_ok(old(self).joints@),
            old(self).prev_angles@.len() == old(self).angles@.len(),
            angles_ok(old(self).angles@),
            angles_ok(old(self).prev_angles@),
        ensures
            final(self).angular_velocities@ == spec_velocities(
                old(self).angles@,
                old(self).prev_angles@,
                old(self).prev_time,
                now_micros,
            ),
            final(self).prev_time == Option::Some(now_micros),
            final(self).segment_transforms@ == spec_transforms_of(old(self).joints@),
            final(self).joints@ == old(self).joints@,
            final(self).lengths@ == old(self).lengths@,
            final(self).angles@ == old(self).angles@,
            final(self).prev_angles@ == old(self).prev_angles@,
            final(self).targets@ == old(self).targets@,
            same_misc(*final(self), *old(self)),
    {
        let v: Vec<i64> = compute_velocities(
            &self.angles,
            &self.prev_angles,
            self.prev_time,
            now_micros,
        );
        self.angular_velocities = v;
        self.prev_time = Option::Some(now_micros);
        self.segment_transforms = compute_transforms(&self.joints);
    }

    /// Restore the construction-time snapshot: every tracked field comes
    /// back from it, the segment transforms are re-derived from the
    /// restored joints, and a fresh copy of the snapshot is stored so
    /// that the next reset finds it again.  The restored state is a
    /// function of the snapshot alone, so resetting twice in a row leaves
    /// exactly the state of resetting once.
    pub fn reset(&mut self)
        requires
            old(self).wf(),
            old(self).has_initial(),
        ensures
            final(self).wf(),
            reset_rel(*old(self), *final(self)),
    {
        let snapshot: FabrikChain = match &self.initial_state {
            Option::Some(b) => b.deep_copy(),
            Option::None => vstd::pervasive::unreached(),
        };
        let stored: FabrikChain = snapshot.deep_copy();
        proof {
            lemma_chain_eq_wf(snapshot, old(self).initial());
            lemma_chain_eq_trans(stored, snapshot, old(self).initial());
            lemma_chain_eq_wf(stored, old(self).initial());
        }
        let FabrikChain {
            joints,
            lengths,
            segment_transforms: _,
            angles,
            prev_angles,
            angular_velocities,
            targets,
            motion_heuristics,
            prev_time,
            lock_ground,
            fantasy_limb,
            initial_state: _,
        } = snapshot;
        self.joints = joints;
        self.lengths = lengths;
        self.angles = angles;
        self.prev_angles = prev_angles;
        self.angular_velocities = angular_velocities;
        self.targets = targets;
        self.motion_heuristics = motion_heuristics;
        self.prev_time = prev_time;
        self.lock_ground = lock_ground;
        self.fantasy_limb = fantasy_limb;
        self.initial_state = Option::Some(Box::new(stored));
        self.segment_transforms = compute_transforms(&self.joints);
        proof {
            assert(final(self).wf_local());
        }
    }

    /// Capture the whole current state, previous fantasy included, as the
    /// new independently owned fantasy copy.
    pub fn finalize(&mut self)
        requires
            old(self).wf(),
        ensures
            final(self).wf(),
            final(self).joints@ == old(self).joints@,
            final(self).lengths@ == old(self).lengths@,
            final(self).angles@ == old(self).angles@,
            final(self).prev_angles@ == old(self).prev_angles@,
            final(self).angular_velocities@ == old(self).angular_velocities@,
            final(self).targets@ == old(self).targets@,
            final(self).segment_transforms@ == old(self).segment_transforms@,
            final(self).prev_time == old(self).prev_time,
            final(self).lock_ground == old(self).lock_ground,
            final(self).motion_heuristics.anchor_points@ == old(self).motion_heuristics.anchor_points@,
            final(self).motion_heuristics.parent_ranking@ == old(self).motion_heuristics.parent_ranking@,
            final(self).initial_state == old(self).initial_state,
            final(self).has_fantasy(),
            chain_eq(final(self).fantasy(), *old(self)),
    {
        let copy: FabrikChain = self.deep_copy();
        proof {
            lemma_chain_eq_wf(copy, *old(self));
        }
        self.fantasy_limb = Option::Some(Box::new(copy));
    }

    /// Force-set every pinned target: `joints[index] = position`.
    #[verifier::loop_isolation(false)]
    fn apply_targets_once(&mut self)
        requires
            points_ok(old(self).joints@),
            targets_ok(old(self).targets@, old(self).joints@.len()),
        ensures
            final(self).joints@ == spec_apply_targets(old(self).joints@, old(self).targets@),
            final(self).joints@.len() == old(self).joints@.len(),
            points_ok(final(self).joints@),
            final(self).lengths@ == old(self).lengths@,
            final(self).targets@ == old(self).targets@,
            same_tracking(*final(self), *old(self)),
            same_misc(*final(self), *old(self)),
    {
        let m: usize = self.targets.len();
        let mut ti: usize = 0;
        while ti < m
            invariant
                0 <= ti <= m,
                self.joints@.len() == old(self).joints@.len(),
                points_ok(self.joints@),
                self.joints@ == spec_apply_targets(
                    old(self).joints@,
                    old(self).targets@.take(ti as int),
                ),
                self.lengths@ == old(self).lengths@,
                self.targets@ == old(self).targets@,
                same_tracking(*self, *old(self)),
                same_misc(*self, *old(self)),
            decreases m - ti,
        {
            let ghost before = self.joints@;
            let pair: (usize, Vec3Fix) = self.targets[ti];
            self.joints[pair.0] = pair.1;
            ti = ti + 1;
            proof {
                let t = old(self).targets@;
                assert(t.take(ti as int).drop_last() =~= t.take(ti as int - 1));
                assert(t.take(ti as int).last() == t[ti as int - 1]);
                assert(self.joints@ == before.update(pair.0 as int, pair.1));
                assert forall|k: int|
                    0 <= k < self.joints@.len() implies (#[trigger] self.joints@[k]).spec_in_range() by {
                    if k != pair.0 as int {
                        assert(self.joints@[k] == before[k]);
                    }
                }
            }
        }
        proof {
            assert(old(self).targets@.take(m as int) =~= old(self).targets@);
        }
    }

    /// The per-frame dispatcher.  The caller-supplied discrepancy
    /// classification selects the strategy and sets the observable
    /// kinematics mode as a side effect:
    ///
    /// - `WithinTolerance`: inverse kinematics.  Runs `iterations` FABRIK
    ///   rounds (pinned targets, root-ward reach, ground lock,
    ///   effector-ward reach), then recomputes angles, velocities and
    ///   transforms.  Fails with `EmptyChain` on a chain with no joints.
    /// - `MildDivergence`: forward kinematics.  Computes the per-joint
    ///   correction quantities against the fantasy chain and returns them
    ///   through the extension hook (`Ok(Some(..))`) without applying
    ///   them; tracking is recomputed, the joints stay put.
    /// - `SevereDivergence` and `EnvironmentalCompensation`: unsupported;
    ///   the call fails fast with `UnsupportedDiscrepancy` and changes
    ///   nothing.
    ///
    /// `now_micros` is the injected clock sample used for the angular
    /// velocities.  With the ground lock on and at least one round, the
    /// root joint provably ends at the origin.
    #[verifier::loop_isolation(false)]
    pub fn solve(
        &mut self,
        iterations: usize,
        pose_discrepancy: PoseDiscrepancy,
        kinematics_mode: &mut KinematicsMode,
        now_micros: u64,
    ) -> (res: Result<Option<Vec<Vec3Fix>>, ChainError>)
        requires
            old(self).wf(),
            pose_discrepancy is MildDivergence ==> old(self).has_fantasy(),
        ensures
            final(self).wf(),
            final(self).lengths@ == old(self).lengths@,
            final(self).targets@ == old(self).targets@,
            same_misc(*final(self), *old(self)),
            pose_discrepancy is WithinTolerance && old(self).joints@.len() == 0 ==> (res matches
                Result::Err(e) && e == ChainError::EmptyChain && *final(self) == *old(self)
                && *final(kinematics_mode) == *old(kinematics_mode)),
            pose_discrepancy is WithinTolerance && old(self).joints@.len() > 0 ==> (res matches
                Result::Ok(o) && o is None && *final(kinematics_mode)
                is InverseKinematics && final(self).joints@ == spec_rounds(
                old(self).joints@,
                old(self).lengths@,
                old(self).targets@,
                old(self).lock_ground,
                iterations as nat,
            ) && final(self).prev_angles@ == old(self).angles@ && final(self).angles@
                == spec_angles_of(final(self).joints@) && final(self).angular_velocities@
                == spec_velocities(
                final(self).angles@,
                old(self).angles@,
                old(self).prev_time,
                now_micros,
            ) && final(self).prev_time == Option::Some(now_micros) && final(self).segment_transforms@ == spec_transforms_of(final(self).joints@)),
            pose_discrepancy is WithinTolerance && old(self).joints@.len() > 0 && old(self).lock_ground && iterations >= 1 ==> final(self).joints@[0] == (Vec3Fix {
                x: 0,
                y: 0,
                z: 0,
            }),
            pose_discrepancy is MildDivergence ==> (res matches Result::Ok(o) && o matches
                Option::Some(q) && q@ == spec_corrections(
                old(self).fantasy().joints@,
                old(self).joints@,
                old(self).angles@,
            ) && *final(kinematics_mode) is ForwardKinematics && final(self).joints@ == old(self).joints@ && final(self).angles@ == old(self).angles@ && final(self).prev_angles@
                == old(self).prev_angles@ && final(self).angular_velocities@ == spec_velocities(
                old(self).angles@,
                old(self).prev_angles@,
                old(self).prev_time,
                now_micros,
            ) && final(self).prev_time == Option::Some(now_micros) && final(self).segment_transforms@ == spec_transforms_of(old(self).joints@)),
            pose_discrepancy is SevereDivergence || pose_discrepancy
                is EnvironmentalCompensation ==> (res matches Result::Err(e) && e
                == ChainError::UnsupportedDiscrepancy && *final(self) == *old(self) && *final(kinematics_mode) == *old(kinematics_mode)),
    {
        match pose_discrepancy {
            PoseDiscrepancy::WithinTolerance => {
                let n: usize = self.joints.len();
                if n == 0 {
                    return Result::Err(ChainError::EmptyChain);
                }
                *kinematics_mode = KinematicsMode::InverseKinematics;
                let mut it: usize = 0;
                while it < iterations
                    invariant
                        0 <= it <= iterations,
                        self.joints@.len() == n,
                        points_ok(self.joints@),
                        self.joints@ == spec_rounds(
                            old(self).joints@,
                            old(self).lengths@,
                            old(self).targets@,
                            old(self).lock_ground,
                            it as nat,
                        ),
                        self.lengths@ == old(self).lengths@,
                        self.targets@ == old(self).targets@,
                        self.lock_ground == old(self).lock_ground,
                        same_tracking(*self, *old(self)),
                        same_misc(*self, *old(self)),
                    decreases iterations - it,
                {
                    let ghost round_start = self.joints@;
                    self.apply_targets_once();
                    self.fwd_reach();
                    let ghost after_root = self.joints@;
                    if self.lock_ground {
                        self.joints[0] = Vec3Fix { x: 0, y: 0, z: 0 };
                    }
                    proof {
                        assert(self.joints@ == spec_lock(after_root, old(self).lock_ground));
                        assert forall|k: int|
                            0 <= k < self.joints@.len() implies (#[trigger] self.joints@[k]).spec_in_range() by {
                            if k != 0 {
                                assert(self.joints@[k] == after_root[k]);
                            }
                        }
                    }
                    self.bwd_reach();
                    it = it + 1;
                    proof {
                        assert(self.joints@ == spec_round(
                            round_start,
                            old(self).lengths@,
                            old(self).targets@,
                            old(self).lock_ground,
                        ));
                    }
                }
                self.recalculate_angles();
                self.recalculate_segments(now_micros);
                proof {
                    if old(self).lock_ground && iterations >= 1 {
                        lemma_rounds_ground_lock(
                            old(self).joints@,
                            old(self).lengths@,
                            old(self).targets@,
                            iterations as nat,
                        );
                    }
                    assert(final(self).wf_local());
                }
                Result::Ok(Option::None)
            },
            PoseDiscrepancy::MildDivergence => {
                *kinematics_mode = KinematicsMode::ForwardKinematics;
                let q: Vec<Vec3Fix> = match &self.fantasy_limb {
                    Option::Some(f) => {
                        proof {
                            assert(old(self).wf());
                            assert((**f).wf());
                            assert((**f).wf_local());
                        }
                        compute_corrections(&f.joints, &self.joints, &self.angles)
                    },
                    Option::None => vstd::pervasive::unreached(),
                };
                self.recalculate_segments(now_micros);
                Result::Ok(Option::Some(q))
            },
            PoseDiscrepancy::SevereDivergence => Result::Err(ChainError::UnsupportedDiscrepancy),
            PoseDiscrepancy::EnvironmentalCompensation => Result::Err(
                ChainError::UnsupportedDiscrepancy,
            ),
        }
    }
}

/// Law: the interior-angle array always has one entry per joint, with
/// the straight placeholder at both ends, for every joint layout.
pub proof fn lemma_angle_array_shape(j: Seq<Vec3Fix>)
    ensures
        spec_angles_of(j).len() == j.len(),
        j.len() >= 1 ==> spec_angles_of(j)[0] == PI_FIX && spec_angles_of(j)[j.len() - 1]
            == PI_FIX,
{
}

/// Law: the placement step is total and bounded.  Even with a
/// zero-length direction — coincident joints, where normalizing is
/// undefined — the placed joint is the unchanged previous position, and
/// otherwise a saturated coordinate triple; in every case a plain
/// in-range integer point, never an undefined value that could poison
/// later frames.
pub proof fn lemma_place_total(anchor: Vec3Fix, prev: Vec3Fix, len: i64)
    requires
        prev.spec_in_range(),
    ensures
        spec_place(anchor, prev, len).spec_in_range(),
{
}

/// Law (length preservation, exact case): a joint that already sits at
/// exactly its segment's length from its anchor is a fixed point of the
/// reach placement.  The passes move a joint only to correct its
/// distance; within one unit of rounding they restore it, which the
/// concrete solving scenarios check numerically.
pub proof fn lemma_place_preserves_exact(anchor: Vec3Fix, prev: Vec3Fix, len: i64)
    requires
        anchor.spec_in_range(),
        prev.spec_in_range(),
        0 < len,
        spec_dist(anchor, prev) == len,
    ensures
        spec_place(anchor, prev, len) == prev,
{
    let dx = prev.x - anchor.x;
    let dy = prev.y - anchor.y;
    let dz = prev.z - anchor.z;
    lemma_exact_quotient(dx, len);
    lemma_exact_quotient(dy, len);
    lemma_exact_quotient(dz, len);
}

/// Scaling by a positive factor and dividing by it again is the
/// identity, in truncating division.
proof fn lemma_exact_quotient(d: int, len: i64)
    requires
        0 < len,
    ensures
        tdiv(d * len, len as int) == d,
{
    if d >= 0 {
        vstd::arithmetic::div_mod::lemma_div_multiples_vanish(d, len as int);
        assert(d * len == (len as int) * d) by (nonlinear_arith);
    } else {
        vstd::arithmetic::div_mod::lemma_div_multiples_vanish(-d, len as int);
        assert(-(d * len) == (len as int) * (-d)) by (nonlinear_arith);
    }
}

/// Applying pinned targets keeps every joint in range.
pub proof fn lemma_apply_targets_points_ok(j: Seq<Vec3Fix>, t: Seq<(usize, Vec3Fix)>)
    requires
        points_ok(j),
        targets_ok(t, j.len()),
    ensures
        points_ok(spec_apply_targets(j, t)),
    decreases t.len(),
{
    if t.len() > 0 {
        assert(targets_ok(t.drop_last(), j.len())) by {
            assert forall|i: int|
                0 <= i < t.drop_last().len() implies (#[trigger] t.drop_last()[i]).0 < j.len()
                && t.drop_last()[i].1.spec_in_range() by {
                assert(t.drop_last()[i] == t[i]);
            }
        }
        lemma_apply_targets_points_ok(j, t.drop_last());
        lemma_apply_targets_len(j, t.drop_last());
        let prev = spec_apply_targets(j, t.drop_last());
        let cur = spec_apply_targets(j, t);
        assert forall|i: int| 0 <= i < cur.len() implies (#[trigger] cur[i]).spec_in_range() by {
            if i != t.last().0 as int {
                assert(cur[i] == prev[i]);
            }
        }
    }
}

/// The root-ward pass keeps every joint in range.
pub proof fn lemma_root_pass_points_ok(j: Seq<Vec3Fix>, l: Seq<i64>, i: int)
    requires
        points_ok(j),
    ensures
        points_ok(spec_root_pass_down(j, l, i)),
    decreases j.len() - i,
{
    if !(i < 0 || i >= j.len() - 1) {
        lemma_root_pass_points_ok(j, l, i + 1);
        lemma_root_pass_len(j, l, i + 1);
        let prev = spec_root_pass_down(j, l, i + 1);
        let cur = spec_root_pass_down(j, l, i);
        lemma_place_total(prev[i + 1], prev[i], l[i]);
        assert forall|k: int| 0 <= k < cur.len() implies (#[trigger] cur[k]).spec_in_range() by {
            if k != i {
                assert(cur[k] == prev[k]);
            }
        }
    }
}

/// The effector-ward pass keeps every joint in range.
pub proof fn lemma_eff_pass_points_ok(j: Seq<Vec3Fix>, l: Seq<i64>, k: int)
    requires
        points_ok(j),
    ensures
        points_ok(spec_eff_pass_up(j, l, k)),
    decreases k,
{
    if !(k <= 0 || k >= j.len()) {
        lemma_eff_pass_points_ok(j, l, k - 1);
        lemma_eff_pass_first(j, l, k - 1);
        let prev = spec_eff_pass_up(j, l, k - 1);
        let cur = spec_eff_pass_up(j, l, k);
        lemma_place_total(prev[k - 1], prev[k], l[k - 1]);
        assert forall|m: int| 0 <= m < cur.len() implies (#[trigger] cur[m]).spec_in_range() by {
            if m != k {
                assert(cur[m] == prev[m]);
            }
        }
    }
}

/// Law (degenerate inputs stay harmless): for any number of solving
/// rounds over a chain with in-range joints and valid targets — however
/// many segments are of zero length — every joint remains a plain
/// in-range coordinate triple.  With integer coordinates and the
/// explicit no-op on coincident points, no round can produce an
/// undefined position.
pub proof fn lemma_rounds_points_ok(
    j: Seq<Vec3Fix>,
    l: Seq<i64>,
    t: Seq<(usize, Vec3Fix)>,
    lock: bool,
    k: nat,
)
    requires
        points_ok(j),
        targets_ok(t, j.len()),
    ensures
        points_ok(spec_rounds(j, l, t, lock, k)),
    decreases k,
{
    if k > 0 {
        lemma_rounds_points_ok(j, l, t, lock, (k - 1) as nat);
        lemma_rounds_len(j, l, t, lock, (k - 1) as nat);
        let prev = spec_rounds(j, l, t, lock, (k - 1) as nat);
        let applied = spec_apply_targets(prev, t);
        lemma_apply_targets_points_ok(prev, t);
        lemma_apply_targets_len(prev, t);
        let rooted = spec_root_pass_down(applied, l, 0);
        lemma_root_pass_points_ok(applied, l, 0);
        lemma_root_pass_len(applied, l, 0);
        let locked = spec_lock(rooted, lock);
        assert(points_ok(locked)) by {
            if lock && rooted.len() >= 1 {
                assert forall|m: int|
                    0 <= m < locked.len() implies (#[trigger] locked[m]).spec_in_range() by {
                    if m != 0 {
                        assert(locked[m] == rooted[m]);
                    }
                }
            }
        }
        lemma_eff_pass_points_ok(locked, l, prev.len() - 1);
    }
}

/// Law: resetting twice in a row leaves exactly the state of resetting
/// once.  The state after a reset is a function of the retained snapshot
/// alone, and a reset restores that snapshot unchanged, so a second
/// reset reproduces every tracked field of the first.
pub proof fn lemma_reset_idempotent(a: FabrikChain, b: FabrikChain, c: FabrikChain)
    requires
        reset_rel(a, b),
        reset_rel(b, c),
    ensures
        c.joints@ == b.joints@,
        c.lengths@ == b.lengths@,
        c.angles@ == b.angles@,
        c.prev_angles@ == b.prev_angles@,
        c.angular_velocities@ == b.angular_velocities@,
        c.targets@ == b.targets@,
        c.prev_time == b.prev_time,
        c.lock_ground == b.lock_ground,
        c.motion_heuristics.anchor_points@ == b.motion_heuristics.anchor_points@,
        c.motion_heuristics.parent_ranking@ == b.motion_heuristics.parent_ranking@,
        c.segment_transforms@ == b.segment_transforms@,
        c.has_fantasy() == b.has_fantasy(),
        c.has_fantasy() ==> chain_eq(c.fantasy(), b.fantasy()),
        chain_eq(c.initial(), b.initial()),
{
    let ai = a.initial();
    let bi = b.initial();
    assert(chain_eq(bi, ai));
    if c.has_fantasy() {
        match (b.fantasy_limb, bi.fantasy_limb, ai.fantasy_limb) {
            (Option::Some(bf), Option::Some(bif), Option::Some(aif)) => {
                assert(chain_eq(*bif, *aif));
                assert(chain_eq(c.fantasy(), *bif));
                assert(chain_eq(*bf, *aif));
                lemma_chain_eq_sym(*bf, *aif);
                lemma_chain_eq_trans(c.fantasy(), *bif, *aif);
                lemma_chain_eq_trans(c.fantasy(), *aif, *bf);
            },
            _ => {},
        }
    }
}

/// Law: the state after a reset equals the state immediately after
/// construction — joints, lengths, angle arrays, velocities, targets and
/// timestamp all back at their initial values, with the transforms
/// re-derived from the initial joints.
pub proof fn lemma_reset_restores_fresh(
    r: FabrikChain,
    b: FabrikChain,
    j: Seq<Vec3Fix>,
    ap: Seq<(usize, Vec3Fix, QuatFix)>,
    pr: Seq<(usize, i32, i32)>,
)
    requires
        r.has_initial(),
        fresh_fields(r.initial(), j, ap, pr),
        reset_rel(r, b),
    ensures
        fresh_fields(b, j, ap, pr),
{
}

/// Value equality of chains is symmetric.
pub proof fn lemma_chain_eq_sym(a: FabrikChain, b: FabrikChain)
    requires
        chain_eq(a, b),
    ensures
        chain_eq(b, a),
    decreases a,
{
    match (a.fantasy_limb, b.fantasy_limb) {
        (Option::Some(x), Option::Some(y)) => lemma_chain_eq_sym(*x, *y),
        _ => {},
    }
    match (a.initial_state, b.initial_state) {
        (Option::Some(x), Option::Some(y)) => lemma_chain_eq_sym(*x, *y),
        _ => {},
    }
}

/// Value equality of chains is transitive.
pub proof fn lemma_chain_eq_trans(a: FabrikChain, b: FabrikChain, c: FabrikChain)
    requires
        chain_eq(a, b),
        chain_eq(b, c),
    ensures
        chain_eq(a, c),
    decreases a,
{
    match (a.fantasy_limb, b.fantasy_limb, c.fantasy_limb) {
        (Option::Some(x), Option::Some(y), Option::Some(z)) => lemma_chain_eq_trans(*x, *y, *z),
        _ => {},
    }
    match (a.initial_state, b.initial_state, c.initial_state) {
        (Option::Some(x), Option::Some(y), Option::Some(z)) => lemma_chain_eq_trans(*x, *y, *z),
        _ => {},
    }
}

/// Applying pinned targets never changes the joint count.
pub proof fn lemma_apply_targets_len(j: Seq<Vec3Fix>, t: Seq<(usize, Vec3Fix)>)
    requires
        targets_ok(t, j.len()),
    ensures
        spec_apply_targets(j, t).len() == j.len(),
    decreases t.len(),
{
    if t.len() > 0 {
        assert(targets_ok(t.drop_last(), j.len())) by {
            assert forall|i: int|
                0 <= i < t.drop_last().len() implies (#[trigger] t.drop_last()[i]).0 < j.len()
                && t.drop_last()[i].1.spec_in_range() by {
                assert(t.drop_last()[i] == t[i]);
            }
        }
        lemma_apply_targets_len(j, t.drop_last());
    }
}

/// The root-ward pass never changes the joint count.
pub proof fn lemma_root_pass_len(j: Seq<Vec3Fix>, l: Seq<i64>, i: int)
    ensures
        spec_root_pass_down(j, l, i).len() == j.len(),
    decreases j.len() - i,
{
    if !(i < 0 || i >= j.len() - 1) {
        lemma_root_pass_len(j, l, i + 1);
    }
}

/// The effector-ward pass never changes the joint count, and never moves
/// the root joint.
pub proof fn lemma_eff_pass_first(j: Seq<Vec3Fix>, l: Seq<i64>, k: int)
    ensures
        spec_eff_pass_up(j, l, k).len() == j.len(),
        j.len() >= 1 ==> spec_eff_pass_up(j, l, k)[0] == j[0],
    decreases k,
{
    if !(k <= 0 || k >= j.len()) {
        lemma_eff_pass_first(j, l, k - 1);
    }
}

/// One round with the ground lock on leaves the root at the origin.
pub proof fn lemma_round_ground_lock(j: Seq<Vec3Fix>, l: Seq<i64>, t: Seq<(usize, Vec3Fix)>)
    requires
        j.len() >= 1,
        targets_ok(t, j.len()),
    ensures
        spec_round(j, l, t, true).len() == j.len(),
        spec_round(j, l, t, true)[0] == (Vec3Fix { x: 0, y: 0, z: 0 }),
{
    let applied = spec_apply_targets(j, t);
    lemma_apply_targets_len(j, t);
    let rooted = spec_root_pass_down(applied, l, 0);
    lemma_root_pass_len(applied, l, 0);
    let locked = spec_lock(rooted, true);
    assert(locked[0] == (Vec3Fix { x: 0, y: 0, z: 0 }));
    lemma_eff_pass_first(locked, l, j.len() - 1);
}

/// Any number of rounds never changes the joint count.
pub proof fn lemma_rounds_len(
    j: Seq<Vec3Fix>,
    l: Seq<i64>,
    t: Seq<(usize, Vec3Fix)>,
    lock: bool,
    k: nat,
)
    requires
        targets_ok(t, j.len()),
    ensures
        spec_rounds(j, l, t, lock, k).len() == j.len(),
    decreases k,
{
    if k > 0 {
        lemma_rounds_len(j, l, t, lock, (k - 1) as nat);
        let prev = spec_rounds(j, l, t, lock, (k - 1) as nat);
        let applied = spec_apply_targets(prev, t);
        lemma_apply_targets_len(prev, t);
        lemma_root_pass_len(applied, l, 0);
        lemma_eff_pass_first(spec_lock(spec_root_pass_down(applied, l, 0), lock), l, prev.len() - 1);
    }
}

/// Law: with the ground lock on, after any positive number of solving
/// rounds the root joint sits exactly at the origin, regardless of where
/// the pinned targets are.
pub proof fn lemma_rounds_ground_lock(
    j: Seq<Vec3Fix>,
    l: Seq<i64>,
    t: Seq<(usize, Vec3Fix)>,
    k: nat,
)
    requires
        k >= 1,
        j.len() >= 1,
        targets_ok(t, j.len()),
    ensures
        spec_rounds(j, l, t, true, k)[0] == (Vec3Fix { x: 0, y: 0, z: 0 }),
{
    lemma_rounds_len(j, l, t, true, (k - 1) as nat);
    lemma_round_ground_lock(spec_rounds(j, l, t, true, (k - 1) as nat), l, t);
}

/// The interior-angle array of the current joints.
fn compute_angles(joints: &Vec<Vec3Fix>) -> (a: Vec<i64>)
    requires
        points_ok(joints@),
    ensures
        a@ == spec_angles_of(joints@),
        angles_ok(a@),
{
    let n: usize = joints.len();
    let mut a: Vec<i64> = Vec::new();
    if n == 0 {
        proof {
            assert(a@ =~= spec_angles_of(joints@));
        }
        return a;
    }
    a.push(PI_FIX);
    let mut i: usize = 1;
    while i < n - 1
        invariant
            1 <= i,
            i <= n,
            n >= 2 ==> i <= n - 1,
            n == joints@.len(),
            points_ok(joints@),
            a@.len() == i,
            a@[0] == PI_FIX,
            forall|k: int|
                1 <= k < i ==> #[trigger] a@[k] == spec_angle_points(
                    joints@[k - 1],
                    joints@[k],
                    joints@[k + 1],
                ),
            forall|k: int| 0 <= k < i ==> 0 <= #[trigger] a@[k] <= ANGLE_LIMIT,
        decreases n - i,
    {
        let ang: i64 = angle_points(joints[i - 1], joints[i], joints[i + 1]);
        a.push(ang);
        i = i + 1;
    }
    if n >= 2 {
        a.push(PI_FIX);
    }
    proof {
        assert(a@ =~= spec_angles_of(joints@));
    }
    a
}

/// The angular velocities for one recompute step.
fn compute_velocities(angles: &Vec<i64>, prev: &Vec<i64>, prev_time: Option<u64>, now: u64) -> (v:
    Vec<i64>)
    requires
        prev@.len() == angles@.len(),
        angles_ok(angles@),
        angles_ok(prev@),
    ensures
        v@ == spec_velocities(angles@, prev@, prev_time, now),
{
    match prev_time {
        Option::None => {
            let v: Vec<i64> = Vec::new();
            proof {
                assert(v@ =~= spec_velocities(angles@, prev@, prev_time, now));
            }
            v
        },
        Option::Some(t) => {
            if now <= t {
                let v: Vec<i64> = Vec::new();
                proof {
                    assert(v@ =~= spec_velocities(angles@, prev@, prev_time, now));
                }
                v
            } else {
                let dt: u64 = now - t;
                let n: usize = prev.len();
                let mut v: Vec<i64> = Vec::new();
                let mut i: usize = 0;
                while i < n
                    invariant
                        0 <= i <= n,
                        n == prev@.len(),
                        prev@.len() == angles@.len(),
                        angles_ok(angles@),
                        angles_ok(prev@),
                        dt == now - t,
                        dt >= 1,
                        v@.len() == i,
                        forall|k: int|
                            0 <= k < i ==> #[trigger] v@[k] == tdiv(
                                (angles@[k] - prev@[k]) * (SCALE as int),
                                dt as int,
                            ) as i64,
                    decreases n - i,
                {
                    let diff: i64 = angles[i] - prev[i];
                    proof {
                        assert(-3_000_000_000_000_000_000 <= (diff as int) * (SCALE as int)
                            <= 3_000_000_000_000_000_000) by (nonlinear_arith)
                            requires
                                -2_097_152_000_000 <= diff <= 2_097_152_000_000,
                                SCALE == 1_000_000i64,
                        ;
                    }
                    let q: i128 = tdiv_i128((diff as i128) * (SCALE as i128), dt as i128);
                    v.push(q as i64);
                    i = i + 1;
                }
                proof {
                    assert(v@ =~= spec_velocities(angles@, prev@, prev_time, now));
                }
                v
            }
        },
    }
}

/// The forward-kinematics correction quantities against the fantasy
/// joints.
fn compute_corrections(fj: &Vec<Vec3Fix>, j: &Vec<Vec3Fix>, a: &Vec<i64>) -> (q: Vec<Vec3Fix>)
    requires
        points_ok(fj@),
        points_ok(j@),
        fj@.len() == j@.len(),
        a@.len() == j@.len(),
        forall|i: int| 0 <= i < a@.len() ==> 0 <= #[trigger] a@[i],
    ensures
        q@ == spec_corrections(fj@, j@, a@),
{
    let n: usize = j.len();
    let mut q: Vec<Vec3Fix> = Vec::new();
    let mut i: usize = 0;
    while i < n
        invariant
            0 <= i <= n,
            n == j@.len(),
            fj@.len() == j@.len(),
            a@.len() == j@.len(),
            points_ok(fj@),
            points_ok(j@),
            forall|k: int| 0 <= k < a@.len() ==> 0 <= #[trigger] a@[k],
            q@.len() == i,
            forall|k: int|
                0 <= k < i ==> #[trigger] q@[k] == spec_correction(fj@[k], j@[k], a@[k]),
        decreases n - i,
    {
        let u: Vec3Fix = unit_from(j[i], fj[i]);
        let ang: i64 = a[i];
        let c: Vec3Fix = if ang == 0 {
            Vec3Fix { x: 0, y: 0, z: 0 }
        } else {
            proof {
                assert(-1_000_000_000_000 <= (u.x as int) * (SCALE as int) <= 1_000_000_000_000
                    && -1_000_000_000_000 <= (u.y as int) * (SCALE as int) <= 1_000_000_000_000
                    && -1_000_000_000_000 <= (u.z as int) * (SCALE as int) <= 1_000_000_000_000)
                    by (nonlinear_arith)
                    requires
                        u.spec_small(SCALE as int),
                        SCALE == 1_000_000i64,
                ;
            }
            let cx: i128 = tdiv_i128((u.x as i128) * (SCALE as i128), ang as i128);
            let cy: i128 = tdiv_i128((u.y as i128) * (SCALE as i128), ang as i128);
            let cz: i128 = tdiv_i128((u.z as i128) * (SCALE as i128), ang as i128);
            Vec3Fix { x: cx as i64, y: cy as i64, z: cz as i64 }
        };
        q.push(c);
        i = i + 1;
    }
    proof {
        assert(q@ =~= spec_corrections(fj@, j@, a@));
    }
    q
}

/// Chains equal in value are equally well-formed.
pub proof fn lemma_chain_eq_wf(a: FabrikChain, b: FabrikChain)
    requires
        chain_eq(a, b),
        b.wf(),
    ensures
        a.wf(),
    decreases a,
{
    assert(a.wf_local());
    match (a.fantasy_limb, b.fantasy_limb) {
        (Option::Some(x), Option::Some(y)) => {
            assert(chain_eq(*x, *y));
            assert((*y).wf());
            lemma_chain_eq_wf(*x, *y);
            assert((*x).wf() && (*x).joints@.len() == a.joints@.len());
        },
        _ => {},
    }
    match (a.initial_state, b.initial_state) {
        (Option::Some(x), Option::Some(y)) => {
            assert(chain_eq(*x, *y));
            assert((*y).wf());
            lemma_chain_eq_wf(*x, *y);
            assert((*x).wf() && (*x).joints@.len() == a.joints@.len());
        },
        _ => {},
    }
}

/// An element-wise copy of a vector of plain values.
pub(crate) fn copy_vec<T: Copy>(v: &Vec<T>) -> (r: Vec<T>)
    ensures
        r@ == v@,
{
    let mut r: Vec<T> = Vec::new();
    let mut i: usize = 0;
    while i < v.len()
        invariant
            0 <= i <= v@.len(),
            r@ =~= v@.take(i as int),
        decreases v@.len() - i,
    {
        let x: T = v[i];
        r.push(x);
        proof {
            assert(r@ =~= v@.take(i as int + 1));
        }
        i = i + 1;
    }
    proof {
        assert(v@.take(v@.len() as int) =~= v@);
    }
    r
}

/// The segment transforms derived from the current joints.
fn compute_transforms(joints: &Vec<Vec3Fix>) -> (t: Vec<SegTransform>)
    requires
        points_ok(joints@),
    ensures
        t@ == spec_transforms_of(joints@),
{
    let n: usize = joints.len();
    let mut t: Vec<SegTransform> = Vec::new();
    let mut i: usize = 1;
    while i < n
        invariant
            1 <= i <= n || (n == 0 && i == 1),
            n == joints@.len(),
            points_ok(joints@),
            t@.len() == (if i > n { 0int } else { i - 1 }),
            forall|k: int|
                0 <= k < t@.len() ==> #[trigger] t@[k] == spec_transform(
                    joints@[k + 1],
                    joints@[k],
                ),
        decreases n - i,
    {
        let tr: SegTransform = transform_of(joints[i], joints[i - 1]);
        t.push(tr);
        i = i + 1;
    }
    proof {
        assert(t@ =~= spec_transforms_of(joints@));
    }
    t
}

/// The rendering transform of one segment; `a` is the later joint, `b`
/// the earlier one.
fn transform_of(a: Vec3Fix, b: Vec3Fix) -> (t: SegTransform)
    requires
        a.spec_in_range(),
        b.spec_in_range(),
    ensures
        t == spec_transform(a, b),
{
    let up = Vec3Fix { x: 0, y: SCALE, z: 0 };
    let fwd = Vec3Fix { x: 0, y: 0, z: SCALE };
    let zero = Vec3Fix { x: 0, y: 0, z: 0 };
    let prim: Vec3Fix = if a == b {
        up
    } else {
        unit_from(a, b)
    };
    let c1: Vec3Fix = cross_fix(prim, up);
    let c1f: Vec3Fix = if c1 == zero {
        cross_fix(prim, fwd)
    } else {
        c1
    };
    let sec0: Vec3Fix = unit_of_vec(c1f);
    let sec: Vec3Fix = if sec0 == zero {
        fwd
    } else {
        sec0
    };
    let c2: Vec3Fix = cross_fix(prim, sec);
    let ter0: Vec3Fix = unit_of_vec(c2);
    let ter: Vec3Fix = if ter0 == zero {
        up
    } else {
        ter0
    };
    let mx: i64 = crate::fixed::mid_coord(a.x, b.x);
    let my: i64 = crate::fixed::mid_coord(a.y, b.y);
    let mz: i64 = crate::fixed::mid_coord(a.z, b.z);
    SegTransform {
        midpoint: Vec3Fix { x: mx, y: my, z: mz },
        axis_x: sec,
        axis_y: Vec3Fix { x: -prim.x, y: -prim.y, z: -prim.z },
        axis_z: ter,
    }
}

} // verus!
