//! The node-list solver draft: a limb is a flat list of nodes — termini,
//! joints, segments, and nested limbs — and one satisficing call pins the
//! end terminus to a target and sweeps the list forward, re-placing each
//! positioned node at the previous segment's length from the previous
//! position.

use vstd::prelude::*;

use crate::fixed::{
    scale_dir, spec_clamp, spec_pulled, unit_from, Vec3Fix, LEN_LIMIT,
};

verus! {

/// Errors of limb construction and traversal.
#[derive(Debug, Clone, PartialEq, Eq, Structural)]
pub enum LimbError {
    InvalidNode,
}

/// A flat list of limb nodes; the last one is the end effector.
#[derive(Debug, Default)]
pub struct Limb(pub Vec<LimbNode>);

/// One entry of a limb's node list.
#[derive(Debug)]
pub enum LimbNode {
    Joint(Joint),
    Segment(Segment),
    Terminus(Terminus),
    Limb(Limb),
}

/// Which end of the limb a terminus marks.
#[derive(Debug, Clone, Copy, PartialEq, Eq, Structural)]
pub enum TerminusType {
    EndEffector,
    Ground,
}

/// A position value carried by the positioned nodes.
#[derive(Debug, Clone, Copy, PartialEq, Eq, Structural)]
pub struct Position(pub Vec3Fix);

impl From<Vec3Fix> for Position {
    fn from(v: Vec3Fix) -> (r: Position) {
        Position(v)
    }
}

impl vstd::std_specs::convert::FromSpecImpl<Vec3Fix> for Position {
    open spec fn obeys_from_spec() -> bool {
        true
    }

    open spec fn from_spec(v: Vec3Fix) -> Position {
        Position(v)
    }
}

/// An endpoint of the limb.
#[derive(Debug, Clone, Copy, PartialEq, Eq, Structural)]
pub struct Terminus {
    pub terminus_type: TerminusType,
    pub pos: Position,
}

impl Terminus {
    pub fn new(terminus_type: TerminusType, pos: Position) -> (r: Terminus)
        ensures
            r == (Terminus { terminus_type, pos }),
    {
        Terminus { terminus_type, pos }
    }
}

/// A rigid link of a fixed length.
#[derive(Debug, Clone, Copy, PartialEq, Eq, Structural)]
pub struct Segment {
    pub length: i64,
}

impl Segment {
    pub fn new(length: i64) -> (r: Segment)
        requires
            0 <= length <= LEN_LIMIT,
        ensures
            r == (Segment { length }),
    {
        Segment { length }
    }
}

/// An articulation point of the limb.
#[derive(Debug, Clone, Copy, PartialEq, Eq, Structural)]
pub struct Joint {
    pub pos: Position,
}

impl Joint {
    pub fn new(pos: Position) -> (r: Joint)
        ensures
            r == (Joint { pos }),
    {
        Joint { pos }
    }
}

/// Errors surfaced by `satisfice`.
#[derive(Debug, Clone, PartialEq, Eq, Structural)]
pub enum SatisficeError {
    EndIsNotTerminus,
    LimbIsEmpty,
    InvalidSegment,
    InvalidLimb { source: LimbError },
}

/// Traversal phases of the bouncing computation; carried for callers,
/// not consumed by the solver itself.
#[derive(Debug, Clone, Copy)]
pub enum MathState {
    Initialization,
    Bouncing,
    BounceBack,
}

/// The iteration budget of a full bounce over a node list: twice the list
/// with one extra step for the turn.
#[inline]
pub fn compute_iterations(bounce_iterations: usize, length: usize) -> (r: usize)
    requires
        length >= 1,
        bounce_iterations * (length - 1) * 2 + 1 <= usize::MAX,
    ensures
        r == bounce_iterations * (length - 1) * 2 + 1,
{
    proof {
        assert(0 <= bounce_iterations * ((length - 1) as int) <= bounce_iterations * ((length
            - 1) as int) * 2) by (nonlinear_arith)
            requires
                length >= 1,
        ;
    }
    bounce_iterations * (length - 1) * 2 + 1
}

// ---------------------------------------------------------------------------
// Well-formedness
// ---------------------------------------------------------------------------

/// Range constraints of one node, through nested limbs.
pub open spec fn node_wf(n: LimbNode) -> bool
    decreases n,
{
    match n {
        LimbNode::Joint(j) => j.pos.0.spec_in_range(),
        LimbNode::Terminus(t) => t.pos.0.spec_in_range(),
        LimbNode::Segment(s) => 0 <= s.length <= LEN_LIMIT,
        LimbNode::Limb(l) => limb_wf(l),
    }
}

/// A nested limb must be non-empty, start with a positioned node, and
/// hold only well-formed nodes.
pub open spec fn limb_wf(l: Limb) -> bool
    decreases l,
{
    l.0@.len() > 0 && (l.0@[0] is Terminus || l.0@[0] is Joint) && (forall|i: int|
        0 <= i < l.0@.len() ==> node_wf(#[trigger] l.0@[i]))
}

pub open spec fn nodes_all_wf(s: Seq<LimbNode>) -> bool {
    forall|i: int| 0 <= i < s.len() ==> node_wf(#[trigger] s[i])
}

pub open spec fn opt_pos_ok(pp: Option<Position>) -> bool {
    match pp {
        Option::Some(q) => q.0.spec_in_range(),
        Option::None => true,
    }
}

pub open spec fn opt_seg_ok(ps: Option<Segment>) -> bool {
    match ps {
        Option::Some(s) => 0 <= s.length <= LEN_LIMIT,
        Option::None => true,
    }
}

/// The position of a limb: the position of its first node.
pub open spec fn limb_spec_pos(l: Limb) -> Position {
    match l.0@[0] {
        LimbNode::Terminus(t) => t.pos,
        LimbNode::Joint(j) => j.pos,
        _ => Position(Vec3Fix { x: 0, y: 0, z: 0 }),
    }
}

/// The sweep's placement target: the current position re-placed on the
/// ray from the previous position toward it, at the previous segment's
/// length (unchanged when the two coincide).
pub open spec fn pull_target(cur: Position, q: Position, len: i64) -> Position {
    Position(spec_pulled(q.0, cur.0, len, cur.0))
}

// ---------------------------------------------------------------------------
// Moving a limb: translation of every nested node
// ---------------------------------------------------------------------------

/// `post` is `pre` translated by `(dx, dy, dz)` with saturating
/// coordinates; a nested limb is re-anchored at `p` with its own offset.
pub open spec fn node_moved(
    pre: LimbNode,
    post: LimbNode,
    p: Position,
    dx: int,
    dy: int,
    dz: int,
) -> bool
    decreases pre,
{
    match pre {
        LimbNode::Joint(a) => post == LimbNode::Joint(
            Joint {
                pos: Position(
                    Vec3Fix {
                        x: spec_clamp(a.pos.0.x + dx),
                        y: spec_clamp(a.pos.0.y + dy),
                        z: spec_clamp(a.pos.0.z + dz),
                    },
                ),
            },
        ),
        LimbNode::Terminus(a) => post == LimbNode::Terminus(
            Terminus {
                terminus_type: a.terminus_type,
                pos: Position(
                    Vec3Fix {
                        x: spec_clamp(a.pos.0.x + dx),
                        y: spec_clamp(a.pos.0.y + dy),
                        z: spec_clamp(a.pos.0.z + dz),
                    },
                ),
            },
        ),
        LimbNode::Segment(_) => post == pre,
        LimbNode::Limb(a) => (post matches LimbNode::Limb(b) && limb_moved(a, b, p)),
    }
}

/// `post` is `pre` moved so that its first node sits at `p`.
pub open spec fn limb_moved(pre: Limb, post: Limb, p: Position) -> bool
    decreases pre,
{
    let cur = limb_spec_pos(pre);
    post.0@.len() == pre.0@.len() && (forall|i: int|
        0 <= i < pre.0@.len() ==> node_moved(
            #[trigger] pre.0@[i],
            post.0@[i],
            p,
            p.0.x - cur.0.x,
            p.0.y - cur.0.y,
            p.0.z - cur.0.z,
        ))
}

// ---------------------------------------------------------------------------
// The positioned-node protocol
// ---------------------------------------------------------------------------

/// Anything in the node list that carries a position and can take part in
/// the satisficing sweep.
pub trait Positioned: Sized {
    /// When the position is defined and in range.
    spec fn pwf(&self) -> bool;

    /// The carried position.
    spec fn spec_pos(&self) -> Position;

    /// How `set_pos` relates the state before and after.
    spec fn set_rel(pre: Self, post: Self, p: Position) -> bool;

    fn pos(&self) -> (p: Position)
        requires
            self.pwf(),
        ensures
            p == self.spec_pos(),
            p.0.spec_in_range(),
    ;

    fn set_pos(&mut self, p: Position)
        requires
            old(self).pwf(),
            p.0.spec_in_range(),
        ensures
            Self::set_rel(*old(self), *final(self), p),
            final(self).pwf(),
            final(self).spec_pos() == p,
    ;

    /// One sweep step.  With both a previous position and a previous
    /// segment at hand, move this node to the placement target; either
    /// way, leave this node's position as the new previous position.
    fn update_pos(&mut self, prev_position: &mut Option<Position>, prev_segment: &Option<Segment>)
        requires
            old(self).pwf(),
            opt_pos_ok(*old(prev_position)),
            opt_seg_ok(*prev_segment),
        ensures
            (match (*old(prev_position), *prev_segment) {
                (Option::Some(q), Option::Some(s)) => Self::set_rel(
                    *old(self),
                    *final(self),
                    pull_target(old(self).spec_pos(), q, s.length),
                ),
                _ => *final(self) == *old(self),
            }),
            final(self).pwf(),
            *final(prev_position) == (match (*old(prev_position), *prev_segment) {
                (Option::Some(q), Option::Some(s)) => Option::Some(
                    pull_target(old(self).spec_pos(), q, s.length),
                ),
                _ => Option::Some(old(self).spec_pos()),
            }),
            opt_pos_ok(*final(prev_position)),
    {
        let cur: Position = self.pos();
        match (&*prev_position, prev_segment) {
            (Option::Some(q), Option::Some(s)) => {
                let t: Vec3Fix = if q.0 == cur.0 {
                    cur.0
                } else {
                    scale_dir(unit_from(q.0, cur.0), s.length)
                };
                self.set_pos(Position(t));
            },
            _ => {},
        }
        let newp: Position = self.pos();
        *prev_position = Option::Some(newp);
    }
}

impl Positioned for Terminus {
    open spec fn pwf(&self) -> bool {
        self.pos.0.spec_in_range()
    }

    open spec fn spec_pos(&self) -> Position {
        self.pos
    }

    open spec fn set_rel(pre: Terminus, post: Terminus, p: Position) -> bool {
        post == (Terminus { terminus_type: pre.terminus_type, pos: p })
    }

    fn pos(&self) -> (p: Position) {
        self.pos
    }

    fn set_pos(&mut self, p: Position) {
        self.pos = p;
    }
}

impl Positioned for Joint {
    open spec fn pwf(&self) -> bool {
        self.pos.0.spec_in_range()
    }

    open spec fn spec_pos(&self) -> Position {
        self.pos
    }

    open spec fn set_rel(pre: Joint, post: Joint, p: Position) -> bool {
        post == (Joint { pos: p })
    }

    fn pos(&self) -> (p: Position) {
        self.pos
    }

    fn set_pos(&mut self, p: Position) {
        self.pos = p;
    }
}

impl Positioned for Limb {
    open spec fn pwf(&self) -> bool {
        limb_wf(*self)
    }

    open spec fn spec_pos(&self) -> Position {
        limb_spec_pos(*self)
    }

    open spec fn set_rel(pre: Limb, post: Limb, p: Position) -> bool {
        limb_moved(pre, post, p)
    }

    fn pos(&self) -> (p: Position) {
        let n: &LimbNode = &self.0[0];
        match n {
            LimbNode::Terminus(t) => t.pos,
            LimbNode::Joint(j) => j.pos,
            _ => vstd::pervasive::unreached(),
        }
    }

    fn set_pos(&mut self, p: Position) {
        let moved: Limb = translate_limb(&*self, p);
        *self = moved;
    }
}

/// A limb re-anchored at `p`: every positioned node translated by the
/// offset of `p` from the limb's first node, saturating at the
/// coordinate range; nested limbs re-anchored at `p` in turn.
fn translate_limb(l: &Limb, p: Position) -> (r: Limb)
    requires
        limb_wf(*l),
        p.0.spec_in_range(),
    ensures
        limb_moved(*l, r, p),
        limb_wf(r),
        limb_spec_pos(r) == p,
    decreases *l,
{
    let cur: Position = match &l.0[0] {
        LimbNode::Terminus(t) => t.pos,
        LimbNode::Joint(j) => j.pos,
        _ => vstd::pervasive::unreached(),
    };
    let dx: i64 = p.0.x - cur.0.x;
    let dy: i64 = p.0.y - cur.0.y;
    let dz: i64 = p.0.z - cur.0.z;
    let n: usize = l.0.len();
    let mut out: Vec<LimbNode> = Vec::new();
    let mut i: usize = 0;
    while i < n
        invariant
            0 <= i <= n,
            n == l.0@.len(),
            limb_wf(*l),
            p.0.spec_in_range(),
            dx == p.0.x - limb_spec_pos(*l).0.x,
            dy == p.0.y - limb_spec_pos(*l).0.y,
            dz == p.0.z - limb_spec_pos(*l).0.z,
            out@.len() == i,
            forall|k: int|
                0 <= k < i ==> node_moved(
                    #[trigger] l.0@[k],
                    out@[k],
                    p,
                    dx as int,
                    dy as int,
                    dz as int,
                ) && node_wf(out@[k]),
        decreases n - i,
    {
        let moved: LimbNode = translate_node(&l.0[i], p, dx, dy, dz);
        out.push(moved);
        i = i + 1;
    }
    let r = Limb(out);
    proof {
        assert forall|k: int| 0 <= k < r.0@.len() implies node_wf(#[trigger] r.0@[k]) by {
            assert(node_moved(l.0@[k], r.0@[k], p, dx as int, dy as int, dz as int) && node_wf(
                r.0@[k],
            ));
        }
        assert(node_moved(l.0@[0], r.0@[0], p, dx as int, dy as int, dz as int));
        match l.0@[0] {
            LimbNode::Terminus(t) => {
                assert(t.pos == limb_spec_pos(*l));
                assert(spec_clamp(t.pos.0.x + dx) == p.0.x && spec_clamp(t.pos.0.y + dy) == p.0.y
                    && spec_clamp(t.pos.0.z + dz) == p.0.z);
                assert(limb_spec_pos(r) == p);
            },
            LimbNode::Joint(j) => {
                assert(j.pos == limb_spec_pos(*l));
                assert(spec_clamp(j.pos.0.x + dx) == p.0.x && spec_clamp(j.pos.0.y + dy) == p.0.y
                    && spec_clamp(j.pos.0.z + dz) == p.0.z);
                assert(limb_spec_pos(r) == p);
            },
            _ => {
                assert(false);
            },
        }
    }
    r
}

/// One node translated by `(dx, dy, dz)`; a nested limb is re-anchored
/// at `p`.
fn translate_node(node: &LimbNode, p: Position, dx: i64, dy: i64, dz: i64) -> (r: LimbNode)
    requires
        node_wf(*node),
        p.0.spec_in_range(),
        -0x4000_0000_0000_0000 <= dx as int <= 0x4000_0000_0000_0000,
        -0x4000_0000_0000_0000 <= dy as int <= 0x4000_0000_0000_0000,
        -0x4000_0000_0000_0000 <= dz as int <= 0x4000_0000_0000_0000,
    ensures
        node_moved(*node, r, p, dx as int, dy as int, dz as int),
        node_wf(r),
    decreases *node,
{
    match node {
        LimbNode::Joint(a) => LimbNode::Joint(
            Joint { pos: Position(translate_point(a.pos.0, dx, dy, dz)) },
        ),
        LimbNode::Terminus(a) => LimbNode::Terminus(
            Terminus {
                terminus_type: a.terminus_type,
                pos: Position(translate_point(a.pos.0, dx, dy, dz)),
            },
        ),
        LimbNode::Segment(s) => LimbNode::Segment(Segment { length: s.length }),
        LimbNode::Limb(a) => LimbNode::Limb(translate_limb(a, p)),
    }
}

/// A point translated with saturating coordinates.
fn translate_point(v: Vec3Fix, dx: i64, dy: i64, dz: i64) -> (r: Vec3Fix)
    requires
        v.spec_in_range(),
        -0x4000_0000_0000_0000 <= dx as int <= 0x4000_0000_0000_0000,
        -0x4000_0000_0000_0000 <= dy as int <= 0x4000_0000_0000_0000,
        -0x4000_0000_0000_0000 <= dz as int <= 0x4000_0000_0000_0000,
    ensures
        r == (Vec3Fix {
            x: spec_clamp(v.x + dx),
            y: spec_clamp(v.y + dy),
            z: spec_clamp(v.z + dz),
        }),
        r.spec_in_range(),
{
    Vec3Fix {
        x: crate::fixed::clamp_add(v.x, dx),
        y: crate::fixed::clamp_add(v.y, dy),
        z: crate::fixed::clamp_add(v.z, dz),
    }
}

// ---------------------------------------------------------------------------
// The satisficing sweep
// ---------------------------------------------------------------------------

/// The position a node leaves behind for the next sweep step.
pub open spec fn node_pos(n: LimbNode) -> Position {
    match n {
        LimbNode::Joint(j) => j.pos,
        LimbNode::Terminus(t) => t.pos,
        LimbNode::Limb(l) => limb_spec_pos(l),
        LimbNode::Segment(_) => Position(Vec3Fix { x: 0, y: 0, z: 0 }),
    }
}

/// How one sweep step relates a node before and after.
pub open spec fn node_stepped(
    pre: LimbNode,
    post: LimbNode,
    pp: Option<Position>,
    ps: Option<Segment>,
) -> bool {
    match pre {
        LimbNode::Segment(_) => post == pre,
        LimbNode::Joint(a) => match (pp, ps) {
            (Option::Some(q), Option::Some(s)) => post == LimbNode::Joint(
                Joint { pos: pull_target(a.pos, q, s.length) },
            ),
            _ => post == pre,
        },
        LimbNode::Terminus(a) => match (pp, ps) {
            (Option::Some(q), Option::Some(s)) => post == LimbNode::Terminus(
                Terminus {
                    terminus_type: a.terminus_type,
                    pos: pull_target(a.pos, q, s.length),
                },
            ),
            _ => post == pre,
        },
        LimbNode::Limb(a) => match (pp, ps) {
            (Option::Some(q), Option::Some(s)) => (post matches LimbNode::Limb(b) && limb_moved(
                a,
                b,
                pull_target(limb_spec_pos(a), q, s.length),
            )),
            _ => post == pre,
        },
    }
}

/// The previous position after one step over `pre`.
pub open spec fn step_pp(
    pre: LimbNode,
    pp: Option<Position>,
    ps: Option<Segment>,
) -> Option<Position> {
    match pre {
        LimbNode::Segment(_) => pp,
        _ => match (pp, ps) {
            (Option::Some(q), Option::Some(s)) => Option::Some(
                pull_target(node_pos(pre), q, s.length),
            ),
            _ => Option::Some(node_pos(pre)),
        },
    }
}

/// The previous segment after one step over `pre`.
pub open spec fn step_ps(pre: LimbNode, ps: Option<Segment>) -> Option<Segment> {
    match pre {
        LimbNode::Segment(s) => Option::Some(s),
        _ => ps,
    }
}

/// The previous segment after the first `i` steps of the sweep.
pub open spec fn ps_after(s: Seq<LimbNode>, i: int) -> Option<Segment>
    decreases i,
{
    if i <= 0 {
        Option::None
    } else {
        step_ps(s[i - 1], ps_after(s, i - 1))
    }
}

/// The previous position after the first `i` steps of the sweep.
pub open spec fn pp_after(s: Seq<LimbNode>, i: int) -> Option<Position>
    decreases i,
{
    if i <= 0 {
        Option::None
    } else {
        step_pp(s[i - 1], pp_after(s, i - 1), ps_after(s, i - 1))
    }
}

/// The node list with its end terminus pinned to `p`.
pub open spec fn spec_pin_last(s: Seq<LimbNode>, p: Position) -> Seq<LimbNode> {
    match s.last() {
        LimbNode::Terminus(t) => s.update(
            s.len() - 1,
            LimbNode::Terminus(Terminus { terminus_type: t.terminus_type, pos: p }),
        ),
        _ => s,
    }
}

impl Limb {
    /// Read access to the node list.
    pub fn nodes(&self) -> (r: &Vec<LimbNode>)
        ensures
            r@ == self.0@,
    {
        &self.0
    }

    /// A limb of `num_joints` joints stacked along world-up, between a
    /// ground terminus at the origin and an end-effector terminus, with
    /// unit segments between all of them.
    pub fn new(num_joints: usize) -> (r: Limb)
        requires
            num_joints <= 1_000_000_000,
        ensures
            r.0@ == spec_initial_nodes(num_joints as nat),
            nodes_all_wf(r.0@),
            r.0@.len() == 2 * num_joints + 3,
    {
        let mut v: Vec<LimbNode> = Vec::new();
        v.push(
            LimbNode::Terminus(
                Terminus::new(TerminusType::Ground, Position::from(Vec3Fix::zero())),
            ),
        );
        v.push(LimbNode::Segment(Segment::new(crate::fixed::SCALE)));
        let mut i: usize = 0;
        while i < num_joints
            invariant
                0 <= i <= num_joints,
                num_joints <= 1_000_000_000,
                v@.len() == 2 * i + 2,
                forall|k: int|
                    0 <= k < v@.len() ==> #[trigger] v@[k] == spec_initial_nodes(
                        num_joints as nat,
                    )[k] && node_wf(v@[k]),
            decreases num_joints - i,
        {
            proof {
                assert(0 <= (i as int) * (crate::fixed::SCALE as int)
                    <= 1_000_000_000_000_000) by (nonlinear_arith)
                    requires
                        0 <= i <= 1_000_000_000,
                ;
            }
            let y: i64 = (i as i64) * crate::fixed::SCALE;
            v.push(LimbNode::Joint(Joint::new(Position::from(Vec3Fix::new(0, y, 0)))));
            v.push(LimbNode::Segment(Segment::new(crate::fixed::SCALE)));
            i = i + 1;
        }
        proof {
            assert(0 <= (num_joints as int) * (crate::fixed::SCALE as int)
                <= 1_000_000_000_000_000) by (nonlinear_arith)
                requires
                    0 <= num_joints <= 1_000_000_000,
            ;
        }
        let ye: i64 = (num_joints as i64) * crate::fixed::SCALE;
        v.push(
            LimbNode::Terminus(
                Terminus::new(TerminusType::EndEffector, Position::from(Vec3Fix::new(0, ye, 0))),
            ),
        );
        proof {
            assert(v@ =~= spec_initial_nodes(num_joints as nat));
        }
        Limb(v)
    }
}

/// The node layout that `Limb::new` builds.
pub open spec fn spec_initial_nodes(num_joints: nat) -> Seq<LimbNode> {
    Seq::new(
        2 * num_joints + 3,
        |k: int|
            if k == 0 {
                LimbNode::Terminus(
                    Terminus {
                        terminus_type: TerminusType::Ground,
                        pos: Position(Vec3Fix { x: 0, y: 0, z: 0 }),
                    },
                )
            } else if k == 2 * num_joints + 2 {
                LimbNode::Terminus(
                    Terminus {
                        terminus_type: TerminusType::EndEffector,
                        pos: Position(
                            Vec3Fix {
                                x: 0,
                                y: (num_joints * (crate::fixed::SCALE as int)) as i64,
                                z: 0,
                            },
                        ),
                    },
                )
            } else if k % 2 == 1 {
                LimbNode::Segment(Segment { length: crate::fixed::SCALE })
            } else {
                LimbNode::Joint(
                    Joint {
                        pos: Position(
                            Vec3Fix {
                                x: 0,
                                y: (((k - 2) / 2) * (crate::fixed::SCALE as int)) as i64,
                                z: 0,
                            },
                        ),
                    },
                )
            },
    )
}

/// The satisficing solver: a limb plus its bounce budget.
#[derive(Debug, Default)]
pub struct IKSatisficer {
    bounce_iterations: usize,
    iterations: usize,
    limb: Limb,
}

impl IKSatisficer {
    pub closed spec fn spec_nodes(&self) -> Seq<LimbNode> {
        self.limb.0@
    }

    pub closed spec fn spec_bounce_iterations(&self) -> usize {
        self.bounce_iterations
    }

    pub closed spec fn spec_iterations(&self) -> usize {
        self.iterations
    }

    /// Read access to the node list.
    pub fn nodes(&self) -> (r: &Vec<LimbNode>)
        ensures
            r@ == self.spec_nodes(),
    {
        self.limb.nodes()
    }

    /// Wrap a limb.  The bounce budget is fixed at one for now; the
    /// iteration budget is derived from the requested bounce count and
    /// the list length.
    pub fn new(bounce_iterations: usize, limb: Limb) -> (r: IKSatisficer)
        requires
            limb.0@.len() >= 1,
            bounce_iterations * (limb.0@.len() - 1) * 2 + 1 <= usize::MAX,
        ensures
            r.spec_bounce_iterations() == 1,
            r.spec_iterations() == bounce_iterations * (limb.0@.len() - 1) * 2 + 1,
            r.spec_nodes() == limb.0@,
    {
        let len: usize = limb.0.len();
        IKSatisficer {
            bounce_iterations: 1,
            iterations: compute_iterations(bounce_iterations, len),
            limb,
        }
    }

    /// One sweep step over one node: positioned nodes are re-placed,
    /// segments record themselves as the previous segment.
    fn handle_node(
        node: &mut LimbNode,
        prev_position: &mut Option<Position>,
        prev_segment: &mut Option<Segment>,
    ) -> (res: Result<(), SatisficeError>)
        requires
            node_wf(*old(node)),
            opt_pos_ok(*old(prev_position)),
            opt_seg_ok(*old(prev_segment)),
        ensures
            res is Ok,
            node_stepped(*old(node), *final(node), *old(prev_position), *old(prev_segment)),
            node_wf(*final(node)),
            *final(prev_position) == step_pp(
                *old(node),
                *old(prev_position),
                *old(prev_segment),
            ),
            *final(prev_segment) == step_ps(*old(node), *old(prev_segment)),
            opt_pos_ok(*final(prev_position)),
            opt_seg_ok(*final(prev_segment)),
    {
        match node {
            LimbNode::Joint(j) => j.update_pos(prev_position, prev_segment),
            LimbNode::Segment(s) => *prev_segment = Option::Some(*s),
            LimbNode::Terminus(t) => t.update_pos(prev_position, prev_segment),
            LimbNode::Limb(l) => l.update_pos(prev_position, prev_segment),
        }
        Result::Ok(())
    }

    /// Pin the end terminus to the target and sweep the node list
    /// forward once.  Fails with `LimbIsEmpty` on an empty node list and
    /// with `EndIsNotTerminus` when the last node is not a terminus; in
    /// both cases nothing changes.
    #[verifier::loop_isolation(false)]
    pub fn satisfice(&mut self, target_end_effector_pos: Position) -> (res: Result<
        (),
        SatisficeError,
    >)
        requires
            old(self).spec_bounce_iterations() == 1,
            nodes_all_wf(old(self).spec_nodes()),
            target_end_effector_pos.0.spec_in_range(),
        ensures
            final(self).spec_bounce_iterations() == old(self).spec_bounce_iterations(),
            final(self).spec_iterations() == old(self).spec_iterations(),
            nodes_all_wf(final(self).spec_nodes()),
            old(self).spec_nodes().len() == 0 ==> (res matches Result::Err(e) && e
                == SatisficeError::LimbIsEmpty && final(self).spec_nodes() == old(self).spec_nodes()),
            old(self).spec_nodes().len() > 0 && !(old(self).spec_nodes().last() is Terminus)
                ==> (res matches Result::Err(e) && e == SatisficeError::EndIsNotTerminus && final(self).spec_nodes() == old(self).spec_nodes()),
            old(self).spec_nodes().len() > 0 && old(self).spec_nodes().last() is Terminus ==> (res
                is Ok && final(self).spec_nodes().len() == old(self).spec_nodes().len() && (forall|i: int|
                0 <= i < old(self).spec_nodes().len() ==> node_stepped(
                    #[trigger] spec_pin_last(old(self).spec_nodes(), target_end_effector_pos)[i],
                    final(self).spec_nodes()[i],
                    pp_after(spec_pin_last(old(self).spec_nodes(), target_end_effector_pos), i),
                    ps_after(spec_pin_last(old(self).spec_nodes(), target_end_effector_pos), i),
                ))),
    {
        let len: usize = self.limb.0.len();
        if len == 0 {
            return Result::Err(SatisficeError::LimbIsEmpty);
        }
        let lt: Terminus = match &self.limb.0[len - 1] {
            LimbNode::Terminus(t) => *t,
            _ => {
                return Result::Err(SatisficeError::EndIsNotTerminus);
            },
        };
        self.limb.0[len - 1] = LimbNode::Terminus(
            Terminus { terminus_type: lt.terminus_type, pos: target_end_effector_pos },
        );
        let ghost pre = self.limb.0@;
        proof {
            assert(pre == spec_pin_last(old(self).spec_nodes(), target_end_effector_pos));
            assert forall|k: int| 0 <= k < pre.len() implies node_wf(#[trigger] pre[k]) by {
                if k != len - 1 {
                    assert(pre[k] == old(self).spec_nodes()[k]);
                }
            }
        }
        let mut prev_position: Option<Position> = Option::None;
        let mut prev_segment: Option<Segment> = Option::None;
        let mut i: usize = 0;
        while i < len
            invariant
                0 <= i <= len,
                self.limb.0@.len() == len,
                self.bounce_iterations == old(self).bounce_iterations,
                self.iterations == old(self).iterations,
                nodes_all_wf(self.limb.0@),
                prev_position == pp_after(pre, i as int),
                prev_segment == ps_after(pre, i as int),
                opt_pos_ok(prev_position),
                opt_seg_ok(prev_segment),
                forall|k: int| i <= k < len ==> #[trigger] self.limb.0@[k] == pre[k],
                forall|k: int|
                    0 <= k < i ==> node_stepped(
                        #[trigger] pre[k],
                        self.limb.0@[k],
                        pp_after(pre, k),
                        ps_after(pre, k),
                    ),
            decreases len - i,
        {
            let node: &mut LimbNode = vstd::std_specs::vec::vec_index_mut(&mut self.limb.0, i);
            Self::handle_node(node, &mut prev_position, &mut prev_segment)?;
            i = i + 1;
        }
        Result::Ok(())
    }
}

} // verus!
