//! A segment-list limb: each segment carries its own start and end point
//! and a fixed length.  Its solver runs a fixed number of bounces, each a
//! backward sweep from the target followed by a forward sweep from the
//! grounded root.

use vstd::prelude::*;

use crate::fixed::{scale_dir, spec_pulled, unit_from, Vec3Fix, LEN_LIMIT, SCALE};

verus! {

/// Errors surfaced by the limb solver.
#[derive(Clone, Copy, Debug, PartialEq, Eq, Structural)]
pub enum SolveError {
    EmptyLimb,
}

/// A rigid link with its two endpoints.
#[derive(Clone, Copy, Debug, Default, PartialEq, Eq, Structural)]
pub struct Segment {
    pub start: Vec3Fix,
    pub end: Vec3Fix,
    pub length: i64,
}

/// A chain of segments reaching for `target`.
#[derive(Debug, Default)]
pub struct Limb {
    pub segments: Vec<Segment>,
    pub target: Vec3Fix,
    pub bounces: usize,
}

pub open spec fn segs_ok(s: Seq<Segment>) -> bool {
    forall|i: int| 0 <= i < s.len() ==> seg_in_range(#[trigger] s[i])
}

/// The initial layout: `n` unit segments stacked along the world-up axis.
pub open spec fn spec_init_segments(n: nat) -> Seq<Segment> {
    Seq::new(
        n,
        |i: int|
            Segment {
                start: Vec3Fix { x: 0, y: (i * (SCALE as int)) as i64, z: 0 },
                end: Vec3Fix { x: 0, y: ((i + 1) * (SCALE as int)) as i64, z: 0 },
                length: SCALE,
            },
    )
}

/// The backward sweep, after processing indices `s.len() - 1` down to `i`:
/// each segment's end is pulled toward its start, and the next segment's
/// end is snapped to this segment's start.
pub open spec fn spec_bwd_down(s: Seq<Segment>, i: int) -> Seq<Segment>
    decreases s.len() - i,
{
    if i < 0 || i >= s.len() {
        s
    } else {
        let p = spec_bwd_down(s, i + 1);
        let cur = p[i];
        let newend = spec_pulled(cur.end, cur.start, cur.length, cur.end);
        let p2 = p.update(i, Segment { start: cur.start, end: newend, length: cur.length });
        if i + 1 < s.len() {
            p2.update(
                i + 1,
                Segment { start: p2[i + 1].start, end: cur.start, length: p2[i + 1].length },
            )
        } else {
            p2
        }
    }
}

/// The forward sweep, after processing the first `i` indices: each
/// segment's start is pulled toward its end, and the next segment's start
/// is snapped to this segment's end.
pub open spec fn spec_fwd_up(s: Seq<Segment>, i: int) -> Seq<Segment>
    decreases i,
{
    if i <= 0 || i > s.len() {
        s
    } else {
        let p = spec_fwd_up(s, i - 1);
        let idx = i - 1;
        let cur = p[idx];
        let newstart = spec_pulled(cur.start, cur.end, cur.length, cur.start);
        let p2 = p.update(idx, Segment { start: newstart, end: cur.end, length: cur.length });
        if idx + 1 < s.len() {
            p2.update(
                idx + 1,
                Segment { start: cur.end, end: p2[idx + 1].end, length: p2[idx + 1].length },
            )
        } else {
            p2
        }
    }
}

/// One bounce: snap the last end to the target, sweep backward, ground
/// the first start at the origin, sweep forward.
pub open spec fn spec_bounce(s: Seq<Segment>, target: Vec3Fix) -> Seq<Segment> {
    let s1 = s.update(
        s.len() - 1,
        Segment { start: s.last().start, end: target, length: s.last().length },
    );
    let s2 = spec_bwd_down(s1, 0);
    let s3 = s2.update(
        0,
        Segment { start: Vec3Fix { x: 0, y: 0, z: 0 }, end: s2[0].end, length: s2[0].length },
    );
    spec_fwd_up(s3, s.len() as int)
}

/// `k` bounces.
pub open spec fn spec_bounces(s: Seq<Segment>, target: Vec3Fix, k: nat) -> Seq<Segment>
    decreases k,
{
    if k == 0 {
        s
    } else {
        spec_bounce(spec_bounces(s, target, (k - 1) as nat), target)
    }
}

impl Limb {
    pub open spec fn wf(&self) -> bool {
        segs_ok(self.segments@) && self.target.spec_in_range()
    }

    /// A limb of `n_segments` unit segments stacked along world-up.
    pub fn new(n_segments: usize, bounces: usize, target: Vec3Fix) -> (r: Limb)
        requires
            n_segments <= 2_000_000_000,
            target.spec_in_range(),
        ensures
            r.segments@ == spec_init_segments(n_segments as nat),
            r.target == target,
            r.bounces == bounces,
            r.wf(),
    {
        let mut segments: Vec<Segment> = Vec::new();
        let mut i: usize = 0;
        while i < n_segments
            invariant
                0 <= i <= n_segments,
                n_segments <= 2_000_000_000,
                segments@.len() == i,
                forall|k: int|
                    0 <= k < i ==> #[trigger] segments@[k] == spec_init_segments(
                        n_segments as nat,
                    )[k],
            decreases n_segments - i,
        {
            proof {
                assert(0 <= (i as int) * (SCALE as int) && ((i as int) + 1) * (SCALE as int)
                    <= 2_000_000_001_000_000) by (nonlinear_arith)
                    requires
                        0 <= i <= 2_000_000_000,
                        SCALE == 1_000_000i64,
                ;
            }
            let y0: i64 = (i as i64) * SCALE;
            let y1: i64 = (i as i64 + 1) * SCALE;
            segments.push(
                Segment {
                    start: Vec3Fix { x: 0, y: y0, z: 0 },
                    end: Vec3Fix { x: 0, y: y1, z: 0 },
                    length: SCALE,
                },
            );
            i = i + 1;
        }
        proof {
            assert(segments@ =~= spec_init_segments(n_segments as nat));
        }
        Limb { segments, target, bounces }
    }

    /// Run the configured number of bounces toward the target.  Fails
    /// with `EmptyLimb` exactly when at least one bounce is requested of
    /// a limb with no segments.
    #[verifier::loop_isolation(false)]
    pub fn solve(&mut self) -> (res: Result<(), SolveError>)
        requires
            old(self).wf(),
        ensures
            old(self).bounces == 0 ==> (res is Ok && *final(self) == *old(self)),
            old(self).bounces > 0 && old(self).segments@.len() == 0 ==> (res matches Result::Err(e) && e == SolveError::EmptyLimb && *final(self) == *old(self)),
            old(self).bounces > 0 && old(self).segments@.len() > 0 ==> (res is Ok && final(self).segments@ == spec_bounces(
                old(self).segments@,
                old(self).target,
                old(self).bounces as nat,
            )),
            final(self).target == old(self).target,
            final(self).bounces == old(self).bounces,
            final(self).wf(),
    {
        let len: usize = self.segments.len();
        if self.bounces == 0 {
            return Result::Ok(());
        }
        if len == 0 {
            return Result::Err(SolveError::EmptyLimb);
        }
        let mut b: usize = 0;
        while b < self.bounces
            invariant
                0 <= b <= self.bounces,
                self.segments@.len() == len,
                segs_ok(self.segments@),
                self.segments@ == spec_bounces(
                    old(self).segments@,
                    old(self).target,
                    b as nat,
                ),
                self.target == old(self).target,
                self.bounces == old(self).bounces,
            decreases self.bounces - b,
        {
            let ghost s0 = self.segments@;
            // snap the last end to the target
            let li: usize = len - 1;
            let last: Segment = self.segments[li];
            self.segments[li] = Segment { start: last.start, end: self.target, length: last.length };
            let ghost s1 = self.segments@;
            proof {
                assert forall|k: int|
                    0 <= k < self.segments@.len() implies seg_in_range(#[trigger] self.segments@[k]) by {
                    if k != li as int {
                        assert(self.segments@[k] == s0[k]);
                    }
                }
            }
            // backward sweep
            let mut i: usize = len;
            while i > 0
                invariant
                    0 <= i <= len,
                    self.segments@.len() == len,
                    segs_ok(self.segments@),
                    self.segments@ == spec_bwd_down(s1, i as int),
                    self.target == old(self).target,
                    self.bounces == old(self).bounces,
                decreases i,
            {
                i = i - 1;
                let ghost p = self.segments@;
                let cur: Segment = self.segments[i];
                let newend: Vec3Fix = if cur.end == cur.start {
                    cur.end
                } else {
                    scale_dir(unit_from(cur.end, cur.start), cur.length)
                };
                self.segments[i] = Segment { start: cur.start, end: newend, length: cur.length };
                let ghost p2 = self.segments@;
                if i + 1 < len {
                    let nxt: Segment = self.segments[i + 1];
                    self.segments[i + 1] = Segment {
                        start: nxt.start,
                        end: cur.start,
                        length: nxt.length,
                    };
                }
                proof {
                    assert(self.segments@ == spec_bwd_down(s1, i as int));
                    assert forall|k: int|
                        0 <= k < self.segments@.len() implies seg_in_range(
                        #[trigger] self.segments@[k],
                    ) by {
                        if k != i as int && k != i as int + 1 {
                            assert(self.segments@[k] == p[k]);
                        } else if k == i as int {
                            assert(self.segments@[k].start == cur.start);
                        } else {
                            assert(self.segments@[k].end == cur.start || self.segments@[k] == p2[k]);
                        }
                    }
                }
            }
            // ground the first start
            let ghost s2 = self.segments@;
            let first: Segment = self.segments[0];
            self.segments[0] = Segment {
                start: Vec3Fix { x: 0, y: 0, z: 0 },
                end: first.end,
                length: first.length,
            };
            let ghost s3 = self.segments@;
            proof {
                assert forall|k: int|
                    0 <= k < self.segments@.len() implies seg_in_range(#[trigger] self.segments@[k]) by {
                    if k != 0 {
                        assert(self.segments@[k] == s2[k]);
                    }
                }
            }
            // forward sweep
            let mut j: usize = 0;
            while j < len
                invariant
                    0 <= j <= len,
                    self.segments@.len() == len,
                    segs_ok(self.segments@),
                    self.segments@ == spec_fwd_up(s3, j as int),
                    self.target == old(self).target,
                    self.bounces == old(self).bounces,
                decreases len - j,
            {
                let ghost p = self.segments@;
                let cur: Segment = self.segments[j];
                let newstart: Vec3Fix = if cur.start == cur.end {
                    cur.start
                } else {
                    scale_dir(unit_from(cur.start, cur.end), cur.length)
                };
                self.segments[j] = Segment { start: newstart, end: cur.end, length: cur.length };
                let ghost p2 = self.segments@;
                if j + 1 < len {
                    let nxt: Segment = self.segments[j + 1];
                    self.segments[j + 1] = Segment {
                        start: cur.end,
                        end: nxt.end,
                        length: nxt.length,
                    };
                }
                j = j + 1;
                proof {
                    assert(self.segments@ == spec_fwd_up(s3, j as int));
                    assert forall|k: int|
                        0 <= k < self.segments@.len() implies seg_in_range(
                        #[trigger] self.segments@[k],
                    ) by {
                        if k != j as int - 1 && k != j as int {
                            assert(self.segments@[k] == p[k]);
                        } else if k == j as int - 1 {
                            assert(self.segments@[k].end == cur.end);
                        } else {
                            assert(self.segments@[k].start == cur.end || self.segments@[k] == p2[k]);
                        }
                    }
                }
            }
            b = b + 1;
            proof {
                assert(self.segments@ == spec_bounce(s0, old(self).target));
            }
        }
        Result::Ok(())
    }
}

/// Range constraints of a single segment.
pub open spec fn seg_in_range(s: Segment) -> bool {
    s.start.spec_in_range() && s.end.spec_in_range() && 0 <= s.length <= LEN_LIMIT
}

} // verus!
