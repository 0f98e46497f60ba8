//! Targets that agents seek, and their capture by agents.
use crate::vector::{Vec2, COORD_LIMIT, SCALE};
use core::marker::PhantomData;
use vstd::prelude::*;

verus! {

/// Marks a request for a target that agents seek.
pub struct SeekTarget;

/// Marks a request for a target that agents flee.
pub struct FleeTarget;

/// The kinds of target.
#[derive(Clone, Copy, Debug, PartialEq, Eq, Structural)]
pub enum TargetKind {
    Seek,
    Flee,
}

impl TargetKind {
    /// The radius of a target's body: ten world units for every kind.
    pub fn radius(self) -> (r: i64)
        ensures
            r == 10 * SCALE,
    {
        match self {
            TargetKind::Seek => 10 * SCALE,
            TargetKind::Flee => 10 * SCALE,
        }
    }
}

/// A target: a point agents react to, captured when an agent touches it.
#[derive(Clone, Copy, Debug, PartialEq, Eq, Structural)]
pub struct Target {
    pub pos: Vec2,
    pub kind: TargetKind,
}

/// A request to create a target of the kind `T` marks.
pub struct SpawnTarget<T> {
    pub pos: Vec2,
    pub marker: PhantomData<T>,
}

impl<T> SpawnTarget<T> {
    pub fn new(pos: Vec2) -> (r: SpawnTarget<T>)
        ensures
            r.pos == pos,
    {
        SpawnTarget { pos, marker: PhantomData }
    }
}

impl SpawnTarget<SeekTarget> {
    /// The target this request creates.
    pub fn target(&self) -> (r: Target)
        ensures
            r == (Target { pos: self.pos, kind: TargetKind::Seek }),
    {
        Target { pos: self.pos, kind: TargetKind::Seek }
    }
}

impl SpawnTarget<FleeTarget> {
    /// The target this request creates.
    pub fn target(&self) -> (r: Target)
        ensures
            r == (Target { pos: self.pos, kind: TargetKind::Flee }),
    {
        Target { pos: self.pos, kind: TargetKind::Flee }
    }
}

/// Every target lies within `COORD_LIMIT`.
pub open spec fn targets_valid(ts: Seq<Target>) -> bool {
    forall|k: int| 0 <= k < ts.len() ==> (#[trigger] ts[k]).pos.within(COORD_LIMIT as int)
}

/// The positions of the seek targets, in order.
pub open spec fn seek_positions(ts: Seq<Target>) -> Seq<Vec2>
    decreases ts.len(),
{
    if ts.len() == 0 {
        seq![]
    } else {
        let rest = seek_positions(ts.drop_last());
        if ts.last().kind == TargetKind::Seek {
            rest.push(ts.last().pos)
        } else {
            rest
        }
    }
}

/// Computes `seek_positions`.
pub fn seek_target_positions(ts: &Vec<Target>) -> (r: Vec<Vec2>)
    requires
        targets_valid(ts@),
    ensures
        r@ == seek_positions(ts@),
        forall|k: int| 0 <= k < r@.len() ==> (#[trigger] r@[k]).within(COORD_LIMIT as int),
{
    let mut r: Vec<Vec2> = Vec::new();
    let mut k: usize = 0;
    while k < ts.len()
        invariant
            0 <= k <= ts@.len(),
            targets_valid(ts@),
            r@ == seek_positions(ts@.take(k as int)),
            forall|j: int| 0 <= j < r@.len() ==> (#[trigger] r@[j]).within(COORD_LIMIT as int),
        decreases ts@.len() - k,
    {
        assert(ts@.take(k as int + 1).drop_last() =~= ts@.take(k as int));
        assert(ts@[k as int].pos.within(COORD_LIMIT as int));
        if ts[k].kind == TargetKind::Seek {
            r.push(ts[k].pos);
        }
        k += 1;
    }
    assert(ts@.take(ts@.len() as int) =~= ts@);
    r
}

/// Some entity among `ids` is one of the `n` agents.
pub open spec fn touched_by_agent(ids: Seq<usize>, n: int) -> bool {
    exists|k: int| 0 <= k < ids.len() && #[trigger] ids[k] < n
}

/// The targets that no agent touches, in order; `touching[k]` lists the
/// entities whose bodies overlap target `k`.
pub open spec fn survivors(ts: Seq<Target>, touching: Seq<Vec<usize>>, n: int) -> Seq<Target>
    decreases ts.len(),
{
    if ts.len() == 0 {
        seq![]
    } else {
        let rest = survivors(ts.drop_last(), touching, n);
        if touched_by_agent(touching[ts.len() - 1]@, n) {
            rest
        } else {
            rest.push(ts.last())
        }
    }
}

fn any_agent(ids: &Vec<usize>, n: usize) -> (r: bool)
    ensures
        r == touched_by_agent(ids@, n as int),
{
    let mut k: usize = 0;
    while k < ids.len()
        invariant
            0 <= k <= ids@.len(),
            forall|j: int| 0 <= j < k ==> #[trigger] ids@[j] >= n,
        decreases ids@.len() - k,
    {
        if ids[k] < n {
            return true;
        }
        k += 1;
    }
    false
}

/// Removes every target that an agent touches: an entity of `touching[k]`
/// below `n_boids` is an agent.
pub fn despawn_targets(targets: &mut Vec<Target>, touching: &Vec<Vec<usize>>, n_boids: usize)
    requires
        touching@.len() == old(targets)@.len(),
        targets_valid(old(targets)@),
    ensures
        final(targets)@ == survivors(old(targets)@, touching@, n_boids as int),
        targets_valid(final(targets)@),
{
    let mut kept: Vec<Target> = Vec::new();
    let mut k: usize = 0;
    while k < targets.len()
        invariant
            0 <= k <= targets@.len(),
            targets@ == old(targets)@,
            touching@.len() == targets@.len(),
            targets_valid(targets@),
            kept@ == survivors(targets@.take(k as int), touching@, n_boids as int),
            targets_valid(kept@),
        decreases targets@.len() - k,
    {
        assert(targets@.take(k as int + 1).drop_last() =~= targets@.take(k as int));
        assert(targets@[k as int].pos.within(COORD_LIMIT as int));
        if !any_agent(&touching[k], n_boids) {
            kept.push(targets[k]);
        }
        k += 1;
    }
    assert(targets@.take(targets@.len() as int) =~= targets@);
    *targets = kept;
}

} // verus!
